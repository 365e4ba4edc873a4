//! The repository check of a project and the public static files: who may
//! run a probe against a repository (and with which credential), and which
//! stored files are served without authentication.

use vstd::prelude::*;
use vstd::string::*;
use crate::config::{str_contains, seq_contains};
use crate::error::AppError;
use crate::json::Json;
use crate::kinds::Kind;
use crate::policy::{Caller, ADM_GODMODE, adm_godmode, read_allowed, write_allowed};
use crate::text::{concat_str, starts_with, seq_starts_with, str_eq};

verus! {

/// Only projects have repositories to check.
pub fn repo_check_supported(kind: &str) -> (r: Result<(), AppError>)
    ensures
        r is Ok <==> kind@ == "projects"@,
        r matches Err(e) ==> e matches AppError::NotFound(m)
            && m@ == "repository check not supported for this resource kind"@,
{
    if str_eq(kind, "projects") {
        Ok(())
    } else {
        Err(AppError::not_found("repository check not supported for this resource kind"))
    }
}

/// Whether the caller may run a repository check on the project: god mode,
/// or the right to update the project (`project` is its document, `None`
/// when it does not exist). A refusal reads as if the project did not exist.
pub fn project_write_access(project_id: &str, caller: &Caller, project: Option<&Json>) -> (r: Result<(), AppError>)
    ensures
        r is Ok <==> caller.holds(adm_godmode())
            || (project matches Some(d) && write_allowed(Kind::Projects, *caller, Some(*d))),
        r matches Err(e) ==> e matches AppError::NotFound(m) && m@ == "projects/"@ + project_id@,
{
    if caller.has(ADM_GODMODE) {
        return Ok(());
    }
    match project {
        Some(d) => if Kind::Projects.can_write(caller, Some(d)) {
            Ok(())
        } else {
            Err(AppError::NotFound(concat_str("projects/", project_id)))
        },
        None => Err(AppError::NotFound(concat_str("projects/", project_id))),
    }
}

/// Whether the caller may have the server use the credential
/// `credential_id` (`credential` is its document, `None` when it does not
/// exist): it must exist, and the caller must be in god mode or able to read
/// it. Without this, anyone able to edit a project could point a stranger's
/// secret at a URL of their choosing. A refusal reads as absence.
pub fn credential_read_access(credential_id: &str, caller: &Caller, credential: Option<&Json>)
    -> (r: Result<(), AppError>)
    ensures
        r is Ok <==> (credential matches Some(d)
            && (caller.holds(adm_godmode()) || read_allowed(Kind::RepoCredentials, *caller, Some(*d)))),
        r matches Err(e) ==> e matches AppError::NotFound(m) && m@ == "repo_credentials/"@ + credential_id@,
{
    match credential {
        None => Err(AppError::NotFound(concat_str("repo_credentials/", credential_id))),
        Some(d) => if caller.has(ADM_GODMODE) || Kind::RepoCredentials.can_read(caller, Some(d)) {
            Ok(())
        } else {
            Err(AppError::NotFound(concat_str("repo_credentials/", credential_id)))
        },
    }
}

/// A path served without authentication: under `user_avatars/` or
/// `user_wallpapers/`, with no `..` anywhere in it.
pub open spec fn public_path(path: Seq<char>) -> bool {
    (seq_starts_with(path, "user_avatars/"@) || seq_starts_with(path, "user_wallpapers/"@))
        && !seq_contains(path, ".."@)
}

/// Whether a static file request may be served; anything else is a 404
/// `not found`.
pub fn static_path_allowed(path: &str) -> (r: Result<(), AppError>)
    ensures
        r is Ok <==> public_path(path@),
        r matches Err(e) ==> e matches AppError::NotFound(m) && m@ == "not found"@,
{
    if !starts_with(path, "user_avatars/") && !starts_with(path, "user_wallpapers/") {
        return Err(AppError::not_found("not found"));
    }
    if str_contains(path, "..") {
        return Err(AppError::not_found("not found"));
    }
    Ok(())
}

} // verus!
