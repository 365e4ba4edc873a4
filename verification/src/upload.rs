//! Media uploads: who may upload for whom, the checks on a request, the
//! names under which files are stored, and the background conversion as a
//! sequence of steps whose failure leaves nothing behind.

use vstd::prelude::*;
use vstd::string::*;
use crate::config::{parse_unsigned_decimal, parse_unsigned};
use crate::error::AppError;
use crate::imaging::{ImageInputFormat, UploadType, MAX_UPLOAD_BYTES, detect_format, detected_format};
use crate::json::{Json, JsonNumber, JsonObject};
use crate::naming::{force_lowercase, lower};
use crate::policy::{Caller, ADM_GODMODE, ADM_USER_MANAGER, adm_godmode, adm_user_manager};
use crate::text::{concat_str, owned, str_eq};

verus! {

/// Which upload a request asks for: only users take uploads, of type
/// `avatar` or `wallpaper`.
pub fn upload_target(kind: &str, upload_type: &str) -> (r: Result<UploadType, AppError>)
    ensures
        kind@ != "users"@ ==> (r matches Err(AppError::NotFound(m)) && m@ == "upload not supported for this resource kind"@),
        kind@ == "users"@ ==> if upload_type@ == "avatar"@ {
            r == Ok::<UploadType, AppError>(UploadType::Avatar)
        } else if upload_type@ == "wallpaper"@ {
            r == Ok::<UploadType, AppError>(UploadType::Wallpaper)
        } else {
            r matches Err(AppError::BadRequest(m)) && m@ == "upload_type must be 'avatar' or 'wallpaper'"@
        },
{
    if !str_eq(kind, "users") {
        return Err(AppError::not_found("upload not supported for this resource kind"));
    }
    if str_eq(upload_type, "avatar") {
        Ok(UploadType::Avatar)
    } else if str_eq(upload_type, "wallpaper") {
        Ok(UploadType::Wallpaper)
    } else {
        Err(AppError::bad_request("upload_type must be 'avatar' or 'wallpaper'"))
    }
}

/// An object store must be configured to take uploads.
pub fn require_object_store(configured: bool) -> (r: Result<(), AppError>)
    ensures
        r is Ok <==> configured,
        r matches Err(e) ==> e matches AppError::BadRequest(m) && m@ == "object store not configured on this server"@,
{
    if configured { Ok(()) } else { Err(AppError::bad_request("object store not configured on this server")) }
}

/// The early refusal of a request whose declared length exceeds the limit
/// plus 4 KiB of multipart overhead; an unreadable length is ignored.
pub fn content_length_check(content_length: Option<&str>) -> (r: Result<(), AppError>)
    ensures
        match content_length {
            Some(t) => match parse_unsigned(t@, u64::MAX as int) {
                Ok(size) => if size > MAX_UPLOAD_BYTES + 4096 {
                    r matches Err(AppError::BadRequest(m)) && m@ == "request body too large (max 5 MB)"@
                } else {
                    r is Ok
                },
                Err(_) => r is Ok,
            },
            None => r is Ok,
        },
{
    match content_length {
        Some(t) => match parse_unsigned_decimal(t, u64::MAX) {
            Ok(size) => {
                if size > (MAX_UPLOAD_BYTES as u64) + 4096 {
                    Err(AppError::bad_request("request body too large (max 5 MB)"))
                } else {
                    Ok(())
                }
            },
            Err(_) => Ok(()),
        },
        None => Ok(()),
    }
}

/// Users may upload their own media; god mode and user managers anyone's.
/// A refusal reads as if the user did not exist.
pub fn check_upload_access(caller_id: &str, target_id: &str, caller: &Caller) -> (r: Result<(), AppError>)
    ensures
        r is Ok <==> caller_id@ == target_id@ || caller.holds(adm_godmode()) || caller.holds(adm_user_manager()),
        r matches Err(e) ==> e matches AppError::NotFound(m) && m@ == "user not found"@,
{
    if str_eq(caller_id, target_id) || caller.has(ADM_GODMODE) || caller.has(ADM_USER_MANAGER) {
        Ok(())
    } else {
        Err(AppError::not_found("user not found"))
    }
}

/// The refusal of an upload for a user that does not exist.
pub fn target_user_missing() -> (r: AppError)
    ensures
        r matches AppError::NotFound(m) && m@ == "user not found"@,
{
    AppError::not_found("user not found")
}

/// The checks on the uploaded file: its size, and that it is JPEG, PNG or WebP.
pub fn check_file(bytes: &[u8]) -> (r: Result<ImageInputFormat, AppError>)
    ensures
        bytes@.len() > MAX_UPLOAD_BYTES ==> (r matches Err(AppError::BadRequest(m)) && m@ == "file too large (max 5 MB)"@),
        bytes@.len() <= MAX_UPLOAD_BYTES ==> match detected_format(bytes@) {
            Some(f) => r == Ok::<ImageInputFormat, AppError>(f),
            None => r matches Err(AppError::BadRequest(m)) && m@ == "unsupported image format (accepted: jpeg, png, webp)"@,
        },
{
    if bytes.len() > MAX_UPLOAD_BYTES {
        return Err(AppError::bad_request("file too large (max 5 MB)"));
    }
    match detect_format(bytes) {
        Some(f) => Ok(f),
        None => Err(AppError::bad_request("unsupported image format (accepted: jpeg, png, webp)")),
    }
}

/// A multipart body without a `file` field.
pub fn missing_file_field() -> (r: AppError)
    ensures
        r matches AppError::BadRequest(m) && m@ == "missing 'file' field in multipart body"@,
{
    AppError::bad_request("missing 'file' field in multipart body")
}

/// A multipart body that could not be parsed, with the parser's message.
pub fn multipart_error(detail: &str) -> (r: AppError)
    ensures
        r matches AppError::BadRequest(m) && m@ == "multipart parse error: "@ + detail@,
{
    AppError::BadRequest(concat_str("multipart parse error: ", detail))
}

/// A `file` field that could not be read, with the reader's message.
pub fn file_field_error(detail: &str) -> (r: AppError)
    ensures
        r matches AppError::BadRequest(m) && m@ == "failed to read file field: "@ + detail@,
{
    AppError::BadRequest(concat_str("failed to read file field: ", detail))
}

/// The user field that records the latest upload of each type.
pub fn ulid_field(upload_type: UploadType) -> (r: &'static str)
    ensures
        r@ == match upload_type {
            UploadType::Avatar => "avatar_ulid"@,
            UploadType::Wallpaper => "wallpaper_ulid"@,
        },
{
    match upload_type {
        UploadType::Avatar => "avatar_ulid",
        UploadType::Wallpaper => "wallpaper_ulid",
    }
}

/// What to do after an upload step: delete a stored object, or the pending
/// upload's record.
pub enum Cleanup {
    DeleteObject(String),
    DeleteUnprocessed(String),
}

/// The steps of converting an upload, in order.
#[derive(Debug, Clone, Copy, PartialEq, Eq, Structural)]
pub enum UploadPhase {
    AwaitPermit,
    FetchRaw,
    Process,
    StoreHd,
    StoreThumb,
    RecordFile,
    Finished,
    Failed,
}

/// An accepted upload: its id, files and owner.
pub struct UploadJob {
    pub ulid: String,
    pub filename: String,
    pub upload_type: UploadType,
    pub owner_id: String,
    pub raw_path: String,
    pub hd_path: String,
    pub thumb_path: String,
}

impl UploadJob {
    /// The job for an upload given the generated ULID (lower-cased here) and
    /// the detected format: the raw file goes to `raw_uploads/{ulid}.{ext}`,
    /// the outputs to `{dir}/{ulid}_hd.webp` and `{dir}/{ulid}_thumb.webp`.
    pub fn new(ulid: &str, format: ImageInputFormat, upload_type: UploadType, owner_id: &str) -> (r: UploadJob)
        ensures
            r.ulid@ == lower(ulid@),
            r.filename@ == lower(ulid@) + "."@ + match format {
                ImageInputFormat::Jpeg => "jpg"@,
                ImageInputFormat::Png => "png"@,
                ImageInputFormat::Webp => "webp"@,
            },
            r.raw_path@ == "raw_uploads/"@ + r.filename@,
            r.hd_path@ == match upload_type {
                UploadType::Avatar => "user_avatars"@,
                UploadType::Wallpaper => "user_wallpapers"@,
            } + "/"@ + r.ulid@ + "_hd.webp"@,
            r.thumb_path@ == match upload_type {
                UploadType::Avatar => "user_avatars"@,
                UploadType::Wallpaper => "user_wallpapers"@,
            } + "/"@ + r.ulid@ + "_thumb.webp"@,
            r.upload_type == upload_type,
            r.owner_id@ == owner_id@,
    {
        let id = force_lowercase(ulid);
        let mut filename = concat_str(id.as_str(), ".");
        filename.append(format.extension());
        let raw_path = concat_str("raw_uploads/", filename.as_str());
        let dir = upload_type.storage_dir();
        let mut hd_path = concat_str(dir, "/");
        hd_path.append(id.as_str());
        hd_path.append("_hd.webp");
        let mut thumb_path = concat_str(dir, "/");
        thumb_path.append(id.as_str());
        thumb_path.append("_thumb.webp");
        UploadJob {
            ulid: id,
            filename,
            upload_type,
            owner_id: owned(owner_id),
            raw_path,
            hd_path,
            thumb_path,
        }
    }
}

/// The outputs already stored when a step is reached.
pub open spec fn stored_outputs(job: UploadJob, phase: UploadPhase) -> Seq<Seq<char>> {
    match phase {
        UploadPhase::StoreThumb => seq![job.hd_path@],
        UploadPhase::RecordFile => seq![job.hd_path@, job.thumb_path@],
        _ => Seq::empty(),
    }
}

/// The view of a cleanup.
pub open spec fn cleanup_view(c: Cleanup) -> (bool, Seq<char>) {
    match c {
        Cleanup::DeleteObject(p) => (true, p@),
        Cleanup::DeleteUnprocessed(u) => (false, u@),
    }
}

/// The cleanups after `phase` ended (`ok` tells whether it succeeded):
/// a failure deletes the outputs stored so far, the raw upload and the
/// pending record; the last step's success deletes the raw upload and the
/// pending record only.
pub open spec fn cleanups_for(job: UploadJob, phase: UploadPhase, ok: bool) -> Seq<(bool, Seq<char>)> {
    if phase == UploadPhase::Finished || phase == UploadPhase::Failed {
        Seq::empty()
    } else if !ok {
        stored_outputs(job, phase).map_values(|p: Seq<char>| (true, p)) + seq![(true, job.raw_path@), (false, job.ulid@)]
    } else if phase == UploadPhase::RecordFile {
        seq![(true, job.raw_path@), (false, job.ulid@)]
    } else {
        Seq::empty()
    }
}

/// The step after `phase`.
pub open spec fn next_phase(phase: UploadPhase, ok: bool) -> UploadPhase {
    if phase == UploadPhase::Finished || phase == UploadPhase::Failed {
        phase
    } else if !ok {
        UploadPhase::Failed
    } else {
        match phase {
            UploadPhase::AwaitPermit => UploadPhase::FetchRaw,
            UploadPhase::FetchRaw => UploadPhase::Process,
            UploadPhase::Process => UploadPhase::StoreHd,
            UploadPhase::StoreHd => UploadPhase::StoreThumb,
            UploadPhase::StoreThumb => UploadPhase::RecordFile,
            _ => UploadPhase::Finished,
        }
    }
}

impl UploadJob {
    /// Advances the conversion after `phase` ended (`ok`: it succeeded),
    /// with the cleanups to perform before the next step.
    pub fn step(&self, phase: UploadPhase, ok: bool) -> (r: (UploadPhase, Vec<Cleanup>))
        ensures
            r.0 == next_phase(phase, ok),
            r.1@.map_values(|c: Cleanup| cleanup_view(c)) == cleanups_for(*self, phase, ok),
    {
        let mut out: Vec<Cleanup> = Vec::new();
        if phase == UploadPhase::Finished || phase == UploadPhase::Failed {
            assert(out@.map_values(|c: Cleanup| cleanup_view(c)) =~= cleanups_for(*self, phase, ok));
            return (phase, out);
        }
        if !ok {
            if phase == UploadPhase::StoreThumb || phase == UploadPhase::RecordFile {
                out.push(Cleanup::DeleteObject(self.hd_path.clone()));
            }
            if phase == UploadPhase::RecordFile {
                out.push(Cleanup::DeleteObject(self.thumb_path.clone()));
            }
            out.push(Cleanup::DeleteObject(self.raw_path.clone()));
            out.push(Cleanup::DeleteUnprocessed(self.ulid.clone()));
            assert(out@.map_values(|c: Cleanup| cleanup_view(c)) =~= cleanups_for(*self, phase, ok));
            return (UploadPhase::Failed, out);
        }
        let next = match phase {
            UploadPhase::AwaitPermit => UploadPhase::FetchRaw,
            UploadPhase::FetchRaw => UploadPhase::Process,
            UploadPhase::Process => UploadPhase::StoreHd,
            UploadPhase::StoreHd => UploadPhase::StoreThumb,
            UploadPhase::StoreThumb => UploadPhase::RecordFile,
            _ => UploadPhase::Finished,
        };
        if phase == UploadPhase::RecordFile {
            out.push(Cleanup::DeleteObject(self.raw_path.clone()));
            out.push(Cleanup::DeleteUnprocessed(self.ulid.clone()));
        }
        assert(out@.map_values(|c: Cleanup| cleanup_view(c)) =~= cleanups_for(*self, phase, ok));
        (next, out)
    }
}

/// Whichever way a conversion ends, the raw upload and its pending record
/// are deleted, and a failure also deletes every output stored before it.
pub proof fn law_conversion_leaves_no_orphans(job: UploadJob, phase: UploadPhase, ok: bool)
    requires
        phase != UploadPhase::Finished,
        phase != UploadPhase::Failed,
        next_phase(phase, ok) == UploadPhase::Finished || next_phase(phase, ok) == UploadPhase::Failed,
    ensures
        cleanups_for(job, phase, ok).contains((true, job.raw_path@)),
        cleanups_for(job, phase, ok).contains((false, job.ulid@)),
        !ok ==> forall|i: int| 0 <= i < stored_outputs(job, phase).len()
            ==> cleanups_for(job, phase, ok).contains((true, #[trigger] stored_outputs(job, phase)[i])),
{
    let c = cleanups_for(job, phase, ok);
    let outs = stored_outputs(job, phase).map_values(|p: Seq<char>| (true, p));
    if !ok {
        assert(c[outs.len() as int] == (true, job.raw_path@));
        assert(c[outs.len() as int + 1] == (false, job.ulid@));
        assert forall|i: int| 0 <= i < stored_outputs(job, phase).len()
            implies c.contains((true, #[trigger] stored_outputs(job, phase)[i])) by {
            assert(c[i] == outs[i]);
        }
    } else {
        assert(c[0] == (true, job.raw_path@));
        assert(c[1] == (false, job.ulid@));
    }
}

/// The record of a processed upload: an owner's two WebP files.
pub fn persistent_file_record(job: &UploadJob, hd_size_bytes: u64, thumb_size_bytes: u64, created_at: &str)
    -> (r: Json)
    requires
        hd_size_bytes + thumb_size_bytes <= u64::MAX,
    ensures
        r matches Json::Object(o) && {
            let m = o.view();
            &&& m.dom() == set!["id"@, "category"@, "relation_type"@, "owner"@, "format"@, "sizes"@,
                "total_size_bytes"@, "filenames"@, "uri"@, "created_at"@]
            &&& m["id"@].str_view() == Some(job.ulid@)
            &&& m["owner"@].str_view() == Some(job.owner_id@)
            &&& m["relation_type"@].str_view() == Some("principal"@)
            &&& m["format"@].str_view() == Some("webp"@)
            &&& m["total_size_bytes"@] == Json::Number(JsonNumber::PosInt((hd_size_bytes + thumb_size_bytes) as u64))
            &&& m["created_at"@].str_view() == Some(created_at@)
        },
{
    proof {
        reveal_strlit("id");
        reveal_strlit("category");
        reveal_strlit("relation_type");
        reveal_strlit("owner");
        reveal_strlit("format");
        reveal_strlit("sizes");
        reveal_strlit("total_size_bytes");
        reveal_strlit("filenames");
        reveal_strlit("uri");
        reveal_strlit("created_at");
        reveal_strlit("hd");
        reveal_strlit("thumb");
    }
    let mut sizes: Vec<String> = Vec::new();
    sizes.push(String::from_str("hd"));
    sizes.push(String::from_str("thumb"));
    let mut files: Vec<String> = Vec::new();
    files.push(job.hd_path.clone());
    files.push(job.thumb_path.clone());
    let mut uri = JsonObject::new();
    let mut hd_name = job.ulid.clone();
    hd_name.append("_hd.webp");
    let mut thumb_name = job.ulid.clone();
    thumb_name.append("_thumb.webp");
    uri.insert(String::from_str("hd"), Json::String(hd_name));
    uri.insert(String::from_str("thumb"), Json::String(thumb_name));
    let mut o = JsonObject::new();
    o.insert(String::from_str("id"), Json::String(job.ulid.clone()));
    o.insert(String::from_str("category"), Json::from_str(job.upload_type.storage_dir()));
    o.insert(String::from_str("relation_type"), Json::from_str("principal"));
    o.insert(String::from_str("owner"), Json::String(job.owner_id.clone()));
    o.insert(String::from_str("format"), Json::from_str("webp"));
    o.insert(String::from_str("sizes"), crate::principals::string_array(&sizes));
    o.insert(String::from_str("total_size_bytes"), Json::Number(JsonNumber::PosInt(hd_size_bytes + thumb_size_bytes)));
    o.insert(String::from_str("filenames"), crate::principals::string_array(&files));
    o.insert(String::from_str("uri"), Json::Object(uri));
    o.insert(String::from_str("created_at"), Json::from_str(created_at));
    proof {
        let m = o.view();
        assert(m.dom() =~= set!["id"@, "category"@, "relation_type"@, "owner"@, "format"@, "sizes"@,
            "total_size_bytes"@, "filenames"@, "uri"@, "created_at"@]);
        assert("id"@[0] != "owner"@[0] && "id"@[0] != "relation_type"@[0] && "id"@[0] != "format"@[0]);
        assert("id"@.len() != "category"@.len() && "id"@[0] != "sizes"@[0] && "id"@[0] != "total_size_bytes"@[0]);
        assert("id"@[0] != "filenames"@[0] && "id"@[0] != "uri"@[0] && "id"@[0] != "created_at"@[0]);
        assert("owner"@[0] != "relation_type"@[0] && "owner"@[0] != "format"@[0] && "owner"@[0] != "sizes"@[0]);
        assert("owner"@[0] != "total_size_bytes"@[0] && "owner"@[0] != "filenames"@[0] && "owner"@[0] != "uri"@[0]);
        assert("owner"@[0] != "created_at"@[0] && "owner"@[0] != "category"@[0]);
        assert("relation_type"@[0] != "format"@[0] && "relation_type"@[0] != "sizes"@[0]);
        assert("relation_type"@[0] != "total_size_bytes"@[0] && "relation_type"@[0] != "filenames"@[0]);
        assert("relation_type"@[0] != "uri"@[0] && "relation_type"@[0] != "created_at"@[0] && "relation_type"@[0] != "category"@[0]);
        assert("format"@[1] != "filenames"@[1] && "format"@[0] != "sizes"@[0] && "format"@[0] != "total_size_bytes"@[0]);
        assert("format"@[0] != "uri"@[0] && "format"@[0] != "created_at"@[0] && "format"@[0] != "category"@[0]);
        assert("total_size_bytes"@[0] != "sizes"@[0] && "total_size_bytes"@[0] != "filenames"@[0]);
        assert("total_size_bytes"@[0] != "uri"@[0] && "total_size_bytes"@[0] != "created_at"@[0]);
        assert("total_size_bytes"@[0] != "category"@[0]);
        assert("created_at"@[1] != "category"@[1]);
    }
    Json::Object(o)
}

/// The pending-upload record written before conversion.
pub fn unprocessed_record(job: &UploadJob, upload_type_name: &str, created_at: &str) -> (r: Json)
    ensures
        r matches Json::Object(o) && {
            let m = o.view();
            &&& m.dom() == set!["id"@, "filename"@, "owner_id"@, "upload_type"@, "created_at"@]
            &&& m["id"@].str_view() == Some(job.ulid@)
            &&& m["filename"@].str_view() == Some(job.filename@)
            &&& m["owner_id"@].str_view() == Some(job.owner_id@)
            &&& m["upload_type"@].str_view() == Some(upload_type_name@)
            &&& m["created_at"@].str_view() == Some(created_at@)
        },
{
    proof {
        reveal_strlit("id");
        reveal_strlit("filename");
        reveal_strlit("owner_id");
        reveal_strlit("upload_type");
        reveal_strlit("created_at");
        assert("id"@[0] != "filename"@[0] && "id"@[0] != "owner_id"@[0] && "id"@[0] != "upload_type"@[0]);
        assert("id"@[0] != "created_at"@[0] && "filename"@[0] != "owner_id"@[0] && "filename"@[0] != "upload_type"@[0]);
        assert("filename"@[0] != "created_at"@[0] && "owner_id"@[0] != "upload_type"@[0]);
        assert("owner_id"@[0] != "created_at"@[0] && "upload_type"@[0] != "created_at"@[0]);
    }
    let mut o = JsonObject::new();
    o.insert(String::from_str("id"), Json::String(job.ulid.clone()));
    o.insert(String::from_str("filename"), Json::String(job.filename.clone()));
    o.insert(String::from_str("owner_id"), Json::String(job.owner_id.clone()));
    o.insert(String::from_str("upload_type"), Json::from_str(upload_type_name));
    o.insert(String::from_str("created_at"), Json::from_str(created_at));
    assert(o.view().dom() =~= set!["id"@, "filename"@, "owner_id"@, "upload_type"@, "created_at"@]);
    Json::Object(o)
}

/// The reply to an accepted upload: `{"ulid": ...}`.
pub fn upload_response(job: &UploadJob) -> (r: Json)
    ensures
        r matches Json::Object(o) && o.view().dom() == set!["ulid"@] && o.view()["ulid"@].str_view() == Some(job.ulid@),
{
    proof { reveal_strlit("ulid"); }
    let mut o = JsonObject::new();
    o.insert(String::from_str("ulid"), Json::String(job.ulid.clone()));
    assert(o.view().dom() =~= set!["ulid"@]);
    Json::Object(o)
}

} // verus!
