//! Which object-store backend the configuration selects.

use vstd::prelude::*;
use vstd::string::*;
use crate::text::{concat_str, str_eq};

verus! {

/// The object-store backends the service can use.
#[derive(Debug, Clone, Copy, PartialEq, Eq, Structural)]
pub enum StoreBackend {
    /// A directory of the local file system (`object_store_path`).
    Local,
    /// An S3 bucket (bucket, region, keys, and `object_store_url` as a
    /// custom endpoint when set).
    S3,
    /// A WebDAV server at `object_store_url`.
    Webdav,
}

/// The backend named by `OBJECT_STORE_BACKEND`: none when the setting is
/// empty (the service then runs without an object store), an error naming
/// any other unknown value.
pub fn store_backend(name: &str) -> (r: Result<Option<StoreBackend>, String>)
    ensures
        name@.len() == 0 ==> r == Ok::<Option<StoreBackend>, String>(None),
        name@ == "local"@ ==> r == Ok::<Option<StoreBackend>, String>(Some(StoreBackend::Local)),
        name@ == "s3"@ ==> r == Ok::<Option<StoreBackend>, String>(Some(StoreBackend::S3)),
        name@ == "webdav"@ ==> r == Ok::<Option<StoreBackend>, String>(Some(StoreBackend::Webdav)),
        name@.len() > 0 && name@ != "local"@ && name@ != "s3"@ && name@ != "webdav"@
            ==> (r matches Err(m) && m@ == "unsupported backend: "@ + name@),
{
    proof {
        reveal_strlit("local");
        reveal_strlit("s3");
        reveal_strlit("webdav");
    }
    if name.unicode_len() == 0 {
        Ok(None)
    } else if str_eq(name, "local") {
        Ok(Some(StoreBackend::Local))
    } else if str_eq(name, "s3") {
        Ok(Some(StoreBackend::S3))
    } else if str_eq(name, "webdav") {
        Ok(Some(StoreBackend::Webdav))
    } else {
        Err(concat_str("unsupported backend: ", name))
    }
}

/// The custom S3 endpoint: the configured URL, unless it is empty.
pub fn s3_endpoint(url: &str) -> (r: Option<&str>)
    ensures
        url@.len() == 0 ==> r is None,
        url@.len() > 0 ==> r == Some(url),
{
    if url.unicode_len() == 0 { None } else { Some(url) }
}

} // verus!
