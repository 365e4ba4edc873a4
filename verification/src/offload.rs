//! The task-queue client's rules: the shapes of task requests and answers,
//! endpoint addresses under the service's base URL, which statuses end a
//! task, and how the client's errors read.

use vstd::prelude::*;
use vstd::string::*;
use std::collections::HashMap;
use crate::json::Json;
use crate::text::{concat_str, owned};

verus! {

/// A file a task fetches or produces, and how to reach it.
pub struct FileReference {
    pub path: String,
    pub git_clone: Option<String>,
    pub get: Option<String>,
    pub post: Option<String>,
    pub request: Option<String>,
    pub http_login: Option<String>,
    pub http_password: Option<String>,
    pub http_auth_header: Option<String>,
    pub custom_header: Option<HashMap<String, String>>,
    pub s3_file: Option<String>,
    pub custom_auth: Option<String>,
}

/// A task as submitted to the queue.
pub struct TaskSubmissionRequest {
    pub capability: String,
    pub urgent: bool,
    pub restartable: bool,
    pub payload: Json,
    pub fetch_files: Vec<FileReference>,
    pub artifacts: Vec<FileReference>,
    pub api_key: String,
}

/// The state of a queued task.
#[derive(Debug, Clone, PartialEq, Eq)]
pub enum TaskStatus {
    Pending,
    Queued,
    Pinned(String),
    Assigned,
    Starting,
    Running,
    Completed,
    Failed,
    Canceled,
    FailedRetryPending,
    FailedRetryDelayed,
    /// A status this client does not know.
    Unknown,
}

/// A task's identity: its capability and its id within it.
#[derive(Debug, Clone, PartialEq, Eq, Hash)]
pub struct TaskId {
    pub cap: String,
    pub id: String,
}

impl TaskId {
    /// `cap[id]`.
    pub fn to_text(&self) -> (r: String)
        ensures
            r@ == self.cap@ + "["@ + self.id@ + "]"@,
    {
        let mut s = concat_str(self.cap.as_str(), "[");
        s.append(self.id.as_str());
        s.append("]");
        s
    }
}

/// A task's status as polled.
pub struct TaskStatusResponse {
    pub id: TaskId,
    pub status: TaskStatus,
    pub stage: Option<String>,
    pub output: Option<Json>,
    pub log: Option<String>,
}

/// The queue's answer to a submission.
pub struct SubmitResponse {
    pub id: TaskId,
    pub capability: String,
    pub status: String,
    pub message: String,
}

/// Statuses after which a task never changes again.
pub open spec fn is_terminal(s: TaskStatus) -> bool {
    s is Completed || s is Failed || s is Canceled
}

/// Whether polling a task in status `s` can stop.
pub fn status_is_terminal(s: &TaskStatus) -> (r: bool)
    ensures
        r == is_terminal(*s),
{
    match s {
        TaskStatus::Completed | TaskStatus::Failed | TaskStatus::Canceled => true,
        _ => false,
    }
}

/// `s` without its trailing slashes.
pub open spec fn trim_trailing_slashes(s: Seq<char>) -> Seq<char>
    decreases s.len(),
{
    if s.len() > 0 && s.last() == '/' { trim_trailing_slashes(s.drop_last()) } else { s }
}

/// The service's base URL without trailing slashes.
pub fn normalize_base_url(base_url: &str) -> (r: String)
    ensures
        r@ == trim_trailing_slashes(base_url@),
{
    let mut b = base_url.unicode_len();
    proof { assert(base_url@.subrange(0, b as int) =~= base_url@); }
    while b > 0 && base_url.get_char(b - 1) == '/'
        invariant
            b <= base_url@.len(),
            trim_trailing_slashes(base_url@) == trim_trailing_slashes(base_url@.subrange(0, b as int)),
        decreases b,
    {
        proof {
            assert(base_url@.subrange(0, b as int).drop_last() =~= base_url@.subrange(0, b - 1));
        }
        b = b - 1;
    }
    owned(base_url.substring_char(0, b))
}

/// A submission of `capability` with `payload`: urgent tasks are never
/// restartable; file lists are empty unless given.
pub fn submission(capability: &str, payload: Json, urgent: bool, restartable: bool,
    fetch_files: Vec<FileReference>, artifacts: Vec<FileReference>, api_key: &str) -> (r: TaskSubmissionRequest)
    ensures
        r.capability@ == capability@,
        r.urgent == urgent,
        r.restartable == (restartable && !urgent),
        r.payload == payload,
        r.fetch_files@ == fetch_files@,
        r.artifacts@ == artifacts@,
        r.api_key@ == api_key@,
{
    TaskSubmissionRequest {
        capability: owned(capability),
        urgent,
        restartable: restartable && !urgent,
        payload,
        fetch_files,
        artifacts,
        api_key: owned(api_key),
    }
}

/// The endpoint `path` under the base URL.
pub fn endpoint(base_url: &str, path: &str) -> (r: String)
    ensures
        r@ == base_url@ + path@,
{
    concat_str(base_url, path)
}

/// The polling endpoint of task `id` of capability `cap`.
pub fn poll_endpoint(base_url: &str, cap: &str, id: &str) -> (r: String)
    ensures
        r@ == base_url@ + "/api/task/poll/"@ + cap@ + "/"@ + id@,
{
    let mut s = concat_str(base_url, "/api/task/poll/");
    s.append(cap);
    s.append("/");
    s.append(id);
    s
}

/// A failure of the task-queue client, by its message.
#[derive(Debug)]
pub enum ClientError {
    Network(String),
    Api(String),
    Serialization(String),
    UrlParse(String),
}

impl ClientError {
    /// The error's message.
    pub fn message(&self) -> (r: String)
        ensures
            r@ == match self {
                ClientError::Network(e) => "Network error: "@ + e@,
                ClientError::Api(e) => "API error: "@ + e@,
                ClientError::Serialization(e) => "Serialization error: "@ + e@,
                ClientError::UrlParse(e) => "URL parse error: "@ + e@,
            },
    {
        match self {
            ClientError::Network(e) => concat_str("Network error: ", e.as_str()),
            ClientError::Api(e) => concat_str("API error: ", e.as_str()),
            ClientError::Serialization(e) => concat_str("Serialization error: ", e.as_str()),
            ClientError::UrlParse(e) => concat_str("URL parse error: ", e.as_str()),
        }
    }
}

/// An unsuccessful answer to the request described by `what`
/// (e.g. `submit task`), with the answer's text.
pub fn api_failure(what: &str, body: &str) -> (r: ClientError)
    ensures
        r matches ClientError::Api(m) && m@ == "Failed to "@ + what@ + ": "@ + body@,
{
    let mut m = concat_str("Failed to ", what);
    m.append(": ");
    m.append(body);
    ClientError::Api(m)
}

} // verus!
