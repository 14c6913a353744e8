//! Mapping of per-request outcomes to HTTP responses. Terminal states: an
//! unknown slug is 404 with an empty body; a process the operating system
//! could not start is 500 with a description of the failure; a process
//! that ran and failed is 500 with its stderr as the body; a process that
//! ran cleanly is 200 with its stdout as the body, served as plain text.
//! Captured bytes are decoded as UTF-8 with invalid sequences replaced.

use vstd::prelude::*;
use vstd::string::StringExecFns;
use vstd::utf8::encode_utf8;
use vstd::utf8::valid_utf8;
use crate::exec::ExecutionResult;
use crate::exec::ExitStatus;

verus! {

/// The parts of an HTTP response the service decides: status code, an
/// optional content type, and the body text.
pub struct HttpReply {
    pub status: u16,
    pub content_type: Option<String>,
    pub body: String,
}

/// What `String::from_utf8_lossy` returns on the given bytes: a function
/// of the bytes alone.
pub uninterp spec fn utf8_lossy(bytes: Seq<u8>) -> Seq<char>;

/// Relies on `String::from_utf8_lossy`: the result depends on the bytes
/// alone, and a valid UTF-8 input decodes to exactly those bytes.
#[verifier::external_body]
fn lossy_string(bytes: &Vec<u8>) -> (r: String)
    ensures
        r@ == utf8_lossy(bytes@),
        valid_utf8(bytes@) ==> encode_utf8(r@) == bytes@,
{
    String::from_utf8_lossy(bytes.as_slice()).into_owned()
}

/// The reply for a slug no definition carries: 404 with an empty body.
pub fn not_found_reply() -> (r: HttpReply)
    ensures
        r.status == 404,
        r.content_type is None,
        r.body@ == Seq::<char>::empty(),
{
    HttpReply { status: 404, content_type: None, body: String::new() }
}

/// The reply when the operating system could not start the process: 500,
/// with a description naming the underlying error.
pub fn spawn_error_reply(os_error: &str) -> (r: HttpReply)
    ensures
        r.status == 500,
        r.content_type is None,
        r.body@ == "Failed to execute command: "@ + os_error@,
{
    let mut body = String::from_str("Failed to execute command: ");
    body.append(os_error);
    HttpReply { status: 500, content_type: None, body }
}

/// The reply for a process that ran to completion: its stdout as plain
/// text on clean exit, otherwise 500 carrying its stderr. Either stream is
/// decoded leniently; a non-zero exit is a completed execution, not a
/// spawn failure.
pub fn execution_reply(result: &ExecutionResult) -> (r: HttpReply)
    ensures
        result.succeeded() ==> {
            &&& r.status == 200
            &&& match r.content_type {
                Some(ct) => ct@ == "text/plain; charset=utf-8"@,
                None => false,
            }
            &&& r.body@ == utf8_lossy(result.stdout@)
        },
        !result.succeeded() ==> {
            &&& r.status == 500
            &&& r.content_type is None
            &&& r.body@ == utf8_lossy(result.stderr@)
        },
{
    match result.exit_status {
        ExitStatus::Success => HttpReply {
            status: 200,
            content_type: Some(String::from_str("text/plain; charset=utf-8")),
            body: lossy_string(&result.stdout),
        },
        ExitStatus::Failure(_) => HttpReply {
            status: 500,
            content_type: None,
            body: lossy_string(&result.stderr),
        },
    }
}

/// How stderr of a completed execution is reported in the operational
/// log.
pub enum StderrLogLevel {
    Informational,
    ErrorLevel,
}

/// Nothing is logged for an empty stderr; otherwise stderr is logged
/// informationally when the child exited cleanly and at error level when
/// it failed. This never shapes the HTTP response.
pub fn stderr_log_level(result: &ExecutionResult) -> (r: Option<StderrLogLevel>)
    ensures
        result.stderr@.len() == 0 ==> r is None,
        result.stderr@.len() > 0 && result.succeeded() ==> r == Some(
            StderrLogLevel::Informational,
        ),
        result.stderr@.len() > 0 && !result.succeeded() ==> r == Some(StderrLogLevel::ErrorLevel),
{
    if result.stderr.len() == 0 {
        None
    } else {
        match result.exit_status {
            ExitStatus::Success => Some(StderrLogLevel::Informational),
            ExitStatus::Failure(_) => Some(StderrLogLevel::ErrorLevel),
        }
    }
}

} // verus!
