use crate::fetch::{
    FetchError, Transfer, TransferView, fetch_request, fetch_result, fetched, requested, url_parses,
};
use crate::metadata::{Metadata, extract, extracted};
use crate::session::{ExecSession, SessionError, result_prefix};
use crate::store::{NameError, StorageRoot, joined_path, name_error};
use crate::text::{decimal, push_decimal};
use vstd::prelude::*;
use vstd::utf8::{decode_utf8, valid_utf8};

verus! {

/// Why a request could not be served.
#[derive(Clone, Copy, Debug, PartialEq, Eq, Structural)]
pub enum GatewayError {
    /// No file is stored under the name.
    NotFound,
    /// The name may not name a stored file.
    InvalidName(NameError),
    /// The fetch of a URL failed.
    Fetch(FetchError),
    /// The remote execution failed at the step that the error names.
    Exec(SessionError),
}

/// What an upload is answered with: the number of bytes written and the
/// metadata found in them.
#[derive(Debug)]
pub struct UploadReply {
    pub bytes: u64,
    pub meta: Metadata,
}

/// The path of the file called `name`, or the refusal of the name.
pub open spec fn located(root: Seq<char>, name: Seq<char>) -> Result<Seq<char>, GatewayError> {
    match name_error(name) {
        Some(e) => Err(GatewayError::InvalidName(e)),
        None => Ok(joined_path(root, name)),
    }
}

/// What reading a file gave, as plain values.
pub open spec fn read_view(found: Option<Vec<u8>>) -> Option<Seq<u8>> {
    match found {
        Some(content) => Some(content@),
        None => None,
    }
}

/// What a download is answered with when reading the file gave `found`.
pub open spec fn served(found: Option<Seq<u8>>) -> Result<Seq<u8>, GatewayError> {
    match found {
        Some(content) => Ok(content),
        None => Err(GatewayError::NotFound),
    }
}

/// The URL that a fetch of `url` sends its GET to, or the error with which it
/// fails before anything is sent.
pub open spec fn fetch_target(url: Seq<char>) -> Result<Seq<char>, GatewayError> {
    match requested(url, url_parses(url)) {
        Ok(u) => Ok(u),
        Err(e) => Err(GatewayError::Fetch(e)),
    }
}

/// What a fetch is answered with when the transport reported `transfer`.
pub open spec fn fetch_answer(transfer: TransferView) -> Result<Seq<char>, GatewayError> {
    match fetched(transfer) {
        Ok(text) => Ok(text),
        Err(e) => Err(GatewayError::Fetch(e)),
    }
}

/// What a remote execution is answered with when its session came to
/// `outcome`.
pub open spec fn exec_answer(outcome: Option<Result<Seq<char>, SessionError>>) -> Option<
    Result<Seq<char>, GatewayError>,
> {
    match outcome {
        Some(Ok(line)) => Some(Ok(line)),
        Some(Err(e)) => Some(Err(GatewayError::Exec(e))),
        None => None,
    }
}

/// The HTTP status that reports `error`: 404 for a file that is not there,
/// the general server error for everything else.
pub open spec fn status_of(error: GatewayError) -> u16 {
    if error is NotFound {
        404
    } else {
        500
    }
}

/// The name by which `error` is reported.
pub open spec fn error_text(error: GatewayError) -> Seq<char> {
    match error {
        GatewayError::NotFound => "NotFound"@,
        GatewayError::InvalidName(_) => "InvalidName"@,
        GatewayError::Fetch(_) => "FetchError"@,
        GatewayError::Exec(SessionError::ConnectError) => "ConnectError"@,
        GatewayError::Exec(SessionError::HandshakeError) => "HandshakeError"@,
        GatewayError::Exec(SessionError::AuthError) => "AuthError"@,
        GatewayError::Exec(SessionError::ChannelError) => "ChannelError"@,
        GatewayError::Exec(SessionError::ExecError) => "ExecError"@,
        GatewayError::Exec(SessionError::TimeoutError) => "TimeoutError"@,
    }
}

/// The words that confirm an order of shoes for `name`, who walks on `legs`
/// legs.
pub open spec fn order_text(name: Seq<char>, legs: u16) -> Seq<char> {
    "Hello, "@ + name + "! I've put in an order for "@ + decimal(legs as nat) + " shoes"@
}

/// Where the file called `name` is written to and read from.
pub fn locate(root: &StorageRoot, name: &str) -> (path: Result<String, GatewayError>)
    ensures
        match path {
            Ok(p) => located(root@, name@) == Ok::<Seq<char>, GatewayError>(p@),
            Err(e) => located(root@, name@) == Err::<Seq<char>, GatewayError>(e),
        },
{
    match root.resolve(name) {
        Ok(p) => Ok(p),
        Err(e) => Err(GatewayError::InvalidName(e)),
    }
}

/// The answer to an upload of `content`, once all of it is written.
pub fn upload_reply(content: &[u8]) -> (reply: UploadReply)
    ensures
        reply.bytes == content@.len(),
        reply.meta@ == extracted(content@),
{
    UploadReply { bytes: content.len() as u64, meta: extract(content) }
}

/// The answer to a download: the file's bytes as they were read, or
/// `NotFound` where there was no file to read.
pub fn download_reply(found: Option<Vec<u8>>) -> (reply: Result<Vec<u8>, GatewayError>)
    ensures
        match reply {
            Ok(content) => served(read_view(found)) == Ok::<Seq<u8>, GatewayError>(content@),
            Err(e) => served(read_view(found)) == Err::<Seq<u8>, GatewayError>(e),
        },
{
    match found {
        Some(content) => Ok(content),
        None => Err(GatewayError::NotFound),
    }
}

/// Where a fetch of `url` sends its GET to.
pub fn fetch_plan(url: &str) -> (plan: Result<String, GatewayError>)
    ensures
        match plan {
            Ok(u) => fetch_target(url@) == Ok::<Seq<char>, GatewayError>(u@),
            Err(e) => fetch_target(url@) == Err::<Seq<char>, GatewayError>(e),
        },
{
    match fetch_request(url) {
        Ok(u) => Ok(u),
        Err(e) => Err(GatewayError::Fetch(e)),
    }
}

/// The answer to a fetch: the body as text, or the fetch error.
pub fn fetch_reply(transfer: Transfer) -> (reply: Result<String, GatewayError>)
    ensures
        match reply {
            Ok(text) => fetch_answer(transfer@) == Ok::<Seq<char>, GatewayError>(text@),
            Err(e) => fetch_answer(transfer@) == Err::<Seq<char>, GatewayError>(e),
        },
{
    match fetch_result(transfer) {
        Ok(text) => Ok(text),
        Err(e) => Err(GatewayError::Fetch(e)),
    }
}

/// The answer to a remote execution: nothing while the session runs, then
/// its result line or the error of the step that failed.
pub fn exec_reply(session: &ExecSession) -> (reply: Option<Result<String, GatewayError>>)
    ensures
        match reply {
            Some(Ok(line)) => exec_answer(session@.outcome()) == Some(
                Ok::<Seq<char>, GatewayError>(line@),
            ),
            Some(Err(e)) => exec_answer(session@.outcome()) == Some(
                Err::<Seq<char>, GatewayError>(e),
            ),
            None => exec_answer(session@.outcome()) is None,
        },
        session@.phase is Completed && valid_utf8(session@.output) ==> (reply matches Some(
            Ok(line),
        ) && line@ == result_prefix() + decode_utf8(session@.output)),
{
    match session.outcome() {
        Some(Ok(line)) => Some(Ok(line)),
        Some(Err(e)) => Some(Err(GatewayError::Exec(e))),
        None => None,
    }
}

/// The HTTP status that reports `error`.
pub fn status_code(error: &GatewayError) -> (status: u16)
    ensures
        status == status_of(*error),
{
    match error {
        GatewayError::NotFound => 404,
        _ => 500,
    }
}

/// The name by which `error` is reported.
pub fn error_name(error: &GatewayError) -> (name: &'static str)
    ensures
        name@ == error_text(*error),
{
    match error {
        GatewayError::NotFound => "NotFound",
        GatewayError::InvalidName(_) => "InvalidName",
        GatewayError::Fetch(_) => "FetchError",
        GatewayError::Exec(SessionError::ConnectError) => "ConnectError",
        GatewayError::Exec(SessionError::HandshakeError) => "HandshakeError",
        GatewayError::Exec(SessionError::AuthError) => "AuthError",
        GatewayError::Exec(SessionError::ChannelError) => "ChannelError",
        GatewayError::Exec(SessionError::ExecError) => "ExecError",
        GatewayError::Exec(SessionError::TimeoutError) => "TimeoutError",
    }
}

/// The words that confirm an order of shoes.
pub fn order_reply(name: &str, legs: u16) -> (reply: String)
    ensures
        reply@ == order_text(name@, legs),
{
    let mut reply = String::from_str("Hello, ");
    reply.append(name);
    reply.append("! I've put in an order for ");
    push_decimal(&mut reply, legs as u64);
    reply.append(" shoes");
    reply
}

} // verus!
