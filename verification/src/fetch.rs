use vstd::prelude::*;
use vstd::utf8::{decode_utf8, valid_utf8};

verus! {

/// What went wrong with a fetch.
#[derive(Clone, Copy, Debug, PartialEq, Eq, Structural)]
pub enum FetchCause {
    /// The URL could not be read as one.
    MalformedUrl,
    /// No response came: the host could not be reached, or the connection
    /// broke.
    ConnectionFailed,
    /// A response came, and its body is no text.
    UndecodableBody,
}

/// The one error of a fetch, whatever its cause.
#[derive(Clone, Copy, Debug, PartialEq, Eq, Structural)]
pub struct FetchError {
    pub cause: FetchCause,
}

/// What the transport reports of one GET.
#[derive(Clone, Debug, PartialEq, Eq)]
pub enum Transfer {
    /// No response came.
    Failed,
    /// A response came, with this body.
    Body(Vec<u8>),
}

/// A [`Transfer`] as plain values.
pub enum TransferView {
    Failed,
    Body(Seq<u8>),
}

impl View for Transfer {
    type V = TransferView;

    open spec fn view(&self) -> TransferView {
        match self {
            Transfer::Failed => TransferView::Failed,
            Transfer::Body(bytes) => TransferView::Body(bytes@),
        }
    }
}

/// Whether the parser of the `url` crate reads `url` as an absolute URL.
pub uninterp spec fn url_parses(url: Seq<char>) -> bool;

/// The URL to send the GET to, if `url` was read as one.
pub open spec fn requested(url: Seq<char>, parses: bool) -> Result<Seq<char>, FetchError> {
    if parses {
        Ok(url)
    } else {
        Err(FetchError { cause: FetchCause::MalformedUrl })
    }
}

/// The text that a body holds, if it is UTF-8.
pub open spec fn body_text(bytes: Seq<u8>) -> Result<Seq<char>, FetchError> {
    if valid_utf8(bytes) {
        Ok(decode_utf8(bytes))
    } else {
        Err(FetchError { cause: FetchCause::UndecodableBody })
    }
}

/// What a fetch gives for what the transport reported.
pub open spec fn fetched(transfer: TransferView) -> Result<Seq<char>, FetchError> {
    match transfer {
        TransferView::Failed => Err(FetchError { cause: FetchCause::ConnectionFailed }),
        TransferView::Body(bytes) => body_text(bytes),
    }
}

/// Calls `Url::parse` of the `url` crate, under the name by which `surf`
/// hands it on, and tells whether it read `url` as an absolute URL. Taken on
/// trust: that the answer depends on `url` alone.
#[verifier::external_body]
fn url_is_readable(url: &str) -> (ok: bool)
    ensures
        ok == url_parses(url@),
{
    surf::Url::parse(url).is_ok()
}

/// The URL to send the GET to, given whether `url` was read as one.
pub fn checked_url(url: &str, parses: bool) -> (request: Result<String, FetchError>)
    ensures
        match request {
            Ok(u) => requested(url@, parses) == Ok::<Seq<char>, FetchError>(u@),
            Err(e) => requested(url@, parses) == Err::<Seq<char>, FetchError>(e),
        },
{
    if parses {
        Ok(url.to_owned())
    } else {
        Err(FetchError { cause: FetchCause::MalformedUrl })
    }
}

/// The URL to send the GET to: `url` itself where it can be read as an
/// absolute URL. For any other string nothing is sent, and the fetch has
/// failed.
pub fn fetch_request(url: &str) -> (request: Result<String, FetchError>)
    ensures
        match request {
            Ok(u) => requested(url@, url_parses(url@)) == Ok::<Seq<char>, FetchError>(u@),
            Err(e) => requested(url@, url_parses(url@)) == Err::<Seq<char>, FetchError>(e),
        },
{
    checked_url(url, url_is_readable(url))
}

/// Calls `String::from_utf8`, which gives the string that the bytes encode
/// if they are valid UTF-8 and an error if they are not. The error is
/// dropped.
#[verifier::external_body]
fn string_from_utf8(bytes: Vec<u8>) -> (text: Option<String>)
    ensures
        match text {
            Some(s) => valid_utf8(bytes@) && s@ == decode_utf8(bytes@),
            None => !valid_utf8(bytes@),
        },
{
    String::from_utf8(bytes).ok()
}

/// Reads a response body as text.
pub fn decode_body(bytes: Vec<u8>) -> (text: Result<String, FetchError>)
    ensures
        match text {
            Ok(s) => body_text(bytes@) == Ok::<Seq<char>, FetchError>(s@),
            Err(e) => body_text(bytes@) == Err::<Seq<char>, FetchError>(e),
        },
{
    match string_from_utf8(bytes) {
        Some(s) => Ok(s),
        None => Err(FetchError { cause: FetchCause::UndecodableBody }),
    }
}

/// Turns what the transport reported of a GET into the result of the fetch:
/// the body as text, or the one error of a fetch with its cause.
pub fn fetch_result(transfer: Transfer) -> (result: Result<String, FetchError>)
    ensures
        match result {
            Ok(s) => fetched(transfer@) == Ok::<Seq<char>, FetchError>(s@),
            Err(e) => fetched(transfer@) == Err::<Seq<char>, FetchError>(e),
        },
{
    match transfer {
        Transfer::Failed => Err(FetchError { cause: FetchCause::ConnectionFailed }),
        Transfer::Body(bytes) => decode_body(bytes),
    }
}

} // verus!
