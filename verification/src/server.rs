//! What the program decides around a scrape: how much it logs, who may
//! ask for metrics, and what a request is answered with.

use vstd::prelude::*;
use vstd::slice::*;
use vstd::string::*;
use base64::prelude::{Engine, BASE64_STANDARD};
use crate::metrics::ScrapeError;

verus! {

/// How much is logged.
#[derive(Copy, Clone, Debug, PartialEq, Eq, Structural)]
pub enum LogLevel {
    Info,
    Debug,
    Trace,
}

/// The level that so many `-v` flags ask for; more than two ask for
/// nothing that exists.
pub fn log_filter_level(verbose: u8) -> (level: Option<LogLevel>)
    ensures
        level == match verbose {
            0 => Some(LogLevel::Info),
            1 => Some(LogLevel::Debug),
            2 => Some(LogLevel::Trace),
            _ => None::<LogLevel>,
        },
{
    match verbose {
        0 => Some(LogLevel::Info),
        1 => Some(LogLevel::Debug),
        2 => Some(LogLevel::Trace),
        _ => None,
    }
}

/// The minimum interval between two refreshes of the container cache, in
/// milliseconds, where one is configured: zero configures none.
pub fn min_metadata_refresh(min_metadata_refresh_ms: u32) -> (interval: Option<u64>)
    ensures
        interval == if min_metadata_refresh_ms > 0 {
            Some(min_metadata_refresh_ms as u64)
        } else {
            None
        },
{
    if min_metadata_refresh_ms > 0 {
        Some(min_metadata_refresh_ms as u64)
    } else {
        None
    }
}

/// The name of a signal that ends the program, for the log.
pub fn signal_name(signal: i32) -> (name: &'static str)
    ensures
        name@ == match signal {
            15 => "SIGTERM"@,
            3 => "SIGQUIT"@,
            2 => "SIGINT"@,
            _ => "?"@,
        },
{
    match signal {
        15 => "SIGTERM",
        3 => "SIGQUIT",
        2 => "SIGINT",
        _ => "?",
    }
}

/// The text in base64, with the standard alphabet and padding.
pub uninterp spec fn base64_standard(text: Seq<char>) -> Seq<char>;

/// Whether a text of so many bytes can be encoded: its encoding's length
/// must fit the machine's word.
pub open spec fn encodable(len: nat) -> bool {
    len / 3 * 4 + 4 <= usize::MAX
}

/// `BASE64_STANDARD.encode`: the encoding of the text's bytes. Left out
/// are texts so long that the length of the encoding overflows: there the
/// call panics.
#[verifier::external_body]
fn encode_base64(text: &str) -> (encoded: String)
    requires
        encodable(text.spec_bytes().len()),
    ensures
        encoded@ == base64_standard(text@),
{
    BASE64_STANDARD.encode(text)
}

/// The value of the `Authorization` header that a client must send for
/// the credentials `user:password`: `Basic` and the credentials in base64.
/// Nothing where the credentials are too long to be encoded.
pub fn basic_auth_header(credentials: &str) -> (header: Option<String>)
    ensures
        match header {
            Some(h) => encodable(credentials.spec_bytes().len()) && h@ == "Basic "@
                + base64_standard(credentials@),
            None => !encodable(credentials.spec_bytes().len()),
        },
{
    let len = credentials.as_bytes().len();
    if len / 3 > (usize::MAX - 4) / 4 {
        return None;
    }
    let mut header = String::from_str("Basic ");
    header.append(encode_base64(credentials).as_str());
    Some(header)
}

/// Whether a request may have the metrics: always where no credentials
/// are configured, else where it carries exactly the expected header.
pub open spec fn is_authorized(expected: Option<Seq<u8>>, received: Option<Seq<u8>>) -> bool {
    match expected {
        None => true,
        Some(header) => received == Some(header),
    }
}

/// The bytes of the expected header, where one is configured.
pub open spec fn header_bytes(header: Option<&str>) -> Option<Seq<u8>> {
    match header {
        Some(text) => Some(text.spec_bytes()),
        None => None,
    }
}

/// The bytes of the header that a request carries, where it carries one.
pub open spec fn received_bytes(header: Option<&[u8]>) -> Option<Seq<u8>> {
    match header {
        Some(bytes) => Some(bytes@),
        None => None,
    }
}

/// Whether a request with this `Authorization` header may have the
/// metrics.
pub fn authorized(expected: Option<&str>, received: Option<&[u8]>) -> (allowed: bool)
    ensures
        allowed == is_authorized(header_bytes(expected), received_bytes(received)),
{
    let wanted = match expected {
        None => {
            return true;
        },
        Some(header) => header.as_bytes(),
    };
    let got = match received {
        None => {
            return false;
        },
        Some(bytes) => bytes,
    };
    if wanted.len() != got.len() {
        return false;
    }
    let mut i: usize = 0;
    while i < wanted.len()
        invariant
            i <= wanted.len(),
            wanted.len() == got.len(),
            header_bytes(expected) == Some(wanted@),
            received_bytes(received) == Some(got@),
            forall|j: int| 0 <= j < i ==> wanted@[j] == got@[j],
        decreases wanted.len() - i,
    {
        if wanted[i] != got[i] {
            return false;
        }
        i += 1;
    }
    assert(wanted@ =~= got@);
    true
}

/// What a request is answered with.
#[derive(Debug)]
pub enum Reply {
    /// The metrics.
    Metrics(String),
    /// The request lacks the expected credentials.
    Unauthorized,
    /// The scrape failed; the client is not told why.
    Failed,
}

/// The status code of a reply.
pub open spec fn reply_status(reply: Reply) -> u16 {
    match reply {
        Reply::Metrics(_) => 200,
        Reply::Unauthorized => 401,
        Reply::Failed => 500,
    }
}

/// The body of a reply.
pub open spec fn reply_body(reply: Reply) -> Seq<char> {
    match reply {
        Reply::Metrics(text) => text@,
        Reply::Unauthorized => Seq::empty(),
        Reply::Failed => "Error occured. Please see logs."@,
    }
}

impl Reply {
    /// The answer to a request that was let in, from the scrape's outcome.
    pub fn of_scrape(scrape: Result<String, ScrapeError>) -> (reply: Reply)
        ensures
            match scrape {
                Ok(text) => reply matches Reply::Metrics(body) && body@ == text@,
                Err(_) => reply is Failed,
            },
    {
        match scrape {
            Ok(text) => Reply::Metrics(text),
            Err(_) => Reply::Failed,
        }
    }

    /// The status code of the reply.
    pub fn status(&self) -> (status: u16)
        ensures
            status == reply_status(*self),
    {
        match self {
            Reply::Metrics(_) => 200,
            Reply::Unauthorized => 401,
            Reply::Failed => 500,
        }
    }

    /// The scheme that the client is asked to authenticate with.
    pub fn challenge(&self) -> (scheme: Option<&'static str>)
        ensures
            match scheme {
                Some(s) => *self is Unauthorized && s@ == "Basic"@,
                None => !(*self is Unauthorized),
            },
    {
        match self {
            Reply::Unauthorized => Some("Basic"),
            _ => None,
        }
    }

    /// The body of the reply.
    pub fn body(self) -> (body: String)
        ensures
            body@ == reply_body(self),
    {
        match self {
            Reply::Metrics(text) => text,
            Reply::Unauthorized => String::new(),
            Reply::Failed => String::from_str("Error occured. Please see logs."),
        }
    }
}

} // verus!
