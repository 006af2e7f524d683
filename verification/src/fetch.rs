//! One fetch: the request that is sent for a source, and the outcome that
//! the reply amounts to.

use crate::json::{document, parse_json, Json};
use crate::record::{decode_records, decoded, views, DecodeError, Record, RecordView};
use vstd::prelude::*;
use vstd::string::*;

verus! {

/// The decimal digit of value `d`, for `d` from 0 to 9.
pub open spec fn digit(d: int) -> char {
    if d == 0 {
        '0'
    } else if d == 1 {
        '1'
    } else if d == 2 {
        '2'
    } else if d == 3 {
        '3'
    } else if d == 4 {
        '4'
    } else if d == 5 {
        '5'
    } else if d == 6 {
        '6'
    } else if d == 7 {
        '7'
    } else if d == 8 {
        '8'
    } else {
        '9'
    }
}

/// `n` in decimal notation, without leading zeros.
pub open spec fn decimal(n: nat) -> Seq<char>
    decreases n,
{
    if n < 10 {
        seq![digit(n as int)]
    } else {
        decimal(n / 10).push(digit((n % 10) as int))
    }
}

fn digit_text(d: u64) -> (text: &'static str)
    requires
        d < 10,
    ensures
        text@ == seq![digit(d as int)],
{
    proof {
        reveal_strlit("0");
        reveal_strlit("1");
        reveal_strlit("2");
        reveal_strlit("3");
        reveal_strlit("4");
        reveal_strlit("5");
        reveal_strlit("6");
        reveal_strlit("7");
        reveal_strlit("8");
        reveal_strlit("9");
    }
    let text = if d == 0 {
        "0"
    } else if d == 1 {
        "1"
    } else if d == 2 {
        "2"
    } else if d == 3 {
        "3"
    } else if d == 4 {
        "4"
    } else if d == 5 {
        "5"
    } else if d == 6 {
        "6"
    } else if d == 7 {
        "7"
    } else if d == 8 {
        "8"
    } else {
        "9"
    };
    assert(text@ =~= seq![digit(d as int)]);
    text
}

/// Appends `n` in decimal notation to `out`.
pub fn append_decimal(out: &mut String, n: u64)
    ensures
        final(out)@ == old(out)@ + decimal(n as nat),
    decreases n,
{
    if n >= 10 {
        append_decimal(out, n / 10);
    }
    out.append(digit_text(n % 10));
    assert(out@ =~= old(out)@ + decimal(n as nat));
}

/// Where the sources are fetched from: the address of a source is `prefix`,
/// the source's identifier in decimal, then `suffix`.
#[derive(Clone, Debug, PartialEq, Eq)]
pub struct Endpoint {
    pub prefix: String,
    pub suffix: String,
}

/// One header of a request.
#[derive(Clone, Debug, PartialEq, Eq)]
pub struct Header {
    pub name: String,
    pub value: String,
}

/// The request that fetches one source.
#[derive(Clone, Debug, PartialEq, Eq)]
pub struct Request {
    pub url: String,
    pub headers: Vec<Header>,
}

/// The address of `source` at `endpoint`.
pub open spec fn url_of(endpoint: Endpoint, source: u64) -> Seq<char> {
    endpoint.prefix@ + decimal(source as nat) + endpoint.suffix@
}

/// The name of the header that carries the token.
pub open spec fn token_header() -> Seq<char> {
    "PRIVATE-TOKEN"@
}

/// The request for `source`. It carries the token in one header where there
/// is a token, and no header where there is none.
pub fn request_for(endpoint: &Endpoint, token: &Option<String>, source: u64) -> (request: Request)
    ensures
        request.url@ == url_of(*endpoint, source),
        token is None ==> request.headers@.len() == 0,
        token matches Some(t) ==> {
            &&& request.headers@.len() == 1
            &&& request.headers@[0].name@ == token_header()
            &&& request.headers@[0].value@ == t@
        },
{
    let mut url = endpoint.prefix.clone();
    append_decimal(&mut url, source);
    url.append(endpoint.suffix.as_str());
    let mut headers: Vec<Header> = Vec::new();
    match token {
        Some(t) => {
            headers.push(Header { name: "PRIVATE-TOKEN".to_owned(), value: t.clone() });
        },
        None => {},
    }
    Request { url, headers }
}

/// What came back for one request.
#[derive(Clone, Debug, PartialEq, Eq)]
pub enum Reply {
    /// No answer: the connection failed or the time ran out. The text says
    /// which.
    Unreachable(String),
    /// An answer with its status code and its whole body.
    Answer { status: u16, body: String },
}

/// Why a fetch failed.
#[derive(Clone, Debug, PartialEq, Eq)]
pub enum FetchError {
    /// No answer came; the text is that of the reply.
    Transport(String),
    /// The answer's status was not from 200 to 299.
    Status(u16),
    /// The body held no sequence of records.
    Decode(DecodeError),
}

/// The result of fetching one source: its records, or the source and why it
/// gave none.
#[derive(Clone, Debug, PartialEq, Eq)]
pub enum FetchOutcome {
    Success(Vec<Record>),
    Failure(u64, FetchError),
}

/// Whether `status` reports success.
pub open spec fn is_success_status(status: u16) -> bool {
    200 <= status <= 299
}

/// What the body of a successful answer of `source` amounts to, where
/// `parsed` is the document read from it.
pub open spec fn body_result(source: u64, parsed: Option<Json>) -> Result<
    Seq<RecordView>,
    FetchError,
> {
    match parsed {
        None => Err(FetchError::Decode(DecodeError::NotJson)),
        Some(doc) => match decoded(source, doc) {
            Ok(records) => Ok(records),
            Err(e) => Err(FetchError::Decode(e)),
        },
    }
}

/// What `reply` amounts to for `source`, where `parsed` is the document read
/// from the body of an answer.
pub open spec fn reply_result(source: u64, reply: Reply, parsed: Option<Json>) -> Result<
    Seq<RecordView>,
    FetchError,
> {
    match reply {
        Reply::Unreachable(detail) => Err(FetchError::Transport(detail)),
        Reply::Answer { status, body } => if is_success_status(status) {
            body_result(source, parsed)
        } else {
            Err(FetchError::Status(status))
        },
    }
}

/// The document read from the body of `reply`; `None` where there is no
/// answer.
pub open spec fn reply_document(reply: Reply) -> Option<Json> {
    match reply {
        Reply::Unreachable(_) => None,
        Reply::Answer { status, body } => document(body@),
    }
}

impl FetchOutcome {
    /// Whether the outcome is that of `source` and says what `want` says:
    /// the same records in the same order, or the same error.
    pub open spec fn agrees(self, source: u64, want: Result<Seq<RecordView>, FetchError>) -> bool {
        match self {
            FetchOutcome::Success(records) => want == Ok::<Seq<RecordView>, FetchError>(
                views(records@),
            ),
            FetchOutcome::Failure(id, error) => id == source && want == Err::<
                Seq<RecordView>,
                FetchError,
            >(error),
        }
    }

    /// Whether every record of the outcome, or its failure, names `source`.
    pub open spec fn names(self, source: u64) -> bool {
        match self {
            FetchOutcome::Success(records) => forall|i: int|
                0 <= i < records@.len() ==> (#[trigger] records@[i]).source_id == source,
            FetchOutcome::Failure(id, _) => id == source,
        }
    }

    /// Whether the fetch gave records.
    pub fn is_success(&self) -> (yes: bool)
        ensures
            yes == (self is Success),
    {
        match self {
            FetchOutcome::Success(_) => true,
            FetchOutcome::Failure(_, _) => false,
        }
    }
}

/// The outcome for `source` of a successful answer whose body was read as
/// `parsed`: the records of the document, each tagged with `source`, or the
/// failure of `source` where there is no document or it holds no records.
pub fn outcome_of_document(source: u64, parsed: Option<Json>) -> (outcome: FetchOutcome)
    ensures
        outcome.agrees(source, body_result(source, parsed)),
        outcome.names(source),
{
    match parsed {
        None => FetchOutcome::Failure(source, FetchError::Decode(DecodeError::NotJson)),
        Some(doc) => match decode_records(source, &doc) {
            Ok(records) => FetchOutcome::Success(records),
            Err(e) => FetchOutcome::Failure(source, FetchError::Decode(e)),
        },
    }
}

/// The outcome of one fetch of `source`, from what came back. No answer and
/// an answer with another status than 200 to 299 fail the source; otherwise
/// the body is read and decoded, and the outcome is that of the document.
pub fn fetch_outcome(source: u64, reply: Reply) -> (outcome: FetchOutcome)
    ensures
        outcome.agrees(source, reply_result(source, reply, reply_document(reply))),
        outcome.names(source),
{
    match reply {
        Reply::Unreachable(detail) => FetchOutcome::Failure(source, FetchError::Transport(detail)),
        Reply::Answer { status, body } => {
            if 200 <= status && status <= 299 {
                outcome_of_document(source, parse_json(body.as_str()))
            } else {
                FetchOutcome::Failure(source, FetchError::Status(status))
            }
        },
    }
}

/// The outcome of one source depends on nothing but that source's reply: a
/// reply without an answer, or with a failing status, fails the source
/// whatever the body would have held.
pub proof fn lemma_failures_need_no_body(source: u64, reply: Reply, parsed: Option<Json>)
    ensures
        reply matches Reply::Unreachable(detail) ==> reply_result(source, reply, parsed) == Err::<
            Seq<RecordView>,
            FetchError,
        >(FetchError::Transport(detail)),
        reply matches Reply::Answer { status, body } ==> !is_success_status(status)
            ==> reply_result(source, reply, parsed) == Err::<Seq<RecordView>, FetchError>(
            FetchError::Status(status),
        ),
{
}

} // verus!
