//! The exchange with a device, as far as it is decided here: which address to ask, and what to
//! make of the answer. Sending the request and receiving the answer are the caller's.

use vstd::prelude::*;
use crate::difficulty::NumberReading;
use crate::error::{DecodeError, DecodeErrorView, Error, ErrorView};
use crate::json::{parse_json, read_document, Json, JsonValue};
use crate::response::{
    decode_system_info, difficulty_queries, queries_of, system_info_of, DifficultyReadings,
    SystemInfo, SystemInfoView,
};
use url::Url;

verus! {

/// The path of the endpoint that reports the telemetry.
pub const SYSTEM_INFO_PATH: &'static str = "/api/system/info";

/// The seconds after which a request is given up.
pub const TIMEOUT_SECS: u64 = 25;

/// The name by which the client makes itself known to the device.
pub const USER_AGENT_NAME: &'static str = "bitaxe-api";

#[verifier::external_type_specification]
#[verifier::external_body]
pub struct ExUrl(url::Url);

#[verifier::external_type_specification]
#[verifier::external_body]
pub struct ExParseError(url::ParseError);

/// The text of a URL: what `Url::as_str` gives.
pub uninterp spec fn url_text(url: url::Url) -> Seq<char>;

/// What `Url::join` makes of a reference against a base: the text of the URL that the
/// reference resolves to, or the error with which it does not resolve.
pub uninterp spec fn resolved(base: Seq<char>, reference: Seq<char>) -> Result<
    Seq<char>,
    url::ParseError,
>;

/// `Url::join`. Whether the reference resolves against the base, and to which URL or with
/// which error, is a function of the text of the base and of the reference alone; nothing is
/// claimed about which references resolve to what.
#[verifier::external_body]
fn join(base: &Url, reference: &str) -> (r: Result<Url, url::ParseError>)
    ensures
        match r {
            Ok(url) => resolved(url_text(*base), reference@) == Ok::<Seq<char>, url::ParseError>(
                url_text(url),
            ),
            Err(error) => resolved(url_text(*base), reference@) == Err::<
                Seq<char>,
                url::ParseError,
            >(error),
        },
{
    base.join(reference)
}

/// The address of the endpoint, as a text or as the error that stands in its way.
pub open spec fn endpoint_of(root_url: Seq<char>) -> Result<Seq<char>, ErrorView> {
    match resolved(root_url, SYSTEM_INFO_PATH@) {
        Ok(url) => Ok(url),
        Err(error) => Err(ErrorView::Url(error)),
    }
}

/// The address of the endpoint that reports the telemetry of the device at `root_url`.
pub fn system_info_url(root_url: &Url) -> (r: Result<Url, Error>)
    ensures
        match r {
            Ok(url) => endpoint_of(url_text(*root_url)) == Ok::<Seq<char>, ErrorView>(
                url_text(url),
            ),
            Err(error) => endpoint_of(url_text(*root_url)) == Err::<Seq<char>, ErrorView>(error@),
        },
{
    match join(root_url, SYSTEM_INFO_PATH) {
        Ok(url) => Ok(url),
        Err(error) => Err(Error::Url(error)),
    }
}

/// Whether a status says that the request succeeded.
pub open spec fn is_success(status: u16) -> bool {
    200 <= status <= 299
}

/// Accepts a status from 200 to 299 and rejects any other.
pub fn check_status(status: u16) -> (r: Result<(), Error>)
    ensures
        match r {
            Ok(_) => is_success(status),
            Err(error) => !is_success(status) && error@ == ErrorView::HttpStatus(status),
        },
{
    if 200 <= status && status <= 299 {
        Ok(())
    } else {
        Err(Error::HttpStatus(status))
    }
}

/// The payload of an answer: the status is looked at first, then the body is read as JSON.
pub open spec fn payload_of(status: u16, body: Seq<u8>) -> Result<Json, ErrorView> {
    if !is_success(status) {
        Err(ErrorView::HttpStatus(status))
    } else {
        match read_document(body) {
            Ok(payload) => Ok(payload),
            Err(message) => Err(ErrorView::Decode(DecodeErrorView::Syntax(message))),
        }
    }
}

/// The telemetry in a payload, given what came of reading the first words of its two difficulties.
pub open spec fn telemetry_of(payload: Json, readings: DifficultyReadings) -> Result<
    SystemInfoView,
    ErrorView,
> {
    match system_info_of(payload, readings) {
        Ok(info) => Ok(info),
        Err(error) => Err(ErrorView::Decode(error)),
    }
}

/// What an answer comes to: an error, or the telemetry in its payload, given what came of
/// reading the first words of the two difficulties of the payload.
pub open spec fn outcome_of(status: u16, body: Seq<u8>, readings: DifficultyReadings) -> Result<
    SystemInfoView,
    ErrorView,
> {
    match payload_of(status, body) {
        Ok(payload) => telemetry_of(payload, readings),
        Err(error) => Err(error),
    }
}

/// An answer of a device, with what came of reading the first words of its two difficulties.
pub ghost struct Answer {
    pub status: u16,
    pub body: Seq<u8>,
    pub readings: DifficultyReadings,
}

/// What the answers to several requests of one client come to, each in its place.
pub open spec fn outcomes_of(answers: Seq<Answer>) -> Seq<Result<SystemInfoView, ErrorView>> {
    Seq::new(
        answers.len(),
        |i: int| outcome_of(answers[i].status, answers[i].body, answers[i].readings),
    )
}

/// Requests of one client do not interfere: what the answer to one of them comes to is what it
/// comes to alone, whatever the answers to the others are.
pub proof fn lemma_requests_do_not_interfere(answers: Seq<Answer>, i: int, j: int, other: Answer)
    requires
        0 <= i < answers.len(),
        0 <= j < answers.len(),
        i != j,
    ensures
        outcomes_of(answers)[i] == outcome_of(
            answers[i].status,
            answers[i].body,
            answers[i].readings,
        ),
        outcomes_of(answers.update(j, other))[i] == outcomes_of(answers)[i],
{
}

/// Reads the payload of an answer.
pub fn read_payload(status: u16, body: &[u8]) -> (r: Result<JsonValue, Error>)
    ensures
        match r {
            Ok(payload) => payload_of(status, body@) == Ok::<Json, ErrorView>(payload@),
            Err(error) => payload_of(status, body@) == Err::<Json, ErrorView>(error@),
        },
{
    match check_status(status) {
        Ok(_) => {},
        Err(error) => {
            return Err(error);
        },
    }
    match parse_json(body) {
        Ok(payload) => Ok(payload),
        Err(message) => Err(Error::Decode(DecodeError::Syntax(message))),
    }
}

/// Decodes the telemetry from the payload of an answer, given what came of reading the
/// first words of its two difficulties.
pub fn system_info_from_payload(payload: &JsonValue, readings: DifficultyReadings) -> (r: Result<
    SystemInfo,
    Error,
>)
    ensures
        match r {
            Ok(info) => telemetry_of(payload@, readings) == Ok::<SystemInfoView, ErrorView>(info@),
            Err(error) => telemetry_of(payload@, readings) == Err::<SystemInfoView, ErrorView>(
                error@,
            ),
        },
{
    match decode_system_info(payload, readings) {
        Ok(info) => Ok(info),
        Err(error) => Err(Error::Decode(error)),
    }
}

/// Whether `reading` may have come of reading `word` with the reader `read`: where there is a
/// word, the reader gave the reading for it; where there is none, any reading will do, since
/// none is looked at.
pub open spec fn read_as<F: Fn(String) -> NumberReading>(
    read: F,
    word: Option<Seq<char>>,
    reading: NumberReading,
) -> bool {
    word is Some ==> exists|asked: String|
        asked@ == word->0 && #[trigger] read.ensures((asked,), reading)
}

/// The view of telemetry or of the error that stood in its way.
pub open spec fn outcome_view(r: Result<SystemInfo, Error>) -> Result<SystemInfoView, ErrorView> {
    match r {
        Ok(info) => Ok(info@),
        Err(error) => Err(error@),
    }
}

/// Makes of an answer what is to be made of it, with a reader of binary64 numbers: the status is
/// looked at, the body is read, the reader is asked for the first word of each difficulty of the
/// payload, and the payload is decoded with what the reader gave.
pub fn system_info_from_answer<F: Fn(String) -> NumberReading>(
    status: u16,
    body: &[u8],
    read: F,
) -> (r: Result<SystemInfo, Error>)
    requires
        forall|word: String| read.requires((word,)),
    ensures
        payload_of(status, body@) is Err ==> outcome_view(r) == Err::<SystemInfoView, ErrorView>(
            payload_of(status, body@)->Err_0,
        ),
        payload_of(status, body@) matches Ok(payload) ==> exists|readings: DifficultyReadings|
            {
                &&& read_as(read, queries_of(payload).best, readings.best)
                &&& read_as(read, queries_of(payload).session, readings.session)
                &&& outcome_view(r) == #[trigger] telemetry_of(payload, readings)
            },
{
    let payload = read_payload(status, body)?;
    let queries = difficulty_queries(&payload);
    let best = match queries.best {
        Some(word) => read(word),
        None => NumberReading::NotANumber,
    };
    let session = match queries.session {
        Some(word) => read(word),
        None => NumberReading::NotANumber,
    };
    let readings = DifficultyReadings { best, session };
    let r = system_info_from_payload(&payload, readings);
    proof {
        assert(read_as(read, queries_of(payload@).best, readings.best));
        assert(read_as(read, queries_of(payload@).session, readings.session));
        assert(outcome_view(r) == telemetry_of(payload@, readings));
    }
    r
}

} // verus!
