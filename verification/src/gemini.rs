//! The Gemini wire format: request framing, response decoding and status
//! classification.
//!
//! A request is the URL followed by CR LF. A response is a header line, made
//! of a two-byte status, one space and a free-text meta field, closed by the
//! first CR LF of the buffer; everything after that CR LF is the body.

use crate::text::utf8_error;
use core::str::Utf8Error;
use vstd::prelude::*;
use vstd::slice::slice_to_vec;
use vstd::utf8::{decode_utf8, encode_utf8, valid_utf8};

verus! {

/// Carriage return, the first byte of the line terminator.
pub const CR: u8 = 0x0D;

/// Line feed, the second byte of the line terminator.
pub const LF: u8 = 0x0A;

/// The byte that separates the status from the meta field.
pub const SPACE: u8 = 0x20;

/// The first line of a response.
#[derive(Debug, PartialEq)]
pub struct Header {
    pub status: String,
    pub meta: String,
}

/// A decoded response: its header and the body text that followed it.
#[derive(Debug, PartialEq)]
pub struct Response {
    pub header: Header,
    pub body: String,
}

/// Why a response could not be decoded or classified.
#[derive(Debug, PartialEq)]
pub enum GeminiError {
    /// The header line has fewer than three bytes.
    HeaderTooShort,
    /// The third byte of the header line is not a space.
    MissingSpaceCharacter,
    /// The buffer holds no CR LF.
    MissingCRLF,
    /// The status does not start with a digit from 1 to 6.
    UnknownStatus(String),
    /// The status, the meta field or the body is not UTF-8.
    Utf8Error(Utf8Error),
}

/// The coarse class of a response, given by the first digit of its status.
#[derive(Debug, Clone, Copy, PartialEq, Eq, Structural)]
pub enum StatusCategory {
    Input,
    Success,
    Redirect,
    TemporaryFailure,
    PermanentFailure,
    ClientCertificateRequired,
}

/// What a [`Header`] holds, as sequences of characters.
pub struct HeaderView {
    pub status: Seq<char>,
    pub meta: Seq<char>,
}

/// What a [`Response`] holds, as sequences of characters.
pub struct ResponseView {
    pub header: HeaderView,
    pub body: Seq<char>,
}

/// What a [`GeminiError`] holds.
pub enum GeminiErrorView {
    HeaderTooShort,
    MissingSpaceCharacter,
    MissingCRLF,
    UnknownStatus(Seq<char>),
    Utf8Error(Utf8Error),
}

impl View for Header {
    type V = HeaderView;

    open spec fn view(&self) -> HeaderView {
        HeaderView { status: self.status@, meta: self.meta@ }
    }
}

impl View for Response {
    type V = ResponseView;

    open spec fn view(&self) -> ResponseView {
        ResponseView { header: self.header@, body: self.body@ }
    }
}

impl View for GeminiError {
    type V = GeminiErrorView;

    open spec fn view(&self) -> GeminiErrorView {
        match self {
            GeminiError::HeaderTooShort => GeminiErrorView::HeaderTooShort,
            GeminiError::MissingSpaceCharacter => GeminiErrorView::MissingSpaceCharacter,
            GeminiError::MissingCRLF => GeminiErrorView::MissingCRLF,
            GeminiError::UnknownStatus(status) => GeminiErrorView::UnknownStatus(status@),
            GeminiError::Utf8Error(error) => GeminiErrorView::Utf8Error(*error),
        }
    }
}

/// The view of a decoding outcome: the view of the value or of the error.
pub open spec fn outcome_view<T: View>(outcome: Result<T, GeminiError>) -> Result<
    T::V,
    GeminiErrorView,
> {
    match outcome {
        Ok(value) => Ok(value@),
        Err(error) => Err(error@),
    }
}

/// The two bytes that close a request and a response header.
pub open spec fn crlf() -> Seq<u8> {
    seq![CR, LF]
}

/// The category that a status falls under: its first character decides, and
/// must be one of `'1'` to `'6'`. Whatever follows it is not looked at.
pub open spec fn category_of(status: Seq<char>) -> Option<StatusCategory> {
    if status.len() == 0 {
        None
    } else if status[0] == '1' {
        Some(StatusCategory::Input)
    } else if status[0] == '2' {
        Some(StatusCategory::Success)
    } else if status[0] == '3' {
        Some(StatusCategory::Redirect)
    } else if status[0] == '4' {
        Some(StatusCategory::TemporaryFailure)
    } else if status[0] == '5' {
        Some(StatusCategory::PermanentFailure)
    } else if status[0] == '6' {
        Some(StatusCategory::ClientCertificateRequired)
    } else {
        None
    }
}

/// Classifies a status by its first character. A status that does not start
/// with a digit from 1 to 6, the empty one included, is handed back in
/// `UnknownStatus`.
pub fn status_category(status: &str) -> (r: Result<StatusCategory, GeminiError>)
    ensures
        r is Ok <==> category_of(status@) is Some,
        r matches Ok(category) ==> category_of(status@) == Some(category),
        r matches Err(error) ==> error@ == GeminiErrorView::UnknownStatus(status@),
{
    if status.is_empty() {
        return Err(GeminiError::UnknownStatus(status.to_owned()));
    }
    let first: char = status.get_char(0);
    if first == '1' {
        Ok(StatusCategory::Input)
    } else if first == '2' {
        Ok(StatusCategory::Success)
    } else if first == '3' {
        Ok(StatusCategory::Redirect)
    } else if first == '4' {
        Ok(StatusCategory::TemporaryFailure)
    } else if first == '5' {
        Ok(StatusCategory::PermanentFailure)
    } else if first == '6' {
        Ok(StatusCategory::ClientCertificateRequired)
    } else {
        Err(GeminiError::UnknownStatus(status.to_owned()))
    }
}

/// `needle` lies in `haystack` at offset `at`.
pub open spec fn occurs_at(haystack: Seq<u8>, needle: Seq<u8>, at: int) -> bool {
    &&& 0 <= at
    &&& at + needle.len() <= haystack.len()
    &&& haystack.subrange(at, at + needle.len()) == needle
}

/// `needle` lies in `haystack` at offset `at` and at no smaller offset.
pub open spec fn is_first_occurrence(haystack: Seq<u8>, needle: Seq<u8>, at: int) -> bool {
    &&& occurs_at(haystack, needle, at)
    &&& forall|earlier: int| 0 <= earlier < at ==> !occurs_at(haystack, needle, earlier)
}

/// The smallest offset at which `needle` lies in `haystack`, if there is one.
pub open spec fn first_occurrence(haystack: Seq<u8>, needle: Seq<u8>) -> Option<int> {
    if exists|at: int| is_first_occurrence(haystack, needle, at) {
        Some(choose|at: int| is_first_occurrence(haystack, needle, at))
    } else {
        None
    }
}

/// A first occurrence is the only one: it is what [`first_occurrence`] names.
pub proof fn lemma_first_occurrence_is(haystack: Seq<u8>, needle: Seq<u8>, at: int)
    requires
        is_first_occurrence(haystack, needle, at),
    ensures
        first_occurrence(haystack, needle) == Some(at),
{
    // Of two first occurrences neither lies before the other.
    let chosen: int = choose|at: int| is_first_occurrence(haystack, needle, at);
    assert(!(chosen < at) && !(at < chosen));
}

/// Where `needle` occurs nowhere, [`first_occurrence`] names nothing.
pub proof fn lemma_no_occurrence(haystack: Seq<u8>, needle: Seq<u8>)
    requires
        forall|at: int| !occurs_at(haystack, needle, at),
    ensures
        first_occurrence(haystack, needle) is None,
{
}

/// Whether `needle` lies in `haystack` at offset `at`.
fn holds_at(haystack: &[u8], needle: &[u8], at: usize) -> (r: bool)
    requires
        at + needle@.len() <= haystack@.len(),
    ensures
        r == occurs_at(haystack@, needle@, at as int),
{
    let total: usize = haystack.len();
    let mut k: usize = 0;
    while k < needle.len()
        invariant
            at + needle@.len() <= haystack@.len(),
            haystack@.len() == total,
            k <= needle@.len(),
            forall|j: int| 0 <= j < k ==> haystack@[at + j] == needle@[j],
        decreases needle@.len() - k,
    {
        if haystack[at + k] != needle[k] {
            return false;
        }
        k += 1;
    }
    assert(haystack@.subrange(at as int, at + needle@.len()) =~= needle@);
    true
}

/// Finds the first place in `haystack` at which `needle` lies. An empty
/// needle lies at the start of every haystack.
pub fn find_first(haystack: &[u8], needle: &[u8]) -> (r: Option<usize>)
    ensures
        r matches Some(at) ==> is_first_occurrence(haystack@, needle@, at as int),
        r is None ==> forall|at: int| !occurs_at(haystack@, needle@, at),
        r is Some <==> first_occurrence(haystack@, needle@) is Some,
        r matches Some(at) ==> first_occurrence(haystack@, needle@) == Some(at as int),
{
    if needle.len() > haystack.len() {
        proof {
            lemma_no_occurrence(haystack@, needle@);
        }
        return None;
    }
    let last: usize = haystack.len() - needle.len();
    let mut at: usize = 0;
    loop
        invariant
            needle@.len() <= haystack@.len(),
            last == haystack@.len() - needle@.len(),
            at <= last,
            forall|earlier: int| 0 <= earlier < at ==> !occurs_at(haystack@, needle@, earlier),
        decreases last - at,
    {
        if holds_at(haystack, needle, at) {
            proof {
                lemma_first_occurrence_is(haystack@, needle@, at as int);
            }
            return Some(at);
        }
        if at == last {
            proof {
                lemma_no_occurrence(haystack@, needle@);
            }
            return None;
        }
        at += 1;
    }
}

/// What the bytes of a header line decode to. The line must hold at least
/// three bytes, the third a space; the two before it are the status, those
/// after it the meta field, and both must be UTF-8.
pub open spec fn parse_header_spec(header: Seq<u8>) -> Result<HeaderView, GeminiErrorView> {
    if header.len() < 3 {
        Err(GeminiErrorView::HeaderTooShort)
    } else if header[2] != SPACE {
        Err(GeminiErrorView::MissingSpaceCharacter)
    } else {
        let raw_status = header.subrange(0, 2);
        let raw_meta = header.subrange(3, header.len() as int);
        if !valid_utf8(raw_status) {
            Err(GeminiErrorView::Utf8Error(utf8_error(raw_status)))
        } else if !valid_utf8(raw_meta) {
            Err(GeminiErrorView::Utf8Error(utf8_error(raw_meta)))
        } else {
            Ok(HeaderView { status: decode_utf8(raw_status), meta: decode_utf8(raw_meta) })
        }
    }
}

/// The response made of a decoded header line and the bytes after it: the
/// header's failure if it has one, else the header with the body that the
/// bytes encode, which must be UTF-8.
pub open spec fn with_body(
    header: Result<HeaderView, GeminiErrorView>,
    raw_body: Seq<u8>,
) -> Result<ResponseView, GeminiErrorView> {
    match header {
        Err(error) => Err(error),
        Ok(header) => if valid_utf8(raw_body) {
            Ok(ResponseView { header, body: decode_utf8(raw_body) })
        } else {
            Err(GeminiErrorView::Utf8Error(utf8_error(raw_body)))
        },
    }
}

/// What a whole response buffer decodes to. The first CR LF ends the header
/// line; the body is everything after it.
pub open spec fn parse_response_spec(plaintext: Seq<u8>) -> Result<ResponseView, GeminiErrorView> {
    match first_occurrence(plaintext, crlf()) {
        None => Err(GeminiErrorView::MissingCRLF),
        Some(split) => with_body(
            parse_header_spec(plaintext.subrange(0, split)),
            plaintext.subrange(split + 2, plaintext.len() as int),
        ),
    }
}

/// The bytes of the request for `url`: the URL in UTF-8, then CR LF.
pub open spec fn request_spec(url: Seq<char>) -> Seq<u8> {
    encode_utf8(url) + crlf()
}

/// Decodes a header line, given without its CR LF. The status of a header
/// that decodes is the text of exactly two bytes.
pub fn parse_header(header: &[u8]) -> (r: Result<Header, GeminiError>)
    ensures
        outcome_view(r) == parse_header_spec(header@),
        r matches Ok(parsed) ==> encode_utf8(parsed.status@).len() == 2,
{
    broadcast use vstd::utf8::decode_utf8_encode_utf8;

    if header.len() < 3 {
        return Err(GeminiError::HeaderTooShort);
    }
    let raw_status = &header[0..2];
    if header[2] != SPACE {
        return Err(GeminiError::MissingSpaceCharacter);
    }
    let raw_meta = &header[3..header.len()];
    let status = match core::str::from_utf8(raw_status) {
        Ok(text) => text.to_owned(),
        Err(error) => {
            return Err(GeminiError::Utf8Error(error));
        },
    };
    let meta = match core::str::from_utf8(raw_meta) {
        Ok(text) => text.to_owned(),
        Err(error) => {
            return Err(GeminiError::Utf8Error(error));
        },
    };
    Ok(Header { status, meta })
}

/// Decodes a response: splits the buffer at its first CR LF, decodes the
/// header line before it and takes the rest as the body. The status of a
/// response that decodes is the text of exactly two bytes.
pub fn parse_response(plaintext: &[u8]) -> (r: Result<Response, GeminiError>)
    ensures
        outcome_view(r) == parse_response_spec(plaintext@),
        r matches Ok(response) ==> encode_utf8(response.header.status@).len() == 2,
{
    let terminator: [u8; 2] = [CR, LF];
    let split_loc: usize = match find_first(plaintext, terminator.as_slice()) {
        Some(at) => at,
        None => {
            return Err(GeminiError::MissingCRLF);
        },
    };
    let total: usize = plaintext.len();
    let raw_header = &plaintext[0..split_loc];
    let raw_body = &plaintext[split_loc + 2..total];
    let header = match parse_header(raw_header) {
        Ok(header) => header,
        Err(error) => {
            return Err(error);
        },
    };
    match core::str::from_utf8(raw_body) {
        Ok(text) => Ok(Response { header, body: text.to_owned() }),
        Err(error) => Err(GeminiError::Utf8Error(error)),
    }
}

/// Frames a request: the bytes of `url`, then CR LF.
pub fn request(url: &str) -> (r: Vec<u8>)
    ensures
        r@ == request_spec(url@),
{
    let mut frame = slice_to_vec(url.as_bytes());
    frame.push(CR);
    frame.push(LF);
    frame
}

} // verus!
