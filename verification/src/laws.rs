//! What holds of the wire format and of redirect chains, for all inputs.

use crate::error::{FetchError, FetchErrorView};
use crate::fetch::{
    all_fetched, chain, exchange_spec, fetched, read_reply_spec, step_spec, Attempt, Reply,
    ReplyView, StreamEndView,
};
use crate::gemini::{
    category_of, crlf, first_occurrence, is_first_occurrence, lemma_first_occurrence_is,
    occurs_at, parse_header_spec, parse_response_spec, request_spec, with_body, GeminiErrorView,
    HeaderView, ResponseView, StatusCategory, CR, LF, SPACE,
};
use vstd::prelude::*;
use vstd::utf8::encode_utf8;

verus! {

/// A needle that lies somewhere in a haystack has a first place there.
pub proof fn lemma_occurrence_has_first(haystack: Seq<u8>, needle: Seq<u8>, at: int)
    requires
        occurs_at(haystack, needle, at),
    ensures
        first_occurrence(haystack, needle) matches Some(first) && 0 <= first <= at
            && is_first_occurrence(haystack, needle, first),
    decreases at,
{
    if exists|earlier: int| 0 <= earlier < at && occurs_at(haystack, needle, earlier) {
        let earlier: int = choose|earlier: int|
            0 <= earlier < at && occurs_at(haystack, needle, earlier);
        lemma_occurrence_has_first(haystack, needle, earlier);
    } else {
        lemma_first_occurrence_is(haystack, needle, at);
    }
}

/// A buffer fails to decode with `MissingCRLF` exactly when no CR LF lies
/// in it.
pub proof fn lemma_missing_terminator(plaintext: Seq<u8>)
    ensures
        parse_response_spec(plaintext) == Err::<ResponseView, _>(GeminiErrorView::MissingCRLF)
            <==> forall|at: int| !occurs_at(plaintext, crlf(), at),
{
    if exists|at: int| occurs_at(plaintext, crlf(), at) {
        let at: int = choose|at: int| occurs_at(plaintext, crlf(), at);
        lemma_occurrence_has_first(plaintext, crlf(), at);
        let first: int = first_occurrence(plaintext, crlf())->Some_0;
        let header = parse_header_spec(plaintext.subrange(0, first));
        let raw_body = plaintext.subrange(first + 2, plaintext.len() as int);
        assert(with_body(header, raw_body) != Err::<ResponseView, _>(
            GeminiErrorView::MissingCRLF,
        ));
    }
}

/// A header line that holds no CR LF, followed by CR LF and any bytes at
/// all, is split right after the line: the buffer decodes to what the line
/// decodes to, with those bytes as the body. The bytes of the body may hold
/// CR LF themselves.
pub proof fn lemma_split_after_header(header: Seq<u8>, raw_body: Seq<u8>)
    requires
        forall|at: int| !occurs_at(header, crlf(), at),
    ensures
        first_occurrence(header + crlf() + raw_body, crlf()) == Some(header.len() as int),
        parse_response_spec(header + crlf() + raw_body) == with_body(
            parse_header_spec(header),
            raw_body,
        ),
{
    let plaintext = header + crlf() + raw_body;
    let split: int = header.len() as int;
    assert(plaintext.subrange(split, split + 2) =~= crlf());
    assert forall|earlier: int| 0 <= earlier < split implies !occurs_at(
        plaintext,
        crlf(),
        earlier,
    ) by {
        if occurs_at(plaintext, crlf(), earlier) {
            let window = plaintext.subrange(earlier, earlier + 2);
            if earlier + 2 <= split {
                // The two bytes lie in the header line, which holds no CR LF.
                assert(header.subrange(earlier, earlier + 2) =~= window);
                assert(occurs_at(header, crlf(), earlier));
            } else {
                // The second byte is the CR that follows the header line.
                assert(window[1] == plaintext[split]);
                assert(plaintext[split] == CR);
            }
        }
    }
    lemma_first_occurrence_is(plaintext, crlf(), split);
    assert(plaintext.subrange(0, split) =~= header);
    assert(plaintext.subrange(split + 2, plaintext.len() as int) =~= raw_body);
}

/// A response framed as the wire format asks decodes to what was framed.
/// The status is two bytes of text, the header line holds no CR LF, and the
/// body is any text, empty or with CR LF in it.
pub proof fn lemma_framed_response_decodes(status: Seq<char>, meta: Seq<char>, body: Seq<char>)
    requires
        encode_utf8(status).len() == 2,
        forall|at: int|
            !occurs_at(encode_utf8(status) + seq![SPACE] + encode_utf8(meta), crlf(), at),
    ensures
        parse_response_spec(
            encode_utf8(status) + seq![SPACE] + encode_utf8(meta) + crlf() + encode_utf8(body),
        ) == Ok::<_, GeminiErrorView>(
            ResponseView { header: HeaderView { status, meta }, body },
        ),
{
    broadcast use vstd::utf8::encode_utf8_valid_utf8, vstd::utf8::encode_utf8_decode_utf8;

    let header = encode_utf8(status) + seq![SPACE] + encode_utf8(meta);
    lemma_split_after_header(header, encode_utf8(body));
    assert(header.subrange(0, 2) =~= encode_utf8(status));
    assert(header.subrange(3, header.len() as int) =~= encode_utf8(meta));
}

/// A header that decodes gives back its bytes when encoded again: the status
/// is the text of the first two bytes, the meta field the text of the bytes
/// after the space.
pub proof fn lemma_header_keeps_bytes(header: Seq<u8>)
    requires
        parse_header_spec(header) is Ok,
    ensures
        header.len() >= 3,
        header[2] == SPACE,
        encode_utf8(parse_header_spec(header)->Ok_0.status) == header.subrange(0, 2),
        encode_utf8(parse_header_spec(header)->Ok_0.meta) == header.subrange(
            3,
            header.len() as int,
        ),
        encode_utf8(parse_header_spec(header)->Ok_0.status).len() == 2,
{
    broadcast use vstd::utf8::decode_utf8_encode_utf8;

}

/// The request for a URL always holds a CR LF, so it never decodes to
/// `MissingCRLF`.
pub proof fn lemma_request_is_terminated(url: Seq<char>)
    ensures
        first_occurrence(request_spec(url), crlf()) is Some,
        parse_response_spec(request_spec(url)) != Err::<ResponseView, _>(
            GeminiErrorView::MissingCRLF,
        ),
{
    let frame = request_spec(url);
    let at: int = encode_utf8(url).len() as int;
    assert(frame.subrange(at, at + 2) =~= crlf());
    lemma_occurrence_has_first(frame, crlf(), at);
    lemma_missing_terminator(frame);
}

/// The request for a URL without CR LF in it is the URL's bytes, then CR LF,
/// and nothing else: read as a response, it is the URL as the header line
/// and an empty body.
pub proof fn lemma_request_frames_url(url: Seq<char>)
    requires
        forall|at: int| !occurs_at(encode_utf8(url), crlf(), at),
    ensures
        first_occurrence(request_spec(url), crlf()) == Some(encode_utf8(url).len() as int),
        parse_response_spec(request_spec(url)) == with_body(
            parse_header_spec(encode_utf8(url)),
            Seq::<u8>::empty(),
        ),
{
    lemma_split_after_header(encode_utf8(url), Seq::<u8>::empty());
}

/// Only the first character of a status decides its category.
pub proof fn lemma_category_by_first_character(status: Seq<char>, other: Seq<char>)
    requires
        status.len() > 0,
        other.len() > 0,
        status[0] == other[0],
    ensures
        category_of(status) == category_of(other),
{
}

/// A connection that the server dropped after its answer counts as the end
/// of the stream: the reply amounts to what it would had the stream been
/// closed.
pub proof fn lemma_dropped_connection_ends_the_reply(bytes: Seq<u8>)
    ensures
        read_reply_spec(ReplyView { bytes, end: StreamEndView::Aborted }) == read_reply_spec(
            ReplyView { bytes, end: StreamEndView::Closed },
        ),
{
}

/// The outcome of a fetch is a response whose status is a redirect.
pub open spec fn is_redirect(outcome: Result<ResponseView, FetchErrorView>) -> bool {
    outcome matches Ok(response) && category_of(response.header.status) == Some(
        StatusCategory::Redirect,
    )
}

/// A chain makes at least one fetch and at most `max_redirects + 1`. Every
/// fetch but the last was answered with a redirect, and the next one asked
/// for the URL in its meta field.
pub proof fn lemma_chain_is_bounded(
    url: Seq<char>,
    max_redirects: u32,
    attempts: Seq<Attempt>,
    result: Result<ResponseView, FetchErrorView>,
)
    requires
        chain(url, max_redirects, attempts, result),
    ensures
        1 <= attempts.len() <= max_redirects + 1,
        attempts[0].url == url,
        forall|i: int|
            0 <= i < attempts.len() - 1 ==> is_redirect(#[trigger] attempts[i].outcome)
                && attempts[i + 1].url == attempts[i].outcome->Ok_0.header.meta,
{
    let followed = attempts.drop_last();
    assert forall|i: int| 0 <= i < attempts.len() - 1 implies is_redirect(
        #[trigger] attempts[i].outcome,
    ) && attempts[i + 1].url == attempts[i].outcome->Ok_0.header.meta && i < max_redirects by {
        // Only a redirect below the limit is followed.
        assert(followed[i] == attempts[i]);
        assert(step_spec(followed[i].outcome, i as nat, max_redirects) is Follow);
    }
    if attempts.len() >= 2 {
        let before_last: int = attempts.len() - 2;
        assert(is_redirect(attempts[before_last].outcome) && before_last < max_redirects);
    }
}

/// Where every fetch is answered with a redirect, the chain makes exactly
/// `max_redirects + 1` fetches and ends in `TooManyRedirects` with the
/// limit.
pub proof fn lemma_redirects_without_end(
    url: Seq<char>,
    max_redirects: u32,
    attempts: Seq<Attempt>,
    result: Result<ResponseView, FetchErrorView>,
)
    requires
        chain(url, max_redirects, attempts, result),
        forall|i: int| 0 <= i < attempts.len() ==> is_redirect(#[trigger] attempts[i].outcome),
    ensures
        attempts.len() == max_redirects + 1,
        result == Err::<ResponseView, _>(FetchErrorView::TooManyRedirects(max_redirects)),
{
    lemma_chain_is_bounded(url, max_redirects, attempts, result);
    // The last fetch is a redirect too, and it ends the chain: the limit
    // was reached.
    assert(is_redirect(attempts.last().outcome));
}

/// With a transport that answers every request with a redirect, the fetches
/// that were made number exactly `max_redirects + 1`, and the result is
/// `TooManyRedirects` with the limit.
pub proof fn lemma_transport_that_always_redirects<F: Fn(&str, &[u8]) -> Result<Reply, FetchError>>(
    transport: &F,
    url: Seq<char>,
    max_redirects: u32,
    attempts: Seq<Attempt>,
    result: Result<ResponseView, FetchErrorView>,
)
    requires
        forall|text: &str, frame: &[u8], exchange: Result<Reply, FetchError>|
            #[trigger] call_ensures(*transport, (text, frame), exchange) ==> is_redirect(
                exchange_spec(exchange),
            ),
        all_fetched(transport, attempts),
        chain(url, max_redirects, attempts, result),
    ensures
        attempts.len() == max_redirects + 1,
        result == Err::<ResponseView, _>(FetchErrorView::TooManyRedirects(max_redirects)),
{
    assert forall|i: int| 0 <= i < attempts.len() implies is_redirect(
        #[trigger] attempts[i].outcome,
    ) by {
        assert(fetched(transport, attempts[i].url, attempts[i].outcome));
    }
    lemma_redirects_without_end(url, max_redirects, attempts, result);
}

/// Where the first fetch is answered with a redirect and the second with a
/// response that is none, the chain makes exactly two fetches, the second
/// for the URL that the redirect named, and ends in that response, whatever
/// the limit, as long as it allows one redirect.
pub proof fn lemma_redirect_then_answer(
    url: Seq<char>,
    max_redirects: u32,
    attempts: Seq<Attempt>,
    result: Result<ResponseView, FetchErrorView>,
    answer: ResponseView,
)
    requires
        chain(url, max_redirects, attempts, result),
        max_redirects >= 1,
        is_redirect(attempts[0].outcome),
        attempts.len() >= 2 ==> attempts[1].outcome == Ok::<_, FetchErrorView>(answer),
        category_of(answer.header.status) matches Some(category) && category
            != StatusCategory::Redirect,
    ensures
        attempts.len() == 2,
        attempts[1].url == attempts[0].outcome->Ok_0.header.meta,
        result == Ok::<_, FetchErrorView>(answer),
{
    lemma_chain_is_bounded(url, max_redirects, attempts, result);
    // The first fetch is followed, so it is not the last; the second is not
    // followed, so it is.
    assert(attempts.len() != 1);
    assert(attempts.len() > 2 ==> is_redirect(attempts[1].outcome));
}

/// A chain that ends in a response ends in the response of its last fetch,
/// and the status of that response falls under a category other than
/// redirect.
pub proof fn lemma_chain_ends_in_last_response(
    url: Seq<char>,
    max_redirects: u32,
    attempts: Seq<Attempt>,
    result: Result<ResponseView, FetchErrorView>,
)
    requires
        chain(url, max_redirects, attempts, result),
        result is Ok,
    ensures
        attempts.last().outcome == result,
        category_of(result->Ok_0.header.status) matches Some(category) && category
            != StatusCategory::Redirect,
{
}

/// A chain from one URL with one limit over the same outcomes ends in the
/// same result: the outcomes of the fetches decide everything.
pub proof fn lemma_chain_is_decided_by_outcomes(
    url: Seq<char>,
    max_redirects: u32,
    attempts: Seq<Attempt>,
    result: Result<ResponseView, FetchErrorView>,
    others: Seq<Attempt>,
    other_result: Result<ResponseView, FetchErrorView>,
)
    requires
        chain(url, max_redirects, attempts, result),
        chain(url, max_redirects, others, other_result),
        forall|i: int|
            0 <= i < attempts.len() && i < others.len() ==> attempts[i].outcome
                == others[i].outcome,
    ensures
        attempts.len() == others.len(),
        result == other_result,
        forall|i: int| 0 <= i < attempts.len() ==> attempts[i].url == others[i].url,
{
    lemma_chain_is_bounded(url, max_redirects, attempts, result);
    lemma_chain_is_bounded(url, max_redirects, others, other_result);
    let n: int = attempts.len() as int;
    let m: int = others.len() as int;
    // A fetch that ends one chain ends the other: its outcome and its place
    // are the same in both.
    if n < m {
        assert(others.drop_last()[n - 1] == others[n - 1]);
        assert(step_spec(others[n - 1].outcome, (n - 1) as nat, max_redirects) is Follow);
    }
    if m < n {
        assert(attempts.drop_last()[m - 1] == attempts[m - 1]);
        assert(step_spec(attempts[m - 1].outcome, (m - 1) as nat, max_redirects) is Follow);
    }
    lemma_same_urls(attempts, others, n - 1);
}

/// Two chains from one URL whose fetches have the same outcomes ask for the
/// same URLs.
proof fn lemma_same_urls(attempts: Seq<Attempt>, others: Seq<Attempt>, upto: int)
    requires
        attempts.len() == others.len(),
        0 <= upto < attempts.len(),
        attempts[0].url == others[0].url,
        forall|i: int| 0 <= i < attempts.len() ==> attempts[i].outcome == others[i].outcome,
        forall|i: int|
            0 <= i < attempts.len() - 1 ==> attempts[i + 1].url == (
            #[trigger] attempts[i].outcome)->Ok_0.header.meta,
        forall|i: int|
            0 <= i < others.len() - 1 ==> others[i + 1].url == (
            #[trigger] others[i].outcome)->Ok_0.header.meta,
    ensures
        forall|i: int| 0 <= i <= upto ==> attempts[i].url == others[i].url,
    decreases upto,
{
    if upto > 0 {
        lemma_same_urls(attempts, others, upto - 1);
        assert(attempts[upto].url == attempts[upto - 1].outcome->Ok_0.header.meta);
        assert(others[upto].url == others[upto - 1].outcome->Ok_0.header.meta);
    }
}

} // verus!
