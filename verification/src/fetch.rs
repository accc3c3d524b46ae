//! One fetch and the loop that follows redirects.
//!
//! The transport is a function value of the caller. It is given a URL and
//! the bytes of the request for it, carries them to the server that the URL
//! names, and hands back what it read, or why it could not.

use crate::error::{fetch_view, FetchError, FetchErrorView};
use crate::gemini::{
    category_of, parse_response, parse_response_spec, request, request_spec, status_category,
    Response, ResponseView, StatusCategory,
};
use vstd::prelude::*;

verus! {

/// How the reading of a reply ended.
#[derive(Debug, PartialEq)]
pub enum StreamEnd {
    /// The stream came to its end.
    Closed,
    /// The server dropped the connection once it had answered.
    Aborted,
    /// The stream broke in the middle of the reply.
    Failed(String),
}

/// What the transport read from the server.
#[derive(Debug, PartialEq)]
pub struct Reply {
    /// Every byte that arrived.
    pub bytes: Vec<u8>,
    /// How the reading ended.
    pub end: StreamEnd,
}

/// What to do after one fetch.
#[derive(Debug, PartialEq)]
pub enum Step {
    /// The chain ends here, with this result.
    Done(Result<Response, FetchError>),
    /// Fetch `url` next; `redirects` have been followed by then.
    Follow { url: String, redirects: u32 },
}

/// What a [`StreamEnd`] holds.
pub enum StreamEndView {
    Closed,
    Aborted,
    Failed(Seq<char>),
}

/// What a [`Reply`] holds.
pub struct ReplyView {
    pub bytes: Seq<u8>,
    pub end: StreamEndView,
}

/// What a [`Step`] holds.
pub enum StepView {
    Done(Result<ResponseView, FetchErrorView>),
    Follow { url: Seq<char>, redirects: nat },
}

/// One fetch of a chain: the URL that was asked for and what came of it.
pub struct Attempt {
    pub url: Seq<char>,
    pub outcome: Result<ResponseView, FetchErrorView>,
}

impl View for StreamEnd {
    type V = StreamEndView;

    open spec fn view(&self) -> StreamEndView {
        match self {
            StreamEnd::Closed => StreamEndView::Closed,
            StreamEnd::Aborted => StreamEndView::Aborted,
            StreamEnd::Failed(message) => StreamEndView::Failed(message@),
        }
    }
}

impl View for Reply {
    type V = ReplyView;

    open spec fn view(&self) -> ReplyView {
        ReplyView { bytes: self.bytes@, end: self.end@ }
    }
}

impl View for Step {
    type V = StepView;

    open spec fn view(&self) -> StepView {
        match self {
            Step::Done(result) => StepView::Done(fetch_view(*result)),
            Step::Follow { url, redirects } => StepView::Follow {
                url: url@,
                redirects: *redirects as nat,
            },
        }
    }
}

/// What a reply amounts to. A stream that broke gives `ReadFailed`, whatever
/// had arrived; one that was closed or dropped after the answer gives what
/// its bytes decode to.
pub open spec fn read_reply_spec(reply: ReplyView) -> Result<ResponseView, FetchErrorView> {
    match reply.end {
        StreamEndView::Failed(message) => Err(FetchErrorView::ReadFailed(message)),
        _ => match parse_response_spec(reply.bytes) {
            Ok(response) => Ok(response),
            Err(error) => Err(FetchErrorView::InvalidResponse(error)),
        },
    }
}

/// What one exchange with the transport amounts to: the transport's own
/// failure as it is, else what its reply amounts to.
pub open spec fn exchange_spec(exchange: Result<Reply, FetchError>) -> Result<
    ResponseView,
    FetchErrorView,
> {
    match exchange {
        Ok(reply) => read_reply_spec(reply@),
        Err(error) => Err(error@),
    }
}

/// The transport may be called with any URL and the request framed for it.
pub open spec fn takes_requests<F: Fn(&str, &[u8]) -> Result<Reply, FetchError>>(
    transport: &F,
) -> bool {
    forall|url: &str, frame: &[u8]|
        frame@ == request_spec(url@) ==> #[trigger] call_requires(*transport, (url, frame))
}

/// `outcome` is what fetching `url` amounts to for some answer that the
/// transport can give to the request for `url`.
pub open spec fn fetched<F: Fn(&str, &[u8]) -> Result<Reply, FetchError>>(
    transport: &F,
    url: Seq<char>,
    outcome: Result<ResponseView, FetchErrorView>,
) -> bool {
    exists|text: &str, frame: &[u8], exchange: Result<Reply, FetchError>|
        {
            &&& text@ == url
            &&& frame@ == request_spec(url)
            &&& #[trigger] call_ensures(*transport, (text, frame), exchange)
            &&& exchange_spec(exchange) == outcome
        }
}

/// What follows from the outcome of one fetch when `redirects` redirects
/// have been followed before it. A failure ends the chain, and so does a
/// response that is no redirect. A redirect is followed to the URL in its
/// meta field, unless `max_redirects` have been followed already.
pub open spec fn step_spec(
    outcome: Result<ResponseView, FetchErrorView>,
    redirects: nat,
    max_redirects: u32,
) -> StepView {
    match outcome {
        Err(error) => StepView::Done(Err(error)),
        Ok(response) => match category_of(response.header.status) {
            None => StepView::Done(Err(FetchErrorView::UnknownStatus(response.header.status))),
            Some(StatusCategory::Redirect) => if redirects >= max_redirects {
                StepView::Done(Err(FetchErrorView::TooManyRedirects(max_redirects)))
            } else {
                StepView::Follow { url: response.header.meta, redirects: redirects + 1 }
            },
            Some(_) => StepView::Done(Ok(response)),
        },
    }
}

/// What a response has for the user: the body, where the status is one of
/// success; else the status and the meta field, as a failure.
pub open spec fn success_body_spec(response: ResponseView) -> Result<Seq<char>, FetchErrorView> {
    match category_of(response.header.status) {
        None => Err(FetchErrorView::UnknownStatus(response.header.status)),
        Some(StatusCategory::Success) => Ok(response.body),
        Some(_) => Err(
            FetchErrorView::Unsuccessful {
                status: response.header.status,
                meta: response.header.meta,
            },
        ),
    }
}

/// `attempts` is the start of a chain from `url` in which every fetch so far
/// was a redirect that is followed, the last of them to `next`.
pub open spec fn chain_prefix(
    url: Seq<char>,
    max_redirects: u32,
    attempts: Seq<Attempt>,
    next: Seq<char>,
) -> bool {
    let target_after = |i: int|
        if i + 1 < attempts.len() {
            attempts[i + 1].url
        } else {
            next
        };
    &&& attempts.len() == 0 ==> next == url
    &&& attempts.len() > 0 ==> attempts[0].url == url
    &&& forall|i: int|
        0 <= i < attempts.len() ==> step_spec(
            #[trigger] attempts[i].outcome,
            i as nat,
            max_redirects,
        ) == (StepView::Follow { url: target_after(i), redirects: (i + 1) as nat })
}

/// `attempts` is a whole chain from `url` that ends in `result`: the first
/// fetch asks for `url`, each one but the last is a redirect that is
/// followed to the URL of the next, and the last one ends the chain.
pub open spec fn chain(
    url: Seq<char>,
    max_redirects: u32,
    attempts: Seq<Attempt>,
    result: Result<ResponseView, FetchErrorView>,
) -> bool {
    &&& attempts.len() >= 1
    &&& chain_prefix(url, max_redirects, attempts.drop_last(), attempts.last().url)
    &&& step_spec(attempts.last().outcome, (attempts.len() - 1) as nat, max_redirects)
        == StepView::Done(result)
}

/// Every attempt is a fetch that the transport can have made.
pub open spec fn all_fetched<F: Fn(&str, &[u8]) -> Result<Reply, FetchError>>(
    transport: &F,
    attempts: Seq<Attempt>,
) -> bool {
    forall|i: int|
        0 <= i < attempts.len() ==> fetched(transport, (#[trigger] attempts[i]).url, attempts[i].outcome)
}

/// Turns what the transport read into a response.
pub fn read_reply(reply: Reply) -> (r: Result<Response, FetchError>)
    ensures
        fetch_view(r) == read_reply_spec(reply@),
{
    match reply.end {
        StreamEnd::Failed(message) => Err(FetchError::ReadFailed(message)),
        _ => match parse_response(reply.bytes.as_slice()) {
            Ok(response) => Ok(response),
            Err(error) => Err(FetchError::InvalidResponse(error)),
        },
    }
}

/// Fetches `url` once: frames the request, has the transport carry it, and
/// decodes what comes back.
pub fn fetch<F: Fn(&str, &[u8]) -> Result<Reply, FetchError>>(transport: &F, url: &str) -> (r:
    Result<Response, FetchError>)
    requires
        takes_requests(transport),
    ensures
        fetched(transport, url@, fetch_view(r)),
{
    let frame = request(url);
    match transport(url, frame.as_slice()) {
        Ok(reply) => read_reply(reply),
        Err(error) => Err(error),
    }
}

/// Decides what follows from the outcome of one fetch.
pub fn advance(outcome: Result<Response, FetchError>, redirects: u32, max_redirects: u32) -> (step:
    Step)
    ensures
        step@ == step_spec(fetch_view(outcome), redirects as nat, max_redirects),
{
    let response = match outcome {
        Ok(response) => response,
        Err(error) => {
            return Step::Done(Err(error));
        },
    };
    match status_category(response.header.status.as_str()) {
        Err(_) => Step::Done(Err(FetchError::UnknownStatus(response.header.status))),
        Ok(StatusCategory::Redirect) => {
            if redirects >= max_redirects {
                Step::Done(Err(FetchError::TooManyRedirects(max_redirects)))
            } else {
                Step::Follow { url: response.header.meta, redirects: redirects + 1 }
            }
        },
        Ok(_) => Step::Done(Ok(response)),
    }
}

/// Takes the body out of a response of success, and turns any other
/// response into a failure that holds its status and meta field.
pub fn success_body(response: Response) -> (r: Result<String, FetchError>)
    ensures
        fetch_view(r) == success_body_spec(response@),
{
    match status_category(response.header.status.as_str()) {
        Err(_) => Err(FetchError::UnknownStatus(response.header.status)),
        Ok(StatusCategory::Success) => Ok(response.body),
        Ok(_) => Err(
            FetchError::Unsuccessful {
                status: response.header.status,
                meta: response.header.meta,
            },
        ),
    }
}

/// Fetches `url` and follows redirects, at most `max_redirects` of them.
///
/// The fetches that were made form a chain from `url` that ends in the
/// result, and each of them is one that the transport can have made.
pub fn recursive_fetch<F: Fn(&str, &[u8]) -> Result<Reply, FetchError>>(
    transport: &F,
    url: &str,
    max_redirects: u32,
) -> (r: Result<Response, FetchError>)
    requires
        takes_requests(transport),
    ensures
        exists|attempts: Seq<Attempt>|
            all_fetched(transport, attempts) && #[trigger] chain(
                url@,
                max_redirects,
                attempts,
                fetch_view(r),
            ),
{
    let mut redirects: u32 = 0;
    let mut current_url: String = url.to_owned();
    let ghost mut attempts: Seq<Attempt> = Seq::empty();
    loop
        invariant
            takes_requests(transport),
            redirects <= max_redirects,
            attempts.len() == redirects,
            all_fetched(transport, attempts),
            chain_prefix(url@, max_redirects, attempts, current_url@),
        decreases max_redirects - redirects,
    {
        let outcome = fetch(transport, current_url.as_str());
        let ghost made = Attempt { url: current_url@, outcome: fetch_view(outcome) };
        let ghost extended = attempts.push(made);
        proof {
            // The fetches made before stay as they were; the new one comes last.
            assert(extended.drop_last() =~= attempts);
            assert(all_fetched(transport, extended));
        }
        match advance(outcome, redirects, max_redirects) {
            Step::Done(result) => {
                proof {
                    assert(chain(url@, max_redirects, extended, fetch_view(result)));
                }
                return result;
            },
            Step::Follow { url: next, redirects: followed } => {
                proof {
                    assert(chain_prefix(url@, max_redirects, extended, next@));
                    attempts = extended;
                }
                current_url = next;
                redirects = followed;
            },
        }
    }
}

} // verus!
