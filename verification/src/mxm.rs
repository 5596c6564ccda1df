//! The two operations of the resolver: from a query to candidate pages, and
//! from a page's address to its track. The requests themselves are made by
//! the caller's `fetch`, which is handed each request and returns the body,
//! or `None` where the request did not get through. What an operation returns
//! is stated for whatever `fetch` may have returned.

use vstd::prelude::*;
use crate::retry::{
    all_retryable, is_trace, lemma_attempts_bounded, lemma_run_exhausted, lemma_run_retrying,
    reports, retry, ResponseErr, RetryOutcome, RetryReport, RetryState,
};
use crate::search::{item_views, scrape_results, scraped, ItemView, TrackItem};
use crate::text::{between, extract_between, lemma_between_needs_start, occurs_in};
use crate::track::{track_of, TrackInfo, TrackView};
use crate::json::json_document;
use crate::url::{is_musixmatch_url, is_page_url};

verus! {

/// A request to make: a GET of `url`, given up after `timeout` milliseconds.
/// The headers are set in order, a later one replacing an earlier one of the
/// same name.
#[derive(Clone, Debug, PartialEq, Eq)]
pub struct Request {
    pub url: String,
    pub timeout: u32,
    pub headers: Vec<(String, String)>,
}

/// What a `Request` holds, as texts.
pub struct RequestView {
    pub url: Seq<char>,
    pub timeout: u32,
    pub headers: Seq<(Seq<char>, Seq<char>)>,
}

/// The texts of a list of headers.
pub open spec fn header_views(headers: Seq<(String, String)>) -> Seq<(Seq<char>, Seq<char>)> {
    Seq::new(headers.len(), |i: int| (headers[i].0@, headers[i].1@))
}

/// The texts of the headers given, none where none are given.
pub open spec fn given_headers(headers: Option<Vec<(String, String)>>) -> Seq<(Seq<char>, Seq<char>)> {
    match headers {
        Some(list) => header_views(list@),
        None => Seq::empty(),
    }
}

impl View for Request {
    type V = RequestView;

    open spec fn view(&self) -> RequestView {
        RequestView { url: self.url@, timeout: self.timeout, headers: header_views(self.headers@) }
    }
}

/// The address of the search for `keyword`.
pub open spec fn search_address(keyword: Seq<char>) -> Seq<char> {
    "https://www.google.com/search?q=site%3Amusixmatch.com%2Flyrics%20lyrics%20"@ + keyword
}

/// The request that searches for `keyword`.
pub open spec fn search_request(keyword: Seq<char>, timeout: u32, headers: Seq<(Seq<char>, Seq<char>)>) -> RequestView {
    RequestView { url: search_address(keyword), timeout, headers }
}

/// The request that gets the page at `url`: the headers given, then an empty
/// `cookies` header.
pub open spec fn page_request(url: Seq<char>, timeout: u32, headers: Seq<(Seq<char>, Seq<char>)>) -> RequestView {
    RequestView { url, timeout, headers: headers.push(("cookies"@, Seq::<char>::empty())) }
}

/// Opens the document that a page embeds.
pub open spec fn document_open() -> Seq<char> {
    "<script id=\"__NEXT_DATA__\" type=\"application/json\">"@
}

/// Closes the document that a page embeds.
pub open spec fn document_close() -> Seq<char> {
    "</script>"@
}

/// What a search's response comes to: a request that did not get through is
/// an error of its own, a body is read as a results page.
pub open spec fn search_result(response: Option<Seq<char>>) -> Result<Seq<ItemView>, ResponseErr> {
    match response {
        None => Err(ResponseErr::RequestErr),
        Some(body) => scraped(body),
    }
}

/// The document embedded in a page's response, or why there is none.
pub open spec fn embedded_document(response: Option<Seq<char>>) -> Result<Seq<char>, ResponseErr> {
    match response {
        None => Err(ResponseErr::RequestErr),
        Some(body) => match between(body, document_open(), document_close()) {
            Some(json) => Ok(json),
            None => Err(ResponseErr::MalformedResponse),
        },
    }
}

/// What a page's response comes to: the track of the document embedded in it.
/// A page without a document, or with one that is no JSON, is malformed.
pub open spec fn page_result(response: Option<Seq<char>>) -> Result<TrackView, ResponseErr> {
    match embedded_document(response) {
        Err(kind) => Err(kind),
        Ok(json) => match json_document(json) {
            Some(doc) => Ok(track_of(doc)),
            None => Err(ResponseErr::MalformedResponse),
        },
    }
}

/// The text of an optional string.
pub open spec fn response_view(response: Option<String>) -> Option<Seq<char>> {
    match response {
        Some(body) => Some(body@),
        None => None,
    }
}

fn copy_headers(headers: &Vec<(String, String)>) -> (out: Vec<(String, String)>)
    ensures
        header_views(out@) == header_views(headers@),
{
    let mut out: Vec<(String, String)> = Vec::new();
    let mut i: usize = 0;
    while i < headers.len()
        invariant
            i <= headers.len(),
            out.len() == i,
            forall|k: int| 0 <= k < i ==> out@[k].0@ == headers@[k].0@ && out@[k].1@ == headers@[k].1@,
        decreases headers.len() - i,
    {
        out.push((headers[i].0.clone(), headers[i].1.clone()));
        i += 1;
    }
    assert(header_views(out@) =~= header_views(headers@));
    out
}

fn headers_or_none(headers: &Option<Vec<(String, String)>>) -> (out: Vec<(String, String)>)
    ensures
        header_views(out@) == given_headers(*headers),
{
    match headers {
        Some(list) => copy_headers(list),
        None => {
            let out: Vec<(String, String)> = Vec::new();
            assert(header_views(out@) =~= given_headers(*headers));
            out
        },
    }
}

/// The request that searches for `keyword`.
pub fn make_search_request(keyword: &str, timeout: u32, headers: &Option<Vec<(String, String)>>) -> (request: Request)
    ensures
        request@ == search_request(keyword@, timeout, given_headers(*headers)),
{
    let url = "https://www.google.com/search?q=site%3Amusixmatch.com%2Flyrics%20lyrics%20".to_owned().concat(
        keyword,
    );
    Request { url, timeout, headers: headers_or_none(headers) }
}

/// The request that gets the page at `url`.
pub fn make_page_request(url: &str, timeout: u32, headers: &Option<Vec<(String, String)>>) -> (request: Request)
    ensures
        request@ == page_request(url@, timeout, given_headers(*headers)),
{
    let mut list = headers_or_none(headers);
    let ghost before = header_views(list@);
    list.push(("cookies".to_owned(), String::new()));
    assert(header_views(list@) =~= before.push(("cookies"@, Seq::<char>::empty())));
    Request { url: url.to_owned(), timeout, headers: list }
}

/// Reads a search's response.
pub fn read_search_response(response: Option<String>) -> (found: Result<Vec<TrackItem>, ResponseErr>)
    ensures
        match found {
            Ok(items) => search_result(response_view(response)) == Ok::<Seq<ItemView>, ResponseErr>(
                item_views(items@),
            ),
            Err(kind) => search_result(response_view(response)) == Err::<Seq<ItemView>, ResponseErr>(kind),
        },
{
    match response {
        None => Err(ResponseErr::RequestErr),
        Some(body) => scrape_results(body.as_str()),
    }
}

/// Takes the embedded document out of a page's response.
pub fn read_page_response(response: Option<String>) -> (found: Result<String, ResponseErr>)
    ensures
        match found {
            Ok(json) => embedded_document(response_view(response)) == Ok::<Seq<char>, ResponseErr>(json@),
            Err(kind) => embedded_document(response_view(response)) == Err::<Seq<char>, ResponseErr>(kind),
        },
{
    match response {
        None => Err(ResponseErr::RequestErr),
        Some(body) => match extract_between(
            body.as_str(),
            "<script id=\"__NEXT_DATA__\" type=\"application/json\">",
            "</script>",
        ) {
            Some(json) => Ok(json.to_owned()),
            None => Err(ResponseErr::MalformedResponse),
        },
    }
}

/// Reads a page's response down to its track.
pub fn read_track_response(response: Option<String>) -> (found: Result<TrackInfo, ResponseErr>)
    ensures
        match found {
            Ok(track) => page_result(response_view(response)) == Ok::<TrackView, ResponseErr>(track@),
            Err(kind) => page_result(response_view(response)) == Err::<TrackView, ResponseErr>(kind),
        },
{
    match read_page_response(response) {
        Err(kind) => Err(kind),
        Ok(json) => match TrackInfo::from(json) {
            Some(track) => Ok(track),
            None => Err(ResponseErr::MalformedResponse),
        },
    }
}

/// `fetch` may answer `request` with `response`.
pub open spec fn answers<F: Fn(&Request) -> Option<String>>(
    fetch: F,
    request: RequestView,
    response: Option<Seq<char>>,
) -> bool {
    exists|sent: Request, got: Option<String>|
        sent@ == request && response_view(got) == response && call_ensures(fetch, (&sent,), got)
}

/// `outcome` is what a search's `response` comes to.
pub open spec fn is_search_outcome(response: Option<Seq<char>>, outcome: RetryOutcome<Vec<TrackItem>>) -> bool {
    match search_result(response) {
        Ok(items) => match outcome {
            RetryOutcome::Success(found) => item_views(found@) == items,
            RetryOutcome::Failure(_) => false,
        },
        Err(kind) => outcome == RetryOutcome::<Vec<TrackItem>>::Failure(kind),
    }
}

/// `outcome` is what a page's `response` comes to.
pub open spec fn is_page_outcome(response: Option<Seq<char>>, outcome: RetryOutcome<TrackInfo>) -> bool {
    match page_result(response) {
        Ok(track) => match outcome {
            RetryOutcome::Success(found) => found@ == track,
            RetryOutcome::Failure(_) => false,
        },
        Err(kind) => outcome == RetryOutcome::<TrackInfo>::Failure(kind),
    }
}

/// One search for `keyword`: makes the request through `fetch` and reads the
/// candidates off the response.
pub fn get_urls<F: Fn(&Request) -> Option<String>>(
    keyword: &str,
    timeout: u32,
    headers: &Option<Vec<(String, String)>>,
    fetch: &F,
) -> (found: Result<Vec<TrackItem>, ResponseErr>)
    requires
        forall|request: Request| call_requires(*fetch, (&request,)),
    ensures
        exists|response: Option<Seq<char>>|
            answers(*fetch, search_request(keyword@, timeout, given_headers(*headers)), response)
                && match found {
                Ok(items) => search_result(response) == Ok::<Seq<ItemView>, ResponseErr>(
                    item_views(items@),
                ),
                Err(kind) => search_result(response) == Err::<Seq<ItemView>, ResponseErr>(kind),
            },
{
    let request = make_search_request(keyword, timeout, headers);
    let response = fetch(&request);
    let ghost got = response_view(response);
    assert(answers(*fetch, search_request(keyword@, timeout, given_headers(*headers)), got));
    read_search_response(response)
}

/// One reading of the page at `url`: makes the request through `fetch` and
/// takes the embedded document out of the response. An address that is not
/// that of a lyrics page is refused without a request.
pub fn get_json<F: Fn(&Request) -> Option<String>>(
    url: &str,
    timeout: u32,
    headers: &Option<Vec<(String, String)>>,
    fetch: &F,
) -> (found: Result<String, ResponseErr>)
    requires
        forall|request: Request| call_requires(*fetch, (&request,)),
    ensures
        !is_page_url(url@) ==> found == Err::<String, ResponseErr>(ResponseErr::InvalidUrl),
        is_page_url(url@) ==> exists|response: Option<Seq<char>>|
            answers(*fetch, page_request(url@, timeout, given_headers(*headers)), response)
                && match found {
                Ok(json) => embedded_document(response) == Ok::<Seq<char>, ResponseErr>(json@),
                Err(kind) => embedded_document(response) == Err::<Seq<char>, ResponseErr>(kind),
            },
{
    if !is_musixmatch_url(url) {
        return Err(ResponseErr::InvalidUrl);
    }
    let request = make_page_request(url, timeout, headers);
    let response = fetch(&request);
    let ghost got = response_view(response);
    assert(answers(*fetch, page_request(url@, timeout, given_headers(*headers)), got));
    read_page_response(response)
}

/// Each of `outcomes` is what a response that `fetch` may give to the search
/// `request` comes to.
pub open spec fn is_search_trace<F: Fn(&Request) -> Option<String>>(
    fetch: F,
    request: RequestView,
    outcomes: Seq<RetryOutcome<Vec<TrackItem>>>,
) -> bool {
    forall|i: int|
        0 <= i < outcomes.len() ==> exists|response: Option<Seq<char>>|
            answers(fetch, request, response) && is_search_outcome(response, #[trigger] outcomes[i])
}

/// Each of `outcomes` is what a response that `fetch` may give to the page
/// `request` comes to.
pub open spec fn is_page_trace<F: Fn(&Request) -> Option<String>>(
    fetch: F,
    request: RequestView,
    outcomes: Seq<RetryOutcome<TrackInfo>>,
) -> bool {
    forall|i: int|
        0 <= i < outcomes.len() ==> exists|response: Option<Seq<char>>|
            answers(fetch, request, response) && is_page_outcome(response, #[trigger] outcomes[i])
}

/// A page that holds no opening marker of an embedded document is malformed.
pub proof fn lemma_page_without_document(body: Seq<char>)
    requires
        !occurs_in(body, document_open()),
    ensures
        embedded_document(Some(body)) == Err::<Seq<char>, ResponseErr>(ResponseErr::MalformedResponse),
        page_result(Some(body)) == Err::<TrackView, ResponseErr>(ResponseErr::MalformedResponse),
{
    lemma_between_needs_start(body, document_open(), document_close());
}

/// Where every response that `fetch` may give is a page without the opening
/// marker of an embedded document, reading a page ends as exhausted, after
/// exactly as many attempts as the budget allows, and never with a track.
pub proof fn lemma_markerless_pages_exhaust<F: Fn(&Request) -> Option<String>>(
    fetch: F,
    request: RequestView,
    budget: u32,
    outcomes: Seq<RetryOutcome<TrackInfo>>,
    report: RetryReport<TrackInfo>,
)
    requires
        budget >= 1,
        !(report.state is Pending),
        reports(report, budget, outcomes),
        is_page_trace(fetch, request, outcomes),
        forall|response: Option<Seq<char>>| #[trigger]
            answers(fetch, request, response) ==> response is Some && !occurs_in(
                response->0,
                document_open(),
            ),
    ensures
        report.state == RetryState::<TrackInfo>::FailedExhausted,
        report.attempts == budget,
{
    assert forall|i: int| 0 <= i < outcomes.len() implies (#[trigger] outcomes[i])
        == RetryOutcome::<TrackInfo>::Failure(ResponseErr::MalformedResponse) by {
        let response = choose|response: Option<Seq<char>>|
            answers(fetch, request, response) && is_page_outcome(response, outcomes[i]);
        lemma_page_without_document(response->0);
    }
    lemma_attempts_bounded(budget, outcomes);
    if outcomes.len() < budget {
        assert(all_retryable(outcomes, outcomes.len() as int));
        lemma_run_retrying(budget, outcomes, outcomes.len() as int);
        assert(outcomes.take(outcomes.len() as int) =~= outcomes);
    } else {
        assert(all_retryable(outcomes, budget as int));
        lemma_run_exhausted(budget, outcomes);
    }
}

/// One attempt of a search, as the retry loop takes it.
fn search_attempt<F: Fn(&Request) -> Option<String>>(
    keyword: &str,
    timeout: u32,
    headers: &Option<Vec<(String, String)>>,
    fetch: &F,
) -> (outcome: RetryOutcome<Vec<TrackItem>>)
    requires
        forall|request: Request| call_requires(*fetch, (&request,)),
    ensures
        exists|response: Option<Seq<char>>|
            answers(*fetch, search_request(keyword@, timeout, given_headers(*headers)), response)
                && is_search_outcome(response, outcome),
{
    let found = get_urls(keyword, timeout, headers, fetch);
    let ghost response = choose|response: Option<Seq<char>>|
        answers(*fetch, search_request(keyword@, timeout, given_headers(*headers)), response)
            && match found {
            Ok(items) => search_result(response) == Ok::<Seq<ItemView>, ResponseErr>(item_views(items@)),
            Err(kind) => search_result(response) == Err::<Seq<ItemView>, ResponseErr>(kind),
        };
    let outcome = match found {
        Ok(items) => RetryOutcome::Success(items),
        Err(kind) => RetryOutcome::Failure(kind),
    };
    assert(is_search_outcome(response, outcome));
    outcome
}

/// One attempt of reading a page, as the retry loop takes it.
fn page_attempt<F: Fn(&Request) -> Option<String>>(
    url: &str,
    timeout: u32,
    headers: &Option<Vec<(String, String)>>,
    fetch: &F,
) -> (outcome: RetryOutcome<TrackInfo>)
    requires
        is_page_url(url@),
        forall|request: Request| call_requires(*fetch, (&request,)),
    ensures
        exists|response: Option<Seq<char>>|
            answers(*fetch, page_request(url@, timeout, given_headers(*headers)), response)
                && is_page_outcome(response, outcome),
{
    let found = get_json(url, timeout, headers, fetch);
    let ghost response = choose|response: Option<Seq<char>>|
        answers(*fetch, page_request(url@, timeout, given_headers(*headers)), response) && match found {
            Ok(json) => embedded_document(response) == Ok::<Seq<char>, ResponseErr>(json@),
            Err(kind) => embedded_document(response) == Err::<Seq<char>, ResponseErr>(kind),
        };
    let outcome = match found {
        Err(kind) => RetryOutcome::Failure(kind),
        Ok(json) => match TrackInfo::from(json) {
            Some(track) => RetryOutcome::Success(track),
            None => RetryOutcome::Failure(ResponseErr::MalformedResponse),
        },
    };
    assert(is_page_outcome(response, outcome));
    outcome
}

/// The resolver's settings: how many attempts an operation may make, how long
/// a request may take, and the headers to send.
#[derive(Debug)]
pub struct MxmAPI {
    tries: u32,
    timeout: u32,
    headers: Option<Vec<(String, String)>>,
}

impl MxmAPI {
    #[verifier::type_invariant]
    spec fn has_budget(&self) -> bool {
        self.tries >= 1
    }

    /// The attempts that an operation may make; at least one.
    pub closed spec fn budget(&self) -> u32 {
        self.tries
    }

    /// The milliseconds that a request may take.
    pub closed spec fn patience(&self) -> u32 {
        self.timeout
    }

    /// The headers that each request carries.
    pub closed spec fn sent_headers(&self) -> Seq<(Seq<char>, Seq<char>)> {
        given_headers(self.headers)
    }

    /// `None` for a budget of no attempts.
    pub fn new(tries: u32, timeout: u32, headers: Option<Vec<(String, String)>>) -> (api: Option<Self>)
        ensures
            tries == 0 <==> api is None,
            api matches Some(a) ==> a.budget() == tries && a.patience() == timeout && a.sent_headers()
                == given_headers(headers),
    {
        if tries == 0 {
            None
        } else {
            Some(Self { tries, timeout, headers })
        }
    }

    /// The attempts that an operation may make.
    pub fn tries(&self) -> (tries: u32)
        ensures
            tries == self.budget(),
            tries >= 1,
    {
        proof {
            use_type_invariant(self);
        }
        self.tries
    }

    /// The milliseconds that a request may take.
    pub fn timeout(&self) -> (timeout: u32)
        ensures
            timeout == self.patience(),
    {
        self.timeout
    }

    /// The headers as they were given.
    pub fn headers(&self) -> (headers: &Option<Vec<(String, String)>>)
        ensures
            given_headers(*headers) == self.sent_headers(),
    {
        &self.headers
    }

    /// Searches for `keyword` until a results page gives candidates, a page
    /// fails for good, or the budget is used up.
    pub fn get_possible_links<F: Fn(&Request) -> Option<String>>(&self, keyword: &str, fetch: &F) -> (report:
        RetryReport<Vec<TrackItem>>)
        requires
            forall|request: Request| call_requires(*fetch, (&request,)),
        ensures
            !(report.state is Pending),
            report.state.wf(),
            1 <= report.attempts <= self.budget(),
            exists|outcomes: Seq<RetryOutcome<Vec<TrackItem>>>|
                reports(report, self.budget(), outcomes) && is_search_trace(
                    *fetch,
                    search_request(keyword@, self.patience(), self.sent_headers()),
                    outcomes,
                ),
    {
        proof {
            use_type_invariant(self);
        }
        let ghost request = search_request(keyword@, self.patience(), self.sent_headers());
        let attempt = |n: u32| -> (outcome: RetryOutcome<Vec<TrackItem>>)
            ensures
                exists|response: Option<Seq<char>>|
                    answers(
                        *fetch,
                        search_request(keyword@, self.patience(), self.sent_headers()),
                        response,
                    ) && is_search_outcome(response, outcome),
            {
                search_attempt(keyword, self.timeout, &self.headers, fetch)
            };
        match retry(self.tries, attempt) {
            Some(report) => {
                proof {
                    let outcomes = choose|outcomes: Seq<RetryOutcome<Vec<TrackItem>>>|
                        is_trace(attempt, outcomes) && reports(report, self.tries, outcomes);
                    assert(is_search_trace(*fetch, request, outcomes));
                }
                report
            },
            None => RetryReport { state: RetryState::FailedExhausted, attempts: 0 },
        }
    }

    /// Reads the page at `url` until it gives a track, fails for good, or the
    /// budget is used up. An address that is not that of a lyrics page fails
    /// for good before any attempt.
    pub fn get_from_url<F: Fn(&Request) -> Option<String>>(&self, url: &str, fetch: &F) -> (report: RetryReport<
        TrackInfo,
    >)
        requires
            forall|request: Request| call_requires(*fetch, (&request,)),
        ensures
            !(report.state is Pending),
            report.state.wf(),
            !is_page_url(url@) ==> report.attempts == 0 && report.state == RetryState::<
                TrackInfo,
            >::FailedFatal(ResponseErr::InvalidUrl),
            is_page_url(url@) ==> 1 <= report.attempts <= self.budget() && exists|
                outcomes: Seq<RetryOutcome<TrackInfo>>,
            |
                reports(report, self.budget(), outcomes) && is_page_trace(
                    *fetch,
                    page_request(url@, self.patience(), self.sent_headers()),
                    outcomes,
                ),
    {
        proof {
            use_type_invariant(self);
        }
        if !is_musixmatch_url(url) {
            return RetryReport { state: RetryState::FailedFatal(ResponseErr::InvalidUrl), attempts: 0 };
        }
        let ghost request = page_request(url@, self.patience(), self.sent_headers());
        let attempt = |n: u32| -> (outcome: RetryOutcome<TrackInfo>)
            ensures
                exists|response: Option<Seq<char>>|
                    answers(
                        *fetch,
                        page_request(url@, self.patience(), self.sent_headers()),
                        response,
                    ) && is_page_outcome(response, outcome),
            {
                page_attempt(url, self.timeout, &self.headers, fetch)
            };
        match retry(self.tries, attempt) {
            Some(report) => {
                proof {
                    let outcomes = choose|outcomes: Seq<RetryOutcome<TrackInfo>>|
                        is_trace(attempt, outcomes) && reports(report, self.tries, outcomes);
                    assert(is_page_trace(*fetch, request, outcomes));
                }
                report
            },
            None => RetryReport { state: RetryState::FailedExhausted, attempts: 0 },
        }
    }
}

} // verus!
