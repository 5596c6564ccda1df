use lyr::mxm::{
    get_json, get_urls, make_page_request, make_search_request, read_page_response,
    read_search_response, read_track_response, MxmAPI, Request,
};
use lyr::retry::{ResponseErr, RetryState};
use lyr::search::TrackItem;
use std::cell::{Cell, RefCell};

const PAGE: &str = "https://www.musixmatch.com/lyrics/Artist/Song";
const OPEN: &str = "<script id=\"__NEXT_DATA__\" type=\"application/json\">";
const ANCHOR: &str = "<a jsname=\"UWckNb\" class=\"VfSr4c\" href=\"";
const HEADING: &str = "<br><h3 class=\"LC20lb MBeuO DKV0Md\">";
const CAPTCHA: &str = "<script src=\"https://www.google.com/recaptcha/api.js\" async defer></script>";

fn html(json: &str) -> String {
    format!("<html><head>{OPEN}{json}</script></head><body></body></html>")
}

fn track_json(name: &str) -> String {
    format!(
        "{{\"props\":{{\"pageProps\":{{\"data\":{{\"trackInfo\":{{\"data\":{{\"track\":{{\"name\":\"{name}\"}}}}}}}}}}}}}}"
    )
}

fn results(url: &str, desc: &str) -> String {
    format!("{ANCHOR}{url}\">{HEADING}{desc}</h3></a>")
}

fn api(tries: u32) -> MxmAPI {
    MxmAPI::new(tries, 5000, Some(vec![("user-agent".to_string(), "test".to_string())])).unwrap()
}

#[test]
fn new_refuses_a_budget_of_none() {
    assert!(MxmAPI::new(0, 5000, None).is_none());
    let made = MxmAPI::new(3, 250, None).unwrap();
    assert_eq!(made.tries(), 3);
    assert_eq!(made.timeout(), 250);
}

#[test]
fn search_request_interpolates_the_keyword() {
    let request = make_search_request("never gonna", 1500, &None);
    assert_eq!(
        request.url,
        "https://www.google.com/search?q=site%3Amusixmatch.com%2Flyrics%20lyrics%20never gonna"
    );
    assert_eq!(request.timeout, 1500);
    assert!(request.headers.is_empty());
}

#[test]
fn search_request_carries_the_headers_given() {
    let headers = Some(vec![("dnt".to_string(), "1".to_string())]);
    let request = make_search_request("", 1, &headers);
    assert_eq!(
        request.url,
        "https://www.google.com/search?q=site%3Amusixmatch.com%2Flyrics%20lyrics%20"
    );
    assert_eq!(request.headers, vec![("dnt".to_string(), "1".to_string())]);
}

#[test]
fn page_request_adds_an_empty_cookies_header() {
    let headers = Some(vec![("dnt".to_string(), "1".to_string())]);
    let request = make_page_request(PAGE, 900, &headers);
    assert_eq!(request.url, PAGE);
    assert_eq!(request.timeout, 900);
    assert_eq!(
        request.headers,
        vec![("dnt".to_string(), "1".to_string()), ("cookies".to_string(), String::new())]
    );
    let bare = make_page_request(PAGE, 900, &None);
    assert_eq!(bare.headers, vec![("cookies".to_string(), String::new())]);
}

#[test]
fn search_response_that_did_not_arrive_is_a_request_error() {
    assert_eq!(read_search_response(None), Err(ResponseErr::RequestErr));
}

#[test]
fn search_response_is_read_as_a_results_page() {
    assert_eq!(
        read_search_response(Some(results(PAGE, "Song"))),
        Ok(vec![TrackItem::new(PAGE.to_string(), "Song".to_string())])
    );
    assert_eq!(read_search_response(Some(String::new())), Err(ResponseErr::NoEnoughData));
    assert_eq!(read_search_response(Some(CAPTCHA.to_string())), Err(ResponseErr::Captcha));
}

#[test]
fn page_response_gives_the_embedded_document() {
    assert_eq!(read_page_response(Some(html("{\"a\":1}"))), Ok("{\"a\":1}".to_string()));
    assert_eq!(read_page_response(Some(html(""))), Ok(String::new()));
}

#[test]
fn page_response_without_document_is_malformed() {
    assert_eq!(read_page_response(Some("<html></html>".to_string())), Err(ResponseErr::MalformedResponse));
    assert_eq!(
        read_page_response(Some(format!("{OPEN}{{}}"))),
        Err(ResponseErr::MalformedResponse)
    );
    assert_eq!(read_page_response(None), Err(ResponseErr::RequestErr));
}

#[test]
fn track_response_with_broken_document_is_malformed() {
    assert_eq!(read_track_response(Some(html("{not json"))), Err(ResponseErr::MalformedResponse));
    assert_eq!(read_track_response(Some(html(""))), Err(ResponseErr::MalformedResponse));
    assert_eq!(read_track_response(None), Err(ResponseErr::RequestErr));
    assert_eq!(read_track_response(Some(html(&track_json("Song")))).unwrap().name, "Song");
}

#[test]
fn get_urls_hands_the_search_request_to_fetch() {
    let seen: RefCell<Vec<Request>> = RefCell::new(Vec::new());
    let fetch = |request: &Request| {
        seen.borrow_mut().push(request.clone());
        Some(results(PAGE, "Song"))
    };
    let found = get_urls("song", 777, &None, &fetch);
    assert_eq!(found, Ok(vec![TrackItem::new(PAGE.to_string(), "Song".to_string())]));
    assert_eq!(seen.borrow().len(), 1);
    assert_eq!(seen.borrow()[0], make_search_request("song", 777, &None));
}

#[test]
fn get_urls_reports_a_failed_request() {
    let fetch = |_: &Request| None;
    assert_eq!(get_urls("song", 777, &None, &fetch), Err(ResponseErr::RequestErr));
}

#[test]
fn get_json_refuses_an_invalid_address_without_a_request() {
    let calls = Cell::new(0u32);
    let fetch = |_: &Request| {
        calls.set(calls.get() + 1);
        Some(html("{}"))
    };
    assert_eq!(get_json("https://example.com/x", 1, &None, &fetch), Err(ResponseErr::InvalidUrl));
    assert_eq!(calls.get(), 0);
    assert_eq!(get_json(PAGE, 1, &None, &fetch), Ok("{}".to_string()));
    assert_eq!(calls.get(), 1);
}

#[test]
fn get_from_url_refuses_an_invalid_address_without_an_attempt() {
    let calls = Cell::new(0u32);
    let fetch = |_: &Request| {
        calls.set(calls.get() + 1);
        Some(html(&track_json("Song")))
    };
    let report = api(5).get_from_url("never gonna give you up", &fetch);
    assert_eq!(report.state, RetryState::FailedFatal(ResponseErr::InvalidUrl));
    assert_eq!(report.attempts, 0);
    assert_eq!(calls.get(), 0);
}

#[test]
fn get_from_url_gives_the_track_of_the_page() {
    let seen: RefCell<Vec<Request>> = RefCell::new(Vec::new());
    let fetch = |request: &Request| {
        seen.borrow_mut().push(request.clone());
        Some(html(&track_json("Song")))
    };
    let report = api(5).get_from_url(PAGE, &fetch);
    assert_eq!(report.attempts, 1);
    match report.state {
        RetryState::Succeeded(track) => {
            assert_eq!(track.name, "Song");
            assert_eq!(track.released, "0000-00-00");
        },
        other => panic!("unexpected state {:?}", other),
    }
    assert_eq!(seen.borrow().len(), 1);
    assert_eq!(seen.borrow()[0].url, PAGE);
    assert_eq!(seen.borrow()[0].timeout, 5000);
    assert_eq!(
        seen.borrow()[0].headers,
        vec![("user-agent".to_string(), "test".to_string()), ("cookies".to_string(), String::new())]
    );
}

#[test]
fn body_without_document_marker_exhausts_the_budget() {
    for tries in [1u32, 2, 5] {
        let calls = Cell::new(0u32);
        let fetch = |_: &Request| {
            calls.set(calls.get() + 1);
            Some("<html><body>no data here</body></html>".to_string())
        };
        let report = api(tries).get_from_url(PAGE, &fetch);
        assert_eq!(report.state, RetryState::FailedExhausted);
        assert_eq!(report.attempts, tries);
        assert_eq!(calls.get(), tries);
    }
}

#[test]
fn get_from_url_retries_until_a_page_has_its_document() {
    let calls = Cell::new(0u32);
    let fetch = |_: &Request| {
        calls.set(calls.get() + 1);
        match calls.get() {
            1 => None,
            2 => Some("<html></html>".to_string()),
            3 => Some(html("{broken")),
            _ => Some(html(&track_json("Late"))),
        }
    };
    let report = api(5).get_from_url(PAGE, &fetch);
    assert_eq!(report.attempts, 4);
    assert_eq!(calls.get(), 4);
    match report.state {
        RetryState::Succeeded(track) => assert_eq!(track.name, "Late"),
        other => panic!("unexpected state {:?}", other),
    }
}

#[test]
fn get_possible_links_gives_the_candidates() {
    let fetch = |_: &Request| Some(results(PAGE, "Song - Artist"));
    let report = api(3).get_possible_links("song", &fetch);
    assert_eq!(report.attempts, 1);
    assert_eq!(
        report.state,
        RetryState::Succeeded(vec![TrackItem::new(PAGE.to_string(), "Song - Artist".to_string())])
    );
}

#[test]
fn get_possible_links_stops_at_a_captcha() {
    let calls = Cell::new(0u32);
    let fetch = |_: &Request| {
        calls.set(calls.get() + 1);
        Some(format!("<html>{CAPTCHA}</html>"))
    };
    let report = api(5).get_possible_links("song", &fetch);
    assert_eq!(report.state, RetryState::FailedFatal(ResponseErr::Captcha));
    assert_eq!(report.attempts, 1);
    assert_eq!(calls.get(), 1);
}

#[test]
fn get_possible_links_stops_at_js_enforcement() {
    let calls = Cell::new(0u32);
    let fetch = |_: &Request| {
        calls.set(calls.get() + 1);
        if calls.get() < 3 {
            None
        } else {
            Some("<a href=\"/httpservice/retry/enablejs?x\">".to_string())
        }
    };
    let report = api(5).get_possible_links("song", &fetch);
    assert_eq!(report.state, RetryState::FailedFatal(ResponseErr::JsEnforcement));
    assert_eq!(report.attempts, 3);
}

#[test]
fn get_possible_links_exhausts_on_empty_pages() {
    let calls = Cell::new(0u32);
    let fetch = |request: &Request| {
        calls.set(calls.get() + 1);
        assert_eq!(
            request.url,
            "https://www.google.com/search?q=site%3Amusixmatch.com%2Flyrics%20lyrics%20a song"
        );
        Some("<html></html>".to_string())
    };
    let report = api(4).get_possible_links("a song", &fetch);
    assert_eq!(report.state, RetryState::FailedExhausted);
    assert_eq!(report.attempts, 4);
    assert_eq!(calls.get(), 4);
}

#[test]
fn get_possible_links_succeeds_on_the_last_attempt() {
    let calls = Cell::new(0u32);
    let fetch = |_: &Request| {
        calls.set(calls.get() + 1);
        if calls.get() < 3 {
            None
        } else {
            Some(results(PAGE, "Song"))
        }
    };
    let report = api(3).get_possible_links("song", &fetch);
    assert_eq!(report.attempts, 3);
    assert_eq!(
        report.state,
        RetryState::Succeeded(vec![TrackItem::new(PAGE.to_string(), "Song".to_string())])
    );
}

#[test]
fn settings_hand_back_the_headers_given() {
    let given = Some(vec![("dnt".to_string(), "1".to_string())]);
    let made = MxmAPI::new(1, 1, given.clone()).unwrap();
    assert_eq!(made.headers(), &given);
    assert_eq!(MxmAPI::new(1, 1, None).unwrap().headers(), &None);
}
