use lyr::cli::{pick_index, pick_url, read_query, PickErr, Query};
use lyr::config::{AuthTokens, ConfigMe, Interactions};
use lyr::search::TrackItem;

fn words(list: &[&str]) -> Vec<String> {
    list.iter().map(|w| w.to_string()).collect()
}

#[test]
fn no_words_ask_for_nothing() {
    assert_eq!(read_query(&words(&[])), None);
}

#[test]
fn page_address_asks_for_the_page() {
    let url = "https://www.musixmatch.com/lyrics/Artist/Song";
    assert_eq!(read_query(&words(&[url])), Some(Query::Page(url.to_string())));
    assert_eq!(read_query(&words(&[url, "more"])), Some(Query::Page(url.to_string())));
}

#[test]
fn other_words_are_joined_into_a_search() {
    assert_eq!(
        read_query(&words(&["never", "gonna", "give"])),
        Some(Query::Search("never gonna give".to_string()))
    );
    assert_eq!(read_query(&words(&["one"])), Some(Query::Search("one".to_string())));
    assert_eq!(read_query(&words(&["", ""])), Some(Query::Search(" ".to_string())));
    assert_eq!(
        read_query(&words(&["song", "https://www.musixmatch.com/lyrics/A/S"])),
        Some(Query::Search("song https://www.musixmatch.com/lyrics/A/S".to_string()))
    );
}

#[test]
fn digits_pick_their_number() {
    assert_eq!(pick_index(b'0', 3), Ok(0));
    assert_eq!(pick_index(b'2', 3), Ok(2));
    assert_eq!(pick_index(b'9', 10), Ok(9));
}

#[test]
fn what_is_no_digit_picks_nothing() {
    assert_eq!(pick_index(b'/', 3), Err(PickErr::NotADigit));
    assert_eq!(pick_index(b':', 3), Err(PickErr::NotADigit));
    assert_eq!(pick_index(b'a', 3), Err(PickErr::NotADigit));
    assert_eq!(pick_index(b'\n', 3), Err(PickErr::NotADigit));
    assert_eq!(pick_index(0, 3), Err(PickErr::NotADigit));
    assert_eq!(pick_index(255, 3), Err(PickErr::NotADigit));
}

#[test]
fn digit_past_the_last_candidate_is_out_of_bounds() {
    assert_eq!(pick_index(b'3', 3), Err(PickErr::OutOfBounds(3)));
    assert_eq!(pick_index(b'0', 0), Err(PickErr::OutOfBounds(0)));
    assert_eq!(pick_index(b'9', 9), Err(PickErr::OutOfBounds(9)));
}

#[test]
fn pick_url_gives_the_candidate() {
    let urls = vec![
        TrackItem::new("u0".to_string(), "d0".to_string()),
        TrackItem::new("u1".to_string(), "d1".to_string()),
    ];
    assert_eq!(pick_url(&urls, b'1'), Ok(&urls[1]));
    assert_eq!(pick_url(&urls, b'0'), Ok(&urls[0]));
    assert_eq!(pick_url(&urls, b'2'), Err(PickErr::OutOfBounds(2)));
    assert_eq!(pick_url(&urls, b'x'), Err(PickErr::NotADigit));
}

fn config(channel: Option<&str>, name: Option<&str>, spotify: Option<&str>, twitch: Option<&str>) -> ConfigMe {
    ConfigMe {
        channel: channel.map(|s| s.to_string()),
        name: name.map(|s| s.to_string()),
        auth: AuthTokens { spotify: spotify.map(|s| s.to_string()), twitch: twitch.map(|s| s.to_string()) },
        interact: Interactions { replies: None, patterns: Some(vec![]), runners: None },
    }
}

#[test]
fn complete_settings_are_kept_as_they_are() {
    let cfg = config(Some("room"), Some("bot"), Some("s"), Some("t"));
    assert_eq!(cfg.clone().checked(), Some(cfg));
}

#[test]
fn settings_with_a_missing_part_are_refused() {
    assert_eq!(config(None, Some("bot"), Some("s"), Some("t")).checked(), None);
    assert_eq!(config(Some("room"), None, Some("s"), Some("t")).checked(), None);
    assert_eq!(config(Some("room"), Some("bot"), None, Some("t")).checked(), None);
    assert_eq!(config(Some("room"), Some("bot"), Some("s"), None).checked(), None);
}
