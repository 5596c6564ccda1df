use lyr::json::JsonValue;
use lyr::track::{truncate, LyricParagraph, TrackInfo};

fn page(track: &str, rest: &str) -> String {
    format!(
        "{{\"props\":{{\"pageProps\":{{\"data\":{{\"trackInfo\":{{\"data\":{{\"track\":{track}{rest}}}}}}}}}}}}}"
    )
}

fn full_page() -> String {
    page(
        "{\"name\":\"Song\",\"artistName\":\"Artist\",\"albumName\":\"Album\",\
         \"hasLyrics\":true,\"hasTrackStructure\":true,\
         \"artists\":[{\"genres\":[{\"name\":\"Pop\"},{\"name\":\"Rock\"}]}],\
         \"coverImage\":\"https://img.example/c.jpg\",\
         \"releaseDate\":\"1987-07-27T00:00:00Z\",\
         \"spotifyId\":\"4cOdK2wGLETKBW3PvgPWqT\",\"vanityId\":\"Artist/Song\"}",
        ",\"lyrics\":{\"languageDescription\":\"English\",\"body\":\"line one\\nline two\",\
         \"copyright\":\"Writer(s): Someone\"},\
         \"trackStructureList\":[\
         {\"title\":\"verse\",\"lines\":[{\"text\":\"line one\"},{\"text\":\"line two\"}]},\
         {\"title\":\"chorus\",\"lines\":[]}]",
    )
}

#[test]
fn maps_every_field_of_a_full_document() {
    let track = TrackInfo::from(full_page()).expect("valid JSON");
    assert_eq!(track.name, "Song");
    assert_eq!(track.artist, "Artist");
    assert_eq!(track.album, "Album");
    assert!(track.has_lyrics);
    assert!(track.has_lyrics_struct);
    assert_eq!(track.lyrics_lang, "English");
    assert_eq!(track.lyrics, "line one\nline two");
    assert_eq!(track.lyrics_copyright, "Writer(s): Someone");
    assert_eq!(track.genre, "Pop");
    assert_eq!(track.cover, "https://img.example/c.jpg");
    assert_eq!(track.released, "1987-07-27");
    assert_eq!(track.spotify, "https://open.spotify.com/track/4cOdK2wGLETKBW3PvgPWqT");
    assert_eq!(track.musixmatch, "https://musixmatch.com/lyrics/Artist/Song");
    assert_eq!(track.lyrics_struct.len(), 2);
    assert_eq!(track.lyrics_struct[0].title, "verse");
    assert_eq!(track.lyrics_struct[0].lines, vec!["line one".to_string(), "line two".to_string()]);
    assert_eq!(track.lyrics_struct[1].title, "chorus");
    assert!(track.lyrics_struct[1].lines.is_empty());
}

#[test]
fn missing_release_date_gives_the_zero_date() {
    let track = TrackInfo::from(page("{\"name\":\"Song\"}", "")).unwrap();
    assert_eq!(track.released, "0000-00-00");
}

#[test]
fn mistyped_release_date_gives_the_zero_date() {
    let track = TrackInfo::from(page("{\"releaseDate\":19870727}", "")).unwrap();
    assert_eq!(track.released, "0000-00-00");
    let track = TrackInfo::from(page("{\"releaseDate\":null}", "")).unwrap();
    assert_eq!(track.released, "0000-00-00");
}

#[test]
fn long_release_date_is_cut_to_ten_characters() {
    let track = TrackInfo::from(page("{\"releaseDate\":\"2020-01-02T03:04:05Z\"}", "")).unwrap();
    assert_eq!(track.released, "2020-01-02");
    assert_eq!(track.released.chars().count(), 10);
}

#[test]
fn release_date_of_exactly_ten_characters_is_kept() {
    let track = TrackInfo::from(page("{\"releaseDate\":\"2020-01-02\"}", "")).unwrap();
    assert_eq!(track.released, "2020-01-02");
}

#[test]
fn short_release_date_is_kept_whole() {
    let track = TrackInfo::from(page("{\"releaseDate\":\"2020\"}", "")).unwrap();
    assert_eq!(track.released, "2020");
    let track = TrackInfo::from(page("{\"releaseDate\":\"\"}", "")).unwrap();
    assert_eq!(track.released, "");
}

#[test]
fn release_date_is_cut_by_characters() {
    let track = TrackInfo::from(page("{\"releaseDate\":\"éééééééééééé\"}", "")).unwrap();
    assert_eq!(track.released, "éééééééééé");
}

#[test]
fn missing_spotify_id_gives_the_sentinel() {
    let track = TrackInfo::from(page("{\"name\":\"Song\"}", "")).unwrap();
    assert_eq!(track.spotify, "Missing Spotify music ID");
    assert!(!track.spotify.is_empty());
}

#[test]
fn mistyped_spotify_id_gives_the_sentinel() {
    let track = TrackInfo::from(page("{\"spotifyId\":42}", "")).unwrap();
    assert_eq!(track.spotify, "Missing Spotify music ID");
}

#[test]
fn missing_vanity_id_gives_the_sentinel() {
    let track = TrackInfo::from(page("{\"spotifyId\":\"abc\"}", "")).unwrap();
    assert_eq!(track.musixmatch, "Missing Musixmatch ID");
    assert_eq!(track.spotify, "https://open.spotify.com/track/abc");
}

#[test]
fn empty_object_gives_every_default() {
    let track = TrackInfo::from("{}".to_string()).unwrap();
    assert_eq!(track.name, "Unespecified");
    assert_eq!(track.artist, "Unespecified");
    assert_eq!(track.album, "Unespecified");
    assert!(!track.has_lyrics);
    assert!(!track.has_lyrics_struct);
    assert_eq!(track.lyrics_lang, "Unespecified");
    assert_eq!(track.lyrics, "Unespecified");
    assert!(track.lyrics_struct.is_empty());
    assert_eq!(track.lyrics_copyright, "Unespecified");
    assert_eq!(track.genre, "Unespecified");
    assert_eq!(track.cover, "Unespecified");
    assert_eq!(track.released, "0000-00-00");
    assert_eq!(track.spotify, "Missing Spotify music ID");
    assert_eq!(track.musixmatch, "Missing Musixmatch ID");
}

#[test]
fn any_json_value_is_a_document() {
    for text in ["null", "[]", "3", "\"text\"", "true"] {
        let track = TrackInfo::from(text.to_string()).expect("valid JSON");
        assert_eq!(track.name, "Unespecified");
        assert_eq!(track.released, "0000-00-00");
    }
}

#[test]
fn text_that_is_no_json_gives_none() {
    assert!(TrackInfo::from("".to_string()).is_none());
    assert!(TrackInfo::from("{".to_string()).is_none());
    assert!(TrackInfo::from("{\"props\":}".to_string()).is_none());
    assert!(TrackInfo::from("<html></html>".to_string()).is_none());
    assert!(TrackInfo::from("{} trailing".to_string()).is_none());
}

#[test]
fn mistyped_fields_fall_back_one_by_one() {
    let track = TrackInfo::from(page(
        "{\"name\":1,\"artistName\":\"Artist\",\"hasLyrics\":\"yes\",\"hasTrackStructure\":true,\
         \"artists\":{\"genres\":[]},\"coverImage\":[] }",
        ",\"lyrics\":\"none\",\"trackStructureList\":{\"title\":\"x\"}",
    ))
    .unwrap();
    assert_eq!(track.name, "Unespecified");
    assert_eq!(track.artist, "Artist");
    assert!(!track.has_lyrics);
    assert!(track.has_lyrics_struct);
    assert_eq!(track.genre, "Unespecified");
    assert_eq!(track.cover, "Unespecified");
    assert_eq!(track.lyrics, "Unespecified");
    assert!(track.lyrics_struct.is_empty());
}

#[test]
fn genre_is_the_first_genre_of_the_first_artist() {
    let track = TrackInfo::from(page(
        "{\"artists\":[{\"genres\":[{\"name\":\"Jazz\"}]},{\"genres\":[{\"name\":\"Folk\"}]}]}",
        "",
    ))
    .unwrap();
    assert_eq!(track.genre, "Jazz");
    let none = TrackInfo::from(page("{\"artists\":[]}", "")).unwrap();
    assert_eq!(none.genre, "Unespecified");
}

#[test]
fn sections_with_missing_parts_take_defaults() {
    let track = TrackInfo::from(page(
        "{}",
        ",\"trackStructureList\":[{\"lines\":[{\"text\":\"a\"},{\"txt\":\"b\"},7]},{\"title\":\"bridge\"},3]",
    ))
    .unwrap();
    assert_eq!(track.lyrics_struct.len(), 3);
    assert_eq!(track.lyrics_struct[0].title, "Unespecified");
    assert_eq!(
        track.lyrics_struct[0].lines,
        vec!["a".to_string(), "Unespecified".to_string(), "Unespecified".to_string()]
    );
    assert_eq!(track.lyrics_struct[1].title, "bridge");
    assert!(track.lyrics_struct[1].lines.is_empty());
    assert_eq!(track.lyrics_struct[2].title, "Unespecified");
    assert!(track.lyrics_struct[2].lines.is_empty());
}

#[test]
fn from_document_reads_a_hand_built_tree() {
    let track_node = JsonValue::Object(vec![
        ("name".to_string(), JsonValue::Text("Song".to_string())),
        ("hasLyrics".to_string(), JsonValue::Bool(true)),
        ("releaseDate".to_string(), JsonValue::Text("1999-12-31T23:59:59".to_string())),
        ("spotifyId".to_string(), JsonValue::Text("id1".to_string())),
    ]);
    let mut doc = JsonValue::Object(vec![("track".to_string(), track_node)]);
    for key in ["data", "trackInfo", "data", "pageProps", "props"] {
        doc = JsonValue::Object(vec![(key.to_string(), doc)]);
    }
    let track = TrackInfo::from_document(&doc);
    assert_eq!(track.name, "Song");
    assert!(track.has_lyrics);
    assert_eq!(track.released, "1999-12-31");
    assert_eq!(track.spotify, "https://open.spotify.com/track/id1");
    assert_eq!(track.artist, "Unespecified");
}

#[test]
fn from_agrees_with_from_document() {
    let doc = JsonValue::parse(&full_page()).unwrap();
    assert_eq!(TrackInfo::from_document(&doc), TrackInfo::from(full_page()).unwrap());
}

#[test]
fn vec_of_missing_list_is_empty() {
    assert!(LyricParagraph::vec_of(None).is_empty());
    assert!(LyricParagraph::vec_of(Some(&JsonValue::Null)).is_empty());
    assert!(LyricParagraph::vec_of(Some(&JsonValue::Array(vec![]))).is_empty());
}

#[test]
fn vec_of_reads_titles_and_lines() {
    let section = JsonValue::Object(vec![
        ("title".to_string(), JsonValue::Text("verse".to_string())),
        (
            "lines".to_string(),
            JsonValue::Array(vec![JsonValue::Object(vec![(
                "text".to_string(),
                JsonValue::Text("la la".to_string()),
            )])]),
        ),
    ]);
    let list = JsonValue::Array(vec![section]);
    let sections = LyricParagraph::vec_of(Some(&list));
    assert_eq!(sections.len(), 1);
    assert_eq!(sections[0].title, "verse");
    assert_eq!(sections[0].lines, vec!["la la".to_string()]);
}

#[test]
fn truncate_takes_the_first_characters() {
    assert_eq!(truncate("abcdef", 3), "abc");
    assert_eq!(truncate("abc", 3), "abc");
    assert_eq!(truncate("ab", 3), "ab");
    assert_eq!(truncate("abc", 0), "");
    assert_eq!(truncate("", 10), "");
}
