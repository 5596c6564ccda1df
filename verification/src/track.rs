//! The track record and its mapping from a page's JSON document.

use vstd::prelude::*;
use crate::json::{json_document, JsonValue};

verus! {

/// One named section of a structured lyrics body.
#[derive(Clone, Debug, PartialEq, Eq)]
pub struct LyricParagraph {
    pub lines: Vec<String>,
    pub title: String,
}

/// What a `LyricParagraph` holds, as texts.
pub struct ParagraphView {
    pub lines: Seq<Seq<char>>,
    pub title: Seq<char>,
}

/// The texts of a list of strings.
pub open spec fn line_views(lines: Seq<String>) -> Seq<Seq<char>> {
    Seq::new(lines.len(), |i: int| lines[i]@)
}

/// The views of a list of sections.
pub open spec fn paragraph_views(sections: Seq<LyricParagraph>) -> Seq<ParagraphView> {
    Seq::new(sections.len(), |i: int| sections[i]@)
}

impl View for LyricParagraph {
    type V = ParagraphView;

    open spec fn view(&self) -> ParagraphView {
        ParagraphView {
            lines: line_views(self.lines@),
            title: self.title@,
        }
    }
}

/// A resolved track.
#[derive(Clone, Debug, PartialEq, Eq)]
pub struct TrackInfo {
    /// Song title
    pub name: String,
    /// Song artist or group
    pub artist: String,
    /// Album containing the song
    pub album: String,
    /// Whether the song has lyrics available
    pub has_lyrics: bool,
    /// Whether the lyrics come with a section structure
    pub has_lyrics_struct: bool,
    /// Name of the language of the lyrics
    pub lyrics_lang: String,
    /// The lyrics as one text
    pub lyrics: String,
    /// The lyrics section by section
    pub lyrics_struct: Vec<LyricParagraph>,
    /// Lyrics copyright notice
    pub lyrics_copyright: String,
    /// Primary genre of the song
    pub genre: String,
    /// Cover image URL
    pub cover: String,
    /// Release date, `YYYY-MM-DD`
    pub released: String,
    /// Spotify URL of the song
    pub spotify: String,
    /// Musixmatch URL of the song
    pub musixmatch: String,
}

/// What a `TrackInfo` holds, as texts.
pub struct TrackView {
    pub name: Seq<char>,
    pub artist: Seq<char>,
    pub album: Seq<char>,
    pub has_lyrics: bool,
    pub has_lyrics_struct: bool,
    pub lyrics_lang: Seq<char>,
    pub lyrics: Seq<char>,
    pub lyrics_struct: Seq<ParagraphView>,
    pub lyrics_copyright: Seq<char>,
    pub genre: Seq<char>,
    pub cover: Seq<char>,
    pub released: Seq<char>,
    pub spotify: Seq<char>,
    pub musixmatch: Seq<char>,
}

impl View for TrackInfo {
    type V = TrackView;

    open spec fn view(&self) -> TrackView {
        TrackView {
            name: self.name@,
            artist: self.artist@,
            album: self.album@,
            has_lyrics: self.has_lyrics,
            has_lyrics_struct: self.has_lyrics_struct,
            lyrics_lang: self.lyrics_lang@,
            lyrics: self.lyrics@,
            lyrics_struct: paragraph_views(self.lyrics_struct@),
            lyrics_copyright: self.lyrics_copyright@,
            genre: self.genre@,
            cover: self.cover@,
            released: self.released@,
            spotify: self.spotify@,
            musixmatch: self.musixmatch@,
        }
    }
}

/// The text given to a string field that the document lacks or mistypes.
pub open spec fn unspecified() -> Seq<char> {
    "Unespecified"@
}

/// The member `key` of `node`, where there is a node.
pub open spec fn descend(node: Option<JsonValue>, key: Seq<char>) -> Option<JsonValue> {
    match node {
        Some(v) => v.member(key),
        None => None,
    }
}

/// The element `index` of `node`, where there is a node.
pub open spec fn descend_at(node: Option<JsonValue>, index: int) -> Option<JsonValue> {
    match node {
        Some(v) => v.element(index),
        None => None,
    }
}

/// The text of `node`, where it is a string.
pub open spec fn text_of(node: Option<JsonValue>) -> Option<Seq<char>> {
    match node {
        Some(v) => v.text(),
        None => None,
    }
}

/// The text of `node`, or `default` where `node` is missing or no string.
pub open spec fn text_or(node: Option<JsonValue>, default: Seq<char>) -> Seq<char> {
    match text_of(node) {
        Some(s) => s,
        None => default,
    }
}

/// The truth value of `node`, or `false` where `node` is missing or no boolean.
pub open spec fn flag_or_false(node: Option<JsonValue>) -> bool {
    match node {
        Some(JsonValue::Bool(b)) => b,
        _ => false,
    }
}

/// The first `limit` characters of `s`, or all of `s` where it has fewer.
pub open spec fn truncated(s: Seq<char>, limit: int) -> Seq<char> {
    if s.len() > limit {
        s.subrange(0, limit)
    } else {
        s
    }
}

/// `template` followed by the identifier in `node`, or `missing` where `node`
/// holds no string.
pub open spec fn link_or(node: Option<JsonValue>, template: Seq<char>, missing: Seq<char>) -> Seq<char> {
    match text_of(node) {
        Some(id) => template + id,
        None => missing,
    }
}

/// The node under which a page keeps everything about its track.
pub open spec fn info_node(doc: JsonValue) -> Option<JsonValue> {
    descend(
        descend(descend(descend(descend(Some(doc), "props"@), "pageProps"@), "data"@), "trackInfo"@),
        "data"@,
    )
}

/// The node that describes the track itself.
pub open spec fn track_node(doc: JsonValue) -> Option<JsonValue> {
    descend(info_node(doc), "track"@)
}

/// The node that holds the lyrics.
pub open spec fn lyrics_node(doc: JsonValue) -> Option<JsonValue> {
    descend(info_node(doc), "lyrics"@)
}

/// The name of the first genre of the track's first artist.
pub open spec fn genre_node(doc: JsonValue) -> Option<JsonValue> {
    descend(
        descend_at(descend(descend_at(descend(track_node(doc), "artists"@), 0), "genres"@), 0),
        "name"@,
    )
}

/// The lines of one section: the `text` of each element of `lines`, none where
/// `lines` is missing or no array.
pub open spec fn lines_of(lines: Option<JsonValue>) -> Seq<Seq<char>> {
    match lines {
        Some(JsonValue::Array(items)) => Seq::new(
            items@.len(),
            |i: int| text_or(items@[i].member("text"@), unspecified()),
        ),
        _ => Seq::empty(),
    }
}

/// One section: its `title` and the lines under `lines`.
pub open spec fn paragraph_of(section: JsonValue) -> ParagraphView {
    ParagraphView {
        lines: lines_of(section.member("lines"@)),
        title: text_or(section.member("title"@), unspecified()),
    }
}

/// The sections of a structure list, none where the list is missing or no array.
pub open spec fn paragraphs_of(list: Option<JsonValue>) -> Seq<ParagraphView> {
    match list {
        Some(JsonValue::Array(sections)) => Seq::new(
            sections@.len(),
            |i: int| paragraph_of(sections@[i]),
        ),
        _ => Seq::empty(),
    }
}

/// The track that a page's document describes. Each field is looked up on its
/// own and falls back to its default.
pub open spec fn track_of(doc: JsonValue) -> TrackView {
    let track = track_node(doc);
    let lyrics = lyrics_node(doc);
    TrackView {
        name: text_or(descend(track, "name"@), unspecified()),
        artist: text_or(descend(track, "artistName"@), unspecified()),
        album: text_or(descend(track, "albumName"@), unspecified()),
        has_lyrics: flag_or_false(descend(track, "hasLyrics"@)),
        has_lyrics_struct: flag_or_false(descend(track, "hasTrackStructure"@)),
        lyrics_lang: text_or(descend(lyrics, "languageDescription"@), unspecified()),
        lyrics: text_or(descend(lyrics, "body"@), unspecified()),
        lyrics_struct: paragraphs_of(descend(info_node(doc), "trackStructureList"@)),
        lyrics_copyright: text_or(descend(lyrics, "copyright"@), unspecified()),
        genre: text_or(genre_node(doc), unspecified()),
        cover: text_or(descend(track, "coverImage"@), unspecified()),
        released: truncated(text_or(descend(track, "releaseDate"@), "0000-00-00"@), 10),
        spotify: link_or(
            descend(track, "spotifyId"@),
            "https://open.spotify.com/track/"@,
            "Missing Spotify music ID"@,
        ),
        musixmatch: link_or(
            descend(track, "vanityId"@),
            "https://musixmatch.com/lyrics/"@,
            "Missing Musixmatch ID"@,
        ),
    }
}

/// A document whose track has no release date, or one that is no string, gives
/// the date `0000-00-00`.
pub proof fn lemma_release_date_default(doc: JsonValue)
    requires
        text_of(descend(track_node(doc), "releaseDate"@)) is None,
    ensures
        track_of(doc).released == "0000-00-00"@,
{
    reveal_strlit("0000-00-00");
}

/// A release date of more than ten characters is cut to its first ten; a
/// shorter one is kept whole.
pub proof fn lemma_release_date_truncated(doc: JsonValue, date: Seq<char>)
    requires
        text_of(descend(track_node(doc), "releaseDate"@)) == Some(date),
    ensures
        date.len() > 10 ==> track_of(doc).released == date.subrange(0, 10)
            && track_of(doc).released.len() == 10,
        date.len() <= 10 ==> track_of(doc).released == date,
{
}

/// A document whose track has no Spotify identifier gives the text that says
/// so, which is not empty.
pub proof fn lemma_spotify_missing(doc: JsonValue)
    requires
        text_of(descend(track_node(doc), "spotifyId"@)) is None,
    ensures
        track_of(doc).spotify == "Missing Spotify music ID"@,
        track_of(doc).spotify.len() > 0,
{
    reveal_strlit("Missing Spotify music ID");
}

/// A Spotify identifier is set behind the address of Spotify's track pages.
pub proof fn lemma_spotify_link(doc: JsonValue, id: Seq<char>)
    requires
        text_of(descend(track_node(doc), "spotifyId"@)) == Some(id),
    ensures
        track_of(doc).spotify == "https://open.spotify.com/track/"@ + id,
{
}

fn child<'a>(node: Option<&'a JsonValue>, key: &str) -> (found: Option<&'a JsonValue>)
    ensures
        match found {
            Some(v) => descend(as_value(node), key@) == Some(*v),
            None => descend(as_value(node), key@) is None,
        },
{
    match node {
        Some(v) => v.get(key),
        None => None,
    }
}

fn child_at<'a>(node: Option<&'a JsonValue>, index: usize) -> (found: Option<&'a JsonValue>)
    ensures
        match found {
            Some(v) => descend_at(as_value(node), index as int) == Some(*v),
            None => descend_at(as_value(node), index as int) is None,
        },
{
    match node {
        Some(v) => v.at(index),
        None => None,
    }
}

/// The value behind an optional reference.
pub open spec fn as_value(node: Option<&JsonValue>) -> Option<JsonValue> {
    match node {
        Some(v) => Some(*v),
        None => None,
    }
}

fn string_or(node: Option<&JsonValue>, default: &str) -> (out: String)
    ensures
        out@ == text_or(as_value(node), default@),
{
    match node {
        Some(v) => match v.as_str() {
            Some(s) => s.to_owned(),
            None => default.to_owned(),
        },
        None => default.to_owned(),
    }
}

fn bool_or_false(node: Option<&JsonValue>) -> (out: bool)
    ensures
        out == flag_or_false(as_value(node)),
{
    match node {
        Some(v) => match v.as_bool() {
            Some(b) => b,
            None => false,
        },
        None => false,
    }
}

fn link_string(node: Option<&JsonValue>, template: &str, missing: &str) -> (out: String)
    ensures
        out@ == link_or(as_value(node), template@, missing@),
{
    match node {
        Some(v) => match v.as_str() {
            Some(id) => template.to_owned().concat(id),
            None => missing.to_owned(),
        },
        None => missing.to_owned(),
    }
}

fn lines_from(lines: Option<&JsonValue>) -> (out: Vec<String>)
    ensures
        line_views(out@) == lines_of(as_value(lines)),
{
    let mut out: Vec<String> = Vec::new();
    if let Some(node) = lines {
        if let Some(items) = node.as_array() {
            let mut i: usize = 0;
            while i < items.len()
                invariant
                    i <= items.len(),
                    out.len() == i,
                    node.items() == Some(items@),
                    forall|k: int|
                        0 <= k < i ==> (#[trigger] out@[k])@ == text_or(
                            items@[k].member("text"@),
                            unspecified(),
                        ),
                decreases items.len() - i,
            {
                let text = string_or(items[i].get("text"), "Unespecified");
                out.push(text);
                i += 1;
            }
            assert(line_views(out@) =~= lines_of(as_value(lines)));
            return out;
        }
    }
    assert(line_views(out@) =~= lines_of(as_value(lines)));
    out
}

impl LyricParagraph {
    /// The sections of a structure list: for each element its `title` and the
    /// `text` of each of its `lines`. A missing list gives no sections.
    pub fn vec_of(data: Option<&JsonValue>) -> (out: Vec<LyricParagraph>)
        ensures
            paragraph_views(out@) == paragraphs_of(as_value(data)),
    {
        let mut out: Vec<LyricParagraph> = Vec::new();
        if let Some(node) = data {
            if let Some(sections) = node.as_array() {
                let mut i: usize = 0;
                while i < sections.len()
                    invariant
                        i <= sections.len(),
                        out.len() == i,
                        node.items() == Some(sections@),
                        forall|k: int| 0 <= k < i ==> (#[trigger] out@[k])@ == paragraph_of(sections@[k]),
                    decreases sections.len() - i,
                {
                    let section = &sections[i];
                    let paragraph = LyricParagraph {
                        lines: lines_from(section.get("lines")),
                        title: string_or(section.get("title"), "Unespecified"),
                    };
                    out.push(paragraph);
                    i += 1;
                }
                assert(paragraph_views(out@) =~= paragraphs_of(as_value(data)));
                return out;
            }
        }
        assert(paragraph_views(out@) =~= paragraphs_of(as_value(data)));
        out
    }
}

impl TrackInfo {
    /// Maps a page's document to its track. Never fails: each field that the
    /// document lacks or mistypes takes its default.
    pub fn from_document(doc: &JsonValue) -> (track: TrackInfo)
        ensures
            track@ == track_of(*doc),
    {
        let info = child(
            child(child(child(child(Some(doc), "props"), "pageProps"), "data"), "trackInfo"),
            "data",
        );
        let node = child(info, "track");
        let lyrics = child(info, "lyrics");
        let genre = child(
            child_at(child(child_at(child(node, "artists"), 0), "genres"), 0),
            "name",
        );
        let date = string_or(child(node, "releaseDate"), "0000-00-00");
        TrackInfo {
            name: string_or(child(node, "name"), "Unespecified"),
            artist: string_or(child(node, "artistName"), "Unespecified"),
            album: string_or(child(node, "albumName"), "Unespecified"),
            has_lyrics: bool_or_false(child(node, "hasLyrics")),
            has_lyrics_struct: bool_or_false(child(node, "hasTrackStructure")),
            lyrics_lang: string_or(child(lyrics, "languageDescription"), "Unespecified"),
            lyrics: string_or(child(lyrics, "body"), "Unespecified"),
            lyrics_struct: LyricParagraph::vec_of(child(info, "trackStructureList")),
            lyrics_copyright: string_or(child(lyrics, "copyright"), "Unespecified"),
            genre: string_or(genre, "Unespecified"),
            cover: string_or(child(node, "coverImage"), "Unespecified"),
            released: truncate(date.as_str(), 10),
            spotify: link_string(
                child(node, "spotifyId"),
                "https://open.spotify.com/track/",
                "Missing Spotify music ID",
            ),
            musixmatch: link_string(
                child(node, "vanityId"),
                "https://musixmatch.com/lyrics/",
                "Missing Musixmatch ID",
            ),
        }
    }

    /// Reads `json` as a page's document and maps it to its track. `None` only
    /// where `json` is no JSON document.
    pub fn from(json: String) -> (track: Option<TrackInfo>)
        ensures
            match track {
                Some(t) => json_document(json@) matches Some(doc) && t@ == track_of(doc),
                None => json_document(json@) is None,
            },
    {
        match JsonValue::parse(json.as_str()) {
            Some(doc) => Some(TrackInfo::from_document(&doc)),
            None => None,
        }
    }
}

/// The first `limit` characters of `s`.
pub fn truncate(s: &str, limit: usize) -> (out: String)
    ensures
        out@ == truncated(s@, limit as int),
{
    if s.unicode_len() > limit {
        s.substring_char(0, limit).to_owned()
    } else {
        s.to_owned()
    }
}

} // verus!
