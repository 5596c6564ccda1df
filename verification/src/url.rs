//! Which strings are addresses of a lyrics page, and which links are
//! translations of another page.

use vstd::prelude::*;
use crate::text::{
    chars_of, find_from, first_occurrence, lemma_first_occurrence_found,
    lemma_first_occurrence_none, matches_at, occurs_at, occurs_in,
};

verus! {

/// The scheme of a page's address.
pub open spec fn scheme_text(secure: bool) -> Seq<char> {
    "http"@ + (if secure {
        "s"@
    } else {
        Seq::<char>::empty()
    })
}

/// The start of a lyrics page's address: the scheme, `://`, the host with or
/// without `www.`, and the path down to the page's identifier.
pub open spec fn page_prefix(secure: bool, www: bool) -> Seq<char> {
    scheme_text(secure) + "://"@ + (if www {
        "www."@
    } else {
        Seq::<char>::empty()
    }) + "musixmatch.com/lyrics/"@
}

/// `url` is `page_prefix(secure, www)` followed by at least one character.
pub open spec fn has_page_prefix(url: Seq<char>, secure: bool, www: bool) -> bool {
    &&& url.len() > page_prefix(secure, www).len()
    &&& url.subrange(0, page_prefix(secure, www).len() as int) == page_prefix(secure, www)
}

/// `url` is the address of a lyrics page: `http` or `https`, the host with or
/// without `www.`, the lyrics path, and an identifier that is not empty.
pub open spec fn is_page_url(url: Seq<char>) -> bool {
    exists|secure: bool, www: bool| has_page_prefix(url, secure, www)
}

/// Which of the four page prefixes `url` starts with, as `(secure, www)`.
pub open spec fn page_kind_of(url: Seq<char>) -> Option<(bool, bool)> {
    if has_page_prefix(url, false, false) {
        Some((false, false))
    } else if has_page_prefix(url, true, false) {
        Some((true, false))
    } else if has_page_prefix(url, false, true) {
        Some((false, true))
    } else if has_page_prefix(url, true, true) {
        Some((true, true))
    } else {
        None
    }
}

/// The host of a page's address.
pub open spec fn host_text(www: bool) -> Seq<char> {
    (if www {
        "www."@
    } else {
        Seq::<char>::empty()
    }) + "musixmatch.com"@
}

/// The path of the page with identifier `id`.
pub open spec fn path_text(id: Seq<char>) -> Seq<char> {
    "/lyrics/"@ + id
}

/// The marker that sets a translation's link apart from its page's.
pub open spec fn translation_marker() -> Seq<char> {
    "/translation/"@
}

/// What stands before the first translation marker in `link`; `None` where
/// `link` holds no marker.
pub open spec fn canonical_prefix(link: Seq<char>) -> Option<Seq<char>> {
    match first_occurrence(link, translation_marker(), 0) {
        Some(at) => Some(link.subrange(0, at)),
        None => None,
    }
}

/// The link of the page that `link` belongs to: its canonical prefix where it
/// is a translation's link, and `link` itself where it is not.
pub open spec fn canonical_link(link: Seq<char>) -> Seq<char> {
    match canonical_prefix(link) {
        Some(base) => base,
        None => link,
    }
}

/// An address of a lyrics page, taken apart.
#[derive(Clone, Debug, PartialEq, Eq)]
pub struct PageUrl {
    pub secure: bool,
    pub www: bool,
    pub id: String,
}

impl PageUrl {
    /// The address that the parts make up.
    pub open spec fn text(self) -> Seq<char> {
        page_prefix(self.secure, self.www) + self.id@
    }

    /// `http` or `https`.
    pub fn scheme(&self) -> (out: &'static str)
        ensures
            out@ == scheme_text(self.secure),
    {
        if self.secure {
            proof {
                reveal_strlit("https");
                reveal_strlit("http");
                reveal_strlit("s");
                assert("https"@ =~= "http"@ + "s"@);
            }
            "https"
        } else {
            assert("http"@ =~= "http"@ + Seq::<char>::empty());
            "http"
        }
    }

    /// The host, with or without `www.`.
    pub fn host(&self) -> (out: &'static str)
        ensures
            out@ == host_text(self.www),
    {
        if self.www {
            proof {
                reveal_strlit("www.musixmatch.com");
                reveal_strlit("www.");
                reveal_strlit("musixmatch.com");
                assert("www.musixmatch.com"@ =~= "www."@ + "musixmatch.com"@);
            }
            "www.musixmatch.com"
        } else {
            assert("musixmatch.com"@ =~= Seq::<char>::empty() + "musixmatch.com"@);
            "musixmatch.com"
        }
    }

    /// The path down to and with the identifier.
    pub fn path(&self) -> (out: String)
        ensures
            out@ == path_text(self.id@),
    {
        "/lyrics/".to_owned().concat(self.id.as_str())
    }

    /// Puts scheme, host and path together again.
    pub fn to_url(&self) -> (out: String)
        ensures
            out@ == self.text(),
    {
        let path = self.path();
        let out = self.scheme().to_owned().concat("://").concat(self.host()).concat(path.as_str());
        proof {
            lemma_parts_joined(self.secure, self.www, self.id@);
        }
        out
    }

    /// Takes the address of a lyrics page apart; `None` for any other string.
    pub fn parse(url: &str) -> (parts: Option<PageUrl>)
        ensures
            match parts {
                Some(p) => page_kind_of(url@) == Some((p.secure, p.www)) && p.text() == url@ && p.id@.len()
                    > 0,
                None => page_kind_of(url@) is None,
            },
            parts is Some <==> is_page_url(url@),
    {
        let chars = chars_of(url);
        match page_kind(&chars) {
            Some((secure, www)) => {
                let skip: usize = prefix_chars(secure, www).len();
                let id = url.substring_char(skip, chars.len()).to_owned();
                let parts = PageUrl { secure, www, id };
                assert(parts.text() =~= url@);
                Some(parts)
            },
            None => None,
        }
    }
}

fn prefix_chars(secure: bool, www: bool) -> (out: Vec<char>)
    ensures
        out@ == page_prefix(secure, www),
{
    let mut s: String = "http".to_owned();
    if secure {
        s = s.concat("s");
    }
    s = s.concat("://");
    if www {
        s = s.concat("www.");
    }
    s = s.concat("musixmatch.com/lyrics/");
    assert(s@ =~= page_prefix(secure, www));
    chars_of(s.as_str())
}

fn starts_page(url: &Vec<char>, secure: bool, www: bool) -> (hit: bool)
    ensures
        hit == has_page_prefix(url@, secure, www),
{
    let prefix = prefix_chars(secure, www);
    url.len() > prefix.len() && matches_at(url, &prefix, 0)
}

fn page_kind(url: &Vec<char>) -> (kind: Option<(bool, bool)>)
    ensures
        kind == page_kind_of(url@),
        kind is Some <==> is_page_url(url@),
        kind matches Some((secure, www)) ==> has_page_prefix(url@, secure, www),
{
    if starts_page(url, false, false) {
        Some((false, false))
    } else if starts_page(url, true, false) {
        Some((true, false))
    } else if starts_page(url, false, true) {
        Some((false, true))
    } else if starts_page(url, true, true) {
        Some((true, true))
    } else {
        assert forall|secure: bool, www: bool| !has_page_prefix(url@, secure, www) by {}
        None
    }
}

/// Whether `url` is the address of a lyrics page.
pub fn is_musixmatch_url(url: &str) -> (accepted: bool)
    ensures
        accepted == is_page_url(url@),
{
    let chars = chars_of(url);
    page_kind(&chars).is_some()
}

/// What stands before the first translation marker in `link`.
pub fn translation_base<'a>(link: &'a str) -> (base: Option<&'a str>)
    ensures
        match base {
            Some(b) => canonical_prefix(link@) == Some(b@),
            None => canonical_prefix(link@) is None,
        },
{
    let chars = chars_of(link);
    let marker = chars_of("/translation/");
    match find_from(&chars, &marker, 0) {
        Some(at) => {
            proof {
                lemma_first_occurrence_found(chars@, marker@, 0);
            }
            Some(link.substring_char(0, at))
        },
        None => None,
    }
}

/// Scheme, `://`, host and path, put together, are the page prefix followed
/// by the identifier.
pub proof fn lemma_parts_joined(secure: bool, www: bool, id: Seq<char>)
    ensures
        scheme_text(secure) + "://"@ + host_text(www) + path_text(id) == page_prefix(secure, www) + id,
{
    reveal_strlit("musixmatch.com/lyrics/");
    reveal_strlit("musixmatch.com");
    reveal_strlit("/lyrics/");
    assert("musixmatch.com/lyrics/"@ =~= "musixmatch.com"@ + "/lyrics/"@);
    assert(scheme_text(secure) + "://"@ + host_text(www) + path_text(id) =~= page_prefix(secure, www)
        + id);
}

/// An address is accepted exactly where it starts with one of the four page
/// prefixes and goes on behind it.
pub proof fn lemma_page_kind(url: Seq<char>)
    ensures
        is_page_url(url) <==> page_kind_of(url) is Some,
        page_kind_of(url) matches Some((secure, www)) ==> has_page_prefix(url, secure, www),
{
    if page_kind_of(url) is None {
        assert forall|secure: bool, www: bool| !has_page_prefix(url, secure, www) by {}
    }
}

/// Taking an accepted address apart into scheme, host and path and putting
/// these together again gives the same address, which is accepted again.
pub proof fn lemma_page_url_rebuilt(url: Seq<char>)
    requires
        is_page_url(url),
    ensures
        page_kind_of(url) is Some,
        ({
            let (secure, www) = page_kind_of(url)->0;
            let id = url.skip(page_prefix(secure, www).len() as int);
            let rebuilt = scheme_text(secure) + "://"@ + host_text(www) + path_text(id);
            id.len() > 0 && rebuilt == url && is_page_url(rebuilt)
        }),
{
    lemma_page_kind(url);
    let (secure, www) = page_kind_of(url)->0;
    let id = url.skip(page_prefix(secure, www).len() as int);
    lemma_parts_joined(secure, www, id);
    assert(page_prefix(secure, www) + id =~= url);
}

/// Any identifier that is not empty, set behind a page prefix, is accepted.
pub proof fn lemma_parts_accepted(secure: bool, www: bool, id: Seq<char>)
    requires
        id.len() > 0,
    ensures
        is_page_url(page_prefix(secure, www) + id),
{
    let url = page_prefix(secure, www) + id;
    assert(url.subrange(0, page_prefix(secure, www).len() as int) =~= page_prefix(secure, www));
    assert(has_page_prefix(url, secure, www));
}

/// A link that holds the translation marker has a canonical prefix: the link
/// up to its first marker, with the marker directly behind it.
pub proof fn lemma_canonical_prefix_found(link: Seq<char>)
    requires
        occurs_in(link, translation_marker()),
    ensures
        canonical_prefix(link) is Some,
        occurs_at(link, translation_marker(), canonical_prefix(link)->0.len() as int),
        canonical_prefix(link)->0 == link.subrange(0, canonical_prefix(link)->0.len() as int),
        forall|k: int|
            0 <= k < canonical_prefix(link)->0.len() ==> !occurs_at(link, translation_marker(), k),
{
    let at = choose|at: int| occurs_at(link, translation_marker(), at);
    if first_occurrence(link, translation_marker(), 0) is None {
        lemma_first_occurrence_none(link, translation_marker(), 0);
    }
    lemma_first_occurrence_found(link, translation_marker(), 0);
}

/// A canonical prefix holds no translation marker.
pub proof fn lemma_canonical_prefix_once(link: Seq<char>)
    requires
        canonical_prefix(link) is Some,
    ensures
        canonical_prefix(canonical_prefix(link)->0) is None,
        !occurs_in(canonical_prefix(link)->0, translation_marker()),
{
    reveal_strlit("/translation/");
    let marker = translation_marker();
    let at = first_occurrence(link, marker, 0)->0;
    let base = link.subrange(0, at);
    lemma_first_occurrence_found(link, marker, 0);
    assert forall|k: int| !occurs_at(base, marker, k) by {
        if occurs_at(base, marker, k) {
            assert(base.subrange(k, k + marker.len()) =~= link.subrange(k, k + marker.len()));
            assert(occurs_at(link, marker, k));
        }
    }
    if first_occurrence(base, marker, 0) is Some {
        lemma_first_occurrence_found(base, marker, 0);
    }
}

/// Taking the canonical link a second time changes nothing.
pub proof fn lemma_canonical_link_idempotent(link: Seq<char>)
    ensures
        canonical_link(canonical_link(link)) == canonical_link(link),
{
    if canonical_prefix(link) is Some {
        lemma_canonical_prefix_once(link);
    }
}

} // verus!
