//! Reading the candidate links, with their descriptions, off a results page.

use vstd::prelude::*;
use crate::retry::ResponseErr;
use crate::text::{
    between, between_range, chars_of, contains, find_from, first_occurrence,
    lemma_first_occurrence_found, occurs_in, same_text,
};
use crate::url::{canonical_prefix, lemma_canonical_prefix_once, translation_base};

verus! {

/// A candidate page: its address and the description shown with it.
#[derive(Clone, Debug, PartialEq, Eq)]
pub struct TrackItem {
    pub url: String,
    pub desc: String,
}

/// What a `TrackItem` holds, as texts.
pub struct ItemView {
    pub url: Seq<char>,
    pub desc: Seq<char>,
}

impl View for TrackItem {
    type V = ItemView;

    open spec fn view(&self) -> ItemView {
        ItemView { url: self.url@, desc: self.desc@ }
    }
}

impl TrackItem {
    /// The candidate at `url`, described by `desc`.
    pub fn new(url: String, desc: String) -> (item: Self)
        ensures
            item.url == url,
            item.desc == desc,
    {
        Self { url, desc }
    }
}

/// The views of a list of candidates.
pub open spec fn item_views(items: Seq<TrackItem>) -> Seq<ItemView> {
    Seq::new(items.len(), |i: int| items[i]@)
}

/// The texts of a list of string slices.
pub open spec fn slice_views(slices: Seq<&str>) -> Seq<Seq<char>> {
    Seq::new(slices.len(), |i: int| slices[i]@)
}

/// Stands in a page that wants scripts to be run before it shows results.
pub open spec fn js_marker() -> Seq<char> {
    "/httpservice/retry/enablejs"@
}

/// Stands in a page that puts a challenge before its results.
pub open spec fn captcha_marker() -> Seq<char> {
    "<script src=\"https://www.google.com/recaptcha/api.js\" async defer></script>"@
}

/// Opens the anchor of a result, up to and with the quote that opens its address.
pub open spec fn anchor_marker() -> Seq<char> {
    "<a jsname=\"UWckNb\" class=\"VfSr4c\" href=\""@
}

/// Opens the address inside an anchor.
pub open spec fn href_open() -> Seq<char> {
    "href=\""@
}

/// Closes the address inside an anchor.
pub open spec fn href_close() -> Seq<char> {
    "\""@
}

/// Opens the heading of a result.
pub open spec fn heading_marker() -> Seq<char> {
    "<br><h3 class=\"LC20lb MBeuO DKV0Md\">"@
}

/// Opens the text of a heading.
pub open spec fn heading_open() -> Seq<char> {
    "<h3 class=\"LC20lb MBeuO DKV0Md\">"@
}

/// Closes the text of a heading.
pub open spec fn heading_close() -> Seq<char> {
    "<"@
}

/// The fields of `text` from `from` on, in order: one for each place where
/// `marker` occurs, namely what lies between `open` and `close` in the text
/// from that place on. A place where nothing lies between them gives no field.
pub open spec fn fields_from(
    text: Seq<char>,
    marker: Seq<char>,
    open: Seq<char>,
    close: Seq<char>,
    from: int,
) -> Seq<Seq<char>>
    decreases text.len() + 1 - from,
{
    match first_occurrence(text, marker, from) {
        None => Seq::empty(),
        Some(at) => {
            proof {
                lemma_first_occurrence_found(text, marker, from);
            }
            let rest = fields_from(text, marker, open, close, at + 1);
            match between(text.skip(at), open, close) {
                Some(field) => seq![field] + rest,
                None => rest,
            }
        },
    }
}

/// The addresses that a results page links to, in order.
pub open spec fn link_fields(body: Seq<char>) -> Seq<Seq<char>> {
    fields_from(body, anchor_marker(), href_open(), href_close(), 0)
}

/// The descriptions that a results page shows, in order.
pub open spec fn desc_fields(body: Seq<char>) -> Seq<Seq<char>> {
    fields_from(body, heading_marker(), heading_open(), heading_close(), 0)
}

/// The description at position `i`; the empty text where there is none.
pub open spec fn desc_at(descs: Seq<Seq<char>>, i: int) -> Seq<char> {
    if 0 <= i < descs.len() {
        descs[i]
    } else {
        Seq::empty()
    }
}

/// The candidates that the first `upto` links give. A link is paired with the
/// description at its own position. A translation's link stands for its page:
/// it is left out where its page's own link is among the links, and replaced by
/// it otherwise.
pub open spec fn paired(links: Seq<Seq<char>>, descs: Seq<Seq<char>>, upto: int) -> Seq<ItemView>
    decreases upto,
{
    if upto <= 0 {
        Seq::empty()
    } else {
        let before = paired(links, descs, upto - 1);
        let i = upto - 1;
        match canonical_prefix(links[i]) {
            Some(base) => if links.contains(base) {
                before
            } else {
                before.push(ItemView { url: base, desc: desc_at(descs, i) })
            },
            None => before.push(ItemView { url: links[i], desc: desc_at(descs, i) }),
        }
    }
}

/// What a results page comes to: the candidates, or why there are none.
pub open spec fn scraped(body: Seq<char>) -> Result<Seq<ItemView>, ResponseErr> {
    if occurs_in(body, js_marker()) {
        Err(ResponseErr::JsEnforcement)
    } else if occurs_in(body, captcha_marker()) {
        Err(ResponseErr::Captcha)
    } else if link_fields(body).len() == 0 {
        Err(ResponseErr::NoEnoughData)
    } else {
        Ok(paired(link_fields(body), desc_fields(body), link_fields(body).len() as int))
    }
}

/// Collects the fields of `page`, whose characters are `chars`.
fn collect_fields<'a>(page: &'a str, chars: &Vec<char>, marker: &str, open: &str, close: &str) -> (out: Vec<&'a str>)
    requires
        chars@ == page@,
    ensures
        slice_views(out@) == fields_from(page@, marker@, open@, close@, 0),
{
    let marker_chars = chars_of(marker);
    let open_chars = chars_of(open);
    let close_chars = chars_of(close);
    let mut out: Vec<&'a str> = Vec::new();
    let mut pos: usize = 0;
    assert(slice_views(out@) =~= Seq::<Seq<char>>::empty());
    loop
        invariant
            chars@ == page@,
            marker_chars@ == marker@,
            open_chars@ == open@,
            close_chars@ == close@,
            pos <= chars.len(),
            fields_from(page@, marker@, open@, close@, 0) == slice_views(out@) + fields_from(
                page@,
                marker@,
                open@,
                close@,
                pos as int,
            ),
        decreases chars.len() - pos,
    {
        match find_from(chars, &marker_chars, pos) {
            None => {
                assert(slice_views(out@) + Seq::<Seq<char>>::empty() =~= slice_views(out@));
                return out;
            },
            Some(at) => {
                proof {
                    lemma_first_occurrence_found(page@, marker@, pos as int);
                }
                let ghost before = slice_views(out@);
                let ghost rest = fields_from(page@, marker@, open@, close@, at + 1);
                match between_range(chars, at, &open_chars, &close_chars) {
                    Some((a, b)) => {
                        out.push(page.substring_char(a, b));
                        assert(slice_views(out@) =~= before + seq![page@.subrange(a as int, b as int)]);
                        assert(before + (seq![page@.subrange(a as int, b as int)] + rest) =~= slice_views(
                            out@,
                        ) + rest);
                    },
                    None => {},
                }
                if at >= chars.len() {
                    assert(first_occurrence(page@, marker@, at + 1) is None);
                    assert(slice_views(out@) + Seq::<Seq<char>>::empty() =~= slice_views(out@));
                    return out;
                }
                pos = at + 1;
            },
        }
    }
}

/// The addresses and the descriptions on a results page, each in order of
/// appearance. A page without a single address is an error.
pub fn parse_search_results(response: &str) -> (found: Result<(Vec<&str>, Vec<&str>), ResponseErr>)
    ensures
        match found {
            Ok((links, descs)) => {
                &&& links.len() > 0
                &&& slice_views(links@) == link_fields(response@)
                &&& slice_views(descs@) == desc_fields(response@)
            },
            Err(kind) => kind == ResponseErr::NoEnoughData && link_fields(response@).len() == 0,
        },
{
    let chars = chars_of(response);
    let links = collect_fields(
        response,
        &chars,
        "<a jsname=\"UWckNb\" class=\"VfSr4c\" href=\"",
        "href=\"",
        "\"",
    );
    if links.len() == 0 {
        return Err(ResponseErr::NoEnoughData);
    }
    let descs = collect_fields(
        response,
        &chars,
        "<br><h3 class=\"LC20lb MBeuO DKV0Md\">",
        "<h3 class=\"LC20lb MBeuO DKV0Md\">",
        "<",
    );
    Ok((links, descs))
}

/// Whether one of `slices` holds the characters of `wanted`.
fn holds_text(slices: &Vec<&str>, wanted: &str) -> (hit: bool)
    ensures
        hit == slice_views(slices@).contains(wanted@),
{
    let mut i: usize = 0;
    while i < slices.len()
        invariant
            i <= slices.len(),
            forall|k: int| 0 <= k < i ==> slice_views(slices@)[k] != wanted@,
        decreases slices.len() - i,
    {
        if same_text(slices[i], wanted) {
            assert(slice_views(slices@)[i as int] == wanted@);
            return true;
        }
        i += 1;
    }
    false
}

/// The candidates on a results page, in order of appearance. A page that
/// wants scripts, one that puts a challenge, and one without a single address
/// are errors, looked for in this order.
pub fn scrape_results(body: &str) -> (found: Result<Vec<TrackItem>, ResponseErr>)
    ensures
        match found {
            Ok(items) => items.len() > 0 && scraped(body@) == Ok::<Seq<ItemView>, ResponseErr>(
                item_views(items@),
            ),
            Err(kind) => scraped(body@) == Err::<Seq<ItemView>, ResponseErr>(kind),
        },
{
    proof {
        if scraped(body@) is Ok {
            lemma_scraped_not_empty(body@);
        }
    }
    let chars = chars_of(body);
    if contains(&chars, &chars_of("/httpservice/retry/enablejs")) {
        return Err(ResponseErr::JsEnforcement);
    }
    if contains(
        &chars,
        &chars_of("<script src=\"https://www.google.com/recaptcha/api.js\" async defer></script>"),
    ) {
        return Err(ResponseErr::Captcha);
    }
    let (links, descs) = match parse_search_results(body) {
        Ok(lists) => lists,
        Err(kind) => {
            return Err(kind);
        },
    };
    let ghost link_texts = slice_views(links@);
    let ghost desc_texts = slice_views(descs@);
    let mut items: Vec<TrackItem> = Vec::new();
    let mut i: usize = 0;
    assert(item_views(items@) =~= paired(link_texts, desc_texts, 0));
    while i < links.len()
        invariant
            i <= links.len(),
            link_texts == slice_views(links@),
            desc_texts == slice_views(descs@),
            item_views(items@) == paired(link_texts, desc_texts, i as int),
        decreases links.len() - i,
    {
        let ghost before = item_views(items@);
        let desc: &str = if i < descs.len() {
            descs[i]
        } else {
            ""
        };
        proof {
            reveal_strlit("");
            assert(desc@ =~= desc_at(desc_texts, i as int));
        }
        match translation_base(links[i]) {
            Some(base) => {
                if !holds_text(&links, base) {
                    items.push(TrackItem::new(base.to_owned(), desc.to_owned()));
                    assert(item_views(items@) =~= before.push(
                        ItemView { url: base@, desc: desc_at(desc_texts, i as int) },
                    ));
                }
            },
            None => {
                items.push(TrackItem::new(links[i].to_owned(), desc.to_owned()));
                assert(item_views(items@) =~= before.push(
                    ItemView { url: link_texts[i as int], desc: desc_at(desc_texts, i as int) },
                ));
            },
        }
        i += 1;
    }
    Ok(items)
}

/// More links never give fewer candidates.
pub proof fn lemma_paired_grows(links: Seq<Seq<char>>, descs: Seq<Seq<char>>, fewer: int, more: int)
    requires
        0 <= fewer <= more,
    ensures
        paired(links, descs, fewer).len() <= paired(links, descs, more).len(),
    decreases more - fewer,
{
    if fewer < more {
        lemma_paired_grows(links, descs, fewer, more - 1);
    }
}

/// Links, however many of them are translations, give at least one candidate.
pub proof fn lemma_paired_not_empty(links: Seq<Seq<char>>, descs: Seq<Seq<char>>)
    requires
        links.len() > 0,
    ensures
        paired(links, descs, links.len() as int).len() > 0,
{
    assert(paired(links, descs, 0).len() == 0);
    match canonical_prefix(links[0]) {
        Some(base) => {
            if links.contains(base) {
                let j = choose|j: int| 0 <= j < links.len() && links[j] == base;
                lemma_canonical_prefix_once(links[0]);
                assert(paired(links, descs, j + 1).len() == paired(links, descs, j).len() + 1);
                lemma_paired_grows(links, descs, j + 1, links.len() as int);
            } else {
                assert(paired(links, descs, 1).len() == 1);
                lemma_paired_grows(links, descs, 1, links.len() as int);
            }
        },
        None => {
            assert(paired(links, descs, 1).len() == 1);
            lemma_paired_grows(links, descs, 1, links.len() as int);
        },
    }
}

/// A results page that gives candidates gives at least one.
pub proof fn lemma_scraped_not_empty(body: Seq<char>)
    requires
        scraped(body) is Ok,
    ensures
        scraped(body)->Ok_0.len() > 0,
{
    lemma_paired_not_empty(link_fields(body), desc_fields(body));
}

/// Of a page and its translation, in this order, only the page is kept, with
/// the description that stands first.
pub proof fn lemma_translation_dropped(page: Seq<char>, translation: Seq<char>, descs: Seq<Seq<char>>)
    requires
        canonical_prefix(page) is None,
        canonical_prefix(translation) == Some(page),
    ensures
        paired(seq![page, translation], descs, 2) == seq![
            ItemView { url: page, desc: desc_at(descs, 0) },
        ],
{
    let links = seq![page, translation];
    assert(paired(links, descs, 0) =~= Seq::<ItemView>::empty());
    assert(paired(links, descs, 1) =~= seq![ItemView { url: page, desc: desc_at(descs, 0) }]);
    assert(links[0] == page);
    assert(links.contains(page));
}

} // verus!
