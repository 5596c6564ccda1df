//! The decisions of the command line: what the words given ask for, and which
//! candidate an answer picks.

use vstd::prelude::*;
use crate::search::TrackItem;
use crate::url::{is_musixmatch_url, is_page_url};

verus! {

/// What the words on the command line ask for.
#[derive(Clone, Debug, PartialEq, Eq)]
pub enum Query {
    /// The page at this address.
    Page(String),
    /// A search for these keywords.
    Search(String),
}

/// The first `upto` of `words`, with one space between each two.
pub open spec fn joined(words: Seq<Seq<char>>, upto: int) -> Seq<char>
    decreases upto,
{
    if upto <= 0 {
        Seq::empty()
    } else if upto == 1 {
        words[0]
    } else {
        joined(words, upto - 1) + " "@ + words[upto - 1]
    }
}

/// The texts of a list of strings.
pub open spec fn word_views(words: Seq<String>) -> Seq<Seq<char>> {
    Seq::new(words.len(), |i: int| words[i]@)
}

/// Reads the words given: a first word that is the address of a lyrics page
/// asks for that page, anything else is a search for all the words. No words
/// ask for nothing.
pub fn read_query(words: &Vec<String>) -> (query: Option<Query>)
    ensures
        match query {
            None => words.len() == 0,
            Some(Query::Page(url)) => words.len() > 0 && is_page_url(words[0]@) && url@ == words[0]@,
            Some(Query::Search(keywords)) => words.len() > 0 && !is_page_url(words[0]@) && keywords@
                == joined(word_views(words@), words.len() as int),
        },
{
    if words.len() == 0 {
        return None;
    }
    if is_musixmatch_url(words[0].as_str()) {
        return Some(Query::Page(words[0].clone()));
    }
    let mut keywords: String = words[0].clone();
    let mut i: usize = 1;
    while i < words.len()
        invariant
            1 <= i <= words.len(),
            keywords@ == joined(word_views(words@), i as int),
        decreases words.len() - i,
    {
        keywords = keywords.concat(" ").concat(words[i].as_str());
        i += 1;
    }
    Some(Query::Search(keywords))
}

/// Why an answer picks no candidate.
#[derive(Clone, Copy, Debug, PartialEq, Eq, Structural)]
pub enum PickErr {
    /// The answer is not one of the digits `0` to `9`.
    NotADigit,
    /// There is no candidate of this number.
    OutOfBounds(usize),
}

/// The number that the digit `answer` stands for, where it is a digit.
pub open spec fn digit_value(answer: u8) -> Option<int> {
    if 48 <= answer <= 57 {
        Some(answer - 48)
    } else {
        None
    }
}

/// The index that the answer `answer`, one character as typed, picks among
/// `count` candidates.
pub fn pick_index(answer: u8, count: usize) -> (picked: Result<usize, PickErr>)
    ensures
        match picked {
            Ok(index) => digit_value(answer) == Some(index as int) && index < count,
            Err(PickErr::NotADigit) => digit_value(answer) is None,
            Err(PickErr::OutOfBounds(index)) => digit_value(answer) == Some(index as int) && index
                >= count,
        },
{
    if answer > 57 || answer < 48 {
        return Err(PickErr::NotADigit);
    }
    let index: usize = (answer - 48) as usize;
    if index < count {
        Ok(index)
    } else {
        Err(PickErr::OutOfBounds(index))
    }
}

/// The candidate that the answer `answer` picks.
pub fn pick_url(urls: &Vec<TrackItem>, answer: u8) -> (picked: Result<&TrackItem, PickErr>)
    ensures
        match picked {
            Ok(item) => digit_value(answer) matches Some(index) && index < urls.len() && *item
                == urls[index],
            Err(PickErr::NotADigit) => digit_value(answer) is None,
            Err(PickErr::OutOfBounds(index)) => digit_value(answer) == Some(index as int) && index
                >= urls.len(),
        },
{
    match pick_index(answer, urls.len()) {
        Ok(index) => Ok(&urls[index]),
        Err(why) => Err(why),
    }
}

} // verus!
