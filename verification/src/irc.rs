//! Reading one line of IRC, as Twitch's chat sends it: tags, the sender, the
//! command, the channel and the text.

use vstd::prelude::*;
use crate::text::{chars_of, same_text};

verus! {

/// The least index from `from` on at which `s` holds `c`.
pub open spec fn index_of(s: Seq<char>, c: char, from: int) -> Option<int>
    decreases s.len() - from,
{
    if from < 0 || from >= s.len() {
        None
    } else if s[from] == c {
        Some(from)
    } else {
        index_of(s, c, from + 1)
    }
}

/// `s` up to its first `c`; all of `s` where it holds none.
pub open spec fn before_first(s: Seq<char>, c: char) -> Seq<char> {
    match index_of(s, c, 0) {
        Some(i) => s.subrange(0, i),
        None => s,
    }
}

/// `s` behind its first `c`; `None` where it holds none.
pub open spec fn after_first(s: Seq<char>, c: char) -> Option<Seq<char>> {
    match index_of(s, c, 0) {
        Some(i) => Some(s.subrange(i + 1, s.len() as int)),
        None => None,
    }
}

/// `s` without the run of `c` that it starts with.
pub open spec fn trim_start(s: Seq<char>, c: char) -> Seq<char>
    decreases s.len(),
{
    if s.len() > 0 && s[0] == c {
        trim_start(s.subrange(1, s.len() as int), c)
    } else {
        s
    }
}

/// The pieces of `s` that `c` separates, in order. There is always one piece;
/// a piece may be empty.
pub open spec fn pieces(s: Seq<char>, c: char) -> Seq<Seq<char>>
    decreases s.len(),
{
    match index_of(s, c, 0) {
        None => seq![s],
        Some(i) => {
            proof {
                lemma_index_of_found(s, c, 0);
            }
            seq![s.subrange(0, i)] + pieces(s.subrange(i + 1, s.len() as int), c)
        },
    }
}

/// What `index_of` finds is a place of `c`, not before `from`, with none
/// between `from` and it.
pub proof fn lemma_index_of_found(s: Seq<char>, c: char, from: int)
    requires
        index_of(s, c, from) is Some,
    ensures
        0 <= from <= index_of(s, c, from)->0 < s.len(),
        s[index_of(s, c, from)->0] == c,
        forall|k: int| from <= k < index_of(s, c, from)->0 ==> s[k] != c,
    decreases s.len() - from,
{
    if s[from] != c {
        lemma_index_of_found(s, c, from + 1);
    }
}

/// The first place of `c` from `from` on is what `index_of` finds.
pub proof fn lemma_index_of_is(s: Seq<char>, c: char, from: int, at: int)
    requires
        0 <= from <= at < s.len(),
        s[at] == c,
        forall|k: int| from <= k < at ==> s[k] != c,
    ensures
        index_of(s, c, from) == Some(at),
    decreases at - from,
{
    if from < at {
        lemma_index_of_is(s, c, from + 1, at);
    }
}

/// Where `s` holds no `c` from `from` on, `index_of` finds none.
pub proof fn lemma_index_of_none(s: Seq<char>, c: char, from: int)
    requires
        0 <= from,
        forall|k: int| from <= k < s.len() ==> s[k] != c,
    ensures
        index_of(s, c, from) is None,
    decreases s.len() - from,
{
    if from < s.len() {
        lemma_index_of_none(s, c, from + 1);
    }
}

/// One tag: its key, and its value where an `=` follows the key. A second `=`
/// ends the value.
pub open spec fn tag_of(piece: Seq<char>) -> (Seq<char>, Option<Seq<char>>) {
    (
        before_first(piece, '='),
        match after_first(piece, '=') {
            Some(rest) => Some(before_first(rest, '=')),
            None => None,
        },
    )
}

/// The tag of each of `list`, in order.
pub open spec fn tags_of(list: Seq<Seq<char>>) -> Seq<(Seq<char>, Option<Seq<char>>)> {
    Seq::new(list.len(), |i: int| tag_of(list[i]))
}

/// The tags of a tag list: one for each piece between `;`.
pub open spec fn tag_pairs(text: Seq<char>) -> Seq<(Seq<char>, Option<Seq<char>>)> {
    tags_of(pieces(text, ';'))
}

/// The map that a list of tags makes: a later tag takes the place of an
/// earlier one with the same key.
pub open spec fn tag_map(pairs: Seq<(Seq<char>, Option<Seq<char>>)>) -> Map<Seq<char>, Option<Seq<char>>>
    decreases pairs.len(),
{
    if pairs.len() == 0 {
        Map::empty()
    } else {
        tag_map(pairs.drop_last()).insert(pairs.last().0, pairs.last().1)
    }
}

/// The text of an optional string slice.
pub open spec fn option_view(value: Option<&str>) -> Option<Seq<char>> {
    match value {
        Some(s) => Some(s@),
        None => None,
    }
}

/// The texts of a list of tags.
pub open spec fn tag_views(entries: Seq<(&str, Option<&str>)>) -> Seq<(Seq<char>, Option<Seq<char>>)> {
    Seq::new(entries.len(), |i: int| (entries[i].0@, option_view(entries[i].1)))
}

/// No key stands twice in `pairs`.
pub open spec fn distinct_keys(pairs: Seq<(Seq<char>, Option<Seq<char>>)>) -> bool {
    forall|i: int, j: int| 0 <= i < j < pairs.len() ==> pairs[i].0 != pairs[j].0
}

/// A key is in the map of a list of tags exactly where one of the tags has it.
pub proof fn lemma_tag_map_keys(pairs: Seq<(Seq<char>, Option<Seq<char>>)>, key: Seq<char>)
    ensures
        tag_map(pairs).contains_key(key) <==> exists|i: int| 0 <= i < pairs.len() && pairs[i].0 == key,
    decreases pairs.len(),
{
    if pairs.len() > 0 {
        lemma_tag_map_keys(pairs.drop_last(), key);
        if tag_map(pairs).contains_key(key) {
            if pairs.last().0 == key {
                assert(pairs[pairs.len() - 1].0 == key);
            } else {
                let i = choose|i: int| 0 <= i < pairs.drop_last().len() && pairs.drop_last()[i].0 == key;
                assert(pairs[i].0 == key);
            }
        }
        if exists|i: int| 0 <= i < pairs.len() && pairs[i].0 == key {
            let i = choose|i: int| 0 <= i < pairs.len() && pairs[i].0 == key;
            if i < pairs.len() - 1 {
                assert(pairs.drop_last()[i].0 == key);
            }
        }
    }
}

/// Where no key stands twice, a new value for the key of one tag is a new
/// value under that key in the map, and nothing else.
pub proof fn lemma_tag_map_update(
    pairs: Seq<(Seq<char>, Option<Seq<char>>)>,
    at: int,
    value: Option<Seq<char>>,
)
    requires
        distinct_keys(pairs),
        0 <= at < pairs.len(),
    ensures
        tag_map(pairs.update(at, (pairs[at].0, value))) == tag_map(pairs).insert(pairs[at].0, value),
        distinct_keys(pairs.update(at, (pairs[at].0, value))),
    decreases pairs.len(),
{
    let key = pairs[at].0;
    let changed = pairs.update(at, (key, value));
    if at == pairs.len() - 1 {
        assert(changed.drop_last() =~= pairs.drop_last());
        assert(tag_map(changed) =~= tag_map(pairs).insert(key, value));
    } else {
        assert(distinct_keys(pairs.drop_last()));
        lemma_tag_map_update(pairs.drop_last(), at, value);
        assert(changed.drop_last() =~= pairs.drop_last().update(at, (key, value)));
        assert(pairs.last().0 != key);
        assert(tag_map(changed) =~= tag_map(pairs).insert(key, value));
    }
}

/// Where no key stands twice, the map has as many keys as there are tags.
pub proof fn lemma_tag_map_len(pairs: Seq<(Seq<char>, Option<Seq<char>>)>)
    requires
        distinct_keys(pairs),
    ensures
        tag_map(pairs).dom().finite(),
        tag_map(pairs).dom().len() == pairs.len(),
    decreases pairs.len(),
{
    if pairs.len() > 0 {
        assert(distinct_keys(pairs.drop_last()));
        lemma_tag_map_len(pairs.drop_last());
        lemma_tag_map_keys(pairs.drop_last(), pairs.last().0);
        if tag_map(pairs.drop_last()).contains_key(pairs.last().0) {
            let i = choose|i: int|
                0 <= i < pairs.drop_last().len() && pairs.drop_last()[i].0 == pairs.last().0;
            assert(pairs[i].0 == pairs[pairs.len() - 1].0);
        }
    }
}

/// The tags of a message as a map from key to value. A tag may have no value.
/// No key is held twice: a tag takes the place of an earlier one with its key.
#[derive(Debug)]
pub struct IrcTagsMap<'a> {
    entries: Vec<(&'a str, Option<&'a str>)>,
}

impl<'a> View for IrcTagsMap<'a> {
    type V = Map<Seq<char>, Option<Seq<char>>>;

    closed spec fn view(&self) -> Map<Seq<char>, Option<Seq<char>>> {
        tag_map(tag_views(self.entries@))
    }
}

impl<'a> IrcTagsMap<'a> {
    #[verifier::type_invariant]
    spec fn keys_differ(&self) -> bool {
        distinct_keys(tag_views(self.entries@))
    }

    /// The map without any tag.
    pub fn new() -> (map: Self)
        ensures
            map@ == Map::<Seq<char>, Option<Seq<char>>>::empty(),
    {
        let map = IrcTagsMap { entries: Vec::new() };
        assert(tag_views(map.entries@) =~= Seq::empty());
        map
    }

    /// Where among the entries `key` stands.
    fn position(&self, key: &str) -> (found: Option<usize>)
        ensures
            match found {
                Some(at) => at < self.entries.len() && self.entries[at as int].0@ == key@,
                None => forall|k: int| 0 <= k < self.entries.len() ==> self.entries[k].0@ != key@,
            },
    {
        let mut i: usize = 0;
        while i < self.entries.len()
            invariant
                i <= self.entries.len(),
                forall|k: int| 0 <= k < i ==> self.entries[k].0@ != key@,
            decreases self.entries.len() - i,
        {
            if same_text(self.entries[i].0, key) {
                return Some(i);
            }
            i += 1;
        }
        None
    }

    /// Sets the value under `key`, in place of the one there, if any.
    pub fn insert(&mut self, key: &'a str, value: Option<&'a str>)
        ensures
            final(self)@ == old(self)@.insert(key@, option_view(value)),
    {
        proof {
            use_type_invariant(&*self);
        }
        let ghost before = tag_views(self.entries@);
        let found = self.position(key);
        let mut list: Vec<(&'a str, Option<&'a str>)> = Vec::new();
        assert(tag_views(list@) =~= Seq::empty());
        core::mem::swap(&mut self.entries, &mut list);
        match found {
            Some(at) => {
                proof {
                    lemma_tag_map_update(before, at as int, option_view(value));
                }
                list.set(at, (key, value));
                assert(tag_views(list@) =~= before.update(
                    at as int,
                    (before[at as int].0, option_view(value)),
                ));
            },
            None => {
                list.push((key, value));
                assert(tag_views(list@) =~= before.push((key@, option_view(value))));
                assert(tag_views(list@).drop_last() =~= before);
            },
        }
        core::mem::swap(&mut self.entries, &mut list);
    }

    /// The value under `key`: `None` where no tag has that key, `Some(None)`
    /// for a tag without a value.
    pub fn get(&self, key: &str) -> (found: Option<Option<&'a str>>)
        ensures
            match found {
                Some(value) => self@.contains_key(key@) && self@[key@] == option_view(value),
                None => !self@.contains_key(key@),
            },
    {
        proof {
            use_type_invariant(self);
            lemma_tag_map_keys(tag_views(self.entries@), key@);
        }
        match self.position(key) {
            Some(at) => {
                proof {
                    let pairs = tag_views(self.entries@);
                    assert(pairs[at as int].0 == key@);
                    lemma_tag_map_update(pairs, at as int, pairs[at as int].1);
                    assert(pairs.update(at as int, (pairs[at as int].0, pairs[at as int].1)) =~= pairs);
                }
                Some(self.entries[at].1)
            },
            None => {
                assert forall|k: int| 0 <= k < tag_views(self.entries@).len() implies tag_views(
                    self.entries@,
                )[k].0 != key@ by {}
                None
            },
        }
    }

    /// How many tags there are.
    pub fn len(&self) -> (count: usize)
        ensures
            self@.dom().finite(),
            count == self@.dom().len(),
    {
        proof {
            use_type_invariant(self);
            lemma_tag_map_len(tag_views(self.entries@));
        }
        self.entries.len()
    }

    /// The tags, each once, in the order in which their keys first came.
    pub closed spec fn pairs(&self) -> Seq<(Seq<char>, Option<Seq<char>>)> {
        tag_views(self.entries@)
    }

    /// The tags as a list.
    pub fn entries(&self) -> (list: &Vec<(&'a str, Option<&'a str>)>)
        ensures
            tag_views(list@) == self.pairs(),
            tag_map(self.pairs()) == self@,
            distinct_keys(self.pairs()),
    {
        proof {
            use_type_invariant(self);
        }
        &self.entries
    }
}

/// Where `c` first stands in `chars[from..to]`.
fn find_char(chars: &Vec<char>, c: char, from: usize, to: usize) -> (found: Option<usize>)
    requires
        from <= to <= chars.len(),
    ensures
        match found {
            Some(at) => from <= at < to && index_of(chars@.subrange(from as int, to as int), c, 0)
                == Some(at - from),
            None => index_of(chars@.subrange(from as int, to as int), c, 0) is None,
        },
{
    let ghost part = chars@.subrange(from as int, to as int);
    let mut i: usize = from;
    while i < to
        invariant
            from <= i <= to <= chars.len(),
            part == chars@.subrange(from as int, to as int),
            forall|k: int| 0 <= k < i - from ==> part[k] != c,
        decreases to - i,
    {
        if chars[i] == c {
            proof {
                lemma_index_of_is(part, c, 0, i - from);
            }
            return Some(i);
        }
        i += 1;
    }
    proof {
        lemma_index_of_none(part, c, 0);
    }
    None
}

/// Where `chars[from..to]` goes on behind the run of `c` that it starts with.
fn skip_run(chars: &Vec<char>, c: char, from: usize, to: usize) -> (at: usize)
    requires
        from <= to <= chars.len(),
    ensures
        from <= at <= to,
        chars@.subrange(at as int, to as int) == trim_start(chars@.subrange(from as int, to as int), c),
{
    let mut i: usize = from;
    while i < to && chars[i] == c
        invariant
            from <= i <= to <= chars.len(),
            trim_start(chars@.subrange(from as int, to as int), c) == trim_start(
                chars@.subrange(i as int, to as int),
                c,
            ),
        decreases to - i,
    {
        assert(chars@.subrange(i as int, to as int).subrange(1, to - i) =~= chars@.subrange(
            i + 1,
            to as int,
        ));
        i += 1;
    }
    i
}

/// Reads the tag in `chars[from..to]`, which are characters of `source`.
fn read_tag<'a>(source: &'a str, chars: &Vec<char>, from: usize, to: usize) -> (tag: (&'a str, Option<&'a str>))
    requires
        chars@ == source@,
        from <= to <= chars.len(),
    ensures
        (tag.0@, option_view(tag.1)) == tag_of(chars@.subrange(from as int, to as int)),
{
    let ghost piece = chars@.subrange(from as int, to as int);
    match find_char(chars, '=', from, to) {
        None => (source.substring_char(from, to), None),
        Some(eq) => {
            let value_end: usize = match find_char(chars, '=', eq + 1, to) {
                Some(second) => second,
                None => to,
            };
            proof {
                let rest = piece.subrange(eq - from + 1, piece.len() as int);
                assert(rest =~= chars@.subrange(eq + 1, to as int));
                assert(chars@.subrange(eq + 1, value_end as int) =~= before_first(rest, '='));
                assert(chars@.subrange(from as int, eq as int) =~= piece.subrange(0, eq - from));
            }
            (source.substring_char(from, eq), Some(source.substring_char(eq + 1, value_end)))
        },
    }
}

/// Reads the tags in `chars[from..to]`, which are characters of `source`.
fn tags_between<'a>(source: &'a str, chars: &Vec<char>, from: usize, to: usize) -> (tags: IrcTagsMap<'a>)
    requires
        chars@ == source@,
        from <= to <= chars.len(),
    ensures
        tags@ == tag_map(tag_pairs(chars@.subrange(from as int, to as int))),
{
    let ghost whole = chars@.subrange(from as int, to as int);
    let mut tags = IrcTagsMap::new();
    let mut start: usize = from;
    let ghost mut done: Seq<Seq<char>> = Seq::empty();
    assert(chars@.subrange(from as int, to as int) =~= whole);
    assert(tags_of(done) =~= Seq::empty());
    loop
        invariant
            chars@ == source@,
            from <= start <= to <= chars.len(),
            whole == chars@.subrange(from as int, to as int),
            pieces(whole, ';') == done + pieces(chars@.subrange(start as int, to as int), ';'),
            tags@ == tag_map(tags_of(done)),
        decreases to - start,
    {
        let stop = find_char(chars, ';', start, to);
        let end: usize = match stop {
            Some(at) => at,
            None => to,
        };
        let ghost piece = chars@.subrange(start as int, end as int);
        let ghost left = chars@.subrange(start as int, to as int);
        assert(piece =~= before_first(left, ';'));
        let (key, value) = read_tag(source, chars, start, end);
        tags.insert(key, value);
        proof {
            assert(tags_of(done.push(piece)).drop_last() =~= tags_of(done));
            assert(tags_of(done.push(piece)).last() == tag_of(piece));
        }
        match stop {
            None => {
                assert(pieces(whole, ';') =~= done.push(piece));
                return tags;
            },
            Some(at) => {
                proof {
                    lemma_index_of_found(left, ';', 0);
                    assert(left.subrange(at - start + 1, left.len() as int) =~= chars@.subrange(
                        at + 1,
                        to as int,
                    ));
                    assert(done + (seq![piece] + pieces(chars@.subrange(at + 1, to as int), ';'))
                        =~= done.push(piece) + pieces(chars@.subrange(at + 1, to as int), ';'));
                    done = done.push(piece);
                }
                start = at + 1;
            },
        }
    }
}

/// Reads a list of tags: `key=value` or `key`, separated by `;`.
pub fn parse_tags<'a>(tags: &'a str) -> (map: IrcTagsMap<'a>)
    ensures
        map@ == tag_map(tag_pairs(tags@)),
{
    let chars = chars_of(tags);
    assert(chars@.subrange(0, chars@.len() as int) =~= chars@);
    tags_between(tags, &chars, 0, chars.len())
}

/// What a message says of itself, besides its command.
#[derive(Debug)]
pub struct IrcInfo<'a> {
    pub user: &'a str,
    pub host: &'a str,
    pub text: &'a str,
    pub tags: IrcTagsMap<'a>,
}

/// What an `IrcInfo` holds, as texts.
pub struct InfoView {
    pub user: Seq<char>,
    pub host: Seq<char>,
    pub text: Seq<char>,
    pub tags: Map<Seq<char>, Option<Seq<char>>>,
}

impl<'a> View for IrcInfo<'a> {
    type V = InfoView;

    open spec fn view(&self) -> InfoView {
        InfoView {
            user: self.user@,
            host: self.host@,
            text: self.text@,
            tags: self.tags@,
        }
    }
}

/// One message, by its command.
#[allow(non_camel_case_types)]
#[derive(Debug)]
pub enum TwitchIrcMsg<'a> {
    /// All messages of the room, or of one user, were removed.
    CLEARCHAT(IrcInfo<'a>),
    /// A single message was removed.
    CLEARMSG(IrcInfo<'a>),
    /// The bot has authenticated with the server.
    GLOBALUSERSTATE(IrcInfo<'a>),
    /// The outcome of an action, such as banning a user.
    NOTICE(IrcInfo<'a>),
    /// A user posted a message to the room.
    PRIVMSG(IrcInfo<'a>),
    /// The bot joined a channel, or the room's settings changed.
    ROOMSTATE(IrcInfo<'a>),
    /// An event such as a subscription to the channel.
    USERNOTICE(IrcInfo<'a>),
    /// The bot joined a channel or sent a message.
    USERSTATE(IrcInfo<'a>),
    /// Someone sent the bot a whisper.
    WHISPER(IrcInfo<'a>),
    /// The bot joined a channel.
    JOIN,
    /// A keep-alive request.
    PING,
    /// Any other command.
    NOTHING,
}

/// What a `TwitchIrcMsg` holds, as texts.
#[allow(non_camel_case_types)]
pub enum MsgView {
    CLEARCHAT(InfoView),
    CLEARMSG(InfoView),
    GLOBALUSERSTATE(InfoView),
    NOTICE(InfoView),
    PRIVMSG(InfoView),
    ROOMSTATE(InfoView),
    USERNOTICE(InfoView),
    USERSTATE(InfoView),
    WHISPER(InfoView),
    JOIN,
    PING,
    NOTHING,
}

impl<'a> View for TwitchIrcMsg<'a> {
    type V = MsgView;

    open spec fn view(&self) -> MsgView {
        match *self {
            TwitchIrcMsg::CLEARCHAT(info) => MsgView::CLEARCHAT(info@),
            TwitchIrcMsg::CLEARMSG(info) => MsgView::CLEARMSG(info@),
            TwitchIrcMsg::GLOBALUSERSTATE(info) => MsgView::GLOBALUSERSTATE(info@),
            TwitchIrcMsg::NOTICE(info) => MsgView::NOTICE(info@),
            TwitchIrcMsg::PRIVMSG(info) => MsgView::PRIVMSG(info@),
            TwitchIrcMsg::ROOMSTATE(info) => MsgView::ROOMSTATE(info@),
            TwitchIrcMsg::USERNOTICE(info) => MsgView::USERNOTICE(info@),
            TwitchIrcMsg::USERSTATE(info) => MsgView::USERSTATE(info@),
            TwitchIrcMsg::WHISPER(info) => MsgView::WHISPER(info@),
            TwitchIrcMsg::JOIN => MsgView::JOIN,
            TwitchIrcMsg::PING => MsgView::PING,
            TwitchIrcMsg::NOTHING => MsgView::NOTHING,
        }
    }
}

/// The message starts with a list of tags.
pub open spec fn is_tagged(line: Seq<char>) -> bool {
    line.len() > 0 && line[0] == '@'
}

/// The tags of a line: those in what stands between the `@` and the first
/// space.
pub open spec fn line_tags(line: Seq<char>) -> Map<Seq<char>, Option<Seq<char>>> {
    if is_tagged(line) {
        tag_map(tag_pairs(before_first(line, ' ').subrange(1, before_first(line, ' ').len() as int)))
    } else {
        Map::empty()
    }
}

/// The line behind its tags.
pub open spec fn line_body(line: Seq<char>) -> Seq<char> {
    if is_tagged(line) {
        match after_first(line, ' ') {
            Some(rest) => rest,
            None => Seq::empty(),
        }
    } else {
        line
    }
}

/// The first word of the body: who sent the message.
pub open spec fn line_prefix(line: Seq<char>) -> Seq<char> {
    before_first(line_body(line), ' ')
}

/// The sender's name in a prefix: what stands between its `:` and its first
/// `!`; empty where the prefix does not start with `:`.
pub open spec fn user_in(prefix: Seq<char>) -> Seq<char> {
    if prefix.len() > 0 && prefix[0] == ':' {
        before_first(prefix, '!').subrange(1, before_first(prefix, '!').len() as int)
    } else {
        Seq::empty()
    }
}

/// The sender's name on a line.
pub open spec fn line_user(line: Seq<char>) -> Seq<char> {
    user_in(line_prefix(line))
}

/// The second word of the body; empty where there is none.
pub open spec fn line_command(line: Seq<char>) -> Seq<char> {
    match after_first(line_body(line), ' ') {
        Some(rest) => before_first(rest, ' '),
        None => Seq::empty(),
    }
}

/// The body behind its second word; empty where there is nothing.
pub open spec fn line_remaining(line: Seq<char>) -> Seq<char> {
    match after_first(line_body(line), ' ') {
        Some(rest) => match after_first(rest, ' ') {
            Some(remaining) => remaining,
            None => Seq::empty(),
        },
        None => Seq::empty(),
    }
}

/// The channel: the third word of the body, without the `#` before it.
pub open spec fn line_host(line: Seq<char>) -> Seq<char> {
    trim_start(before_first(line_remaining(line), ' '), '#')
}

/// The text: what follows the third word, without the `:` before it.
pub open spec fn line_text(line: Seq<char>) -> Seq<char> {
    match after_first(line_remaining(line), ' ') {
        Some(text) => trim_start(text, ':'),
        None => Seq::empty(),
    }
}

/// What a line says of itself, besides its command.
pub open spec fn line_info(line: Seq<char>) -> InfoView {
    InfoView {
        user: line_user(line),
        host: line_host(line),
        text: line_text(line),
        tags: line_tags(line),
    }
}

/// The message of command `name` that says `info` of itself.
pub open spec fn message_of(name: Seq<char>, info: InfoView) -> MsgView {
    if name == "CLEARCHAT"@ {
        MsgView::CLEARCHAT(info)
    } else if name == "CLEARMSG"@ {
        MsgView::CLEARMSG(info)
    } else if name == "GLOBALUSERSTATE"@ {
        MsgView::GLOBALUSERSTATE(info)
    } else if name == "NOTICE"@ {
        MsgView::NOTICE(info)
    } else if name == "PRIVMSG"@ {
        MsgView::PRIVMSG(info)
    } else if name == "ROOMSTATE"@ {
        MsgView::ROOMSTATE(info)
    } else if name == "USERNOTICE"@ {
        MsgView::USERNOTICE(info)
    } else if name == "USERSTATE"@ {
        MsgView::USERSTATE(info)
    } else if name == "WHISPER"@ {
        MsgView::WHISPER(info)
    } else if name == "JOIN"@ {
        MsgView::JOIN
    } else if name == "PING"@ {
        MsgView::PING
    } else {
        MsgView::NOTHING
    }
}

fn message_from<'a>(command: &str, info: IrcInfo<'a>) -> (msg: TwitchIrcMsg<'a>)
    ensures
        msg@ == message_of(command@, info@),
{
    if same_text(command, "CLEARCHAT") {
        TwitchIrcMsg::CLEARCHAT(info)
    } else if same_text(command, "CLEARMSG") {
        TwitchIrcMsg::CLEARMSG(info)
    } else if same_text(command, "GLOBALUSERSTATE") {
        TwitchIrcMsg::GLOBALUSERSTATE(info)
    } else if same_text(command, "NOTICE") {
        TwitchIrcMsg::NOTICE(info)
    } else if same_text(command, "PRIVMSG") {
        TwitchIrcMsg::PRIVMSG(info)
    } else if same_text(command, "ROOMSTATE") {
        TwitchIrcMsg::ROOMSTATE(info)
    } else if same_text(command, "USERNOTICE") {
        TwitchIrcMsg::USERNOTICE(info)
    } else if same_text(command, "USERSTATE") {
        TwitchIrcMsg::USERSTATE(info)
    } else if same_text(command, "WHISPER") {
        TwitchIrcMsg::WHISPER(info)
    } else if same_text(command, "JOIN") {
        TwitchIrcMsg::JOIN
    } else if same_text(command, "PING") {
        TwitchIrcMsg::PING
    } else {
        TwitchIrcMsg::NOTHING
    }
}

/// Where the word that `chars[from..]` starts with ends, and where the text
/// behind the space after it starts, if there is a space.
fn cut_word(chars: &Vec<char>, from: usize) -> (cut: (usize, Option<usize>))
    requires
        from <= chars.len(),
    ensures
        from <= cut.0 <= chars.len(),
        chars@.subrange(from as int, cut.0 as int) == before_first(
            chars@.subrange(from as int, chars.len() as int),
            ' ',
        ),
        match cut.1 {
            Some(next) => next == cut.0 + 1 && next <= chars.len() && after_first(
                chars@.subrange(from as int, chars.len() as int),
                ' ',
            ) == Some(chars@.subrange(next as int, chars.len() as int)),
            None => cut.0 == chars.len() && after_first(
                chars@.subrange(from as int, chars.len() as int),
                ' ',
            ) is None,
        },
{
    let ghost rest = chars@.subrange(from as int, chars.len() as int);
    match find_char(chars, ' ', from, chars.len()) {
        Some(at) => {
            assert(chars@.subrange(from as int, at as int) =~= rest.subrange(0, at - from));
            assert(chars@.subrange(at + 1, chars.len() as int) =~= rest.subrange(
                at - from + 1,
                rest.len() as int,
            ));
            (at, Some(at + 1))
        },
        None => {
            assert(chars@.subrange(from as int, chars.len() as int) =~= rest);
            (chars.len(), None)
        },
    }
}

/// Reads the tags at the start of a line, and finds where its body starts.
fn read_tags<'a>(message: &'a str, chars: &Vec<char>) -> (found: (IrcTagsMap<'a>, usize))
    requires
        chars@ == message@,
    ensures
        found.0@ == line_tags(message@),
        found.1 <= chars.len(),
        chars@.subrange(found.1 as int, chars.len() as int) == line_body(message@),
{
    let n: usize = chars.len();
    let ghost line = chars@;
    assert(line.subrange(0, n as int) =~= line);
    if n > 0 && chars[0] == '@' {
        let (end, next) = cut_word(chars, 0);
        proof {
            if index_of(line, ' ', 0) is Some {
                lemma_index_of_found(line, ' ', 0);
            }
            assert(line.subrange(1, end as int) =~= before_first(line, ' ').subrange(
                1,
                before_first(line, ' ').len() as int,
            ));
        }
        let tags = tags_between(message, chars, 1, end);
        match next {
            Some(body) => (tags, body),
            None => {
                assert(line.subrange(n as int, n as int) =~= Seq::<char>::empty());
                (tags, n)
            },
        }
    } else {
        (IrcTagsMap::new(), 0)
    }
}

/// Reads the sender's name out of the prefix `chars[from..to]`.
fn read_user<'a>(message: &'a str, chars: &Vec<char>, from: usize, to: usize) -> (user: &'a str)
    requires
        chars@ == message@,
        from <= to <= chars.len(),
    ensures
        user@ == user_in(chars@.subrange(from as int, to as int)),
{
    let ghost prefix = chars@.subrange(from as int, to as int);
    if to > from && chars[from] == ':' {
        let end: usize = match find_char(chars, '!', from, to) {
            Some(at) => at,
            None => to,
        };
        proof {
            if index_of(prefix, '!', 0) is Some {
                lemma_index_of_found(prefix, '!', 0);
            }
            assert(chars@.subrange(from as int, end as int) =~= before_first(prefix, '!'));
            assert(chars@.subrange(from + 1, end as int) =~= before_first(prefix, '!').subrange(
                1,
                before_first(prefix, '!').len() as int,
            ));
        }
        message.substring_char(from + 1, end)
    } else {
        let user = message.substring_char(from, from);
        assert(user@ =~= Seq::<char>::empty());
        user
    }
}

/// Reads one line: `@tags :user!rest COMMAND #channel :text`, each part of
/// which may be missing.
pub fn parse_message<'a>(message: &'a str) -> (msg: TwitchIrcMsg<'a>)
    ensures
        msg@ == message_of(line_command(message@), line_info(message@)),
{
    let chars = chars_of(message);
    let n: usize = chars.len();
    let ghost line = chars@;
    let (tags, body) = read_tags(message, &chars);
    let (prefix_end, after_prefix) = cut_word(&chars, body);
    let user = read_user(message, &chars, body, prefix_end);
    let (command_start, command_end, remaining): (usize, usize, usize) = match after_prefix {
        Some(start) => {
            let (end, next) = cut_word(&chars, start);
            match next {
                Some(remaining) => (start, end, remaining),
                None => (start, end, n),
            }
        },
        None => (n, n, n),
    };
    assert(chars@.subrange(n as int, n as int) =~= Seq::<char>::empty());
    let command = message.substring_char(command_start, command_end);
    assert(command@ == line_command(line));
    assert(chars@.subrange(remaining as int, n as int) == line_remaining(line));
    let (host_end, after_host) = cut_word(&chars, remaining);
    let host_start = skip_run(&chars, '#', remaining, host_end);
    let host = message.substring_char(host_start, host_end);
    let text: &'a str = match after_host {
        Some(start) => {
            let text_start = skip_run(&chars, ':', start, n);
            message.substring_char(text_start, n)
        },
        None => message.substring_char(n, n),
    };
    let info = IrcInfo { user, host, text, tags };
    assert(info@ == line_info(line));
    message_from(command, info)
}

/// The three lines that log the bot in and join its channel, in order.
pub fn login_lines(channel: &str, username: &str, token: &str) -> (lines: Vec<String>)
    ensures
        lines.len() == 3,
        lines[0]@ == "PASS "@ + token@,
        lines[1]@ == "NICK "@ + username@,
        lines[2]@ == "JOIN #"@ + channel@,
{
    let mut lines: Vec<String> = Vec::new();
    lines.push("PASS ".to_owned().concat(token));
    lines.push("NICK ".to_owned().concat(username));
    lines.push("JOIN #".to_owned().concat(channel));
    lines
}

/// The line that posts `data` to `channel`.
pub fn chat_line(channel: &str, data: &str) -> (line: String)
    ensures
        line@ == "PRIVMSG #"@ + channel@ + " :"@ + data@,
{
    "PRIVMSG #".to_owned().concat(channel).concat(" :").concat(data)
}

/// `data` as it goes over the wire: with the line ending behind it.
pub fn wire_line(data: &str) -> (line: String)
    ensures
        line@ == data@ + "\r\n"@,
{
    data.to_owned().concat("\r\n")
}

} // verus!
