use lyr::irc::{chat_line, login_lines, parse_message, parse_tags, wire_line, IrcInfo, IrcTagsMap, TwitchIrcMsg};

type Entries<'a> = Vec<(&'a str, Option<&'a str>)>;

/// The command's name and, where the message carries one, what it says.
fn taken<'a>(msg: TwitchIrcMsg<'a>) -> (&'static str, Option<IrcInfo<'a>>) {
    match msg {
        TwitchIrcMsg::CLEARCHAT(info) => ("CLEARCHAT", Some(info)),
        TwitchIrcMsg::CLEARMSG(info) => ("CLEARMSG", Some(info)),
        TwitchIrcMsg::GLOBALUSERSTATE(info) => ("GLOBALUSERSTATE", Some(info)),
        TwitchIrcMsg::NOTICE(info) => ("NOTICE", Some(info)),
        TwitchIrcMsg::PRIVMSG(info) => ("PRIVMSG", Some(info)),
        TwitchIrcMsg::ROOMSTATE(info) => ("ROOMSTATE", Some(info)),
        TwitchIrcMsg::USERNOTICE(info) => ("USERNOTICE", Some(info)),
        TwitchIrcMsg::USERSTATE(info) => ("USERSTATE", Some(info)),
        TwitchIrcMsg::WHISPER(info) => ("WHISPER", Some(info)),
        TwitchIrcMsg::JOIN => ("JOIN", None),
        TwitchIrcMsg::PING => ("PING", None),
        TwitchIrcMsg::NOTHING => ("NOTHING", None),
    }
}

fn expect(line: &str, command: &str, user: &str, host: &str, text: &str, tags: Entries) {
    let (name, info) = taken(parse_message(line));
    assert_eq!(name, command);
    let info = info.expect("a message with information");
    assert_eq!(info.user, user);
    assert_eq!(info.host, host);
    assert_eq!(info.text, text);
    assert_eq!(info.tags.entries(), &tags);
}

fn bare(line: &str) -> &'static str {
    let (name, info) = taken(parse_message(line));
    assert!(info.is_none());
    name
}

#[test]
fn tags_with_and_without_values() {
    let map = parse_tags("badge-info=;badges=broadcaster/1,subscriber/0;color=#0000FF;mod");
    assert_eq!(
        map.entries(),
        &vec![
            ("badge-info", Some("")),
            ("badges", Some("broadcaster/1,subscriber/0")),
            ("color", Some("#0000FF")),
            ("mod", None),
        ]
    );
    assert_eq!(map.len(), 4);
    assert_eq!(map.get("color"), Some(Some("#0000FF")));
    assert_eq!(map.get("badge-info"), Some(Some("")));
    assert_eq!(map.get("mod"), Some(None));
    assert_eq!(map.get("absent"), None);
}

#[test]
fn empty_tag_list_has_one_empty_key() {
    let map = parse_tags("");
    assert_eq!(map.entries(), &vec![("", None)]);
    assert_eq!(map.get(""), Some(None));
}

#[test]
fn second_equals_sign_ends_the_value() {
    let map = parse_tags("a=b=c;=x;d==");
    assert_eq!(map.entries(), &vec![("a", Some("b")), ("", Some("x")), ("d", Some(""))]);
}

#[test]
fn later_tag_takes_the_place_of_an_earlier_one() {
    let map = parse_tags("k=1;other;k=2;;");
    assert_eq!(map.get("k"), Some(Some("2")));
    assert_eq!(map.get("other"), Some(None));
    assert_eq!(map.get(""), Some(None));
    assert_eq!(map.len(), 3);
    assert_eq!(map.entries(), &vec![("k", Some("2")), ("other", None), ("", None)]);
}

#[test]
fn insert_sets_and_replaces() {
    let mut map = IrcTagsMap::new();
    assert_eq!(map.len(), 0);
    assert_eq!(map.get("a"), None);
    map.insert("a", Some("1"));
    map.insert("b", None);
    assert_eq!(map.get("a"), Some(Some("1")));
    assert_eq!(map.get("b"), Some(None));
    map.insert("a", None);
    map.insert("b", Some("2"));
    assert_eq!(map.len(), 2);
    assert_eq!(map.get("a"), Some(None));
    assert_eq!(map.get("b"), Some(Some("2")));
}

#[test]
fn privmsg_with_tags() {
    expect(
        "@badge-info=;color=#0000FF :nick!nick@nick.tmi.twitch.tv PRIVMSG #channel :!test now",
        "PRIVMSG",
        "nick",
        "channel",
        "!test now",
        vec![("badge-info", Some("")), ("color", Some("#0000FF"))],
    );
}

#[test]
fn privmsg_without_tags() {
    expect(":tmi.twitch.tv PRIVMSG #channel :!test", "PRIVMSG", "tmi.twitch.tv", "channel", "!test", vec![]);
}

#[test]
fn join_and_ping_carry_nothing() {
    assert_eq!(bare(":bot!bot@bot.tmi.twitch.tv JOIN #channel"), "JOIN");
    assert_eq!(bare(":tmi.twitch.tv PING"), "PING");
}

#[test]
fn ping_without_prefix_is_nothing() {
    // the first word is the prefix, so the command of this line is ":tmi.twitch.tv"
    assert_eq!(bare("PING :tmi.twitch.tv"), "NOTHING");
}

#[test]
fn unknown_command_and_empty_line_are_nothing() {
    assert_eq!(bare(":tmi.twitch.tv 001 bot :Welcome, GLHF!"), "NOTHING");
    assert_eq!(bare(""), "NOTHING");
    assert_eq!(bare("@only=tags"), "NOTHING");
    assert_eq!(bare("@a=1 "), "NOTHING");
    assert_eq!(bare(":tmi.twitch.tv privmsg #c :x"), "NOTHING");
}

#[test]
fn each_command_gives_its_own_message() {
    let names = [
        "CLEARCHAT",
        "CLEARMSG",
        "GLOBALUSERSTATE",
        "NOTICE",
        "PRIVMSG",
        "ROOMSTATE",
        "USERNOTICE",
        "USERSTATE",
        "WHISPER",
    ];
    for name in names {
        let line = format!(":u {name} #c :t");
        expect(&line, name, "u", "c", "t", vec![]);
    }
}

#[test]
fn missing_parts_are_empty() {
    expect("nick NOTICE", "NOTICE", "", "", "", vec![]);
    expect(":nick NOTICE #room", "NOTICE", "nick", "room", "", vec![]);
    expect(":nick NOTICE  ", "NOTICE", "nick", "", "", vec![]);
}

#[test]
fn leading_marks_are_trimmed_as_a_run() {
    expect(":a!b NOTICE ##room# :::hi :there", "NOTICE", "a", "room#", "hi :there", vec![]);
}

#[test]
fn tags_before_a_body() {
    expect("@a=1;b :u ROOMSTATE #c", "ROOMSTATE", "u", "c", "", vec![("a", Some("1")), ("b", None)]);
    expect("@a=1;a=2 :u ROOMSTATE #c", "ROOMSTATE", "u", "c", "", vec![("a", Some("2"))]);
}

#[test]
fn non_ascii_message_is_read_whole() {
    expect(
        "@ñ=é :üser!x PRIVMSG #канал :привет мир",
        "PRIVMSG",
        "üser",
        "канал",
        "привет мир",
        vec![("ñ", Some("é"))],
    );
}

#[test]
fn login_lines_in_order() {
    assert_eq!(
        login_lines("room", "bot", "oauth:abc"),
        vec!["PASS oauth:abc".to_string(), "NICK bot".to_string(), "JOIN #room".to_string()]
    );
}

#[test]
fn chat_and_wire_lines() {
    assert_eq!(chat_line("room", "hello there"), "PRIVMSG #room :hello there");
    assert_eq!(wire_line("PONG :tmi.twitch.tv"), "PONG :tmi.twitch.tv\r\n");
    assert_eq!(wire_line(""), "\r\n");
}
