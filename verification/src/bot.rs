//! The Telegram bot's decisions: reading a command, choosing the reply,
//! escaping log text for an HTML message, and the webhook's token, URL and
//! listen address.
use vstd::prelude::*;

use crate::config::{AppConfig, TelegramConfig};
use crate::text::{
    chars_of, concat2, concat3, copy_str, decimal_string, is_digit, is_ws, trim_start,
    lemma_decimal_string_reads_back, lemma_next_word_of, next_word, next_word_bounds,
    parse_usize_range, parse_usize_spec, replace_all, replace_str, string_of_range, u64_to_string,
};

verus! {

/// A command sent to the bot.
#[derive(Debug, PartialEq, Eq)]
pub enum ParsedCommand {
    Start,
    Help,
    Language(Option<String>),
    Logs(Option<usize>),
    LogLatestTail(Option<usize>),
    Unknown,
}

/// The command that the text `input` holds: its first word names it; the
/// second word, if any, is the language of `/language` or the number of
/// `/logs` and `/log_latest_tail` (`None` when it is not a `usize`).
pub open spec fn command_matches(input: Seq<char>, r: ParsedCommand) -> bool {
    match next_word(input) {
        None => r == ParsedCommand::Unknown,
        Some((w, rest)) => if w == "/start"@ {
            r == ParsedCommand::Start
        } else if w == "/help"@ {
            r == ParsedCommand::Help
        } else if w == "/language"@ {
            match next_word(rest) {
                None => r == ParsedCommand::Language(None),
                Some((a, _)) => r matches ParsedCommand::Language(Some(l)) && l@ == a,
            }
        } else if w == "/logs"@ {
            r == ParsedCommand::Logs(
                match next_word(rest) {
                    None => None,
                    Some((a, _)) => parse_usize_spec(a),
                },
            )
        } else if w == "/log_latest_tail"@ {
            r == ParsedCommand::LogLatestTail(
                match next_word(rest) {
                    None => None,
                    Some((a, _)) => parse_usize_spec(a),
                },
            )
        } else {
            r == ParsedCommand::Unknown
        },
    }
}

/// Whether `v[from..to]` reads `lit`.
fn range_is(v: &Vec<char>, from: usize, to: usize, lit: &str) -> (r: bool)
    requires
        from <= to <= v.len(),
    ensures
        r == (v@.subrange(from as int, to as int) == lit@),
{
    let l = chars_of(lit);
    if l.len() != to - from {
        return false;
    }
    let mut k: usize = 0;
    while k < l.len()
        invariant
            l@ == lit@,
            l.len() == to - from,
            from <= to <= v.len(),
            k <= l.len(),
            forall|m: int| 0 <= m < k ==> v@[from + m] == l@[m],
        decreases l.len() - k,
    {
        if v[from + k] != l[k] {
            assert(v@.subrange(from as int, to as int)[k as int] != l@[k as int]);
            return false;
        }
        k = k + 1;
    }
    assert(v@.subrange(from as int, to as int) =~= l@);
    true
}

/// The second word of a command, as its argument: `None` when there is none.
fn argument_bounds(v: &Vec<char>, from: usize) -> (r: Option<(usize, usize)>)
    requires
        from <= v.len(),
    ensures
        match r {
            None => next_word(v@.subrange(from as int, v@.len() as int)) is None,
            Some((i, j)) => {
                &&& from <= i <= j <= v.len()
                &&& next_word(v@.subrange(from as int, v@.len() as int)) matches Some((a, _))
                    && a == v@.subrange(i as int, j as int)
            },
        },
{
    match next_word_bounds(v, from, v.len()) {
        None => None,
        Some((i, j)) => Some((i, j)),
    }
}

/// Reads a command.
pub fn parse_command(input: &str) -> (r: ParsedCommand)
    ensures
        command_matches(input@, r),
{
    let v = chars_of(input);
    assert(v@.subrange(0, v@.len() as int) =~= v@);
    let (i, j) = match next_word_bounds(&v, 0, v.len()) {
        None => {
            return ParsedCommand::Unknown;
        },
        Some(b) => b,
    };
    if range_is(&v, i, j, "/start") {
        ParsedCommand::Start
    } else if range_is(&v, i, j, "/help") {
        ParsedCommand::Help
    } else if range_is(&v, i, j, "/language") {
        match argument_bounds(&v, j) {
            None => ParsedCommand::Language(None),
            Some((a, b)) => ParsedCommand::Language(Some(string_of_range(&v, a, b))),
        }
    } else if range_is(&v, i, j, "/logs") {
        match argument_bounds(&v, j) {
            None => ParsedCommand::Logs(None),
            Some((a, b)) => ParsedCommand::Logs(parse_usize_range(&v, a, b)),
        }
    } else if range_is(&v, i, j, "/log_latest_tail") {
        match argument_bounds(&v, j) {
            None => ParsedCommand::LogLatestTail(None),
            Some((a, b)) => ParsedCommand::LogLatestTail(parse_usize_range(&v, a, b)),
        }
    } else {
        ParsedCommand::Unknown
    }
}

/// A count written in decimal after `/logs` or `/log_latest_tail` is read
/// back as that count, for every count a `usize` holds.
pub proof fn law_count_argument_reads_back(n: usize)
    ensures
        command_matches("/logs "@ + decimal_string(n as nat), ParsedCommand::Logs(Some(n))),
        command_matches(
            "/log_latest_tail "@ + decimal_string(n as nat),
            ParsedCommand::LogLatestTail(Some(n)),
        ),
{
    reveal_strlit("/logs ");
    reveal_strlit("/logs");
    reveal_strlit("/log_latest_tail ");
    reveal_strlit("/log_latest_tail");
    reveal_strlit("/start");
    reveal_strlit("/help");
    reveal_strlit("/language");
    let d = decimal_string(n as nat);
    lemma_decimal_string_reads_back(n as nat);
    let space = seq![' '];
    let empty = Seq::<char>::empty();
    assert(is_ws(' '));
    assert forall|k: int| 0 <= k < d.len() implies !is_ws(#[trigger] d[k]) by {
        assert(is_digit(d[k]));
    }
    lemma_next_word_of(space, d, empty);
    assert(space + d + empty =~= space + d);
    assert(d[0] != '+') by {
        assert(is_digit(d[0]));
    }
    assert(parse_usize_spec(d) == Some(n));
    let logs = "/logs"@;
    assert forall|k: int| 0 <= k < logs.len() implies !is_ws(#[trigger] logs[k]) by {}
    lemma_next_word_of(empty, logs, space + d);
    assert(empty + logs + (space + d) =~= "/logs "@ + d);
    let tail = "/log_latest_tail"@;
    assert forall|k: int| 0 <= k < tail.len() implies !is_ws(#[trigger] tail[k]) by {}
    lemma_next_word_of(empty, tail, space + d);
    assert(empty + tail + (space + d) =~= "/log_latest_tail "@ + d);
    assert(logs != "/start"@ && logs != "/help"@ && logs != "/language"@) by {
        assert(logs.len() != "/start"@.len() || logs[1] != "/start"@[1]);
        assert(logs[1] != "/help"@[1]);
        assert(logs.len() != "/language"@.len());
    }
    assert(tail != "/start"@ && tail != "/help"@ && tail != "/language"@ && tail != "/logs"@) by {
        assert(tail.len() != "/start"@.len());
        assert(tail.len() != "/help"@.len());
        assert(tail.len() != "/language"@.len());
        assert(tail.len() != "/logs"@.len());
    }
}

/// `/start` and `/help` read as themselves, `/language` alone asks for the
/// usage, `/language` followed by a word asks for that word as the locale,
/// and `/logs` or `/log_latest_tail` without a count reads no count.
pub proof fn law_commands_read_as_named(l: String)
    requires
        l@.len() > 0,
        forall|k: int| 0 <= k < l@.len() ==> !is_ws(#[trigger] l@[k]),
    ensures
        command_matches("/start"@, ParsedCommand::Start),
        command_matches("/help"@, ParsedCommand::Help),
        command_matches("/language"@, ParsedCommand::Language(None)),
        command_matches("/language "@ + l@, ParsedCommand::Language(Some(l))),
        command_matches("/logs"@, ParsedCommand::Logs(None)),
        command_matches("/log_latest_tail"@, ParsedCommand::LogLatestTail(None)),
{
    let w = l@;
    reveal_strlit("/language ");
    reveal_strlit("/logs");
    reveal_strlit("/log_latest_tail");
    reveal_strlit("/start");
    reveal_strlit("/help");
    reveal_strlit("/language");
    let empty = Seq::<char>::empty();
    let space = seq![' '];
    assert(is_ws(' '));
    let start = "/start"@;
    let help = "/help"@;
    let lang = "/language"@;
    let logs = "/logs"@;
    let tail = "/log_latest_tail"@;
    assert forall|k: int| 0 <= k < start.len() implies !is_ws(#[trigger] start[k]) by {}
    assert forall|k: int| 0 <= k < help.len() implies !is_ws(#[trigger] help[k]) by {}
    assert forall|k: int| 0 <= k < lang.len() implies !is_ws(#[trigger] lang[k]) by {}
    assert forall|k: int| 0 <= k < logs.len() implies !is_ws(#[trigger] logs[k]) by {}
    assert forall|k: int| 0 <= k < tail.len() implies !is_ws(#[trigger] tail[k]) by {}
    lemma_next_word_of(empty, start, empty);
    assert(empty + start + empty =~= start);
    lemma_next_word_of(empty, help, empty);
    assert(empty + help + empty =~= help);
    lemma_next_word_of(empty, lang, empty);
    assert(empty + lang + empty =~= lang);
    lemma_next_word_of(empty, logs, empty);
    assert(empty + logs + empty =~= logs);
    lemma_next_word_of(empty, tail, empty);
    assert(empty + tail + empty =~= tail);
    lemma_next_word_of(empty, lang, space + w);
    assert(empty + lang + (space + w) =~= "/language "@ + w);
    lemma_next_word_of(space, w, empty);
    assert(space + w + empty =~= space + w);
    assert(help != start) by {
        assert(help.len() != start.len());
    }
    assert(lang != start && lang != help) by {
        assert(lang.len() != start.len());
        assert(lang.len() != help.len());
    }
    assert(logs != start && logs != help && logs != lang) by {
        assert(logs[1] != start[1]);
        assert(logs[1] != help[1]);
        assert(logs.len() != lang.len());
    }
    assert(tail != start && tail != help && tail != lang && tail != logs) by {
        assert(tail.len() != start.len());
        assert(tail.len() != help.len());
        assert(tail.len() != lang.len());
        assert(tail.len() != logs.len());
    }
    assert(trim_start(empty) =~= empty);
}

// ---------------------------------------------------------------------------
// HTML escaping
// ---------------------------------------------------------------------------

/// `s` with `&`, `<` and `>` replaced by their HTML entities, replacing `&`
/// first so that the entities are not escaped again.
pub open spec fn escape_html_spec(s: Seq<char>) -> Seq<char> {
    replace_all(replace_all(replace_all(s, "&"@, "&amp;"@), "<"@, "&lt;"@), ">"@, "&gt;"@)
}

/// Escapes text for an HTML message.
pub fn escape_html(value: &str) -> (r: String)
    ensures
        r@ == escape_html_spec(value@),
{
    proof {
        reveal_strlit("&");
        reveal_strlit("<");
        reveal_strlit(">");
    }
    let a = replace_str(value, "&", "&amp;");
    let b = replace_str(a.as_str(), "<", "&lt;");
    replace_str(b.as_str(), ">", "&gt;")
}

/// The HTML entity of one character: `&amp;`, `&lt;`, `&gt;`, or the
/// character itself.
pub open spec fn escape_char(c: char) -> Seq<char> {
    if c == '&' {
        "&amp;"@
    } else if c == '<' {
        "&lt;"@
    } else if c == '>' {
        "&gt;"@
    } else {
        seq![c]
    }
}

/// Each character of `s` mapped by `f`, the results concatenated.
pub open spec fn flat_map_chars(s: Seq<char>, f: spec_fn(char) -> Seq<char>) -> Seq<char>
    decreases s.len(),
{
    if s.len() == 0 {
        seq![]
    } else {
        f(s[0]) + flat_map_chars(s.drop_first(), f)
    }
}

proof fn lemma_flat_map_concat(a: Seq<char>, b: Seq<char>, f: spec_fn(char) -> Seq<char>)
    ensures
        flat_map_chars(a + b, f) == flat_map_chars(a, f) + flat_map_chars(b, f),
    decreases a.len(),
{
    if a.len() == 0 {
        assert(a + b =~= b);
    } else {
        lemma_flat_map_concat(a.drop_first(), b, f);
        assert((a + b).drop_first() =~= a.drop_first() + b);
        assert((a + b)[0] == a[0]);
    }
}

/// Replacing a one-character pattern maps the text character by character.
proof fn lemma_replace_single(s: Seq<char>, c: char, rep: Seq<char>, f: spec_fn(char) -> Seq<char>)
    requires
        forall|x: char| #[trigger] f(x) == if x == c {
            rep
        } else {
            seq![x]
        },
    ensures
        replace_all(s, seq![c], rep) == flat_map_chars(s, f),
    decreases s.len(),
{
    if s.len() > 0 {
        lemma_replace_single(s.drop_first(), c, rep, f);
        assert(f(s[0]) == if s[0] == c {
            rep
        } else {
            seq![s[0]]
        });
        if s.take(1) == seq![c] {
            assert(s[0] == s.take(1)[0]);
            assert(s.skip(1) =~= s.drop_first());
        } else {
            assert(s[0] != c) by {
                if s[0] == c {
                    assert(s.take(1) =~= seq![c]);
                }
            }
        }
    }
}

/// Mapping with `f` and then with `g` is mapping once with `h`, the
/// composition.
proof fn lemma_flat_map_compose(
    s: Seq<char>,
    f: spec_fn(char) -> Seq<char>,
    g: spec_fn(char) -> Seq<char>,
    h: spec_fn(char) -> Seq<char>,
)
    requires
        forall|x: char| #[trigger] h(x) == flat_map_chars(f(x), g),
    ensures
        flat_map_chars(flat_map_chars(s, f), g) == flat_map_chars(s, h),
    decreases s.len(),
{
    if s.len() > 0 {
        lemma_flat_map_compose(s.drop_first(), f, g, h);
        lemma_flat_map_concat(f(s[0]), flat_map_chars(s.drop_first(), f), g);
        assert(h(s[0]) == flat_map_chars(f(s[0]), g));
    }
}

/// A single character maps to its image.
proof fn lemma_flat_map_one(c: char, f: spec_fn(char) -> Seq<char>)
    ensures
        flat_map_chars(seq![c], f) == f(c),
{
    reveal_with_fuel(flat_map_chars, 2);
    assert(seq![c].drop_first() =~= Seq::<char>::empty());
    assert(flat_map_chars(Seq::<char>::empty(), f) =~= Seq::<char>::empty());
    assert(f(c) + Seq::<char>::empty() =~= f(c));
}

proof fn lemma_flat_map_ext(s: Seq<char>, f: spec_fn(char) -> Seq<char>, g: spec_fn(char) -> Seq<char>)
    requires
        forall|c: char| #[trigger] f(c) == g(c),
    ensures
        flat_map_chars(s, f) == flat_map_chars(s, g),
    decreases s.len(),
{
    if s.len() > 0 {
        lemma_flat_map_ext(s.drop_first(), f, g);
        assert(f(s[0]) == g(s[0]));
    }
}

/// The map that escapes one character.
pub open spec fn escape_map() -> spec_fn(char) -> Seq<char> {
    |c: char| escape_char(c)
}

/// Escaping maps each character to its entity on its own: the order of the
/// three replacements makes no entity escaped twice.
#[verifier::spinoff_prover]
#[verifier::rlimit(60)]
pub proof fn law_escape_is_per_character(s: Seq<char>)
    ensures
        escape_html_spec(s) == flat_map_chars(s, escape_map()),
{
    reveal_strlit("&");
    reveal_strlit("<");
    reveal_strlit(">");
    reveal_strlit("&amp;");
    reveal_strlit("&lt;");
    reveal_strlit("&gt;");
    assert("&"@ =~= seq!['&']);
    assert("<"@ =~= seq!['<']);
    assert(">"@ =~= seq!['>']);
    let f1 = |x: char|
        if x == '&' {
            "&amp;"@
        } else {
            seq![x]
        };
    let f2 = |x: char|
        if x == '<' {
            "&lt;"@
        } else {
            seq![x]
        };
    let f3 = |x: char|
        if x == '>' {
            "&gt;"@
        } else {
            seq![x]
        };
    let f12 = |x: char| flat_map_chars(f1(x), f2);
    let f123 = |x: char| flat_map_chars(f12(x), f3);
    lemma_replace_single(s, '&', "&amp;"@, f1);
    let s1 = flat_map_chars(s, f1);
    lemma_replace_single(s1, '<', "&lt;"@, f2);
    let s2 = flat_map_chars(s1, f2);
    lemma_replace_single(s2, '>', "&gt;"@, f3);
    lemma_flat_map_compose(s, f1, f2, f12);
    lemma_flat_map_compose(s, f12, f3, f123);
    assert forall|c: char| #[trigger] f123(c) == escape_map()(c) by {
        if c == '&' {
            let e = "&amp;"@;
            assert(flat_map_chars(e, f2) =~= e) by {
                reveal_with_fuel(flat_map_chars, 6);
            }
            assert(flat_map_chars(e, f3) =~= e) by {
                reveal_with_fuel(flat_map_chars, 6);
            }
        } else if c == '<' {
            lemma_flat_map_one(c, f2);
            assert(flat_map_chars("&lt;"@, f3) =~= "&lt;"@) by {
                reveal_with_fuel(flat_map_chars, 5);
            }
        } else {
            lemma_flat_map_one(c, f2);
            lemma_flat_map_one(c, f3);
        }
    }
    lemma_flat_map_ext(s, f123, escape_map());
}

/// A character that no image of `f` holds is not in the mapped text.
proof fn lemma_flat_map_excludes(s: Seq<char>, f: spec_fn(char) -> Seq<char>, x: char)
    requires
        forall|c: char| !(#[trigger] f(c)).contains(x),
    ensures
        !flat_map_chars(s, f).contains(x),
    decreases s.len(),
{
    if s.len() > 0 {
        lemma_flat_map_excludes(s.drop_first(), f, x);
        let head = f(s[0]);
        let rest = flat_map_chars(s.drop_first(), f);
        assert(!head.contains(x));
        if (head + rest).contains(x) {
            let i = choose|i: int| 0 <= i < (head + rest).len() && (head + rest)[i] == x;
            if i < head.len() {
                assert(head[i] == x);
            } else {
                assert(rest[i - head.len()] == x);
            }
        }
    }
}

/// Escaped text holds no `<` and no `>`, so log text sent inside `<pre>`
/// cannot open or close a tag.
pub proof fn law_escaped_has_no_angle_brackets(s: Seq<char>)
    ensures
        !escape_html_spec(s).contains('<'),
        !escape_html_spec(s).contains('>'),
{
    law_escape_is_per_character(s);
    reveal_strlit("&amp;");
    reveal_strlit("&lt;");
    reveal_strlit("&gt;");
    assert forall|c: char| !(#[trigger] escape_map()(c)).contains('<') by {
        let e = escape_map()(c);
        if e.contains('<') {
            let i = choose|i: int| 0 <= i < e.len() && e[i] == '<';
            assert(e[i] == '<');
        }
    }
    assert forall|c: char| !(#[trigger] escape_map()(c)).contains('>') by {
        let e = escape_map()(c);
        if e.contains('>') {
            let i = choose|i: int| 0 <= i < e.len() && e[i] == '>';
            assert(e[i] == '>');
        }
    }
    lemma_flat_map_excludes(s, escape_map(), '<');
    lemma_flat_map_excludes(s, escape_map(), '>');
}

/// Escaping goes character by character: `&`, `<` and `>` become `&amp;`,
/// `&lt;` and `&gt;`, every other character stays, and the text around a
/// character is escaped on its own.
pub proof fn law_escape_entities(a: Seq<char>, c: char, b: Seq<char>)
    ensures
        escape_html_spec(Seq::<char>::empty()) == Seq::<char>::empty(),
        escape_html_spec(a + seq![c] + b) == escape_html_spec(a) + (if c == '&' {
            "&amp;"@
        } else if c == '<' {
            "&lt;"@
        } else if c == '>' {
            "&gt;"@
        } else {
            seq![c]
        }) + escape_html_spec(b),
{
    law_escape_is_per_character(Seq::<char>::empty());
    law_escape_is_per_character(a + seq![c] + b);
    law_escape_is_per_character(a);
    law_escape_is_per_character(b);
    lemma_flat_map_concat(a + seq![c], b, escape_map());
    lemma_flat_map_concat(a, seq![c], escape_map());
    lemma_flat_map_one(c, escape_map());
}

// ---------------------------------------------------------------------------
// Replies
// ---------------------------------------------------------------------------

/// The largest archive the bot sends: 50 MiB.
pub const TELEGRAM_ARCHIVE_LIMIT: u64 = 52428800;

/// The number of log lines `/log_latest_tail` sends when none is given.
pub const DEFAULT_TAIL_LINES: usize = 100;

/// The most characters of log text one message carries.
pub const TAIL_MAX_CHARS: usize = 3800;

/// What the bot does first on a command.
#[derive(Debug, PartialEq, Eq)]
pub enum BotAction {
    /// Send the message with this catalog key.
    Reply(String),
    /// Store this locale for the chat, then confirm it.
    SetLanguage(String),
    /// Pack the log files (the newest ones only, when a count is given).
    ArchiveLogs(Option<usize>),
    /// Send the last lines of the newest log, at most this many lines and
    /// this many characters.
    SendTail { lines: usize, max_chars: usize },
}

/// The action for a command: help for `/start` and `/help`, the usage text
/// for `/language` without a locale, 100 lines and 3800 characters of tail
/// unless a line count is given, and the unknown-command text otherwise.
pub fn plan_reply(command: &ParsedCommand) -> (r: BotAction)
    ensures
        match command {
            ParsedCommand::Start | ParsedCommand::Help => r matches BotAction::Reply(k) && k@
                == "bot.command.help"@,
            ParsedCommand::Language(Some(l)) => r matches BotAction::SetLanguage(x) && x@ == l@,
            ParsedCommand::Language(None) => r matches BotAction::Reply(k) && k@
                == "bot.command.language.usage"@,
            ParsedCommand::Logs(limit) => r == BotAction::ArchiveLogs(*limit),
            ParsedCommand::LogLatestTail(lines) => r == BotAction::SendTail {
                lines: match lines {
                    Some(n) => *n,
                    None => 100,
                },
                max_chars: 3800,
            },
            ParsedCommand::Unknown => r matches BotAction::Reply(k) && k@
                == "bot.command.unknown"@,
        },
{
    match command {
        ParsedCommand::Start | ParsedCommand::Help => BotAction::Reply(copy_str("bot.command.help")),
        ParsedCommand::Language(Some(l)) => BotAction::SetLanguage(l.clone()),
        ParsedCommand::Language(None) => BotAction::Reply(copy_str("bot.command.language.usage")),
        ParsedCommand::Logs(limit) => BotAction::ArchiveLogs(*limit),
        ParsedCommand::LogLatestTail(lines) => BotAction::SendTail {
            lines: match lines {
                Some(n) => *n,
                None => DEFAULT_TAIL_LINES,
            },
            max_chars: TAIL_MAX_CHARS,
        },
        ParsedCommand::Unknown => BotAction::Reply(copy_str("bot.command.unknown")),
    }
}

/// What follows packing the logs.
#[derive(Debug, PartialEq, Eq)]
pub enum LogsReply {
    /// The archive is over the limit: send the message with this key instead.
    TooLarge(String),
    /// Send the archive, then the message with this key, naming this count.
    Send { key: String, count: usize },
}

/// The reply to `/logs`: an archive over 50 MiB is refused; otherwise the
/// archive is sent with the count asked for, or with the number of files in
/// the log directory when none was.
pub fn logs_reply(archive_size: u64, limit: Option<usize>, files_in_dir: usize) -> (r: LogsReply)
    ensures
        archive_size > 52428800 ==> (r matches LogsReply::TooLarge(k) && k@
            == "bot.command.logs.archive_too_large"@),
        archive_size <= 52428800 ==> (r matches LogsReply::Send { key, count } && key@
            == "bot.command.logs.sent"@ && count == match limit {
            Some(n) => n,
            None => files_in_dir,
        }),
{
    if archive_size > TELEGRAM_ARCHIVE_LIMIT {
        LogsReply::TooLarge(copy_str("bot.command.logs.archive_too_large"))
    } else {
        let count = match limit {
            Some(n) => n,
            None => files_in_dir,
        };
        LogsReply::Send { key: copy_str("bot.command.logs.sent"), count }
    }
}

/// What `/log_latest_tail` sends.
#[derive(Debug, PartialEq, Eq)]
pub enum TailReply {
    /// This HTML text.
    Html(String),
    /// The message with this catalog key.
    Message(String),
}

/// The reply to `/log_latest_tail`: the escaped tail inside `<pre>` when it
/// has text, the empty-log message when the newest log is empty, and the
/// no-log message when there is no log file.
pub fn tail_reply(tail: Option<String>) -> (r: TailReply)
    ensures
        match tail {
            Some(t) => if t@.len() > 0 {
                r matches TailReply::Html(h) && h@ == "<pre>"@ + escape_html_spec(t@) + "</pre>"@
            } else {
                r matches TailReply::Message(k) && k@ == "bot.command.logs.latest_empty"@
            },
            None => r matches TailReply::Message(k) && k@ == "bot.command.log.empty"@,
        },
{
    match tail {
        Some(t) => {
            if t.as_str().is_empty() {
                TailReply::Message(copy_str("bot.command.logs.latest_empty"))
            } else {
                let e = escape_html(t.as_str());
                TailReply::Html(concat3("<pre>", e.as_str(), "</pre>"))
            }
        },
        None => TailReply::Message(copy_str("bot.command.log.empty")),
    }
}

// ---------------------------------------------------------------------------
// Bot token and webhook
// ---------------------------------------------------------------------------

#[verifier::external_type_specification]
#[verifier::external_body]
pub struct ExUrl(url::Url);

#[verifier::external_type_specification]
#[verifier::external_body]
pub struct ExUrlParseError(url::ParseError);

/// Whether `s` is an absolute URL that `url::Url::parse` accepts.
pub uninterp spec fn url_parses(s: Seq<char>) -> bool;

/// Calls `url::Url::parse`: the result is `Ok` exactly when the text is an
/// absolute URL the parser accepts. Nothing is stated of the parsed URL,
/// which Verus cannot see.
#[verifier::external_body]
fn parse_url(s: &str) -> (r: Result<url::Url, url::ParseError>)
    ensures
        r is Ok <==> url_parses(s@),
{
    url::Url::parse(s)
}

/// Why the bot could not talk to Telegram.
#[derive(Debug, PartialEq, Eq)]
pub enum BotError {
    /// No bot token is configured; the text names what needed it.
    MissingToken(String),
    /// The webhook URL is not a URL.
    InvalidWebhookUrl,
}

impl BotError {
    /// The text of this error.
    pub fn message(&self) -> (r: String)
        ensures
            r@ == match self {
                BotError::MissingToken(purpose) => "telegram.bot_token is required to "@
                    + purpose@,
                BotError::InvalidWebhookUrl => "invalid webhook URL"@,
            },
    {
        match self {
            BotError::MissingToken(purpose) => concat2(
                "telegram.bot_token is required to ",
                purpose.as_str(),
            ),
            BotError::InvalidWebhookUrl => copy_str("invalid webhook URL"),
        }
    }
}

/// The bot token, or the error that names `purpose`.
pub fn bot_token(config: &AppConfig, purpose: &str) -> (r: Result<String, BotError>)
    ensures
        match config.telegram.bot_token {
            Some(t) => r == Ok::<String, BotError>(t),
            None => r matches Err(BotError::MissingToken(p)) && p@ == purpose@,
        },
{
    match &config.telegram.bot_token {
        Some(t) => Ok(t.clone()),
        None => Err(BotError::MissingToken(copy_str(purpose))),
    }
}

/// The token and URL for registering `webhook_url`: the token must be
/// configured (checked first) and the URL must parse; the URL handed on is
/// the text that was checked.
pub fn webhook_registration(config: &AppConfig, webhook_url: &str) -> (r: Result<
    (String, String),
    BotError,
>)
    ensures
        match config.telegram.bot_token {
            None => r matches Err(BotError::MissingToken(p)) && p@ == "set a webhook"@,
            Some(t) => if url_parses(webhook_url@) {
                r matches Ok((tok, url)) && tok == t && url@ == webhook_url@
            } else {
                r == Err::<(String, String), BotError>(BotError::InvalidWebhookUrl)
            },
        },
{
    let token = bot_token(config, "set a webhook")?;
    match parse_url(webhook_url) {
        Ok(_) => Ok((token, copy_str(webhook_url))),
        Err(_) => Err(BotError::InvalidWebhookUrl),
    }
}

// ---------------------------------------------------------------------------
// Webhook listen address
// ---------------------------------------------------------------------------

/// The port written in the URL that `text` parses to; `None` when `text` is
/// not a URL or names no port (or names its scheme's default port).
pub uninterp spec fn url_port_of(text: Seq<char>) -> Option<u16>;

/// Parses `text` with `url::Url::parse` and reads `url::Url::port` of the
/// result: the port written in the URL, `None` for a text that does not parse
/// or a URL without an explicit port.
#[verifier::external_body]
fn url_explicit_port(text: &str) -> (r: Option<u16>)
    ensures
        r == url_port_of(text@),
{
    url::Url::parse(text).ok().and_then(|u| u.port())
}

/// The port the webhook listens on when none is configured: 8443.
pub const DEFAULT_WEBHOOK_PORT: u16 = 8443;

/// The local address the webhook listens on: the configured one, else
/// `0.0.0.0` with `port`, or with 8443 when there is no port.
pub open spec fn listen_address_spec(listen: Option<String>, port: Option<u16>) -> Seq<char> {
    match listen {
        Some(a) => a@,
        None => "0.0.0.0:"@ + decimal_string(
            match port {
                Some(p) => p as nat,
                None => 8443,
            },
        ),
    }
}

/// A configured listen address is used as it is; otherwise the address is
/// `0.0.0.0:` followed by digits that read back as the URL's port, or as
/// 8443 when there is no port.
pub proof fn law_listen_address_port(listen: Option<String>, port: Option<u16>)
    ensures
        listen matches Some(a) ==> listen_address_spec(listen, port) == a@,
        listen is None ==> ({
            let r = listen_address_spec(listen, port);
            &&& r.take(8) == "0.0.0.0:"@
            &&& parse_usize_spec(r.skip(8)) == Some(
                match port {
                    Some(p) => p as usize,
                    None => 8443usize,
                },
            )
        }),
{
    if listen is None {
        reveal_strlit("0.0.0.0:");
        let n: nat = match port {
            Some(p) => p as nat,
            None => 8443,
        };
        let d = decimal_string(n);
        lemma_decimal_string_reads_back(n);
        let r = listen_address_spec(listen, port);
        assert(r == "0.0.0.0:"@ + d);
        assert(r.take(8) =~= "0.0.0.0:"@);
        assert(r.skip(8) =~= d);
        assert(is_digit(d[0]));
    }
}

/// The listen address for a configured address and a webhook URL port.
pub fn listen_address_for(listen: &Option<String>, port: Option<u16>) -> (r: String)
    ensures
        r@ == listen_address_spec(*listen, port),
{
    match listen {
        Some(a) => a.clone(),
        None => {
            let p: u16 = match port {
                Some(p) => p,
                None => DEFAULT_WEBHOOK_PORT,
            };
            let digits = u64_to_string(p as u64);
            concat2("0.0.0.0:", digits.as_str())
        },
    }
}

/// The local address the webhook listens on: `webhook_listen` when it is
/// set, else `0.0.0.0` with the port written in `webhook_url`, or with 8443
/// when the URL names no port (or is missing or not a URL).
pub fn webhook_listen_address(telegram: &TelegramConfig) -> (r: String)
    ensures
        r@ == listen_address_spec(
            telegram.webhook_listen,
            match telegram.webhook_url {
                Some(u) => url_port_of(u@),
                None => None,
            },
        ),
{
    let port: Option<u16> = match &telegram.webhook_url {
        Some(u) => url_explicit_port(u.as_str()),
        None => None,
    };
    listen_address_for(&telegram.webhook_listen, port)
}

} // verus!
