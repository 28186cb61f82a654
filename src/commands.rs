//! The line-oriented control protocol: tokens, commands and reply lines.
use vstd::prelude::*;
use vstd::std_specs::iter::IteratorSpec;

verus! {

broadcast use vstd::string::group_string_axioms;

/// Relies on `String::push`: it appends one character.
pub assume_specification[ String::push ](s: &mut String, ch: char)
    ensures
        final(s)@ == old(s)@.push(ch),
;

/// Characters that separate tokens: Unicode White_Space, the set that
/// `char::is_whitespace` and `str::trim` use.
pub open spec fn is_blank(c: char) -> bool {
    let n = c as u32;
    (9 <= n && n <= 13) || n == 0x20 || n == 0x85 || n == 0xA0 || n == 0x1680 || (0x2000 <= n
        && n <= 0x200A) || n == 0x2028 || n == 0x2029 || n == 0x202F || n == 0x205F || n == 0x3000
}

/// Left-to-right scan of a line: the finished tokens and the token in progress.
pub open spec fn scan(s: Seq<char>) -> (Seq<Seq<char>>, Seq<char>)
    decreases s.len(),
{
    if s.len() == 0 {
        (Seq::empty(), Seq::empty())
    } else {
        let prev = scan(s.drop_last());
        let c = s.last();
        if is_blank(c) {
            if prev.1.len() > 0 {
                (prev.0.push(prev.1), Seq::empty())
            } else {
                (prev.0, Seq::empty())
            }
        } else {
            (prev.0, prev.1.push(c))
        }
    }
}

/// The maximal runs of non-blank characters of `s`, in order.
pub open spec fn tokens(s: Seq<char>) -> Seq<Seq<char>> {
    let r = scan(s);
    if r.1.len() > 0 {
        r.0.push(r.1)
    } else {
        r.0
    }
}

pub(crate) fn is_blank_char(c: char) -> (r: bool)
    ensures
        r == is_blank(c),
{
    let n = c as u32;
    (9 <= n && n <= 13) || n == 0x20 || n == 0x85 || n == 0xA0 || n == 0x1680 || (0x2000 <= n
        && n <= 0x200A) || n == 0x2028 || n == 0x2029 || n == 0x202F || n == 0x205F || n == 0x3000
}

/// Splits a command line into its whitespace-delimited tokens.
pub fn split_tokens(s: &str) -> (r: Vec<String>)
    ensures
        r@.map_values(|t: String| t@) == tokens(s@),
{
    let mut done: Vec<String> = Vec::new();
    let mut cur: String = String::new();
    let mut chars = s.chars();
    let ghost mut i: int = 0;
    proof {
        assert(s@.subrange(0, 0) =~= Seq::<char>::empty());
    }
    loop
        invariant
            0 <= i <= s@.len(),
            chars.obeys_prophetic_iter_laws(),
            chars.remaining() == s@.subrange(i, s@.len() as int),
            done@.map_values(|t: String| t@) == scan(s@.subrange(0, i)).0,
            cur@ == scan(s@.subrange(0, i)).1,
        ensures
            done@.map_values(|t: String| t@) == scan(s@).0,
            cur@ == scan(s@).1,
        decreases s@.len() - i,
    {
        let next = chars.next();
        match next {
            None => {
                assert(s@.subrange(0, i) =~= s@);
                break;
            },
            Some(c) => {
                proof {
                    assert(s@.subrange(0, i + 1).drop_last() =~= s@.subrange(0, i));
                    assert(s@.subrange(i + 1, s@.len() as int) =~= s@.subrange(i, s@.len() as int).drop_first());
                }
                if is_blank_char(c) {
                    if !cur.as_str().is_empty() {
                        let tok = cur;
                        cur = String::new();
                        done.push(tok);
                        proof {
                            assert(done@.map_values(|t: String| t@) =~= scan(s@.subrange(0, i + 1)).0);
                        }
                    } else {
                        cur = String::new();
                    }
                } else {
                    cur.push(c);
                }
                proof {
                    i = i + 1;
                }
            },
        }
    }
    if !cur.as_str().is_empty() {
        done.push(cur);
        assert(done@.map_values(|t: String| t@) =~= tokens(s@));
    }
    
    done
}


/// The version string that `version` answers with.
pub const VERSION: &'static str = "0.1.0";

/// A request of the control protocol.
#[derive(Debug)]
pub enum ServerCommand {
    AddFeed(String),
    RemoveFeed(String),
    Ping,
    Version,
}

/// Why a command line was refused.
#[derive(Debug, Clone, Copy, PartialEq, Eq, Structural)]
pub enum CommandParseError {
    /// The line is empty, or its first token is no known command.
    MissingKeyword,
    /// `feed` is followed by neither `add` nor `remove`.
    UnknownKeyword,
    /// The line has too few tokens.
    NotLongEnough,
    /// `feed add` or `feed remove` without a URL.
    MissingLink,
}

/// The mathematical value of a command.
pub enum CommandView {
    AddFeed(Seq<char>),
    RemoveFeed(Seq<char>),
    Ping,
    Version,
}

impl View for ServerCommand {
    type V = CommandView;

    open spec fn view(&self) -> CommandView {
        match self {
            ServerCommand::AddFeed(u) => CommandView::AddFeed(u@),
            ServerCommand::RemoveFeed(u) => CommandView::RemoveFeed(u@),
            ServerCommand::Ping => CommandView::Ping,
            ServerCommand::Version => CommandView::Version,
        }
    }
}

pub open spec fn word_feed() -> Seq<char> {
    seq!['f', 'e', 'e', 'd']
}

pub open spec fn word_add() -> Seq<char> {
    seq!['a', 'd', 'd']
}

pub open spec fn word_remove() -> Seq<char> {
    seq!['r', 'e', 'm', 'o', 'v', 'e']
}

pub open spec fn word_ping() -> Seq<char> {
    seq!['p', 'i', 'n', 'g']
}

pub open spec fn word_version() -> Seq<char> {
    seq!['v', 'e', 'r', 's', 'i', 'o', 'n']
}

/// What a command line means, decided on its tokens from left to right.
/// Tokens after the URL are ignored.
pub open spec fn parse_tokens(t: Seq<Seq<char>>) -> Result<CommandView, CommandParseError> {
    if t.len() == 0 {
        Err(CommandParseError::MissingKeyword)
    } else if t[0] == word_feed() {
        if t.len() < 2 {
            Err(CommandParseError::NotLongEnough)
        } else if t[1] == word_add() {
            if t.len() < 3 {
                Err(CommandParseError::MissingLink)
            } else {
                Ok(CommandView::AddFeed(t[2]))
            }
        } else if t[1] == word_remove() {
            if t.len() < 3 {
                Err(CommandParseError::MissingLink)
            } else {
                Ok(CommandView::RemoveFeed(t[2]))
            }
        } else {
            Err(CommandParseError::UnknownKeyword)
        }
    } else if t[0] == word_ping() {
        Ok(CommandView::Ping)
    } else if t[0] == word_version() {
        Ok(CommandView::Version)
    } else {
        Err(CommandParseError::MissingKeyword)
    }
}

pub open spec fn parse_spec(s: Seq<char>) -> Result<CommandView, CommandParseError> {
    parse_tokens(tokens(s))
}

pub open spec fn parsed_view(r: Result<ServerCommand, CommandParseError>) -> Result<
    CommandView,
    CommandParseError,
> {
    match r {
        Ok(c) => Ok(c@),
        Err(e) => Err(e),
    }
}

fn is_word(t: &String, w: &str) -> (r: bool)
    ensures
        r == (t@ == w@),
{
    let owned: String = w.to_owned();
    *t == owned
}

impl ServerCommand {
    /// Parses one command line.
    pub fn parse(line: &str) -> (r: Result<ServerCommand, CommandParseError>)
        ensures
            parsed_view(r) == parse_spec(line@),
    {
        let toks = split_tokens(line);
        let ghost tv = toks@.map_values(|t: String| t@);
        proof {
            reveal_strlit("feed");
            reveal_strlit("add");
            reveal_strlit("remove");
            reveal_strlit("ping");
            reveal_strlit("version");
            assert("feed"@ =~= word_feed());
            assert("add"@ =~= word_add());
            assert("remove"@ =~= word_remove());
            assert("ping"@ =~= word_ping());
            assert("version"@ =~= word_version());
        }
        if toks.len() == 0 {
            return Err(CommandParseError::MissingKeyword);
        }
        assert(tv[0] == toks@[0]@);
        if is_word(&toks[0], "feed") {
            if toks.len() < 2 {
                return Err(CommandParseError::NotLongEnough);
            }
            assert(tv[1] == toks@[1]@);
            let add = is_word(&toks[1], "add");
            let remove = is_word(&toks[1], "remove");
            if !add && !remove {
                return Err(CommandParseError::UnknownKeyword);
            }
            if toks.len() < 3 {
                return Err(CommandParseError::MissingLink);
            }
            assert(tv[2] == toks@[2]@);
            let url = toks[2].clone();
            if add {
                Ok(ServerCommand::AddFeed(url))
            } else {
                Ok(ServerCommand::RemoveFeed(url))
            }
        } else if is_word(&toks[0], "ping") {
            Ok(ServerCommand::Ping)
        } else if is_word(&toks[0], "version") {
            Ok(ServerCommand::Version)
        } else {
            Err(CommandParseError::MissingKeyword)
        }
    }

    /// The command line that asks for this command.
    pub fn to_string(self) -> (r: String)
        ensures
            r@ == render(self@),
    {
        match self {
            ServerCommand::AddFeed(feed) => {
                let mut r: String = "feed add ".to_owned();
                r.append(feed.as_str());
                r
            },
            ServerCommand::RemoveFeed(feed) => {
                let mut r: String = "feed remove ".to_owned();
                r.append(feed.as_str());
                r
            },
            ServerCommand::Ping => "ping".to_owned(),
            ServerCommand::Version => "version".to_owned(),
        }
    }

    /// The reply text of a command that needs no engine state; `None` for
    /// the commands that change the feed set.
    pub fn format_reply(&self) -> (r: Option<String>)
        ensures
            r matches Some(m) ==> Some(m@) == direct_reply(self@),
            r is None <==> direct_reply(self@) is None,
    {
        match self {
            ServerCommand::AddFeed(_) => None,
            ServerCommand::RemoveFeed(_) => None,
            ServerCommand::Ping => Some("Pong".to_owned()),
            ServerCommand::Version => Some(VERSION.to_owned()),
        }
    }
}


/// The command line of a command.
pub open spec fn render(c: CommandView) -> Seq<char> {
    match c {
        CommandView::AddFeed(u) => "feed add "@ + u,
        CommandView::RemoveFeed(u) => "feed remove "@ + u,
        CommandView::Ping => "ping"@,
        CommandView::Version => "version"@,
    }
}

/// The answer to `ping` and `version`.
pub open spec fn direct_reply(c: CommandView) -> Option<Seq<char>> {
    match c {
        CommandView::Ping => Some("Pong"@),
        CommandView::Version => Some(VERSION@),
        _ => None,
    }
}

pub open spec fn error_text(e: CommandParseError) -> Seq<char> {
    match e {
        CommandParseError::MissingKeyword => "Missing keyword"@,
        CommandParseError::UnknownKeyword => "Unknown keyword"@,
        CommandParseError::NotLongEnough => "Command not long enough"@,
        CommandParseError::MissingLink => "Missing link"@,
    }
}

impl CommandParseError {
    /// The human-readable text of the error.
    pub fn to_string(&self) -> (r: String)
        ensures
            r@ == error_text(*self),
    {
        match self {
            CommandParseError::MissingKeyword => "Missing keyword".to_owned(),
            CommandParseError::UnknownKeyword => "Unknown keyword".to_owned(),
            CommandParseError::NotLongEnough => "Command not long enough".to_owned(),
            CommandParseError::MissingLink => "Missing link".to_owned(),
        }
    }
}

/// A framed reply: `ACK <message>` or `ERR <message>`, ending in a newline.
pub open spec fn reply_spec(ok: bool, msg: Seq<char>) -> Seq<char> {
    (if ok {
        "ACK "@
    } else {
        "ERR "@
    }) + msg + "\n"@
}

/// Frames one reply line.
pub fn reply_line(ok: bool, msg: &str) -> (r: String)
    ensures
        r@ == reply_spec(ok, msg@),
{
    let mut r: String = if ok {
        "ACK ".to_owned()
    } else {
        "ERR ".to_owned()
    };
    r.append(msg);
    r.append("\n");
    r
}

/// The reply to a line that did not parse.
pub fn parse_error_reply(e: CommandParseError) -> (r: String)
    ensures
        r@ == reply_spec(false, error_text(e)),
{
    let m = e.to_string();
    reply_line(false, m.as_str())
}

/// The reply to `ping` or `version`, or `None` for a command that changes
/// the feed set.
pub fn direct_reply_line(c: &ServerCommand) -> (r: Option<String>)
    ensures
        r is None <==> direct_reply(c@) is None,
        r matches Some(l) ==> l@ == reply_spec(true, direct_reply(c@)->0),
{
    match c.format_reply() {
        Some(m) => Some(reply_line(true, m.as_str())),
        None => None,
    }
}

/// The reply to `feed add`: whether the feed was newly tracked, or the
/// reason it could not be resolved.
pub fn add_feed_reply(url: &str, outcome: &Result<bool, String>) -> (r: String)
    ensures
        r@ == add_reply_spec(url@, match outcome {
            Ok(b) => Ok(*b),
            Err(e) => Err(e@),
        }),
{
    match outcome {
        Ok(true) => {
            let mut m: String = "Added feed: ".to_owned();
            m.append(url);
            reply_line(true, m.as_str())
        },
        Ok(false) => {
            let mut m: String = "Already tracked feed: ".to_owned();
            m.append(url);
            reply_line(true, m.as_str())
        },
        Err(e) => {
            let mut m: String = "Could not add feed: ".to_owned();
            m.append(e.as_str());
            reply_line(false, m.as_str())
        },
    }
}

pub open spec fn add_reply_spec(url: Seq<char>, outcome: Result<bool, Seq<char>>) -> Seq<char> {
    match outcome {
        Ok(true) => reply_spec(true, "Added feed: "@ + url),
        Ok(false) => reply_spec(true, "Already tracked feed: "@ + url),
        Err(e) => reply_spec(false, "Could not add feed: "@ + e),
    }
}

/// The reply to `feed remove`: removing a feed that is not tracked is no
/// error.
pub fn remove_feed_reply(url: &str, found: bool) -> (r: String)
    ensures
        r@ == remove_reply_spec(url@, found),
{
    if found {
        let mut m: String = "Removed ".to_owned();
        m.append(url);
        m.append(" feed");
        reply_line(true, m.as_str())
    } else {
        let mut m: String = "Feed is not being followed: ".to_owned();
        m.append(url);
        reply_line(true, m.as_str())
    }
}

pub open spec fn remove_reply_spec(url: Seq<char>, found: bool) -> Seq<char> {
    if found {
        reply_spec(true, "Removed "@ + url + " feed"@)
    } else {
        reply_spec(true, "Feed is not being followed: "@ + url)
    }
}

/// What a connection does with the line a client sent.
#[derive(Debug)]
pub enum Route {
    /// Answer at once with this reply line.
    Reply(String),
    /// Hand the command to the engine, which owns the feed set.
    Forward(ServerCommand),
}

pub open spec fn route_spec(line: Seq<char>, r: Route) -> bool {
    match parse_spec(line) {
        Err(e) => r matches Route::Reply(l) && l@ == reply_spec(false, error_text(e)),
        Ok(c) => match direct_reply(c) {
            Some(m) => r matches Route::Reply(l) && l@ == reply_spec(true, m),
            None => r matches Route::Forward(cmd) && cmd@ == c,
        },
    }
}

/// Decides how a connection answers `line`: malformed lines and `ping` or
/// `version` get their reply directly; commands that change the feed set
/// go to the engine.
pub fn route(line: &str) -> (r: Route)
    ensures
        route_spec(line@, r),
{
    match ServerCommand::parse(line) {
        Err(e) => Route::Reply(parse_error_reply(e)),
        Ok(cmd) => match direct_reply_line(&cmd) {
            Some(l) => Route::Reply(l),
            None => Route::Forward(cmd),
        },
    }
}

/// A URL that travels as one token: not empty, with no blank in it.
pub open spec fn is_token(u: Seq<char>) -> bool {
    u.len() > 0 && forall|i: int| 0 <= i < u.len() ==> !is_blank(#[trigger] u[i])
}

proof fn lemma_scan_word(p: Seq<char>, u: Seq<char>)
    requires
        scan(p).1.len() == 0,
        forall|i: int| 0 <= i < u.len() ==> !is_blank(#[trigger] u[i]),
    ensures
        scan(p + u) == (scan(p).0, u),
    decreases u.len(),
{
    if u.len() == 0 {
        assert(p + u =~= p);
        assert(scan(p).1 =~= u);
    } else {
        let w = u.drop_last();
        assert forall|i: int| 0 <= i < w.len() implies !is_blank(#[trigger] w[i]) by {
            assert(w[i] == u[i]);
        }
        lemma_scan_word(p, w);
        assert((p + u).drop_last() =~= p + w);
        assert((p + u).last() == u[u.len() - 1]);
        assert(w.push(u.last()) =~= u);
    }
}

proof fn lemma_scan_word_blank(p: Seq<char>, u: Seq<char>)
    requires
        scan(p).1.len() == 0,
        is_token(u),
    ensures
        scan(p + u + seq![' ']) == (scan(p).0.push(u), Seq::<char>::empty()),
{
    lemma_scan_word(p, u);
    assert((p + u + seq![' ']).drop_last() =~= p + u);
}

/// A command line written by `to_string` parses back to the same command,
/// when its URL is one token.
pub proof fn lemma_render_parse(c: CommandView)
    requires
        c matches CommandView::AddFeed(u) ==> is_token(u),
        c matches CommandView::RemoveFeed(u) ==> is_token(u),
    ensures
        parse_spec(render(c)) == Ok::<CommandView, CommandParseError>(c),
{
    reveal_strlit("feed add ");
    reveal_strlit("feed remove ");
    reveal_strlit("ping");
    reveal_strlit("version");
    let e = Seq::<char>::empty();
    assert(scan(e) == (Seq::<Seq<char>>::empty(), e));
    match c {
        CommandView::AddFeed(u) => {
            lemma_scan_word_blank(e, word_feed());
            let p1 = e + word_feed() + seq![' '];
            lemma_scan_word_blank(p1, word_add());
            let p2 = p1 + word_add() + seq![' '];
            lemma_scan_word(p2, u);
            assert("feed add "@ =~= p2);
            assert(tokens(render(c)) =~= seq![word_feed(), word_add(), u]);
        },
        CommandView::RemoveFeed(u) => {
            lemma_scan_word_blank(e, word_feed());
            let p1 = e + word_feed() + seq![' '];
            lemma_scan_word_blank(p1, word_remove());
            let p2 = p1 + word_remove() + seq![' '];
            lemma_scan_word(p2, u);
            assert("feed remove "@ =~= p2);
            assert(tokens(render(c)) =~= seq![word_feed(), word_remove(), u]);
            assert(word_remove() != word_add());
        },
        CommandView::Ping => {
            lemma_scan_word(e, word_ping());
            assert(e + word_ping() =~= "ping"@);
            assert(tokens(render(c)) =~= seq![word_ping()]);
            assert(word_ping() != word_feed());
        },
        CommandView::Version => {
            lemma_scan_word(e, word_version());
            assert(e + word_version() =~= "version"@);
            assert(tokens(render(c)) =~= seq![word_version()]);
            assert(word_version() != word_feed());
            assert(word_version() != word_ping());
        },
    }
}

} // verus!
