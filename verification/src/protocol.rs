//! The command protocol: one line of client text parses into a typed command
//! or a descriptive error. Parsing is pure and touches no shared state.

use vstd::prelude::*;
use vstd::string::StrSliceExecFns;
use vstd::string::StringExecFns;

verus! {

/// The parsed form of one line of client input.
#[derive(Debug)]
pub enum Command {
    Help,
    Quit,
    Nick(String),
    Create,
    Join(String),
    Msg(String),
}

/// The mathematical outcome of parsing one line: a command shape over
/// character sequences, or a rejection with the exact error text.
pub enum LineForm {
    Help,
    Quit,
    Nick(Seq<char>),
    Create,
    Join(Seq<char>),
    Msg(Seq<char>),
    Bad(Seq<char>),
}

/// The whitespace characters stripped from both ends of a line.
pub open spec fn is_ws(c: char) -> bool {
    c == ' ' || c == '\t' || c == '\r' || c == '\n'
}

pub open spec fn trim_front(s: Seq<char>) -> Seq<char>
    decreases s.len(),
{
    if s.len() > 0 && is_ws(s[0]) {
        trim_front(s.skip(1))
    } else {
        s
    }
}

pub open spec fn trim_back(s: Seq<char>) -> Seq<char>
    decreases s.len(),
{
    if s.len() > 0 && is_ws(s[s.len() - 1]) {
        trim_back(s.take(s.len() - 1))
    } else {
        s
    }
}

/// A line with leading and trailing whitespace removed.
pub open spec fn spec_trim(s: Seq<char>) -> Seq<char> {
    trim_back(trim_front(s))
}

/// Uppercases one character, over the ASCII letters.
pub open spec fn upper_char(c: char) -> char {
    if c == 'a' { 'A' } else if c == 'b' { 'B' } else if c == 'c' { 'C' }
    else if c == 'd' { 'D' } else if c == 'e' { 'E' } else if c == 'f' { 'F' }
    else if c == 'g' { 'G' } else if c == 'h' { 'H' } else if c == 'i' { 'I' }
    else if c == 'j' { 'J' } else if c == 'k' { 'K' } else if c == 'l' { 'L' }
    else if c == 'm' { 'M' } else if c == 'n' { 'N' } else if c == 'o' { 'O' }
    else if c == 'p' { 'P' } else if c == 'q' { 'Q' } else if c == 'r' { 'R' }
    else if c == 's' { 'S' } else if c == 't' { 'T' } else if c == 'u' { 'U' }
    else if c == 'v' { 'V' } else if c == 'w' { 'W' } else if c == 'x' { 'X' }
    else if c == 'y' { 'Y' } else if c == 'z' { 'Z' } else { c }
}

pub open spec fn upper(s: Seq<char>) -> Seq<char> {
    s.map_values(|c: char| upper_char(c))
}

/// The index of the first space in `s`, or `s.len()` when there is none.
pub open spec fn space_split(s: Seq<char>) -> int
    decreases s.len(),
{
    if s.len() == 0 {
        0
    } else if s[0] == ' ' {
        0
    } else {
        1 + space_split(s.skip(1))
    }
}

/// What parsing a line yields: the trimmed input is split on the first
/// space into an uppercased command word and an optional trimmed remainder.
pub open spec fn spec_parse(line: Seq<char>) -> LineForm {
    let t = spec_trim(line);
    let k = space_split(t);
    let w = upper(t.take(k));
    let has_rest = k < t.len();
    let rest = if has_rest { spec_trim(t.skip(k + 1)) } else { Seq::<char>::empty() };
    if w == "HELP"@ {
        LineForm::Help
    } else if w == "QUIT"@ {
        LineForm::Quit
    } else if w == "NICK"@ {
        if !has_rest {
            LineForm::Bad("usage: NICK <name>"@)
        } else if rest.len() == 0 {
            LineForm::Bad("nickname cannot be empty"@)
        } else {
            LineForm::Nick(rest)
        }
    } else if w == "CREATE"@ {
        LineForm::Create
    } else if w == "JOIN"@ {
        if !has_rest {
            LineForm::Bad("usage: JOIN <CODE>"@)
        } else {
            LineForm::Join(upper(rest))
        }
    } else if w == "MSG"@ {
        if !has_rest {
            LineForm::Bad("usage: MSG <text>"@)
        } else {
            LineForm::Msg(rest)
        }
    } else {
        LineForm::Bad("unknown command: "@ + w)
    }
}

fn is_ws_exec(c: char) -> (r: bool)
    ensures
        r == is_ws(c),
{
    c == ' ' || c == '\t' || c == '\r' || c == '\n'
}

fn trim_front_str<'a>(s: &'a str) -> (r: &'a str)
    ensures
        r@ == trim_front(s@),
    decreases s@.len(),
{
    let n = s.unicode_len();
    if n == 0 {
        s
    } else {
        let c = s.get_char(0);
        if is_ws_exec(c) {
            let rest = s.substring_char(1, n);
            proof {
                assert(rest@ =~= s@.skip(1));
            }
            trim_front_str(rest)
        } else {
            s
        }
    }
}

fn trim_back_str<'a>(s: &'a str) -> (r: &'a str)
    ensures
        r@ == trim_back(s@),
    decreases s@.len(),
{
    let n = s.unicode_len();
    if n == 0 {
        s
    } else {
        let c = s.get_char(n - 1);
        if is_ws_exec(c) {
            let rest = s.substring_char(0, n - 1);
            proof {
                assert(rest@ =~= s@.take(s@.len() - 1));
            }
            trim_back_str(rest)
        } else {
            s
        }
    }
}

fn first_space_str(s: &str) -> (r: usize)
    ensures
        r as int == space_split(s@),
        r <= s@.len(),
    decreases s@.len(),
{
    let n = s.unicode_len();
    if n == 0 {
        0
    } else if s.get_char(0) == ' ' {
        0
    } else {
        let rest = s.substring_char(1, n);
        proof {
            assert(rest@ =~= s@.skip(1));
        }
        let k = first_space_str(rest);
        1 + k
    }
}

/// The uppercase form of the character at index `i` of `s`, as a borrowed
/// one-character string.
fn upper_one<'a>(s: &'a str, i: usize) -> (r: &'a str)
    requires
        i < s@.len(),
        i < usize::MAX,
    ensures
        r@ =~= seq![upper_char(s@[i as int])],
{
    let c = s.get_char(i);
    let r: &str = match c {
        'a' => "A", 'b' => "B", 'c' => "C", 'd' => "D", 'e' => "E", 'f' => "F",
        'g' => "G", 'h' => "H", 'i' => "I", 'j' => "J", 'k' => "K", 'l' => "L",
        'm' => "M", 'n' => "N", 'o' => "O", 'p' => "P", 'q' => "Q", 'r' => "R",
        's' => "S", 't' => "T", 'u' => "U", 'v' => "V", 'w' => "W", 'x' => "X",
        'y' => "Y", 'z' => "Z",
        _ => s.substring_char(i, i + 1),
    };
    proof {
        reveal_strlit("A"); reveal_strlit("B"); reveal_strlit("C");
        reveal_strlit("D"); reveal_strlit("E"); reveal_strlit("F");
        reveal_strlit("G"); reveal_strlit("H"); reveal_strlit("I");
        reveal_strlit("J"); reveal_strlit("K"); reveal_strlit("L");
        reveal_strlit("M"); reveal_strlit("N"); reveal_strlit("O");
        reveal_strlit("P"); reveal_strlit("Q"); reveal_strlit("R");
        reveal_strlit("S"); reveal_strlit("T"); reveal_strlit("U");
        reveal_strlit("V"); reveal_strlit("W"); reveal_strlit("X");
        reveal_strlit("Y"); reveal_strlit("Z");
        assert(s@.subrange(i as int, i as int + 1) =~= seq![s@[i as int]]);
    }
    r
}

fn upper_str(s: &str) -> (r: String)
    ensures
        r@ == upper(s@),
    decreases s@.len(),
{
    let n = s.unicode_len();
    if n == 0 {
        proof {
            assert(upper(s@) =~= Seq::<char>::empty());
        }
        String::new()
    } else {
        let first = upper_one(s, 0);
        let rest = s.substring_char(1, n);
        proof {
            assert(rest@ =~= s@.skip(1));
        }
        let tail = upper_str(rest);
        let r = String::from_str(first).concat(tail.as_str());
        proof {
            assert(upper(s@) =~= seq![upper_char(s@[0])] + upper(s@.skip(1)));
        }
        r
    }
}

fn str_is(w: &String, kw: &str) -> (r: bool)
    ensures
        r == (w@ == kw@),
{
    w.eq(&String::from_str(kw))
}

/// Parses one line of client input: the trimmed line is split on the first
/// space into a case-insensitive command word and an optional remainder,
/// exactly as `spec_parse` lays down. On rejection the error carries the
/// usage or unknown-command text.
pub fn parse_command(line: &str) -> (r: Result<Command, String>)
    ensures
        (match r {
            Ok(c) => match c {
                Command::Help => spec_parse(line@) == LineForm::Help,
                Command::Quit => spec_parse(line@) == LineForm::Quit,
                Command::Nick(n) => spec_parse(line@) == LineForm::Nick(n@),
                Command::Create => spec_parse(line@) == LineForm::Create,
                Command::Join(c2) => spec_parse(line@) == LineForm::Join(c2@),
                Command::Msg(t) => spec_parse(line@) == LineForm::Msg(t@),
            },
            Err(e) => spec_parse(line@) == LineForm::Bad(e@),
        }),
{
    let t = trim_back_str(trim_front_str(line));
    let n = t.unicode_len();
    let k = first_space_str(t);
    let word_raw = t.substring_char(0, k);
    proof {
        assert(word_raw@ =~= t@.take(space_split(t@)));
    }
    let w = upper_str(word_raw);
    let has_rest = k < n;
    if str_is(&w, "HELP") {
        Ok(Command::Help)
    } else if str_is(&w, "QUIT") {
        Ok(Command::Quit)
    } else if str_is(&w, "NICK") {
        if !has_rest {
            Err(String::from_str("usage: NICK <name>"))
        } else {
            let rest = trim_back_str(trim_front_str(t.substring_char(k + 1, n)));
            proof {
                assert(t@.subrange(k + 1, n as int) =~= t@.skip(k + 1));
            }
            if rest.unicode_len() == 0 {
                Err(String::from_str("nickname cannot be empty"))
            } else {
                Ok(Command::Nick(String::from_str(rest)))
            }
        }
    } else if str_is(&w, "CREATE") {
        Ok(Command::Create)
    } else if str_is(&w, "JOIN") {
        if !has_rest {
            Err(String::from_str("usage: JOIN <CODE>"))
        } else {
            let rest = trim_back_str(trim_front_str(t.substring_char(k + 1, n)));
            proof {
                assert(t@.subrange(k + 1, n as int) =~= t@.skip(k + 1));
            }
            Ok(Command::Join(upper_str(rest)))
        }
    } else if str_is(&w, "MSG") {
        if !has_rest {
            Err(String::from_str("usage: MSG <text>"))
        } else {
            let rest = trim_back_str(trim_front_str(t.substring_char(k + 1, n)));
            proof {
                assert(t@.subrange(k + 1, n as int) =~= t@.skip(k + 1));
            }
            Ok(Command::Msg(String::from_str(rest)))
        }
    } else {
        Err(String::from_str("unknown command: ").concat(w.as_str()))
    }
}

} // verus!
