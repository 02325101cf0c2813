//! The line parser: from a confirmed line to a command name with its flags,
//! or to a special invocation.
use vstd::prelude::*;
use vstd::hash_map::StringHashMap;
use crate::text::{from_chars, to_chars, views};

verus! {

/// The value of one flag.
#[derive(Clone, Debug)]
pub enum Argument {
    /// The flag was followed by a value, kept verbatim.
    String(String),
    /// The flag stood alone.
    Bool,
}

/// The flags of a command, by their keys.
pub type Flags = StringHashMap<Argument>;

/// What a line parses to.
pub enum ArgumentResult {
    /// A trigger character and the rest of the line, verbatim.
    Special(char, String),
    /// A command name and its flags.
    Command(String, Flags),
}

/// The mathematical value of an `Argument`.
pub enum ArgumentValue {
    Text(Seq<char>),
    Flag,
}

/// The mathematical value of an `ArgumentResult`.
pub enum ParsedLine {
    Special(char, Seq<char>),
    Command(Seq<char>, Map<Seq<char>, ArgumentValue>),
}

impl View for Argument {
    type V = ArgumentValue;

    open spec fn view(&self) -> ArgumentValue {
        match self {
            Argument::String(s) => ArgumentValue::Text(s@),
            Argument::Bool => ArgumentValue::Flag,
        }
    }
}

/// The flags of a map, each by its value.
pub open spec fn flag_values(m: Map<Seq<char>, Argument>) -> Map<Seq<char>, ArgumentValue> {
    m.map_values(|a: Argument| a@)
}

impl View for ArgumentResult {
    type V = ParsedLine;

    open spec fn view(&self) -> ParsedLine {
        match self {
            ArgumentResult::Special(c, rest) => ParsedLine::Special(*c, rest@),
            ArgumentResult::Command(name, flags) => ParsedLine::Command(name@, flag_values(flags@)),
        }
    }
}

/// The view of an optional parse result.
pub open spec fn parsed(r: Option<ArgumentResult>) -> Option<ParsedLine> {
    match r {
        Some(a) => Some(a@),
        None => None,
    }
}

/// A first character that makes the line a special invocation: one strictly
/// between the space and `'0'`, or strictly between `'9'` and `'A'`.
pub open spec fn is_special_trigger(c: char) -> bool {
    let u = c as int;
    (0x20 < u && u < 0x30) || (0x39 < u && u < 0x41)
}

/// The characters that separate tokens: space, tab, line feed, form feed and
/// carriage return.
pub open spec fn is_separator(c: char) -> bool {
    c == ' ' || c == '\t' || c == '\n' || c == '\x0C' || c == '\r'
}

/// The tokens of `s`: its maximal runs of characters that are no separators,
/// from left to right. Reading `s` one character at a time, a separator adds
/// nothing, a character behind a separator (or at the start) opens a token,
/// and any other character extends the last one.
pub open spec fn tokens(s: Seq<char>) -> Seq<Seq<char>>
    decreases s.len(),
{
    if s.len() == 0 {
        Seq::empty()
    } else {
        let before = tokens(s.drop_last());
        let c = s.last();
        if is_separator(c) {
            before
        } else if s.len() >= 2 && !is_separator(s[s.len() - 2]) && before.len() > 0 {
            before.drop_last().push(before.last().push(c))
        } else {
            before.push(seq![c])
        }
    }
}

/// Whether a token is written as a flag.
pub open spec fn is_flag(t: Seq<char>) -> bool {
    t.len() > 0 && t[0] == '-'
}

/// A token without the dashes at its start.
pub open spec fn flag_key(t: Seq<char>) -> Seq<char>
    decreases t.len(),
{
    if t.len() > 0 && t[0] == '-' {
        flag_key(t.skip(1))
    } else {
        t
    }
}

/// The flags that the tokens behind the command name stand for, added to
/// `found` from left to right, so that of two flags with one key the later
/// stays. A flag that is the last token, or that another flag follows, is a
/// `Flag`; any other takes the next token as its `Text`. `None` where a token
/// that should be a flag is not written as one.
pub open spec fn flags_of(
    tokens: Seq<Seq<char>>,
    found: Map<Seq<char>, ArgumentValue>,
) -> Option<Map<Seq<char>, ArgumentValue>>
    decreases tokens.len(),
{
    if tokens.len() == 0 {
        Some(found)
    } else if !is_flag(tokens[0]) {
        None
    } else if tokens.len() == 1 || is_flag(tokens[1]) {
        flags_of(tokens.skip(1), found.insert(flag_key(tokens[0]), ArgumentValue::Flag))
    } else {
        flags_of(tokens.skip(2), found.insert(flag_key(tokens[0]), ArgumentValue::Text(tokens[1])))
    }
}

/// What a line means. A line that begins with a trigger character is a
/// special invocation of that character on the rest of the line. Any other
/// line is cut into tokens: the first is the command name, the others are
/// its flags. A line without a token, or with a malformed flag, means
/// nothing.
pub open spec fn parse_line(line: Seq<char>) -> Option<ParsedLine> {
    if line.len() > 0 && is_special_trigger(line[0]) {
        Some(ParsedLine::Special(line[0], line.skip(1)))
    } else {
        let t = tokens(line);
        if t.len() == 0 {
            None
        } else {
            match flags_of(t.skip(1), Map::empty()) {
                Some(flags) => Some(ParsedLine::Command(t[0], flags)),
                None => None,
            }
        }
    }
}

/// Decides `is_special_trigger`.
pub fn char_is_special_trigger(c: char) -> (r: bool)
    ensures
        r == is_special_trigger(c),
{
    let u: u32 = c as u32;
    (0x20 < u && u < 0x30) || (0x39 < u && u < 0x41)
}

/// Decides `is_separator`.
pub fn char_is_separator(c: char) -> (r: bool)
    ensures
        r == is_separator(c),
{
    c == ' ' || c == '\t' || c == '\n' || c == '\x0C' || c == '\r'
}

/// Cuts a line into its tokens.
pub fn split_tokens(line: &Vec<char>) -> (r: Vec<String>)
    ensures
        views(r@) == tokens(line@),
{
    let mut done: Vec<String> = Vec::new();
    let mut start: usize = 0;
    let mut i: usize = 0;
    let n: usize = line.len();
    assert(line@.take(0) =~= Seq::<char>::empty());
    assert(views(done@) =~= tokens(line@.take(0)));
    // `start..i` is the token that is open, if one is.
    while i < n
        invariant
            n == line.len(),
            start <= i <= n,
            start < i ==> !is_separator(line@[i - 1]),
            start == i ==> (i == 0 || is_separator(line@[i - 1])),
            forall|j: int| start <= j < i ==> !is_separator(#[trigger] line@[j]),
            start == i ==> views(done@) == tokens(line@.take(i as int)),
            start < i ==> views(done@).push(line@.subrange(start as int, i as int)) == tokens(
                line@.take(i as int),
            ),
        decreases n - i,
    {
        let c = line[i];
        proof {
            let s = line@.take(i + 1);
            assert(s.drop_last() =~= line@.take(i as int));
            assert(s.last() == c);
            if i >= 1 {
                assert(s[s.len() - 2] == line@[i - 1]);
            }
        }
        if char_is_separator(c) {
            if start < i {
                let token = from_chars(line, start, i);
                proof {
                    assert(views(done@.push(token)) =~= views(done@).push(token@));
                }
                done.push(token);
            }
            i += 1;
            start = i;
        } else {
            proof {
                let before = tokens(line@.take(i as int));
                if start < i {
                    assert(before.drop_last() =~= views(done@));
                    assert(before.last().push(c) =~= line@.subrange(start as int, i + 1));
                } else {
                    assert(seq![c] =~= line@.subrange(start as int, i + 1));
                }
            }
            i += 1;
        }
    }
    assert(line@.take(n as int) =~= line@);
    if start < n {
        let token = from_chars(line, start, n);
        proof {
            assert(views(done@.push(token)) =~= views(done@).push(token@));
        }
        done.push(token);
    }
    done
}

/// Whether a token begins with a dash.
pub fn token_is_flag(t: &Vec<char>) -> (r: bool)
    ensures
        r == is_flag(t@),
{
    t.len() > 0 && t[0] == '-'
}

/// The key of a flag: the token behind its dashes.
pub fn strip_dashes(t: &Vec<char>) -> (r: String)
    ensures
        r@ == flag_key(t@),
{
    let mut i: usize = 0;
    assert(t@.skip(0) =~= t@);
    while i < t.len() && t[i] == '-'
        invariant
            i <= t.len(),
            flag_key(t@) == flag_key(t@.skip(i as int)),
        decreases t.len() - i,
    {
        proof {
            let rest = t@.skip(i as int);
            assert(rest[0] == t@[i as int]);
            assert(rest.skip(1) =~= t@.skip(i + 1));
        }
        i += 1;
    }
    proof {
        let rest = t@.skip(i as int);
        if i < t.len() {
            assert(rest[0] == t@[i as int]);
        }
        assert(rest =~= t@.subrange(i as int, t.len() as int));
    }
    from_chars(t, i, t.len())
}

/// Reads the flags in `tokens[from..]`.
pub fn parse_flags(tokens: &Vec<String>, from: usize) -> (r: Option<StringHashMap<Argument>>)
    requires
        from <= tokens.len(),
    ensures
        match r {
            Some(flags) => flags_of(views(tokens@).skip(from as int), Map::empty()) == Some(
                flag_values(flags@),
            ),
            None => flags_of(views(tokens@).skip(from as int), Map::empty()) is None,
        },
{
    let mut flags: StringHashMap<Argument> = StringHashMap::new();
    let mut index: usize = from;
    let ghost all = views(tokens@);
    assert(flag_values(flags@) =~= Map::<Seq<char>, ArgumentValue>::empty());
    while index < tokens.len()
        invariant
            from <= index <= tokens.len(),
            all == views(tokens@),
            flags_of(all.skip(from as int), Map::empty()) == flags_of(
                all.skip(index as int),
                flag_values(flags@),
            ),
        decreases tokens.len() - index,
    {
        let ghost rest = all.skip(index as int);
        let ghost found = flag_values(flags@);
        let token = to_chars(tokens[index].as_str());
        assert(rest[0] == token@);
        if !token_is_flag(&token) {
            return None;
        }
        let key = strip_dashes(&token);
        if index + 1 == tokens.len() {
            flags.insert(key, Argument::Bool);
            index += 1;
            proof {
                assert(rest.skip(1) =~= all.skip(index as int));
                assert(flag_values(flags@) =~= found.insert(key@, ArgumentValue::Flag));
            }
        } else {
            let value = to_chars(tokens[index + 1].as_str());
            assert(rest[1] == value@);
            if token_is_flag(&value) {
                flags.insert(key, Argument::Bool);
                index += 1;
                proof {
                    assert(rest.skip(1) =~= all.skip(index as int));
                    assert(flag_values(flags@) =~= found.insert(key@, ArgumentValue::Flag));
                }
            } else {
                let text = tokens[index + 1].clone();
                flags.insert(key, Argument::String(text));
                index += 2;
                proof {
                    assert(rest.skip(2) =~= all.skip(index as int));
                    assert(flag_values(flags@) =~= found.insert(
                        key@,
                        ArgumentValue::Text(value@),
                    ));
                }
            }
        }
    }
    assert(all.skip(index as int).len() == 0);
    Some(flags)
}

/// Parses one line.
///
/// The result is exactly what `parse_line` gives for the characters of the
/// line: `None` where the line holds no token or a malformed flag.
pub fn parse_arguments(line: &str) -> (r: Option<ArgumentResult>)
    ensures
        parsed(r) == parse_line(line@),
{
    let chars = to_chars(line);
    if chars.len() > 0 && char_is_special_trigger(chars[0]) {
        let rest = from_chars(&chars, 1, chars.len());
        assert(rest@ =~= line@.skip(1));
        return Some(ArgumentResult::Special(chars[0], rest));
    }
    let words = split_tokens(&chars);
    if words.len() == 0 {
        return None;
    }
    let name = words[0].clone();
    match parse_flags(&words, 1) {
        Some(flags) => Some(ArgumentResult::Command(name, flags)),
        None => None,
    }
}

} // verus!
