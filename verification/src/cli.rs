use vstd::prelude::*;
use crate::text::{
    all_digits, chars_of, decimal, is_digit, law_decimal_roundtrip, lemma_decimal_digits,
    parse_u128_chars, parse_u128_spec,
};

verus! {

/// Whether `c` has the Unicode `White_Space` property, which is what
/// `char::is_whitespace` tests.
pub open spec fn is_space(c: char) -> bool {
    let u = c as u32;
    ||| 0x9 <= u <= 0xD
    ||| u == 0x20
    ||| u == 0x85
    ||| u == 0xA0
    ||| u == 0x1680
    ||| 0x2000 <= u <= 0x200A
    ||| u == 0x2028
    ||| u == 0x2029
    ||| u == 0x202F
    ||| u == 0x205F
    ||| u == 0x3000
}

/// Whether `c` is white space, as `char::is_whitespace` says.
pub fn is_whitespace(c: char) -> (space: bool)
    ensures
        space == is_space(c),
{
    let u = c as u32;
    (0x9 <= u && u <= 0xD) || u == 0x20 || u == 0x85 || u == 0xA0 || u == 0x1680 || (0x2000 <= u
        && u <= 0x200A) || u == 0x2028 || u == 0x2029 || u == 0x202F || u == 0x205F || u == 0x3000
}

/// `s` without its leading white space.
pub open spec fn trim_start(s: Seq<char>) -> Seq<char>
    decreases s.len(),
{
    if s.len() > 0 && is_space(s[0]) {
        trim_start(s.drop_first())
    } else {
        s
    }
}

/// `s` without its trailing white space.
pub open spec fn trim_end(s: Seq<char>) -> Seq<char>
    decreases s.len(),
{
    if s.len() > 0 && is_space(s.last()) {
        trim_end(s.drop_last())
    } else {
        s
    }
}

/// `s` without leading and trailing white space, as `str::trim` gives it.
pub open spec fn trim_spec(s: Seq<char>) -> Seq<char> {
    trim_end(trim_start(s))
}

/// Where the white-space-free part of `chars[from..to]` starts and ends.
fn trimmed_bounds(chars: &Vec<char>, from: usize, to: usize) -> (bounds: (usize, usize))
    requires
        from <= to <= chars@.len(),
    ensures
        from <= bounds.0 <= bounds.1 <= to,
        chars@.subrange(bounds.0 as int, bounds.1 as int) == trim_spec(
            chars@.subrange(from as int, to as int),
        ),
{
    let mut i = from;
    while i < to && is_whitespace(chars[i])
        invariant
            from <= i <= to <= chars@.len(),
            trim_start(chars@.subrange(from as int, to as int)) == trim_start(
                chars@.subrange(i as int, to as int),
            ),
        decreases to - i,
    {
        assert(chars@.subrange(i as int, to as int).drop_first() =~= chars@.subrange(
            i as int + 1,
            to as int,
        ));
        i = i + 1;
    }
    let mut j = to;
    while j > i && is_whitespace(chars[j - 1])
        invariant
            from <= i <= j <= to <= chars@.len(),
            trim_end(chars@.subrange(i as int, to as int)) == trim_end(
                chars@.subrange(i as int, j as int),
            ),
        decreases j - i,
    {
        assert(chars@.subrange(i as int, j as int).drop_last() =~= chars@.subrange(
            i as int,
            j as int - 1,
        ));
        j = j - 1;
    }
    (i, j)
}

/// Whether `t` begins with `pattern`.
pub open spec fn starts_with(t: Seq<char>, pattern: Seq<char>) -> bool {
    t.len() >= pattern.len() && t.subrange(0, pattern.len() as int) == pattern
}

/// Whether `chars[from..to]` begins with `pattern`.
fn has_prefix(chars: &Vec<char>, from: usize, to: usize, pattern: &str) -> (found: bool)
    requires
        from <= to <= chars@.len(),
    ensures
        found == starts_with(chars@.subrange(from as int, to as int), pattern@),
{
    let n = pattern.unicode_len();
    if to - from < n {
        return false;
    }
    let mut k: usize = 0;
    while k < n
        invariant
            k <= n == pattern@.len(),
            from + n <= to <= chars@.len(),
            forall|q: int| 0 <= q < k ==> chars@[from + q] == pattern@[q],
        decreases n - k,
    {
        if chars[from + k] != pattern.get_char(k) {
            assert(chars@.subrange(from as int, to as int).subrange(0, n as int)[k as int]
                != pattern@[k as int]);
            return false;
        }
        k = k + 1;
    }
    assert(chars@.subrange(from as int, to as int).subrange(0, n as int) =~= pattern@);
    true
}

/// Whether `chars[from..to]` is exactly `pattern`.
fn is_exactly(chars: &Vec<char>, from: usize, to: usize, pattern: &str) -> (same: bool)
    requires
        from <= to <= chars@.len(),
    ensures
        same == (chars@.subrange(from as int, to as int) == pattern@),
{
    let n = pattern.unicode_len();
    if to - from != n {
        return false;
    }
    let found = has_prefix(chars, from, to, pattern);
    assert(chars@.subrange(from as int, to as int).subrange(0, n as int) =~= chars@.subrange(
        from as int,
        to as int,
    ));
    found
}

/// The first position of a space in `s` (meaningful when there is one).
#[verifier::opaque]
pub open spec fn first_space(s: Seq<char>) -> int {
    choose|p: int| 0 <= p < s.len() && s[p] == ' ' && forall|q: int| 0 <= q < p ==> s[q] != ' '
}

/// Where the first space of `chars[from..to]` stands, if there is one.
fn find_space(chars: &Vec<char>, from: usize, to: usize) -> (pos: Option<usize>)
    requires
        from <= to <= chars@.len(),
    ensures
        match pos {
            Some(p) => {
                &&& from <= p < to
                &&& chars@.subrange(from as int, to as int).contains(' ')
                &&& first_space(chars@.subrange(from as int, to as int)) == p - from
            },
            None => !chars@.subrange(from as int, to as int).contains(' '),
        },
{
    let ghost rest = chars@.subrange(from as int, to as int);
    let mut p = from;
    while p < to
        invariant
            from <= p <= to <= chars@.len(),
            rest == chars@.subrange(from as int, to as int),
            forall|q: int| 0 <= q < p - from ==> rest[q] != ' ',
        decreases to - p,
    {
        if chars[p] == ' ' {
            proof {
                reveal(first_space);
                assert(rest[p - from] == ' ');
                let f = first_space(rest);
                assert(0 <= f < rest.len() && rest[f] == ' ' && forall|q: int|
                    0 <= q < f ==> rest[q] != ' ');
                assert(f == p - from);
            }
            return Some(p);
        }
        p = p + 1;
    }
    None
}

/// What a line typed at the command line asks for.
#[derive(Debug)]
pub enum CliInput {
    /// A blank line.
    Nothing,
    /// `/to <peer> <text>`: send the text to one peer.
    SendTo { target: String, text: String },
    /// `/to` without both a peer and a text.
    SendToUsage,
    /// `/list`: report the node's status.
    Status,
    /// `/queue next`: dismiss the current item.
    Dismiss,
    /// `/queue star`: star the current item.
    Star,
    /// `/queue all`: list the pending items.
    ListPending,
    /// `/list star`: list the first page of starred items.
    ListStarred,
    /// `/unstar <id>`: remove a starred item.
    Unstar(u128),
    /// `/unstar` without a valid identifier.
    UnstarUsage,
    /// Any other text: send it to every known peer.
    Broadcast(String),
}

/// What `/to <peer> <text>` asks for, where `t` is the trimmed line: the peer
/// runs up to the first space after the command, the text is all after it.
pub open spec fn send_to_result(t: Seq<char>, input: CliInput) -> bool {
    let rest = t.subrange("/to "@.len() as int, t.len() as int);
    if rest.contains(' ') {
        let p = first_space(rest);
        input matches CliInput::SendTo { target, text } && target@ == rest.subrange(0, p) && text@
            == rest.subrange(p + 1, rest.len() as int)
    } else {
        input is SendToUsage
    }
}

/// The command that the trimmed line `t` names exactly, if any.
pub open spec fn keyword_of(t: Seq<char>) -> Option<CliInput> {
    if t == "/list"@ {
        Some(CliInput::Status)
    } else if t == "/queue next"@ {
        Some(CliInput::Dismiss)
    } else if t == "/queue star"@ {
        Some(CliInput::Star)
    } else if t == "/queue all"@ {
        Some(CliInput::ListPending)
    } else if t == "/list star"@ {
        Some(CliInput::ListStarred)
    } else {
        None
    }
}

/// What `/unstar <id>` asks for, where `t` is the trimmed line: the rest of
/// the line, trimmed again, must read as a `u128`.
pub open spec fn unstar_result(t: Seq<char>, input: CliInput) -> bool {
    match parse_u128_spec(trim_spec(t.subrange("/unstar "@.len() as int, t.len() as int))) {
        Some(id) => input == CliInput::Unstar(id),
        None => input is UnstarUsage,
    }
}

/// What the line `line` asks for: it is trimmed of white space first, then
/// read as a command, and taken as text to broadcast when it is none.
pub open spec fn cli_result(line: Seq<char>, input: CliInput) -> bool {
    let t = trim_spec(line);
    if t.len() == 0 {
        input is Nothing
    } else if starts_with(t, "/to "@) {
        send_to_result(t, input)
    } else if keyword_of(t) is Some {
        input == keyword_of(t)->0
    } else if starts_with(t, "/unstar "@) {
        unstar_result(t, input)
    } else {
        input matches CliInput::Broadcast(text) && text@ == t
    }
}

fn parse_send_to(line: &str, chars: &Vec<char>, a: usize, b: usize) -> (input: CliInput)
    requires
        chars@ == line@,
        a <= b <= chars@.len(),
        starts_with(chars@.subrange(a as int, b as int), "/to "@),
    ensures
        send_to_result(chars@.subrange(a as int, b as int), input),
{
    let ghost t = chars@.subrange(a as int, b as int);
    let r = a + "/to ".unicode_len();
    assert(chars@.subrange(r as int, b as int) =~= t.subrange("/to "@.len() as int, t.len() as int));
    match find_space(chars, r, b) {
        Some(p) => {
            let target = line.substring_char(r, p).to_owned();
            let text = line.substring_char(p + 1, b).to_owned();
            proof {
                let rest = chars@.subrange(r as int, b as int);
                assert(target@ =~= rest.subrange(0, p - r));
                assert(text@ =~= rest.subrange(p - r + 1, rest.len() as int));
            }
            CliInput::SendTo { target, text }
        },
        None => CliInput::SendToUsage,
    }
}

fn parse_keyword(chars: &Vec<char>, a: usize, b: usize) -> (input: Option<CliInput>)
    requires
        a <= b <= chars@.len(),
    ensures
        input == keyword_of(chars@.subrange(a as int, b as int)),
{
    if is_exactly(chars, a, b, "/list") {
        Some(CliInput::Status)
    } else if is_exactly(chars, a, b, "/queue next") {
        Some(CliInput::Dismiss)
    } else if is_exactly(chars, a, b, "/queue star") {
        Some(CliInput::Star)
    } else if is_exactly(chars, a, b, "/queue all") {
        Some(CliInput::ListPending)
    } else if is_exactly(chars, a, b, "/list star") {
        Some(CliInput::ListStarred)
    } else {
        None
    }
}

fn parse_unstar(chars: &Vec<char>, a: usize, b: usize) -> (input: CliInput)
    requires
        a <= b <= chars@.len(),
        starts_with(chars@.subrange(a as int, b as int), "/unstar "@),
    ensures
        unstar_result(chars@.subrange(a as int, b as int), input),
{
    let ghost t = chars@.subrange(a as int, b as int);
    let r = a + "/unstar ".unicode_len();
    assert(chars@.subrange(r as int, b as int) =~= t.subrange(
        "/unstar "@.len() as int,
        t.len() as int,
    ));
    let (c, d) = trimmed_bounds(chars, r, b);
    match parse_u128_chars(chars, c, d) {
        Some(id) => CliInput::Unstar(id),
        None => CliInput::UnstarUsage,
    }
}

/// Reads a line typed at the command line.
pub fn parse_cli_line(line: &str) -> (input: CliInput)
    ensures
        cli_result(line@, input),
{
    let chars = chars_of(line);
    let n = chars.len();
    assert(chars@.subrange(0, n as int) =~= line@);
    let (a, b) = trimmed_bounds(&chars, 0, n);
    if a == b {
        return CliInput::Nothing;
    }
    if has_prefix(&chars, a, b, "/to ") {
        return parse_send_to(line, &chars, a, b);
    }
    match parse_keyword(&chars, a, b) {
        Some(input) => input,
        None => {
            if has_prefix(&chars, a, b, "/unstar ") {
                parse_unstar(&chars, a, b)
            } else {
                let text = line.substring_char(a, b).to_owned();
                CliInput::Broadcast(text)
            }
        },
    }
}

proof fn lemma_digit_not_space(c: char)
    requires
        is_digit(c),
    ensures
        !is_space(c),
{
}

/// A string of digits has no white space to trim.
proof fn lemma_trim_digits(d: Seq<char>)
    requires
        d.len() > 0,
        all_digits(d),
    ensures
        trim_spec(d) == d,
{
    assert(is_digit(d[0]));
    assert(is_digit(d[d.len() - 1]));
    lemma_digit_not_space(d[0]);
    lemma_digit_not_space(d.last());
}

/// Law: for every `u128` identifier, the line `/unstar ` followed by the
/// identifier's decimal text asks to unstar exactly that identifier.
pub proof fn law_unstar_reads_any_id(id: u128, input: CliInput)
    requires
        cli_result("/unstar "@ + decimal(id as nat), input),
    ensures
        input == CliInput::Unstar(id),
{
    reveal_strlit("/unstar ");
    reveal_strlit("/to ");
    reveal_strlit("/list");
    reveal_strlit("/queue next");
    reveal_strlit("/queue star");
    reveal_strlit("/queue all");
    reveal_strlit("/list star");
    let d = decimal(id as nat);
    lemma_decimal_digits(id as nat);
    law_decimal_roundtrip(id);
    let line = "/unstar "@ + d;
    assert(line[0] == '/');
    assert(line[1] == 'u');
    assert(line.last() == d.last());
    assert(is_digit(d[d.len() - 1]));
    lemma_digit_not_space(d.last());
    assert(!is_space(line[0]));
    assert(trim_start(line) == line);
    assert(trim_end(line) == line);
    assert(trim_spec(line) == line);
    assert(!starts_with(line, "/to "@)) by {
        if starts_with(line, "/to "@) {
            assert(line.subrange(0, 4)[1] == line[1]);
        }
    }
    assert(keyword_of(line) is None) by {
        if line == "/list"@ || line == "/queue next"@ || line == "/queue star"@ || line
            == "/queue all"@ || line == "/list star"@ {
            assert(line[1] == 'u');
        }
    }
    assert(line.subrange(0, 8) =~= "/unstar "@);
    assert(starts_with(line, "/unstar "@));
    assert(line.subrange(8, line.len() as int) =~= d);
    lemma_trim_digits(d);
}

} // verus!
