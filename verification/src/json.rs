//! A JSON rendering of the committed pair list: one flat object that
//! maps each key to its value, with the string escaping JSON asks for.

use vstd::prelude::*;

verus! {

/// The lowercase hexadecimal digit for `n`.
pub open spec fn hex_digit(n: int) -> char {
    if n == 0 {
        '0'
    } else if n == 1 {
        '1'
    } else if n == 2 {
        '2'
    } else if n == 3 {
        '3'
    } else if n == 4 {
        '4'
    } else if n == 5 {
        '5'
    } else if n == 6 {
        '6'
    } else if n == 7 {
        '7'
    } else if n == 8 {
        '8'
    } else if n == 9 {
        '9'
    } else if n == 10 {
        'a'
    } else if n == 11 {
        'b'
    } else if n == 12 {
        'c'
    } else if n == 13 {
        'd'
    } else if n == 14 {
        'e'
    } else {
        'f'
    }
}

/// How one character appears inside a JSON string: quotes and
/// backslashes get a backslash, the named control characters get
/// their short escape, the remaining control characters get a
/// `\u00..` escape, and every other character stands for itself.
pub open spec fn escape_char(c: char) -> Seq<char> {
    if c == '"' {
        seq!['\\', '"']
    } else if c == '\\' {
        seq!['\\', '\\']
    } else if c == '\u{8}' {
        seq!['\\', 'b']
    } else if c == '\t' {
        seq!['\\', 't']
    } else if c == '\n' {
        seq!['\\', 'n']
    } else if c == '\u{c}' {
        seq!['\\', 'f']
    } else if c == '\r' {
        seq!['\\', 'r']
    } else if (c as u32) < 0x20 {
        seq!['\\', 'u', '0', '0', hex_digit((c as u32 / 16) as int), hex_digit((c as u32 % 16) as int)]
    } else {
        seq![c]
    }
}

/// A text with every character escaped for a JSON string.
pub open spec fn escaped(s: Seq<char>) -> Seq<char>
    decreases s.len(),
{
    if s.len() == 0 {
        Seq::empty()
    } else {
        escaped(s.drop_last()) + escape_char(s.last())
    }
}

/// A JSON string: the escaped text between double quotes.
pub open spec fn quoted(s: Seq<char>) -> Seq<char> {
    seq!['"'] + escaped(s) + seq!['"']
}

/// One object member: the quoted key, a colon, the quoted value.
pub open spec fn member(k: Seq<char>, v: Seq<char>) -> Seq<char> {
    quoted(k) + seq![':'] + quoted(v)
}

/// The members of the object, in list order, separated by commas.
pub open spec fn members(s: Seq<(String, String)>) -> Seq<char>
    decreases s.len(),
{
    if s.len() == 0 {
        Seq::empty()
    } else if s.len() == 1 {
        member(s[0].0@, s[0].1@)
    } else {
        members(s.drop_last()) + seq![','] + member(s.last().0@, s.last().1@)
    }
}

/// The whole object: the members between braces. An empty pair list
/// gives the empty object.
pub open spec fn object(s: Seq<(String, String)>) -> Seq<char> {
    seq!['{'] + members(s) + seq!['}']
}

/// The lowercase hexadecimal digit for `n`.
fn hex_digit_char(n: u32) -> (c: char)
    requires
        n < 16,
    ensures
        c == hex_digit(n as int),
{
    match n {
        0 => '0',
        1 => '1',
        2 => '2',
        3 => '3',
        4 => '4',
        5 => '5',
        6 => '6',
        7 => '7',
        8 => '8',
        9 => '9',
        10 => 'a',
        11 => 'b',
        12 => 'c',
        13 => 'd',
        14 => 'e',
        _ => 'f',
    }
}

/// Append the escaped form of one character to `out`.
fn push_escaped(out: &mut String, c: char)
    ensures
        final(out)@ == old(out)@ + escape_char(c),
{
    if c == '"' {
        out.push('\\');
        out.push('"');
    } else if c == '\\' {
        out.push('\\');
        out.push('\\');
    } else if c == '\u{8}' {
        out.push('\\');
        out.push('b');
    } else if c == '\t' {
        out.push('\\');
        out.push('t');
    } else if c == '\n' {
        out.push('\\');
        out.push('n');
    } else if c == '\u{c}' {
        out.push('\\');
        out.push('f');
    } else if c == '\r' {
        out.push('\\');
        out.push('r');
    } else if (c as u32) < 0x20 {
        let n = c as u32;
        out.push('\\');
        out.push('u');
        out.push('0');
        out.push('0');
        out.push(hex_digit_char(n / 16));
        out.push(hex_digit_char(n % 16));
    } else {
        out.push(c);
    }
    proof {
        assert(out@ =~= old(out)@ + escape_char(c));
    }
}

/// Append the quoted, escaped form of `s` to `out`.
fn push_quoted(out: &mut String, s: &String)
    ensures
        final(out)@ == old(out)@ + quoted(s@),
{
    out.push('"');
    let n = s.as_str().unicode_len();
    let mut i: usize = 0;
    while i < n
        invariant
            i <= n,
            n == s@.len(),
            out@ == old(out)@ + seq!['"'] + escaped(s@.take(i as int)),
        decreases n - i,
    {
        let c = s.as_str().get_char(i);
        push_escaped(out, c);
        proof {
            let t = s@.take(i + 1);
            assert(t.drop_last() =~= s@.take(i as int));
            assert(t.last() == s@[i as int]);
            assert(out@ =~= old(out)@ + seq!['"'] + escaped(t));
        }
        i += 1;
    }
    out.push('"');
    proof {
        assert(s@.take(n as int) =~= s@);
        assert(out@ =~= old(out)@ + quoted(s@));
    }
}

/// One more member extends the member list with a comma where one is
/// due.
proof fn lemma_members_step(s: Seq<(String, String)>, i: int)
    requires
        0 <= i < s.len(),
    ensures
        i == 0 ==> members(s.take(1)) == member(s[0].0@, s[0].1@),
        i > 0 ==> members(s.take(i + 1)) == members(s.take(i)) + seq![','] + member(
            s[i].0@,
            s[i].1@,
        ),
{
    let t = s.take(i + 1);
    assert(t.len() == i + 1);
    if i == 0 {
        assert(t[0] == s[0]);
    } else {
        assert(t.drop_last() =~= s.take(i));
        assert(t.last() == s[i]);
    }
}

/// The pair list rendered as one flat JSON object, exactly
/// [`object`]: each key mapped to its value, members in list order.
pub fn pairs_to_json(pairs: &Vec<(String, String)>) -> (r: String)
    ensures
        r@ == object(pairs@),
{
    let mut out = String::new();
    out.push('{');
    let n = pairs.len();
    let mut i: usize = 0;
    while i < n
        invariant
            i <= n,
            n == pairs@.len(),
            out@ == seq!['{'] + members(pairs@.take(i as int)),
        decreases n - i,
    {
        if i > 0 {
            out.push(',');
        }
        push_quoted(&mut out, &pairs[i].0);
        out.push(':');
        push_quoted(&mut out, &pairs[i].1);
        proof {
            lemma_members_step(pairs@, i as int);
            assert(out@ =~= seq!['{'] + members(pairs@.take(i + 1)));
        }
        i += 1;
    }
    out.push('}');
    proof {
        assert(pairs@.take(n as int) =~= pairs@);
        assert(out@ =~= object(pairs@));
    }
    out
}

} // verus!
