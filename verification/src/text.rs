//! Conversions between strings and character sequences, and the facts about
//! characters that the text functions rely on.

use vstd::prelude::*;

verus! {

/// Whether `c` has the Unicode property White_Space.
pub open spec fn is_whitespace_spec(c: char) -> bool {
    let u = c as u32;
    ||| 0x09 <= u <= 0x0d
    ||| u == 0x20
    ||| u == 0x85
    ||| u == 0xa0
    ||| u == 0x1680
    ||| 0x2000 <= u <= 0x200a
    ||| u == 0x2028
    ||| u == 0x2029
    ||| u == 0x202f
    ||| u == 0x205f
    ||| u == 0x3000
}

/// Number of bytes that `c` takes in UTF-8.
pub open spec fn utf8_len_spec(c: char) -> nat {
    let u = c as u32;
    if u < 0x80 {
        1
    } else if u < 0x800 {
        2
    } else if u < 0x1_0000 {
        3
    } else {
        4
    }
}

/// Whether `c` has the Unicode property White_Space.
pub(crate) fn is_whitespace(c: char) -> (r: bool)
    ensures
        r == is_whitespace_spec(c),
{
    let u: u32 = c as u32;
    (0x09 <= u && u <= 0x0d) || u == 0x20 || u == 0x85 || u == 0xa0 || u == 0x1680 || (0x2000 <= u
        && u <= 0x200a) || u == 0x2028 || u == 0x2029 || u == 0x202f || u == 0x205f || u == 0x3000
}

/// Number of bytes that `c` takes in UTF-8.
pub(crate) fn utf8_len(c: char) -> (n: usize)
    ensures
        n == utf8_len_spec(c),
{
    let u: u32 = c as u32;
    if u < 0x80 {
        1
    } else if u < 0x800 {
        2
    } else if u < 0x1_0000 {
        3
    } else {
        4
    }
}

/// `String::push` of std: `c` is appended to `s`.
#[verifier::external_body]
fn push_char(s: &mut String, c: char)
    ensures
        final(s)@ == old(s)@.push(c),
{
    s.push(c);
}

/// The characters of `s`, in order.
pub fn chars_of(s: &str) -> (v: Vec<char>)
    ensures
        v@ == s@,
{
    let mut v: Vec<char> = Vec::new();
    for c in it: s.chars()
        invariant
            v@ == it.history(),
    {
        v.push(c);
    }
    v
}

/// The string made of the characters `v`, in order.
pub fn string_of(v: &Vec<char>) -> (s: String)
    ensures
        s@ == v@,
{
    let mut s = String::new();
    let mut i: usize = 0;
    while i < v.len()
        invariant
            i <= v@.len(),
            s@ == v@.take(i as int),
        decreases v@.len() - i,
    {
        push_char(&mut s, v[i]);
        i += 1;
        assert(v@.take(i as int) =~= v@.take(i - 1).push(v@[i - 1]));
    }
    assert(v@.take(v@.len() as int) =~= v@);
    s
}

/// The views of the elements of `lines`.
pub open spec fn line_views(lines: Seq<Vec<char>>) -> Seq<Seq<char>> {
    lines.map_values(|line: Vec<char>| line@)
}

/// The views of the elements of `lines`.
pub open spec fn string_views(lines: Seq<String>) -> Seq<Seq<char>> {
    lines.map_values(|line: String| line@)
}

/// The strings made of the character sequences `lines`.
pub fn strings_of(lines: &Vec<Vec<char>>) -> (out: Vec<String>)
    ensures
        string_views(out@) == line_views(lines@),
{
    let mut out: Vec<String> = Vec::new();
    let mut i: usize = 0;
    while i < lines.len()
        invariant
            i <= lines@.len(),
            string_views(out@) == line_views(lines@.take(i as int)),
        decreases lines@.len() - i,
    {
        let s = string_of(&lines[i]);
        let ghost before = out@;
        out.push(s);
        i += 1;
        assert(string_views(out@) =~= string_views(before).push(s@));
        assert(line_views(lines@.take(i as int)) =~= line_views(lines@.take(i - 1)).push(
            lines@[i - 1]@,
        ));
    }
    assert(lines@.take(lines@.len() as int) =~= lines@);
    out
}

/// Number of leading characters of `s` that fit in `budget` bytes of UTF-8.
pub open spec fn utf8_prefix_len(s: Seq<char>, budget: nat) -> nat
    decreases s.len(),
{
    if s.len() == 0 || utf8_len_spec(s[0]) > budget {
        0
    } else {
        1 + utf8_prefix_len(s.drop_first(), (budget - utf8_len_spec(s[0])) as nat)
    }
}

/// Number of leading characters of `line` that fit in `budget` bytes.
pub fn fitting_prefix(line: &Vec<char>, budget: usize) -> (count: usize)
    ensures
        count == utf8_prefix_len(line@, budget as nat),
        count <= line@.len(),
{
    let mut i: usize = 0;
    let mut left: usize = budget;
    assert(line@.skip(0) =~= line@);
    while i < line.len()
        invariant
            i <= line@.len(),
            utf8_prefix_len(line@, budget as nat) == i + utf8_prefix_len(
                line@.skip(i as int),
                left as nat,
            ),
        decreases line@.len() - i,
    {
        let size: usize = utf8_len(line[i]);
        assert(line@.skip(i as int)[0] == line@[i as int]);
        if size > left {
            return i;
        }
        assert(line@.skip(i as int).drop_first() =~= line@.skip(i + 1));
        left -= size;
        i += 1;
    }
    i
}

} // verus!
