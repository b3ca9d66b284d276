//! The canonical text of the wire format: JSON objects written without
//! whitespace, strings escaped minimally, integers in plain decimal.
use vstd::prelude::*;
use crate::text::{push_char, push_str, chars_of};

verus! {

/// One member of a JSON object: its key and the raw text of its value.
pub type Member = (Seq<char>, Seq<char>);

pub open spec fn hex_chars() -> Seq<char> {
    seq!['0', '1', '2', '3', '4', '5', '6', '7', '8', '9', 'a', 'b', 'c', 'd', 'e', 'f']
}

/// How one character stands inside a string literal.
pub open spec fn escape_char(c: char) -> Seq<char> {
    if c == '"' {
        seq!['\\', '"']
    } else if c == '\\' {
        seq!['\\', '\\']
    } else if (c as u32) < 32 {
        seq!['\\', 'u', '0', '0', hex_chars()[((c as u32) / 16) as int], hex_chars()[((c as u32) % 16) as int]]
    } else {
        seq![c]
    }
}

/// The body of a string literal for `s`.
pub open spec fn escaped(s: Seq<char>) -> Seq<char>
    decreases s.len(),
{
    if s.len() == 0 {
        Seq::empty()
    } else {
        escape_char(s[0]) + escaped(s.drop_first())
    }
}

/// The string literal for `s`, quotes included.
pub open spec fn quoted(s: Seq<char>) -> Seq<char> {
    seq!['"'] + escaped(s) + seq!['"']
}

/// The decimal digits of a natural number, most significant first.
pub open spec fn digits_of(n: nat) -> Seq<char>
    decreases n,
{
    if n < 10 {
        seq![hex_chars()[n as int]]
    } else {
        digits_of(n / 10).push(hex_chars()[(n % 10) as int])
    }
}

/// The decimal text of an integer.
pub open spec fn decimal(n: int) -> Seq<char> {
    if n < 0 {
        seq!['-'] + digits_of((-n) as nat)
    } else {
        digits_of(n as nat)
    }
}

pub open spec fn null_text() -> Seq<char> {
    seq!['n', 'u', 'l', 'l']
}

pub open spec fn member_text(m: Member) -> Seq<char> {
    quoted(m.0) + seq![':'] + m.1
}

/// The members of an object, separated by commas.
pub open spec fn members_text(ms: Seq<Member>) -> Seq<char>
    decreases ms.len(),
{
    if ms.len() == 0 {
        Seq::empty()
    } else if ms.len() == 1 {
        member_text(ms[0])
    } else {
        member_text(ms[0]) + seq![','] + members_text(ms.drop_first())
    }
}

/// The text of an object with the given members, in order.
pub open spec fn object_text(ms: Seq<Member>) -> Seq<char> {
    seq!['{'] + members_text(ms) + seq!['}']
}

/// The view of exec members as text pairs.
pub open spec fn members_view(v: Seq<(String, String)>) -> Seq<Member> {
    v.map_values(|p: (String, String)| (p.0@, p.1@))
}

proof fn lemma_escaped_push(s: Seq<char>, c: char)
    ensures
        escaped(s.push(c)) == escaped(s) + escape_char(c),
    decreases s.len(),
{
    if s.len() == 0 {
        assert(s.push(c).drop_first() =~= Seq::<char>::empty());
        assert(escaped(s.push(c).drop_first()) =~= Seq::<char>::empty());
        assert(escaped(s.push(c)) =~= escape_char(c));
    } else {
        assert(s.push(c).drop_first() =~= s.drop_first().push(c));
        lemma_escaped_push(s.drop_first(), c);
        assert(escaped(s.push(c)) =~= escaped(s) + escape_char(c));
    }
}

proof fn lemma_members_push(ms: Seq<Member>, m: Member)
    ensures
        ms.len() == 0 ==> members_text(ms.push(m)) == member_text(m),
        ms.len() > 0 ==> members_text(ms.push(m)) == members_text(ms) + seq![','] + member_text(m),
    decreases ms.len(),
{
    if ms.len() == 0 {
    } else if ms.len() == 1 {
        assert(ms.push(m).drop_first() =~= seq![m]);
        assert(members_text(ms.push(m).drop_first()) == member_text(m));
        assert(members_text(ms.push(m)) =~= members_text(ms) + seq![','] + member_text(m));
    } else {
        assert(ms.push(m).drop_first() =~= ms.drop_first().push(m));
        lemma_members_push(ms.drop_first(), m);
        assert(members_text(ms.push(m)) =~= members_text(ms) + seq![','] + member_text(m));
    }
}

fn hex_char(d: u32) -> (c: char)
    requires
        d < 16,
    ensures
        c == hex_chars()[d as int],
{
    let table: Vec<char> = vec!['0', '1', '2', '3', '4', '5', '6', '7', '8', '9', 'a', 'b', 'c', 'd', 'e', 'f'];
    assert(table@ == hex_chars());
    table[d as usize]
}

fn push_escaped_char(out: &mut String, c: char)
    ensures
        final(out)@ == old(out)@ + escape_char(c),
{
    let code = c as u32;
    if c == '"' {
        push_char(out, '\\');
        push_char(out, '"');
    } else if c == '\\' {
        push_char(out, '\\');
        push_char(out, '\\');
    } else if code < 32 {
        push_char(out, '\\');
        push_char(out, 'u');
        push_char(out, '0');
        push_char(out, '0');
        push_char(out, hex_char(code / 16));
        push_char(out, hex_char(code % 16));
    } else {
        push_char(out, c);
    }
    assert(final(out)@ =~= old(out)@ + escape_char(c));
}

/// Appends the string literal for `s`.
pub(crate) fn push_quoted(out: &mut String, s: &str)
    ensures
        final(out)@ == old(out)@ + quoted(s@),
{
    let cs = chars_of(s);
    let ghost start = out@;
    push_char(out, '"');
    let mut i: usize = 0;
    while i < cs.len()
        invariant
            cs@ == s@,
            i <= cs@.len(),
            out@ == start + seq!['"'] + escaped(cs@.take(i as int)),
        decreases cs@.len() - i,
    {
        proof {
            assert(cs@.take(i as int + 1) =~= cs@.take(i as int).push(cs@[i as int]));
            lemma_escaped_push(cs@.take(i as int), cs@[i as int]);
        }
        push_escaped_char(out, cs[i]);
        i = i + 1;
        assert(out@ =~= start + seq!['"'] + escaped(cs@.take(i as int)));
    }
    assert(cs@.take(i as int) =~= s@);
    push_char(out, '"');
    assert(out@ =~= start + quoted(s@));
}

/// The string literal for `s`.
pub fn quote(s: &str) -> (r: String)
    ensures
        r@ == quoted(s@),
{
    let mut r = String::new();
    push_quoted(&mut r, s);
    assert(r@ =~= quoted(s@));
    r
}

fn push_digits(out: &mut String, n: u64)
    ensures
        final(out)@ == old(out)@ + digits_of(n as nat),
    decreases n,
{
    if n >= 10 {
        push_digits(out, n / 10);
    }
    push_char(out, hex_char((n % 10) as u32));
    assert(final(out)@ =~= old(out)@ + digits_of(n as nat));
}

/// Appends the decimal text of `n`.
pub(crate) fn push_decimal(out: &mut String, n: i64)
    ensures
        final(out)@ == old(out)@ + decimal(n as int),
{
    if n < 0 {
        push_char(out, '-');
        let m: u64 = (-(n as i128)) as u64;
        push_digits(out, m);
    } else {
        push_digits(out, n as u64);
    }
    assert(final(out)@ =~= old(out)@ + decimal(n as int));
}

/// The decimal text of `n`.
pub fn decimal_string(n: i64) -> (r: String)
    ensures
        r@ == decimal(n as int),
{
    let mut r = String::new();
    push_decimal(&mut r, n);
    assert(r@ =~= decimal(n as int));
    r
}

/// The text of an object whose members are given as key and raw value text.
pub fn object_string(ms: &Vec<(String, String)>) -> (r: String)
    ensures
        r@ == object_text(members_view(ms@)),
{
    let mut r = String::new();
    push_char(&mut r, '{');
    let mut i: usize = 0;
    while i < ms.len()
        invariant
            i <= ms@.len(),
            r@ == seq!['{'] + members_text(members_view(ms@).take(i as int)),
        decreases ms@.len() - i,
    {
        let ghost before = r@;
        proof {
            assert(members_view(ms@).take(i as int + 1) =~= members_view(ms@).take(i as int).push(
                members_view(ms@)[i as int]));
            lemma_members_push(members_view(ms@).take(i as int), members_view(ms@)[i as int]);
        }
        if i > 0 {
            push_char(&mut r, ',');
        }
        push_quoted(&mut r, ms[i].0.as_str());
        push_char(&mut r, ':');
        push_str(&mut r, ms[i].1.as_str());
        i = i + 1;
        assert(r@ =~= seq!['{'] + members_text(members_view(ms@).take(i as int)));
    }
    assert(members_view(ms@).take(i as int) =~= members_view(ms@));
    push_char(&mut r, '}');
    assert(r@ =~= object_text(members_view(ms@)));
    r
}

} // verus!
