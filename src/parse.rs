//! Reading the wire format. The grammar is written as spec functions over
//! the rest of the text; each exec reader (`read_value_len` for `value_len`,
//! and so on) is proved to return exactly what its grammar function gives.
use vstd::prelude::*;
use crate::wire::Member;
use crate::text::{push_char, string_of};

verus! {

pub open spec fn is_ws(c: char) -> bool {
    c == ' ' || c == '\n' || c == '\r' || c == '\t'
}

pub open spec fn is_digit(c: char) -> bool {
    '0' <= c && c <= '9'
}

/// Characters that may continue a number once it has started.
pub open spec fn is_number_char(c: char) -> bool {
    is_digit(c) || c == '-' || c == '+' || c == '.' || c == 'e' || c == 'E'
}

/// The number of whitespace characters that `s` starts with.
pub open spec fn ws_len(s: Seq<char>) -> nat
    decreases s.len(),
{
    if s.len() > 0 && is_ws(s[0]) {
        1 + ws_len(s.drop_first())
    } else {
        0
    }
}

/// The number of number characters that `s` starts with.
pub open spec fn number_len(s: Seq<char>) -> nat
    decreases s.len(),
{
    if s.len() > 0 && is_number_char(s[0]) {
        1 + number_len(s.drop_first())
    } else {
        0
    }
}

/// The value of a hex digit, or -1.
pub open spec fn hex_value(c: char) -> int {
    if '0' <= c && c <= '9' {
        c as int - '0' as int
    } else if 'a' <= c && c <= 'f' {
        c as int - 'a' as int + 10
    } else if 'A' <= c && c <= 'F' {
        c as int - 'A' as int + 10
    } else {
        -1
    }
}

/// The value of the four hex digits at `s[i..i + 4]`, or -1.
pub open spec fn hex4(s: Seq<char>, i: int) -> int {
    if 0 <= i && i + 4 <= s.len() && hex_value(s[i]) >= 0 && hex_value(s[i + 1]) >= 0
        && hex_value(s[i + 2]) >= 0 && hex_value(s[i + 3]) >= 0 {
        hex_value(s[i]) * 4096 + hex_value(s[i + 1]) * 256 + hex_value(s[i + 2]) * 16 + hex_value(s[i + 3])
    } else {
        -1
    }
}

/// The character that an escape sequence at the start of `s` (which starts
/// with a backslash) stands for, and the escape's length. A numeric escape
/// names a code point outside the surrogate range, or is a high surrogate
/// followed by a numeric escape of a low one.
#[verifier::opaque]
pub open spec fn unescape(s: Seq<char>) -> Option<(char, nat)> {
    if s.len() < 2 {
        None
    } else if s[1] == '"' || s[1] == '\\' || s[1] == '/' {
        Some((s[1], 2))
    } else if s[1] == 'b' {
        Some(('\x08', 2))
    } else if s[1] == 'f' {
        Some(('\x0c', 2))
    } else if s[1] == 'n' {
        Some(('\n', 2))
    } else if s[1] == 'r' {
        Some(('\r', 2))
    } else if s[1] == 't' {
        Some(('\t', 2))
    } else if s[1] == 'u' && hex4(s, 2) >= 0 {
        let v = hex4(s, 2);
        if v < 0xD800 || v > 0xDFFF {
            Some(((v as u32) as char, 6))
        } else if v <= 0xDBFF && s.len() >= 8 && s[6] == '\\' && s[7] == 'u' && 0xDC00 <= hex4(s, 8)
            <= 0xDFFF {
            Some((((0x10000 + (v - 0xD800) * 1024 + (hex4(s, 8) - 0xDC00)) as u32) as char, 12))
        } else {
            None
        }
    } else {
        None
    }
}

/// The decoded characters of a string whose opening quote came just before
/// `s`, and the length read, closing quote included.
pub open spec fn string_body(s: Seq<char>) -> Option<(Seq<char>, nat)>
    decreases s.len(),
{
    if s.len() == 0 {
        None
    } else if s[0] == '"' {
        Some((Seq::empty(), 1))
    } else if s[0] == '\\' {
        match unescape(s) {
            Some((c, k)) => if k == 0 || k > s.len() {
                None
            } else {
                match string_body(s.skip(k as int)) {
                    Some((t, n)) => Some((seq![c] + t, k + n)),
                    None => None,
                }
            },
            None => None,
        }
    } else if (s[0] as u32) < 32 {
        None
    } else {
        match string_body(s.drop_first()) {
            Some((t, n)) => Some((seq![s[0]] + t, 1 + n)),
            None => None,
        }
    }
}

/// A string literal at the start of `s`: its characters and its length.
pub open spec fn string_lit(s: Seq<char>) -> Option<(Seq<char>, nat)> {
    if s.len() > 0 && s[0] == '"' {
        match string_body(s.drop_first()) {
            Some((t, n)) => Some((t, n + 1)),
            None => None,
        }
    } else {
        None
    }
}

pub open spec fn starts_with(s: Seq<char>, p: Seq<char>) -> bool {
    p.len() <= s.len() && s.take(p.len() as int) == p
}

/// The length of the JSON value at the start of `s`.
pub open spec fn value_len(s: Seq<char>) -> Option<nat>
    decreases s.len(), 3nat,
{
    if s.len() == 0 {
        None
    } else if s[0] == '"' {
        match string_lit(s) {
            Some((_, n)) => Some(n),
            None => None,
        }
    } else if s[0] == '{' {
        match object_members(s) {
            Some((_, n)) => Some(n),
            None => None,
        }
    } else if s[0] == '[' {
        array_len(s)
    } else if s[0] == '-' || is_digit(s[0]) {
        Some(number_len(s))
    } else if starts_with(s, seq!['t', 'r', 'u', 'e']) || starts_with(s, seq!['n', 'u', 'l', 'l']) {
        Some(4)
    } else if starts_with(s, seq!['f', 'a', 'l', 's', 'e']) {
        Some(5)
    } else {
        None
    }
}

/// The members of the object at the start of `s` (keys decoded, values as
/// raw text) and the object's length.
pub open spec fn object_members(s: Seq<char>) -> Option<(Seq<Member>, nat)>
    decreases s.len(), 2nat,
{
    if s.len() == 0 || s[0] != '{' {
        None
    } else {
        let a: int = 1int + ws_len(s.skip(1));
        if a < s.len() && s[a] == '}' {
            Some((Seq::empty(), (a + 1) as nat))
        } else {
            members_from(s)
        }
    }
}

/// The member after the opening brace or the comma at `s[0]`, and the
/// position of the first non-blank character after its value.
pub open spec fn member_at(s: Seq<char>) -> Option<(Member, int)>
    decreases s.len(), 0nat,
{
    if s.len() == 0 {
        None
    } else {
        let a: int = 1int + ws_len(s.skip(1));
        match string_lit(s.skip(a)) {
            None => None,
            Some((key, kl)) => {
                let b: int = a + kl + ws_len(s.skip(a + kl));
                if b >= s.len() || s[b] != ':' {
                    None
                } else {
                    let c: int = b + 1 + ws_len(s.skip(b + 1));
                    match if c <= s.len() { value_len(s.skip(c)) } else { None } {
                        None => None,
                        Some(vl) => if c + vl > s.len() {
                            None
                        } else {
                            Some(((key, s.subrange(c, c + vl)), c + vl + ws_len(s.skip(c + vl))))
                        },
                    }
                }
            },
        }
    }
}

/// The members that follow the opening brace or the comma at `s[0]`, and the
/// length read through the closing brace.
pub open spec fn members_from(s: Seq<char>) -> Option<(Seq<Member>, nat)>
    decreases s.len(), 1nat,
{
    match member_at(s) {
        None => None,
        Some((m, d)) => if d < 1 || d >= s.len() {
            None
        } else if s[d] == '}' {
            Some((seq![m], (d + 1) as nat))
        } else if s[d] == ',' {
            match members_from(s.skip(d)) {
                Some((ms, n)) => Some((seq![m] + ms, (d + n) as nat)),
                None => None,
            }
        } else {
            None
        },
    }
}

/// The length of the array at the start of `s`.
pub open spec fn array_len(s: Seq<char>) -> Option<nat>
    decreases s.len(), 2nat,
{
    if s.len() == 0 || s[0] != '[' {
        None
    } else {
        let a: int = 1int + ws_len(s.skip(1));
        if a < s.len() && s[a] == ']' {
            Some((a + 1) as nat)
        } else {
            elements_len(s)
        }
    }
}

/// The length of the elements that follow the opening bracket or the comma
/// at `s[0]`, through the closing bracket.
pub open spec fn elements_len(s: Seq<char>) -> Option<nat>
    decreases s.len(), 1nat,
{
    if s.len() == 0 {
        None
    } else {
        let a: int = 1int + ws_len(s.skip(1));
        match if a <= s.len() { value_len(s.skip(a)) } else { None } {
            None => None,
            Some(vl) => {
                let d: int = a + vl + ws_len(s.skip(a + vl));
                if d >= s.len() {
                    None
                } else if s[d] == ']' {
                    Some((d + 1) as nat)
                } else if s[d] == ',' {
                    match elements_len(s.skip(d)) {
                        Some(n) => Some((d + n) as nat),
                        None => None,
                    }
                } else {
                    None
                }
            },
        }
    }
}


/// `r` is the exec form of the length `l`, which fits in `room`.
pub open spec fn len_matches(r: Option<usize>, l: Option<nat>, room: int) -> bool {
    match l {
        Some(n) => r == Some(n as usize) && n <= room,
        None => r is None,
    }
}

/// `r` is the exec form of the decoded string and length `l`, which fits in `room`.
pub open spec fn string_matches(r: Option<(String, usize)>, l: Option<(Seq<char>, nat)>, room: int) -> bool {
    match l {
        Some((t, n)) => n <= room && match r {
            Some(p) => p.0@ == t && p.1 == n,
            None => false,
        },
        None => r is None,
    }
}

/// `r` is the exec form of the members and length `l`, which fits in `room`.
pub open spec fn members_match(r: Option<(Vec<(String, String)>, usize)>, l: Option<(Seq<Member>, nat)>, room: int) -> bool {
    match l {
        Some((ms, n)) => n <= room && match r {
            Some(p) => crate::wire::members_view(p.0@) == ms && p.1 == n,
            None => false,
        },
        None => r is None,
    }
}

fn is_ws_char(c: char) -> (r: bool)
    ensures
        r == is_ws(c),
{
    c == ' ' || c == '\n' || c == '\r' || c == '\t'
}

fn is_number_char_exec(c: char) -> (r: bool)
    ensures
        r == is_number_char(c),
{
    ('0' <= c && c <= '9') || c == '-' || c == '+' || c == '.' || c == 'e' || c == 'E'
}

/// The position after the whitespace that starts at `i`.
pub(crate) fn skip_ws(s: &Vec<char>, i: usize) -> (r: usize)
    requires
        i <= s@.len(),
    ensures
        r == i + ws_len(s@.skip(i as int)),
        r <= s@.len(),
{
    let mut j = i;
    while j < s.len() && is_ws_char(s[j])
        invariant
            i <= j <= s@.len(),
            i + ws_len(s@.skip(i as int)) == j + ws_len(s@.skip(j as int)),
        decreases s@.len() - j,
    {
        assert(s@.skip(j as int).drop_first() =~= s@.skip(j + 1));
        j = j + 1;
    }
    j
}

fn skip_number(s: &Vec<char>, i: usize) -> (r: usize)
    requires
        i <= s@.len(),
    ensures
        r == i + number_len(s@.skip(i as int)),
        r <= s@.len(),
{
    let mut j = i;
    while j < s.len() && is_number_char_exec(s[j])
        invariant
            i <= j <= s@.len(),
            i + number_len(s@.skip(i as int)) == j + number_len(s@.skip(j as int)),
        decreases s@.len() - j,
    {
        assert(s@.skip(j as int).drop_first() =~= s@.skip(j + 1));
        j = j + 1;
    }
    j
}

fn hex_value_exec(c: char) -> (r: i32)
    ensures
        r == hex_value(c),
{
    if '0' <= c && c <= '9' {
        (c as u32 - '0' as u32) as i32
    } else if 'a' <= c && c <= 'f' {
        (c as u32 - 'a' as u32 + 10) as i32
    } else if 'A' <= c && c <= 'F' {
        (c as u32 - 'A' as u32 + 10) as i32
    } else {
        -1
    }
}

/// Relies on `char::from_u32`: the character with that code when the code
/// is a Unicode scalar value, and `None` otherwise.
#[verifier::external_body]
fn char_from_code(code: u32) -> (r: Option<char>)
    ensures
        code < 0xD800 || (0xE000 <= code <= 0x10FFFF) ==> r == Some(code as char),
        !(code < 0xD800 || (0xE000 <= code <= 0x10FFFF)) ==> r is None,
{
    char::from_u32(code)
}

/// The value of the four hex digits at `i`, or -1.
fn read_hex4(s: &Vec<char>, i: usize) -> (r: i32)
    ensures
        r == hex4(s@, i as int),
{
    if i > s.len() || s.len() - i < 4 {
        return -1;
    }
    let a = hex_value_exec(s[i]);
    let b = hex_value_exec(s[i + 1]);
    let c = hex_value_exec(s[i + 2]);
    let d = hex_value_exec(s[i + 3]);
    if a >= 0 && b >= 0 && c >= 0 && d >= 0 {
        a * 4096 + b * 256 + c * 16 + d
    } else {
        -1
    }
}

fn read_escape(s: &Vec<char>, i: usize) -> (r: Option<(char, usize)>)
    requires
        i < s@.len(),
        s@[i as int] == '\\',
    ensures
        match unescape(s@.skip(i as int)) {
            Some((c, k)) => r == Some((c, k as usize)) && i + k <= s@.len() && k >= 2,
            None => r is None,
        },
{
    reveal(unescape);
    let ghost t = s@.skip(i as int);
    if s.len() - i < 2 {
        return None;
    }
    let e = s[i + 1];
    if e == '"' || e == '\\' || e == '/' {
        Some((e, 2))
    } else if e == 'b' {
        Some(('\x08', 2))
    } else if e == 'f' {
        Some(('\x0c', 2))
    } else if e == 'n' {
        Some(('\n', 2))
    } else if e == 'r' {
        Some(('\r', 2))
    } else if e == 't' {
        Some(('\t', 2))
    } else if e == 'u' {
        let v = read_hex4(s, i + 2);
        assert(hex4(t, 2) == hex4(s@, i + 2));
        if v < 0 {
            return None;
        }
        if v < 0xD800 || v > 0xDFFF {
            match char_from_code(v as u32) {
                Some(c) => Some((c, 6)),
                None => None,
            }
        } else if v <= 0xDBFF && s.len() - i >= 8 && s[i + 6] == '\\' && s[i + 7] == 'u' {
            let w = read_hex4(s, i + 8);
            assert(hex4(t, 8) == hex4(s@, i + 8));
            if 0xDC00 <= w && w <= 0xDFFF {
                let code: u32 = (0x10000 + (v - 0xD800) * 1024 + (w - 0xDC00)) as u32;
                match char_from_code(code) {
                    Some(c) => Some((c, 12)),
                    None => None,
                }
            } else {
                None
            }
        } else {
            None
        }
    } else {
        None
    }
}

/// `r` with `p` put before its characters and `k` added to its length.
pub open spec fn prepend(p: Seq<char>, k: nat, r: Option<(Seq<char>, nat)>) -> Option<(Seq<char>, nat)> {
    match r {
        Some((t, n)) => Some((p + t, k + n)),
        None => None,
    }
}

proof fn lemma_prepend_twice(p: Seq<char>, k: nat, q: Seq<char>, l: nat, r: Option<(Seq<char>, nat)>)
    ensures
        prepend(p, k, prepend(q, l, r)) == prepend(p + q, k + l, r),
{
    match r {
        Some((t, n)) => {
            assert(p + (q + t) =~= (p + q) + t);
        },
        None => {},
    }
}

/// Reads the rest of a string whose opening quote stands just before `i`.
fn read_string_body(s: &Vec<char>, i: usize) -> (r: Option<(String, usize)>)
    requires
        i <= s@.len(),
    ensures
        string_matches(r, string_body(s@.skip(i as int)), s@.len() - i),
{
    let mut out = String::new();
    let mut j = i;
    proof {
        assert(prepend(out@, 0, string_body(s@.skip(i as int))) == string_body(s@.skip(i as int))) by {
            match string_body(s@.skip(i as int)) {
                Some((t, n)) => { assert(out@ + t =~= t); },
                None => {},
            }
        }
    }
    loop
        invariant
            i <= j <= s@.len(),
            string_body(s@.skip(i as int)) == prepend(out@, (j - i) as nat, string_body(s@.skip(j as int))),
        decreases s@.len() - j,
    {
        if j >= s.len() {
            return None;
        }
        let c = s[j];
        let ghost rest = s@.skip(j as int);
        if c == '"' {
            assert(out@ + Seq::<char>::empty() =~= out@);
            return Some((out, j + 1 - i));
        } else if c == '\\' {
            match read_escape(s, j) {
                Some((e, k)) => {
                    proof {
                        assert(rest.skip(k as int) =~= s@.skip(j + k));
                        lemma_prepend_twice(out@, (j - i) as nat, seq![e], k as nat, string_body(s@.skip(j + k)));
                    }
                    push_char(&mut out, e);
                    j = j + k;
                },
                None => {
                    return None;
                },
            }
        } else if (c as u32) < 32 {
            return None;
        } else {
            proof {
                assert(rest.drop_first() =~= s@.skip(j + 1));
                lemma_prepend_twice(out@, (j - i) as nat, seq![c], 1, string_body(s@.skip(j + 1)));
            }
            push_char(&mut out, c);
            j = j + 1;
        }
    }
}

/// Reads the string literal that starts at `i`.
pub(crate) fn read_string(s: &Vec<char>, i: usize) -> (r: Option<(String, usize)>)
    requires
        i <= s@.len(),
    ensures
        string_matches(r, string_lit(s@.skip(i as int)), s@.len() - i),
{
    if i < s.len() && s[i] == '"' {
        assert(s@.skip(i as int).drop_first() =~= s@.skip(i + 1));
        match read_string_body(s, i + 1) {
            Some((t, n)) => Some((t, n + 1)),
            None => None,
        }
    } else {
        None
    }
}


fn starts_with_at(s: &Vec<char>, i: usize, p: &str) -> (r: bool)
    requires
        i <= s@.len(),
    ensures
        r == starts_with(s@.skip(i as int), p@),
{
    let n = p.unicode_len();
    let len = s.len();
    if len - i < n {
        return false;
    }
    let mut k: usize = 0;
    while k < n
        invariant
            len == s@.len(),
            n == p@.len(),
            i + n <= s@.len(),
            k <= n,
            forall|m: int| 0 <= m < k ==> s@[i + m] == p@[m],
        decreases n - k,
    {
        assert(i + k < s@.len());
        if s[i + k] != p.get_char(k) {
            assert(s@.skip(i as int).take(n as int)[k as int] != p@[k as int]);
            return false;
        }
        k = k + 1;
    }
    assert(s@.skip(i as int).take(n as int) =~= p@);
    true
}

/// Reads the length of the value that starts at `i`.
#[verifier::rlimit(50)]
pub(crate) fn read_value_len(s: &Vec<char>, i: usize) -> (r: Option<usize>)
    requires
        i <= s@.len(),
    ensures
        len_matches(r, value_len(s@.skip(i as int)), s@.len() - i),
    decreases s@.len() - i, 3nat,
{
    let ghost t = s@.skip(i as int);
    if i >= s.len() {
        return None;
    }
    let c = s[i];
    assert(t[0] == c);
    if c == '"' {
        assert(value_len(t) == match string_lit(t) { Some((_, n)) => Some(n), None => None::<nat> });
        match read_string(s, i) {
            Some((_, n)) => Some(n),
            None => None,
        }
    } else if c == '{' {
        assert(value_len(t) == match object_members(t) { Some((_, n)) => Some(n), None => None::<nat> });
        match read_object_members(s, i) {
            Some((_, n)) => Some(n),
            None => None,
        }
    } else if c == '[' {
        assert(value_len(t) == array_len(t));
        read_array_len(s, i)
    } else if c == '-' || ('0' <= c && c <= '9') {
        assert(value_len(t) == Some(number_len(t)));
        let e = skip_number(s, i);
        Some(e - i)
    } else {
        proof {
            reveal_strlit("true");
            reveal_strlit("null");
            reveal_strlit("false");
            assert("true"@ =~= seq!['t', 'r', 'u', 'e']);
            assert("null"@ =~= seq!['n', 'u', 'l', 'l']);
            assert("false"@ =~= seq!['f', 'a', 'l', 's', 'e']);
        }
        if starts_with_at(s, i, "true") || starts_with_at(s, i, "null") {
            assert(value_len(t) == Some(4nat));
            Some(4)
        } else if starts_with_at(s, i, "false") {
            assert(value_len(t) == Some(5nat));
            Some(5)
        } else {
            assert(value_len(t) is None);
            None
        }
    }
}

/// Reads the object that starts at `i`: its members and its length.
pub(crate) fn read_object_members(s: &Vec<char>, i: usize) -> (r: Option<(Vec<(String, String)>, usize)>)
    requires
        i <= s@.len(),
    ensures
        members_match(r, object_members(s@.skip(i as int)), s@.len() - i),
    decreases s@.len() - i, 2nat,
{
    let ghost t = s@.skip(i as int);
    if i >= s.len() || s[i] != '{' {
        return None;
    }
    assert(t.skip(1) =~= s@.skip(i + 1));
    let a = skip_ws(s, i + 1);
    if a < s.len() && s[a] == '}' {
        let v: Vec<(String, String)> = Vec::new();
        assert(crate::wire::members_view(v@) =~= Seq::<Member>::empty());
        Some((v, a + 1 - i))
    } else {
        read_members_from(s, i)
    }
}

/// Reads the member after the brace or comma at `i`; gives the position
/// of the first non-blank character after its value.
#[verifier::rlimit(50)]
fn read_member_at(s: &Vec<char>, i: usize) -> (r: Option<((String, String), usize)>)
    requires
        i <= s@.len(),
    ensures
        match member_at(s@.skip(i as int)) {
            Some((m, d)) => i + d <= s@.len() && match r {
                Some((mm, e)) => mm.0@ == m.0 && mm.1@ == m.1 && e == i + d,
                None => false,
            },
            None => r is None,
        },
    decreases s@.len() - i, 0nat,
{
    let ghost t = s@.skip(i as int);
    if i >= s.len() {
        return None;
    }
    assert(t.skip(1) =~= s@.skip(i + 1));
    let a = skip_ws(s, i + 1);
    assert(t.skip(a - i) =~= s@.skip(a as int));
    let (key, kl) = match read_string(s, a) {
        Some(p) => p,
        None => { return None; },
    };
    assert(t.skip(a + kl - i) =~= s@.skip(a + kl));
    let b = skip_ws(s, a + kl);
    if b >= s.len() || s[b] != ':' {
        assert(b < s@.len() ==> t[b - i] == s@[b as int]);
        return None;
    }
    assert(t[b - i] == s@[b as int]);
    assert(t.skip(b + 1 - i) =~= s@.skip(b + 1));
    let c = skip_ws(s, b + 1);
    assert(t.skip(c - i) =~= s@.skip(c as int));
    let vl = match read_value_len(s, c) {
        Some(n) => n,
        None => { return None; },
    };
    assert(t.skip(c + vl - i) =~= s@.skip(c + vl));
    let d = skip_ws(s, c + vl);
    let raw = string_of(s, c, c + vl);
    assert(t.subrange(c - i, c + vl - i) =~= s@.subrange(c as int, c + vl));
    Some(((key, raw), d))
}

/// Reads the members that follow the brace or comma at `i`.
#[verifier::rlimit(50)]
fn read_members_from(s: &Vec<char>, i: usize) -> (r: Option<(Vec<(String, String)>, usize)>)
    requires
        i <= s@.len(),
    ensures
        members_match(r, members_from(s@.skip(i as int)), s@.len() - i),
    decreases s@.len() - i, 1nat,
{
    let ghost t = s@.skip(i as int);
    let (m, d) = match read_member_at(s, i) {
        Some(p) => p,
        None => { return None; },
    };
    if d < i + 1 || d >= s.len() {
        return None;
    }
    assert(t[d - i] == s@[d as int]);
    if s[d] == '}' {
        let ghost mv = (m.0@, m.1@);
        let mut v: Vec<(String, String)> = Vec::new();
        v.push(m);
        assert(crate::wire::members_view(v@) =~~= seq![mv]);
        Some((v, d + 1 - i))
    } else if s[d] == ',' {
        let ghost mv = (m.0@, m.1@);
        assert(t.skip(d - i) =~= s@.skip(d as int));
        match read_members_from(s, d) {
            Some((mut v, n)) => {
                let ghost old_v = v@;
                v.insert(0, m);
                assert(crate::wire::members_view(v@) =~~= seq![mv] + crate::wire::members_view(old_v));
                Some((v, d + n - i))
            },
            None => None,
        }
    } else {
        None
    }
}

/// Reads the length of the array that starts at `i`.
fn read_array_len(s: &Vec<char>, i: usize) -> (r: Option<usize>)
    requires
        i <= s@.len(),
    ensures
        len_matches(r, array_len(s@.skip(i as int)), s@.len() - i),
    decreases s@.len() - i, 2nat,
{
    let ghost t = s@.skip(i as int);
    if i >= s.len() || s[i] != '[' {
        return None;
    }
    assert(t.skip(1) =~= s@.skip(i + 1));
    let a = skip_ws(s, i + 1);
    if a < s.len() && s[a] == ']' {
        Some(a + 1 - i)
    } else {
        read_elements_len(s, i)
    }
}

/// Reads the length of the elements that follow the bracket or comma at `i`.
#[verifier::rlimit(50)]
fn read_elements_len(s: &Vec<char>, i: usize) -> (r: Option<usize>)
    requires
        i <= s@.len(),
    ensures
        len_matches(r, elements_len(s@.skip(i as int)), s@.len() - i),
    decreases s@.len() - i, 1nat,
{
    let ghost t = s@.skip(i as int);
    if i >= s.len() {
        return None;
    }
    assert(t.skip(1) =~= s@.skip(i + 1));
    let a = skip_ws(s, i + 1);
    assert(t.skip(a - i) =~= s@.skip(a as int));
    let vl = match read_value_len(s, a) {
        Some(n) => n,
        None => { return None; },
    };
    assert(t.skip(a + vl - i) =~= s@.skip(a + vl));
    let d = skip_ws(s, a + vl);
    if d >= s.len() {
        return None;
    }
    assert(t[d - i] == s@[d as int]);
    if s[d] == ']' {
        Some(d + 1 - i)
    } else if s[d] == ',' {
        assert(t.skip(d - i) =~= s@.skip(d as int));
        match read_elements_len(s, d) {
            Some(n) => Some(d + n - i),
            None => None,
        }
    } else {
        None
    }
}

} // verus!
