//! Reading the canonical text back gives what was written.
use vstd::prelude::*;
use crate::wire::{
    Member, hex_chars, escape_char, escaped, quoted, digits_of, decimal, null_text, member_text,
    members_text, object_text,
};
use crate::parse::{
    hex_value, hex4, unescape, string_body, string_lit, is_digit, is_number_char, number_len, value_len,
    is_ws, starts_with, ws_len, member_at, members_from, object_members,
};
use crate::decode::{
    all_digits, digits_value, pow10, int_value, lookup, string_value, object_value, kind_of_name,
    string_field, int_field, object_field,
};
use crate::message::{
    UnmappedMessage, kind_name, message_text, message_members, key_type, key_nick, key_time,
    key_content, key_public_key, key_last_client_time, key_post_content, history_content,
};
use crate::envelope::{
    envelope_text, envelope_members, classify_text, ClassifiedView, key_message, key_sig,
    key_key_hash, key_protocol_version, response_name, EnvelopeView, envelope_of_text,
    is_response_members, message_of,
};

verus! {

proof fn lemma_hex_digit(d: int)
    requires
        0 <= d < 16,
    ensures
        hex_value(hex_chars()[d]) == d,
        d < 10 ==> '0' <= hex_chars()[d] <= '9' && hex_chars()[d] as int - '0' as int == d,
{
    if d == 0 { assert(hex_chars()[0] == '0'); }
    else if d == 1 { assert(hex_chars()[1] == '1'); }
    else if d == 2 { assert(hex_chars()[2] == '2'); }
    else if d == 3 { assert(hex_chars()[3] == '3'); }
    else if d == 4 { assert(hex_chars()[4] == '4'); }
    else if d == 5 { assert(hex_chars()[5] == '5'); }
    else if d == 6 { assert(hex_chars()[6] == '6'); }
    else if d == 7 { assert(hex_chars()[7] == '7'); }
    else if d == 8 { assert(hex_chars()[8] == '8'); }
    else if d == 9 { assert(hex_chars()[9] == '9'); }
    else if d == 10 { assert(hex_chars()[10] == 'a'); }
    else if d == 11 { assert(hex_chars()[11] == 'b'); }
    else if d == 12 { assert(hex_chars()[12] == 'c'); }
    else if d == 13 { assert(hex_chars()[13] == 'd'); }
    else if d == 14 { assert(hex_chars()[14] == 'e'); }
    else { assert(hex_chars()[15] == 'f'); }
}

/// A string body written by the encoder reads back as the same characters.
proof fn lemma_string_body(t: Seq<char>, rest: Seq<char>)
    ensures
        string_body(escaped(t) + seq!['"'] + rest) == Some((t, escaped(t).len() + 1)),
    decreases t.len(),
{
    let s = escaped(t) + seq!['"'] + rest;
    if t.len() == 0 {
        assert(escaped(t) =~= Seq::<char>::empty());
        assert(s[0] == '"');
        assert(t =~= Seq::<char>::empty());
    } else {
        let c = t[0];
        let u = t.drop_first();
        let e = escape_char(c);
        let x = escaped(u) + seq!['"'] + rest;
        lemma_string_body(u, rest);
        assert(escaped(t) == e + escaped(u));
        assert(s =~= e + x);
        assert(seq![c] + u =~= t);
        if c == '"' || c == '\\' {
            assert(s[0] == '\\' && s[1] == c);
            assert(unescape(s) == Some((c, 2nat))) by {
                reveal(unescape);
            }
            assert(s.skip(2) =~= x);
        } else if (c as u32) < 32 {
            let v: int = (c as u32) as int;
            lemma_hex_digit(v / 16);
            lemma_hex_digit(v % 16);
            lemma_hex_digit(0);
            assert(s[0] == '\\' && s[1] == 'u' && s[2] == '0' && s[3] == '0');
            assert(s[4] == hex_chars()[v / 16] && s[5] == hex_chars()[v % 16]);
            assert((v / 16) * 16 + v % 16 == v);
            assert(hex_value(s[4]) * 16 + hex_value(s[5]) == v);
            vstd::utf8::char_u32_cast(c, c as u32);
            assert((v as u32) as char == c);
            assert(hex4(s, 2) == v);
            assert(unescape(s) == Some((c, 6nat))) by {
                reveal(unescape);
            }
            assert(s.skip(6) =~= x);
        } else {
            assert(s[0] == c);
            assert(s.drop_first() =~= x);
        }
    }
}

/// A string literal written by the encoder reads back as the same characters.
pub proof fn lemma_string_lit(t: Seq<char>, rest: Seq<char>)
    ensures
        string_lit(quoted(t) + rest) == Some((t, quoted(t).len())),
{
    lemma_string_body(t, rest);
    assert((quoted(t) + rest).drop_first() =~= escaped(t) + seq!['"'] + rest);
}


proof fn lemma_digits(n: nat)
    ensures
        digits_of(n).len() >= 1,
        all_digits(digits_of(n)),
        digits_value(digits_of(n)) == n,
        forall|k: nat| k >= 1 && n < pow10(k) ==> digits_of(n).len() <= k,
    decreases n,
{
    lemma_hex_digit((n % 10) as int);
    if n < 10 {
        let d = digits_of(n);
        assert(d.drop_last() =~= Seq::<char>::empty());
        assert(digits_value(d.drop_last()) == 0);
        assert(d.last() == hex_chars()[n as int]);
    } else {
        lemma_digits(n / 10);
        let d = digits_of(n);
        assert(d.drop_last() =~= digits_of(n / 10));
        assert forall|k: nat| k >= 1 && n < pow10(k) implies digits_of(n).len() <= k by {
            assert(pow10(k) == 10 * pow10((k - 1) as nat));
            assert(n / 10 < pow10((k - 1) as nat));
            if k == 1 {
                assert(pow10(0) == 1);
            }
        }
    }
}

/// The run of number characters at the start of `p + rest` is `p`.
proof fn lemma_number_len(p: Seq<char>, rest: Seq<char>)
    requires
        forall|i: int| 0 <= i < p.len() ==> is_number_char(#[trigger] p[i]),
        rest.len() == 0 || !is_number_char(rest[0]),
    ensures
        number_len(p + rest) == p.len(),
    decreases p.len(),
{
    if p.len() == 0 {
        assert(p + rest =~= rest);
    } else {
        assert((p + rest).drop_first() =~= p.drop_first() + rest);
        assert forall|i: int| 0 <= i < p.drop_first().len() implies is_number_char(
            #[trigger] p.drop_first()[i]) by {
            assert(p.drop_first()[i] == p[i + 1]);
        }
        lemma_number_len(p.drop_first(), rest);
    }
}

/// A 64-bit integer written by the encoder reads back as itself, and as a
/// value it ends where its text ends.
proof fn lemma_decimal(n: int, rest: Seq<char>)
    requires
        i64::MIN <= n <= i64::MAX,
        rest.len() == 0 || !is_number_char(rest[0]),
    ensures
        int_value(decimal(n)) == Some(n),
        value_len(decimal(n) + rest) == Some(decimal(n).len()),
        decimal(n).len() > 0 && !is_ws(decimal(n)[0]),
{
    reveal(int_value);
    let m: nat = if n < 0 { (-n) as nat } else { n as nat };
    lemma_digits(m);
    reveal_with_fuel(pow10, 20);
    assert(pow10(19) == 10000000000000000000);
    assert(m < pow10(19));
    let d = decimal(n);
    assert forall|i: int| 0 <= i < d.len() implies is_number_char(#[trigger] d[i]) by {
        if n < 0 {
            if i > 0 {
                assert(d[i] == digits_of(m)[i - 1]);
            }
        } else {
            assert(d[i] == digits_of(m)[i]);
        }
    }
    lemma_number_len(d, rest);
    assert((d + rest)[0] == d[0]);
    if n < 0 {
        assert(d.drop_first() =~= digits_of(m));
    } else {
        assert(is_digit(digits_of(m)[0]));
    }
}

/// `null` as a value ends where its text ends.
proof fn lemma_null(rest: Seq<char>)
    ensures
        value_len(null_text() + rest) == Some(4nat),
{
    let s = null_text() + rest;
    assert(s.take(4) =~= null_text());
    assert(starts_with(s, seq!['n', 'u', 'l', 'l']));
    assert(s[0] == 'n');
}


/// A value that, followed by a comma or a closing brace, reads as exactly
/// itself.
#[verifier::opaque]
pub open spec fn self_delimiting(v: Seq<char>) -> bool {
    &&& v.len() > 0
    &&& !is_ws(v[0])
    &&& forall|rest: Seq<char>| rest.len() > 0 && (rest[0] == ',' || rest[0] == '}')
        ==> #[trigger] value_len(v + rest) == Some(v.len())
}

/// Every value of the members is self-delimiting.
pub open spec fn values_delimited(ms: Seq<Member>) -> bool {
    forall|i: int| 0 <= i < ms.len() ==> self_delimiting(#[trigger] ms[i].1)
}

proof fn lemma_quoted_delimited(t: Seq<char>)
    ensures
        self_delimiting(quoted(t)),
{
    reveal(self_delimiting);
    assert(quoted(t)[0] == '"');
    assert forall|rest: Seq<char>| rest.len() > 0 && (rest[0] == ',' || rest[0] == '}')
        implies #[trigger] value_len(quoted(t) + rest) == Some(quoted(t).len()) by {
        lemma_string_lit(t, rest);
        assert((quoted(t) + rest)[0] == '"');
    }
}

proof fn lemma_decimal_delimited(n: int)
    requires
        i64::MIN <= n <= i64::MAX,
    ensures
        self_delimiting(decimal(n)),
{
    reveal(self_delimiting);
    lemma_decimal(n, Seq::empty());
    assert forall|rest: Seq<char>| rest.len() > 0 && (rest[0] == ',' || rest[0] == '}')
        implies #[trigger] value_len(decimal(n) + rest) == Some(decimal(n).len()) by {
        lemma_decimal(n, rest);
    }
}

proof fn lemma_null_delimited()
    ensures
        self_delimiting(null_text()),
{
    reveal(self_delimiting);
    assert forall|rest: Seq<char>| rest.len() > 0 && (rest[0] == ',' || rest[0] == '}')
        implies #[trigger] value_len(null_text() + rest) == Some(null_text().len()) by {
        lemma_null(rest);
    }
}

#[verifier::rlimit(60)]
proof fn lemma_members_from(ms: Seq<Member>, open: char, rest: Seq<char>)
    requires
        ms.len() >= 1,
        values_delimited(ms),
    ensures
        members_from(seq![open] + members_text(ms) + seq!['}'] + rest) == Some(
            (ms, (members_text(ms).len() + 2) as nat),
        ),
    decreases ms.len(),
{
    reveal(self_delimiting);
    let m = ms[0];
    let k = m.0;
    let v = m.1;
    assert(self_delimiting(v));
    let tail = if ms.len() == 1 {
        seq!['}'] + rest
    } else {
        seq![','] + members_text(ms.drop_first()) + seq!['}'] + rest
    };
    let s = seq![open] + members_text(ms) + seq!['}'] + rest;
    let qk = quoted(k);
    assert(s =~= seq![open] + qk + seq![':'] + v + tail);
    assert(s.skip(1) =~= qk + (seq![':'] + v + tail));
    assert(qk[0] == '"');
    assert(ws_len(s.skip(1)) == 0);
    lemma_string_lit(k, seq![':'] + v + tail);
    let b: int = 1int + qk.len();
    assert(s.skip(b) =~= seq![':'] + v + tail);
    assert(ws_len(s.skip(b)) == 0);
    assert(s[b] == ':');
    let c: int = b + 1;
    assert(s.skip(c) =~= v + tail);
    assert(ws_len(s.skip(c)) == 0);
    assert(tail.len() > 0 && (tail[0] == ',' || tail[0] == '}'));
    assert(value_len(v + tail) == Some(v.len()));
    let d: int = c + v.len();
    assert(s.subrange(c, d) =~= v);
    assert(s.skip(d) =~= tail);
    assert(ws_len(s.skip(d)) == 0);
    assert(member_at(s) == Some(((k, v), d)));
    if ms.len() == 1 {
        assert(s[d] == '}');
        assert(members_text(ms) == member_text(m));
        assert(ms =~= seq![m]);
    } else {
        assert(s[d] == ',');
        let ms2 = ms.drop_first();
        assert(values_delimited(ms2)) by {
            assert forall|i: int| 0 <= i < ms2.len() implies self_delimiting(#[trigger] ms2[i].1) by {
                assert(ms2[i] == ms[i + 1]);
            }
        }
        lemma_members_from(ms2, ',', rest);
        assert(s.skip(d) =~= seq![','] + members_text(ms2) + seq!['}'] + rest);
        assert(seq![m] + ms2 =~= ms);
    }
}

/// An object written by the encoder reads back as the same members, provided
/// each value reads back as itself.
pub proof fn lemma_object(ms: Seq<Member>, rest: Seq<char>)
    requires
        values_delimited(ms),
    ensures
        object_members(object_text(ms) + rest) == Some((ms, object_text(ms).len())),
{
    let s = object_text(ms) + rest;
    assert(s =~= seq!['{'] + members_text(ms) + seq!['}'] + rest);
    if ms.len() == 0 {
        assert(members_text(ms) =~= Seq::<char>::empty());
        assert(s[1] == '}');
        assert(ws_len(s.skip(1)) == 0);
        assert(ms =~= Seq::<Member>::empty());
    } else {
        if ms.len() == 1 {
            assert(members_text(ms) == member_text(ms[0]));
        }
        assert(members_text(ms)[0] == '"');
        assert(s[1] == '"');
        assert(ws_len(s.skip(1)) == 0);
        lemma_members_from(ms, '{', rest);
    }
}

proof fn lemma_object_delimited(ms: Seq<Member>)
    requires
        values_delimited(ms),
    ensures
        self_delimiting(object_text(ms)),
{
    reveal(self_delimiting);
    assert(object_text(ms)[0] == '{');
    assert forall|rest: Seq<char>| rest.len() > 0 && (rest[0] == ',' || rest[0] == '}')
        implies #[trigger] value_len(object_text(ms) + rest) == Some(object_text(ms).len()) by {
        lemma_object(ms, rest);
        assert((object_text(ms) + rest)[0] == '{');
    }
}


/// A content value as the request builders write it: a string, a 64-bit
/// integer, or `null`.
pub open spec fn canonical_value(v: Seq<char>) -> bool {
    ||| exists|t: Seq<char>| v == quoted(t)
    ||| exists|n: int| i64::MIN <= n <= i64::MAX && v == decimal(n)
    ||| v == null_text()
}

/// Every content value is as the request builders write it.
pub open spec fn canonical_content(ms: Seq<Member>) -> bool {
    forall|i: int| 0 <= i < ms.len() ==> canonical_value(#[trigger] ms[i].1)
}

/// The content that each request builder writes is canonical, so the round
/// trip below covers every message the builders make.
pub proof fn lemma_builder_content_is_canonical(text: Seq<char>, n: i64, end: Option<i64>)
    ensures
        canonical_content(seq![(key_public_key(), quoted(text))]),
        canonical_content(seq![(key_public_key(), quoted(text)), (key_last_client_time(), decimal(n as int))]),
        canonical_content(seq![(key_post_content(), quoted(text))]),
        canonical_content(history_content(n as int, end)),
        canonical_content(Seq::<Member>::empty()),
{
    assert(canonical_value(quoted(text)));
    assert(canonical_value(decimal(n as int)));
    match end {
        Some(e) => assert(canonical_value(decimal(e as int))),
        None => assert(canonical_value(null_text())),
    }
    let h = history_content(n as int, end);
    assert forall|i: int| 0 <= i < h.len() implies canonical_value(#[trigger] h[i].1) by {}
    let s2 = seq![(key_public_key(), quoted(text)), (key_last_client_time(), decimal(n as int))];
    assert forall|i: int| 0 <= i < s2.len() implies canonical_value(#[trigger] s2[i].1) by {}
}

proof fn lemma_canonical_delimited(ms: Seq<Member>)
    requires
        canonical_content(ms),
    ensures
        values_delimited(ms),
{
    assert forall|i: int| 0 <= i < ms.len() implies self_delimiting(#[trigger] ms[i].1) by {
        assert(canonical_value(ms[i].1));
        if exists|t: Seq<char>| ms[i].1 == quoted(t) {
            let t = choose|t: Seq<char>| ms[i].1 == quoted(t);
            lemma_quoted_delimited(t);
        } else if exists|n: int| i64::MIN <= n <= i64::MAX && ms[i].1 == decimal(n) {
            let n = choose|n: int| i64::MIN <= n <= i64::MAX && ms[i].1 == decimal(n);
            lemma_decimal_delimited(n);
        } else {
            lemma_null_delimited();
        }
    }
}

proof fn lemma_string_value(t: Seq<char>)
    ensures
        string_value(quoted(t)) == Some(t),
{
    reveal(string_value);
    lemma_string_lit(t, Seq::empty());
    assert(quoted(t) + Seq::<char>::empty() =~= quoted(t));
}

proof fn lemma_object_value(ms: Seq<Member>)
    requires
        values_delimited(ms),
    ensures
        object_value(object_text(ms)) == Some(ms),
{
    reveal(object_value);
    lemma_object(ms, Seq::empty());
    assert(object_text(ms) + Seq::<char>::empty() =~= object_text(ms));
}

proof fn lemma_lookup_at(ms: Seq<Member>, k: Seq<char>, i: int)
    requires
        0 <= i < ms.len(),
        ms[i].0 == k,
        forall|j: int| 0 <= j < i ==> ms[j].0 != k,
    ensures
        lookup(ms, k) == Some(ms[i].1),
    decreases i,
{
    if i > 0 {
        assert forall|j: int| 0 <= j < i - 1 implies ms.drop_first()[j].0 != k by {
            assert(ms.drop_first()[j] == ms[j + 1]);
        }
        lemma_lookup_at(ms.drop_first(), k, i - 1);
    }
}

proof fn lemma_envelope_fields(message: Seq<char>, sig: Seq<char>, key_hash: Seq<char>)
    requires
        self_delimiting(message),
    ensures
        envelope_of_text(envelope_text(message, sig, key_hash)) == Some(
            EnvelopeView { message, sig, key_hash, protocol_version: 1 },
        ),
{
    let em = envelope_members(message, sig, key_hash);
    assert(values_delimited(em)) by {
        lemma_quoted_delimited(sig);
        lemma_quoted_delimited(key_hash);
        lemma_decimal_delimited(1);
        assert forall|i: int| 0 <= i < em.len() implies self_delimiting(#[trigger] em[i].1) by {
            if i == 0 {
                assert(em[0].1 == message);
            }
        }
    }
    assert(object_value(envelope_text(message, sig, key_hash)) == Some(em)) by {
        lemma_object_value(em);
    }
    assert(lookup(em, key_message()) == Some(message));
    assert(string_field(em, key_sig()) == Some(sig)) by {
        assert(key_message() != key_sig());
        lemma_lookup_at(em, key_sig(), 1);
        lemma_string_value(sig);
    }
    assert(string_field(em, key_key_hash()) == Some(key_hash)) by {
        assert(key_message()[0] != key_key_hash()[0]);
        assert(key_message() != key_key_hash());
        assert(key_sig() != key_key_hash());
        lemma_lookup_at(em, key_key_hash(), 2);
        lemma_string_value(key_hash);
    }
    assert(int_field(em, key_protocol_version()) == Some(1int)) by {
        assert(key_message() != key_protocol_version());
        assert(key_sig() != key_protocol_version());
        assert(key_key_hash() != key_protocol_version());
        lemma_lookup_at(em, key_protocol_version(), 3);
        lemma_decimal(1, Seq::empty());
    }
}

proof fn lemma_message_fields(m: UnmappedMessage)
    requires
        canonical_content(m@.content),
    ensures
        self_delimiting(message_text(m)),
        object_value(message_text(m)) == Some(message_members(m)),
        !is_response_members(message_members(m)),
        message_of(message_members(m)) == Some(m@),
{
    let content = m@.content;
    let mm = message_members(m);
    assert(values_delimited(mm) && object_value(object_text(content)) == Some(content)) by {
        lemma_canonical_delimited(content);
        lemma_object_delimited(content);
        lemma_object_value(content);
        lemma_quoted_delimited(kind_name(m.msg_type));
        lemma_quoted_delimited(m.nick@);
        lemma_decimal_delimited(m.time as int);
        assert forall|i: int| 0 <= i < mm.len() implies self_delimiting(#[trigger] mm[i].1) by {
            if i == 3 {
                assert(mm[3].1 == object_text(content));
            }
        }
    }
    assert(self_delimiting(message_text(m)) && object_value(message_text(m)) == Some(mm)) by {
        lemma_object_delimited(mm);
        lemma_object_value(mm);
    }
    assert(string_value(quoted(kind_name(m.msg_type))) == Some(kind_name(m.msg_type))) by {
        lemma_string_value(kind_name(m.msg_type));
    }
    assert(lookup(mm, key_type()) == Some(quoted(kind_name(m.msg_type))));
    assert(!is_response_members(mm)) by {
        assert(kind_name(m.msg_type) != response_name());
    }
    assert(string_field(mm, key_nick()) == Some(m.nick@)) by {
        assert(key_type()[0] != key_nick()[0]);
        lemma_lookup_at(mm, key_nick(), 1);
        lemma_string_value(m.nick@);
    }
    assert(int_field(mm, key_time()) == Some(m.time as int)) by {
        assert(key_type()[1] != key_time()[1]);
        assert(key_nick()[0] != key_time()[0]);
        lemma_lookup_at(mm, key_time(), 2);
        lemma_decimal(m.time as int, Seq::empty());
    }
    assert(object_field(mm, key_content()) == Some(content)) by {
        assert(key_type() != key_content());
        assert(key_nick() != key_content());
        assert(key_time() != key_content());
        lemma_lookup_at(mm, key_content(), 3);
    }
    assert(kind_of_name(kind_name(m.msg_type)) == Some(m.msg_type));
}

/// Round trip: a logical message whose content is as the builders write it,
/// once sealed in an envelope, is read back as a broadcast with the same
/// type, nickname, time and content, whatever the signature and fingerprint.
pub proof fn lemma_sign_then_classify(m: UnmappedMessage, sig: Seq<char>, key_hash: Seq<char>)
    requires
        canonical_content(m@.content),
    ensures
        classify_text(envelope_text(message_text(m), sig, key_hash)) == ClassifiedView::Broadcast(m@),
{
    lemma_message_fields(m);
    lemma_envelope_fields(message_text(m), sig, key_hash);
}

} // verus!
