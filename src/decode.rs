//! From parsed members to the typed messages of the protocol.
use vstd::prelude::*;
use crate::wire::{Member, members_view};
use crate::parse::{is_digit, string_lit, object_members, read_string, read_object_members};
use crate::text::chars_of;
use crate::message::{MessageType, ServerReason, ServerAcceptCode, UnmappedMessage, kind_name, reason_name, accept_name};

verus! {

/// The raw value of the first member named `k`.
pub open spec fn lookup(ms: Seq<Member>, k: Seq<char>) -> Option<Seq<char>>
    decreases ms.len(),
{
    if ms.len() == 0 {
        None
    } else if ms[0].0 == k {
        Some(ms[0].1)
    } else {
        lookup(ms.drop_first(), k)
    }
}

/// The characters of a raw value that is exactly one string literal.
#[verifier::opaque]
pub open spec fn string_value(raw: Seq<char>) -> Option<Seq<char>> {
    match string_lit(raw) {
        Some((t, n)) => if n == raw.len() { Some(t) } else { None },
        None => None,
    }
}

/// The members of a raw value that is exactly one object.
#[verifier::opaque]
pub open spec fn object_value(raw: Seq<char>) -> Option<Seq<Member>> {
    match object_members(raw) {
        Some((ms, n)) => if n == raw.len() { Some(ms) } else { None },
        None => None,
    }
}

pub open spec fn all_digits(ds: Seq<char>) -> bool {
    forall|k: int| 0 <= k < ds.len() ==> is_digit(#[trigger] ds[k])
}

/// The number that a run of decimal digits denotes.
pub open spec fn digits_value(ds: Seq<char>) -> int
    decreases ds.len(),
{
    if ds.len() == 0 {
        0
    } else {
        digits_value(ds.drop_last()) * 10 + (ds.last() as int - '0' as int)
    }
}

pub open spec fn pow10(k: nat) -> int
    decreases k,
{
    if k == 0 { 1 } else { 10 * pow10((k - 1) as nat) }
}

/// The 64-bit integer that a raw value spells in decimal: an optional minus
/// sign and at most nineteen digits.
#[verifier::opaque]
pub open spec fn int_value(raw: Seq<char>) -> Option<int> {
    let neg = raw.len() > 0 && raw[0] == '-';
    let ds = if neg { raw.drop_first() } else { raw };
    if ds.len() == 0 || ds.len() > 19 || !all_digits(ds) {
        None
    } else {
        let v = if neg { -digits_value(ds) } else { digits_value(ds) };
        if i64::MIN <= v <= i64::MAX { Some(v) } else { None }
    }
}

pub open spec fn kind_of_name(n: Seq<char>) -> Option<MessageType> {
    if n == kind_name(MessageType::Hello) {
        Some(MessageType::Hello)
    } else if n == kind_name(MessageType::History) {
        Some(MessageType::History)
    } else if n == kind_name(MessageType::Post) {
        Some(MessageType::Post)
    } else if n == kind_name(MessageType::Subscribe) {
        Some(MessageType::Subscribe)
    } else if n == kind_name(MessageType::Disconnect) {
        Some(MessageType::Disconnect)
    } else {
        None
    }
}

pub open spec fn reason_of_name(n: Seq<char>) -> Option<ServerReason> {
    if n == reason_name(ServerReason::NoReason) {
        Some(ServerReason::NoReason)
    } else if n == reason_name(ServerReason::Format) {
        Some(ServerReason::Format)
    } else if n == reason_name(ServerReason::Signature) {
        Some(ServerReason::Signature)
    } else if n == reason_name(ServerReason::Access) {
        Some(ServerReason::Access)
    } else if n == reason_name(ServerReason::Exception) {
        Some(ServerReason::Exception)
    } else {
        None
    }
}

pub open spec fn accept_of_name(n: Seq<char>) -> Option<ServerAcceptCode> {
    if n == accept_name(ServerAcceptCode::Accept) {
        Some(ServerAcceptCode::Accept)
    } else if n == accept_name(ServerAcceptCode::Reject) {
        Some(ServerAcceptCode::Reject)
    } else {
        None
    }
}

fn find_member(ms: &Vec<(String, String)>, key: &str) -> (r: Option<usize>)
    ensures
        match lookup(members_view(ms@), key@) {
            Some(v) => r is Some && r->0 < ms@.len() && ms@[r->0 as int].1@ == v,
            None => r is None,
        },
{
    let k = key.to_owned();
    let ghost all = members_view(ms@);
    let mut i: usize = 0;
    assert(all.skip(0) =~= all);
    while i < ms.len()
        invariant
            i <= ms@.len(),
            k@ == key@,
            all == members_view(ms@),
            lookup(all, key@) == lookup(all.skip(i as int), key@),
        decreases ms@.len() - i,
    {
        assert(all.skip(i as int)[0] == (ms@[i as int].0@, ms@[i as int].1@));
        if ms[i].0 == k {
            return Some(i);
        }
        assert(all.skip(i as int).drop_first() =~= all.skip(i + 1));
        i = i + 1;
    }
    None
}

/// The raw value of the first member named `key`.
pub(crate) fn find_member_value(ms: &Vec<(String, String)>, key: &str) -> (r: Option<String>)
    ensures
        match lookup(members_view(ms@), key@) {
            Some(v) => r is Some && r->0@ == v,
            None => r is None,
        },
{
    match find_member(ms, key) {
        Some(i) => Some(ms[i].1.clone()),
        None => None,
    }
}

/// The characters of a raw value that is exactly one string literal.
pub fn decode_string(raw: &str) -> (r: Option<String>)
    ensures
        match string_value(raw@) {
            Some(t) => r is Some && r->0@ == t,
            None => r is None,
        },
{
    reveal(string_value);
    let cs = chars_of(raw);
    assert(cs@.skip(0) =~= cs@);
    match read_string(&cs, 0) {
        Some((t, n)) => if n == cs.len() { Some(t) } else { None },
        None => None,
    }
}

/// The members of a raw value that is exactly one object.
pub fn decode_object(raw: &str) -> (r: Option<Vec<(String, String)>>)
    ensures
        match object_value(raw@) {
            Some(ms) => r is Some && members_view(r->0@) == ms,
            None => r is None,
        },
{
    reveal(object_value);
    let cs = chars_of(raw);
    assert(cs@.skip(0) =~= cs@);
    match read_object_members(&cs, 0) {
        Some((ms, n)) => if n == cs.len() { Some(ms) } else { None },
        None => None,
    }
}


proof fn lemma_pow10_mono(a: nat, b: nat)
    requires
        a <= b,
    ensures
        1 <= pow10(a) <= pow10(b),
    decreases b,
{
    if b > 0 {
        if a == b {
            lemma_pow10_mono((b - 1) as nat, (b - 1) as nat);
        } else {
            lemma_pow10_mono(a, (b - 1) as nat);
        }
    }
}

/// The 64-bit integer that a raw value spells in decimal.
pub fn decode_int(raw: &str) -> (r: Option<i64>)
    ensures
        match int_value(raw@) {
            Some(v) => r == Some(v as i64) && i64::MIN <= v <= i64::MAX,
            None => r is None,
        },
{
    reveal(int_value);
    let cs = chars_of(raw);
    let neg = cs.len() > 0 && cs[0] == '-';
    let start: usize = if neg { 1 } else { 0 };
    let ghost ds = if neg { cs@.drop_first() } else { cs@ };
    assert(ds =~= cs@.skip(start as int));
    assert(ds == (if raw@.len() > 0 && raw@[0] == '-' { raw@.drop_first() } else { raw@ }));
    let total = cs.len();
    let n = cs.len() - start;
    if n == 0 || n > 19 {
        return None;
    }
    let mut acc: u64 = 0;
    let mut k: usize = 0;
    proof {
        reveal_with_fuel(pow10, 20);
        assert(pow10(19) == 10000000000000000000);
        assert(ds.take(0) =~= Seq::<char>::empty());
    }
    while k < n
        invariant
            ds == cs@.skip(start as int),
            start + n == cs@.len(),
            total == cs@.len(),
            raw@ == cs@,
            ds == (if raw@.len() > 0 && raw@[0] == '-' { raw@.drop_first() } else { raw@ }),
            n == ds.len(),
            n <= 19,
            pow10(19) == 10000000000000000000,
            k <= n,
            acc == digits_value(ds.take(k as int)),
            acc <= pow10(k as nat) - 1,
            all_digits(ds.take(k as int)),
        decreases n - k,
    {
        let c = cs[start + k];
        assert(c == ds[k as int]);
        if !('0' <= c && c <= '9') {
            assert(!all_digits(ds));
            reveal(int_value);
            return None;
        }
        let d: u64 = (c as u32 - '0' as u32) as u64;
        proof {
            lemma_pow10_mono((k + 1) as nat, 19);
            assert(pow10((k + 1) as nat) == 10 * pow10(k as nat));
            assert(acc * 10 + d <= pow10((k + 1) as nat) - 1) by (nonlinear_arith)
                requires
                    acc <= pow10(k as nat) - 1,
                    d <= 9,
                    pow10((k + 1) as nat) == 10 * pow10(k as nat),
            ;
            assert(ds.take(k + 1).drop_last() =~= ds.take(k as int));
            assert(ds.take(k + 1).last() == c);
        }
        acc = acc * 10 + d;
        k = k + 1;
        assert(all_digits(ds.take(k as int)));
    }
    assert(ds.take(n as int) =~= ds);
    if neg {
        if acc > 9223372036854775808 {
            None
        } else {
            Some((-(acc as i128)) as i64)
        }
    } else {
        if acc > 9223372036854775807 {
            None
        } else {
            Some(acc as i64)
        }
    }
}

fn kind_from_name(cs: &Vec<char>) -> (r: Option<MessageType>)
    ensures
        r == kind_of_name(cs@),
{
    if crate::text::chars_equal(cs, MessageType::Hello.name()) {
        Some(MessageType::Hello)
    } else if crate::text::chars_equal(cs, MessageType::History.name()) {
        Some(MessageType::History)
    } else if crate::text::chars_equal(cs, MessageType::Post.name()) {
        Some(MessageType::Post)
    } else if crate::text::chars_equal(cs, MessageType::Subscribe.name()) {
        Some(MessageType::Subscribe)
    } else if crate::text::chars_equal(cs, MessageType::Disconnect.name()) {
        Some(MessageType::Disconnect)
    } else {
        None
    }
}

fn reason_from_name(cs: &Vec<char>) -> (r: Option<ServerReason>)
    ensures
        r == reason_of_name(cs@),
{
    if crate::text::chars_equal(cs, ServerReason::NoReason.name()) {
        Some(ServerReason::NoReason)
    } else if crate::text::chars_equal(cs, ServerReason::Format.name()) {
        Some(ServerReason::Format)
    } else if crate::text::chars_equal(cs, ServerReason::Signature.name()) {
        Some(ServerReason::Signature)
    } else if crate::text::chars_equal(cs, ServerReason::Access.name()) {
        Some(ServerReason::Access)
    } else if crate::text::chars_equal(cs, ServerReason::Exception.name()) {
        Some(ServerReason::Exception)
    } else {
        None
    }
}

fn accept_from_name(cs: &Vec<char>) -> (r: Option<ServerAcceptCode>)
    ensures
        r == accept_of_name(cs@),
{
    if crate::text::chars_equal(cs, ServerAcceptCode::Accept.name()) {
        Some(ServerAcceptCode::Accept)
    } else if crate::text::chars_equal(cs, ServerAcceptCode::Reject.name()) {
        Some(ServerAcceptCode::Reject)
    } else {
        None
    }
}

/// The string field `key` of the members.
pub open spec fn string_field(ms: Seq<Member>, key: Seq<char>) -> Option<Seq<char>> {
    match lookup(ms, key) {
        Some(raw) => string_value(raw),
        None => None,
    }
}

/// The integer field `key` of the members.
pub open spec fn int_field(ms: Seq<Member>, key: Seq<char>) -> Option<int> {
    match lookup(ms, key) {
        Some(raw) => int_value(raw),
        None => None,
    }
}

/// The object field `key` of the members; an absent field is an empty object.
pub open spec fn object_field(ms: Seq<Member>, key: Seq<char>) -> Option<Seq<Member>> {
    match lookup(ms, key) {
        Some(raw) => object_value(raw),
        None => Some(Seq::empty()),
    }
}

pub(crate) fn read_string_field(ms: &Vec<(String, String)>, key: &str) -> (r: Option<String>)
    ensures
        match string_field(members_view(ms@), key@) {
            Some(t) => r is Some && r->0@ == t,
            None => r is None,
        },
{
    match find_member(ms, key) {
        Some(i) => decode_string(ms[i].1.as_str()),
        None => None,
    }
}

pub(crate) fn read_int_field(ms: &Vec<(String, String)>, key: &str) -> (r: Option<i64>)
    ensures
        match int_field(members_view(ms@), key@) {
            Some(v) => r == Some(v as i64) && i64::MIN <= v <= i64::MAX,
            None => r is None,
        },
{
    match find_member(ms, key) {
        Some(i) => decode_int(ms[i].1.as_str()),
        None => None,
    }
}

pub(crate) fn read_object_field(ms: &Vec<(String, String)>, key: &str) -> (r: Option<Vec<(String, String)>>)
    ensures
        match object_field(members_view(ms@), key@) {
            Some(v) => r is Some && members_view(r->0@) == v,
            None => r is None,
        },
{
    match find_member(ms, key) {
        Some(i) => decode_object(ms[i].1.as_str()),
        None => {
            let v: Vec<(String, String)> = Vec::new();
            assert(members_view(v@) =~= Seq::<Member>::empty());
            Some(v)
        },
    }
}

pub(crate) fn read_kind_field(ms: &Vec<(String, String)>, key: &str) -> (r: Option<MessageType>)
    ensures
        r == match string_field(members_view(ms@), key@) {
            Some(t) => kind_of_name(t),
            None => None,
        },
{
    match read_string_field(ms, key) {
        Some(t) => kind_from_name(&chars_of(t.as_str())),
        None => None,
    }
}

pub(crate) fn read_accept_field(ms: &Vec<(String, String)>, key: &str) -> (r: Option<ServerAcceptCode>)
    ensures
        r == match string_field(members_view(ms@), key@) {
            Some(t) => accept_of_name(t),
            None => None,
        },
{
    match read_string_field(ms, key) {
        Some(t) => accept_from_name(&chars_of(t.as_str())),
        None => None,
    }
}

/// The optional reason field: absent or `null` is no reason; a reason name
/// is that reason; anything else is malformed.
pub open spec fn reason_field(ms: Seq<Member>, key: Seq<char>) -> Option<Option<ServerReason>> {
    match lookup(ms, key) {
        None => Some(None),
        Some(raw) => if raw == crate::wire::null_text() {
            Some(None)
        } else {
            match string_value(raw) {
                Some(t) => match reason_of_name(t) {
                    Some(r) => Some(Some(r)),
                    None => None,
                },
                None => None,
            }
        },
    }
}

pub(crate) fn read_reason_field(ms: &Vec<(String, String)>, key: &str) -> (r: Option<Option<ServerReason>>)
    ensures
        r == reason_field(members_view(ms@), key@),
{
    match find_member(ms, key) {
        None => Some(None),
        Some(i) => {
            let raw = chars_of(ms[i].1.as_str());
            proof {
                reveal_strlit("null");
                assert("null"@ =~= crate::wire::null_text());
            }
            if crate::text::chars_equal(&raw, "null") {
                Some(None)
            } else {
                match decode_string(ms[i].1.as_str()) {
                    Some(t) => match reason_from_name(&chars_of(t.as_str())) {
                        Some(r) => Some(Some(r)),
                        None => None,
                    },
                    None => None,
                }
            }
        },
    }
}


impl UnmappedMessage {
    /// The content field `field` when it holds a string.
    pub fn get_content_str(&self, field: &str) -> (r: Option<String>)
        ensures
            match string_field(self@.content, field@) {
                Some(t) => r is Some && r->0@ == t,
                None => r is None,
            },
    {
        read_string_field(&self.content, field)
    }
}

} // verus!
