//! Song ids in UUID form: reading them from text, writing them out, and
//! making fresh ones, with the `uuid` crate.

use vstd::prelude::*;

verus! {

/// The value of a hexadecimal digit (either case), if `c` is one.
pub open spec fn hex_value(c: char) -> Option<nat> {
    if '0' <= c && c <= '9' {
        Some((c as int - '0' as int) as nat)
    } else if 'a' <= c && c <= 'f' {
        Some((c as int - 'a' as int + 10) as nat)
    } else if 'A' <= c && c <= 'F' {
        Some((c as int - 'A' as int + 10) as nat)
    } else {
        None
    }
}

/// Whether every character of `s` is a hexadecimal digit.
pub open spec fn all_hex(s: Seq<char>) -> bool {
    forall|i: int| 0 <= i < s.len() ==> #[trigger] hex_value(s[i]) is Some
}

/// The number that a run of hexadecimal digits stands for, most significant
/// digit first.
pub open spec fn hex_run_value(s: Seq<char>) -> nat
    decreases s.len(),
{
    if s.len() == 0 {
        0
    } else {
        hex_run_value(s.drop_last()) * 16 + hex_value(s.last()).unwrap()
    }
}

/// A UUID written as 32 hexadecimal digits.
pub open spec fn parse_uuid_simple(s: Seq<char>) -> Option<u128> {
    if s.len() == 32 && all_hex(s) {
        Some(hex_run_value(s) as u128)
    } else {
        None
    }
}

/// A UUID written as 8-4-4-4-12 hexadecimal digits joined by hyphens.
pub open spec fn parse_uuid_hyphenated(s: Seq<char>) -> Option<u128> {
    if s.len() == 36 && s[8] == '-' && s[13] == '-' && s[18] == '-' && s[23] == '-' {
        parse_uuid_simple(
            s.subrange(0, 8) + s.subrange(9, 13) + s.subrange(14, 18) + s.subrange(19, 23)
                + s.subrange(24, 36),
        )
    } else {
        None
    }
}

/// `c` with ASCII upper-case letters made lower-case.
pub open spec fn ascii_lower(c: char) -> char {
    if 'A' <= c && c <= 'Z' {
        ((c as int) + 32) as char
    } else {
        c
    }
}

/// Whether `s` is `urn:uuid:` in any mix of upper and lower case.
pub open spec fn is_urn_prefix(s: Seq<char>) -> bool {
    s.len() == 9 && forall|i: int| 0 <= i < 9 ==> ascii_lower(#[trigger] s[i]) == "urn:uuid:"@[i]
}

/// What `uuid::Uuid::parse_str` accepts, as its documentation and source
/// show: 32 hexadecimal digits; the hyphenated form; the hyphenated form in
/// braces; or the hyphenated form after `urn:uuid:` in any case. The value is
/// the big-endian number of the 32 digits (`Uuid::as_u128`).
pub open spec fn spec_parse_uuid(s: Seq<char>) -> Option<u128> {
    if s.len() == 32 {
        parse_uuid_simple(s)
    } else if s.len() == 36 {
        parse_uuid_hyphenated(s)
    } else if s.len() == 38 && s[0] == '{' && s[37] == '}' {
        parse_uuid_hyphenated(s.subrange(1, 37))
    } else if s.len() == 45 && is_urn_prefix(s.subrange(0, 9)) {
        parse_uuid_hyphenated(s.subrange(9, 45))
    } else {
        None
    }
}

/// The lower-case hexadecimal digit of `d` (0..=15).
pub open spec fn hex_char(d: nat) -> char {
    if d < 10 {
        ((d + '0' as int) as int) as char
    } else {
        ((d - 10 + 'a' as int) as int) as char
    }
}

/// The 32 lower-case hexadecimal digits of `u`, most significant first.
pub open spec fn hex32(u: u128) -> Seq<char> {
    Seq::new(32, |i: int| hex_char(((u >> ((4 * (31 - i)) as u128)) & 0xf) as nat))
}

/// A UUID as `uuid::Uuid` displays it: lower-case, 8-4-4-4-12 digits joined
/// by hyphens.
pub open spec fn uuid_text(u: u128) -> Seq<char> {
    let h = hex32(u);
    h.subrange(0, 8) + seq!['-'] + h.subrange(8, 12) + seq!['-'] + h.subrange(12, 16) + seq!['-']
        + h.subrange(16, 20) + seq!['-'] + h.subrange(20, 32)
}

/// Whether `u` has the version (4, random) and variant (RFC 4122) bits of a
/// UUID that `Uuid::new_v4` makes.
pub open spec fn is_random_uuid(u: u128) -> bool {
    (u >> 76u128) & 0xf == 4 && (u >> 62u128) & 0x3 == 2
}

/// `uuid::Uuid::parse_str`: the contract claims that the result is the
/// UUID's value exactly when the text has one of the forms that
/// `spec_parse_uuid` describes.
#[verifier::external_body]
pub(crate) fn uuid_parse(s: &str) -> (r: Option<u128>)
    ensures
        r == spec_parse_uuid(s@),
{
    match uuid::Uuid::parse_str(s) {
        Ok(u) => Some(u.as_u128()),
        Err(_) => None,
    }
}

/// `uuid::Uuid`'s `Display`: the contract claims that the text is the
/// lower-case hyphenated form of the value.
#[verifier::external_body]
pub(crate) fn uuid_display(u: u128) -> (r: String)
    ensures
        r@ == uuid_text(u),
{
    uuid::Uuid::from_u128(u).to_string()
}

/// `uuid::Uuid::new_v4`: the contract claims only that the value carries the
/// version and variant bits of a random UUID; the other bits are random and
/// left unsaid.
#[verifier::external_body]
fn uuid_new_v4() -> (r: u128)
    ensures
        is_random_uuid(r),
{
    uuid::Uuid::new_v4().as_u128()
}

/// A fresh random song id, as the text of a random UUID.
pub fn new_song_id() -> (r: String)
    ensures
        exists|u: u128| is_random_uuid(u) && r@ == uuid_text(u),
{
    let u = uuid_new_v4();
    let r = uuid_display(u);
    assert(is_random_uuid(u) && r@ == uuid_text(u));
    r
}


proof fn lemma_hex_char_value(d: nat)
    requires
        d < 16,
    ensures
        hex_value(hex_char(d)) == Some(d),
{
}

proof fn lemma_nibble_step(u: u128, s: u128)
    requires
        s + 4 <= 128,
    ensures
        (u >> (s + 4)) as int * 16 + ((u >> s) & 0xf) as int == (u >> s) as int,
{
    assert((u >> s) >> 4u128 == u >> (s + 4)) by (bit_vector)
        requires s + 4 <= 128;
    let y = u >> s;
    assert((y >> 4u128) as int * 16 + (y & 0xf) as int == y as int) by (bit_vector);
}

/// The first `k` digits of `hex32(u)` are worth `u` without its last
/// `32 - k` digits.
proof fn lemma_hex32_prefix_value(u: u128, k: nat)
    requires
        k <= 32,
    ensures
        all_hex(hex32(u).take(k as int)),
        hex_run_value(hex32(u).take(k as int)) == (u >> ((4 * (32 - k)) as u128)) as int,
    decreases k,
{
    let h = hex32(u);
    if k == 0 {
        assert(u >> 128u128 == 0) by (bit_vector);
        assert(h.take(0) =~= Seq::<char>::empty());
    } else {
        lemma_hex32_prefix_value(u, (k - 1) as nat);
        let s: u128 = (4 * (32 - k)) as u128;
        lemma_nibble_step(u, s);
        assert(h.take(k as int).drop_last() =~= h.take(k - 1));
        let d = ((u >> s) & 0xf) as nat;
        assert(((u >> s) & 0xf) < 16) by (bit_vector);
        assert(h[k - 1] == hex_char(d));
        lemma_hex_char_value(d);
        assert((4 * (32 - (k - 1))) as u128 == s + 4);
    }
}

/// Reading back the text of a UUID gives the UUID again.
pub proof fn lemma_parse_uuid_text(u: u128)
    ensures
        spec_parse_uuid(uuid_text(u)) == Some(u),
{
    let h = hex32(u);
    let t = uuid_text(u);
    lemma_hex32_prefix_value(u, 32);
    assert(h.take(32) =~= h);
    assert(u >> 0u128 == u) by (bit_vector);
    assert(t.len() == 36);
    assert(t.subrange(0, 8) + t.subrange(9, 13) + t.subrange(14, 18) + t.subrange(19, 23)
        + t.subrange(24, 36) =~= h);
}

} // verus!
