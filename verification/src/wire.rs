//! Exact wire encoding of a session token.
//!
//! A serialized session is a JSON object with the four fields external
//! clients depend on, in this fixed order and spelling:
//! `{"user":<int>,"length":<uint>,"is_officer":<bool>,"start":<uint>}`.
//! The encoder is total over tokens; the decoder accepts exactly the
//! canonical encoding and round-trips every token.

use vstd::prelude::*;

use crate::auth::UserSession;

verus! {

/// ASCII decimal digit.
pub open spec fn is_digit(b: u8) -> bool {
    48 <= b <= 57
}

/// Decimal rendering of a natural number, most significant digit first, no
/// leading zeros.
pub open spec fn dec_nat(n: nat) -> Seq<u8>
    decreases n,
{
    if n < 10 {
        seq![(48 + n) as u8]
    } else {
        dec_nat(n / 10).push((48 + n % 10) as u8)
    }
}

/// Decimal rendering of an integer: a leading minus sign for negative
/// values, then the magnitude's digits.
pub open spec fn dec_int(n: int) -> Seq<u8> {
    if n < 0 {
        seq![45u8] + dec_nat((-n) as nat)
    } else {
        dec_nat(n as nat)
    }
}

/// The JSON rendering of a boolean.
pub open spec fn bool_bytes(b: bool) -> Seq<u8> {
    if b {
        seq![116u8, 114u8, 117u8, 101u8]
    } else {
        seq![102u8, 97u8, 108u8, 115u8, 101u8]
    }
}

/// `{"user":`
pub open spec fn key_user() -> Seq<u8> {
    seq![123u8, 34u8, 117u8, 115u8, 101u8, 114u8, 34u8, 58u8]
}

/// `,"length":`
pub open spec fn key_length() -> Seq<u8> {
    seq![44u8, 34u8, 108u8, 101u8, 110u8, 103u8, 116u8, 104u8, 34u8, 58u8]
}

/// `,"is_officer":`
pub open spec fn key_officer() -> Seq<u8> {
    seq![
        44u8,
        34u8,
        105u8,
        115u8,
        95u8,
        111u8,
        102u8,
        102u8,
        105u8,
        99u8,
        101u8,
        114u8,
        34u8,
        58u8,
    ]
}

/// `,"start":`
pub open spec fn key_start() -> Seq<u8> {
    seq![44u8, 34u8, 115u8, 116u8, 97u8, 114u8, 116u8, 34u8, 58u8]
}

/// The canonical serialized form of a session token.
pub open spec fn serial_of(t: UserSession) -> Seq<u8> {
    key_user() + dec_int(t.user as int) + key_length() + dec_nat(t.length as nat) + key_officer()
        + bool_bytes(t.is_officer) + key_start() + dec_nat(t.start as nat) + seq![125u8]
}

fn push_key_user(v: &mut Vec<u8>)
    ensures
        final(v)@ == old(v)@ + key_user(),
{
    v.push(123);
    v.push(34);
    v.push(117);
    v.push(115);
    v.push(101);
    v.push(114);
    v.push(34);
    v.push(58);
    proof {
        assert(v@ =~= old(v)@ + key_user());
    }
}

fn push_key_length(v: &mut Vec<u8>)
    ensures
        final(v)@ == old(v)@ + key_length(),
{
    v.push(44);
    v.push(34);
    v.push(108);
    v.push(101);
    v.push(110);
    v.push(103);
    v.push(116);
    v.push(104);
    v.push(34);
    v.push(58);
    proof {
        assert(v@ =~= old(v)@ + key_length());
    }
}

fn push_key_officer(v: &mut Vec<u8>)
    ensures
        final(v)@ == old(v)@ + key_officer(),
{
    v.push(44);
    v.push(34);
    v.push(105);
    v.push(115);
    v.push(95);
    v.push(111);
    v.push(102);
    v.push(102);
    v.push(105);
    v.push(99);
    v.push(101);
    v.push(114);
    v.push(34);
    v.push(58);
    proof {
        assert(v@ =~= old(v)@ + key_officer());
    }
}

fn push_key_start(v: &mut Vec<u8>)
    ensures
        final(v)@ == old(v)@ + key_start(),
{
    v.push(44);
    v.push(34);
    v.push(115);
    v.push(116);
    v.push(97);
    v.push(114);
    v.push(116);
    v.push(34);
    v.push(58);
    proof {
        assert(v@ =~= old(v)@ + key_start());
    }
}

fn push_bool(v: &mut Vec<u8>, b: bool)
    ensures
        final(v)@ == old(v)@ + bool_bytes(b),
{
    if b {
        v.push(116);
        v.push(114);
        v.push(117);
        v.push(101);
    } else {
        v.push(102);
        v.push(97);
        v.push(108);
        v.push(115);
        v.push(101);
    }
    proof {
        assert(v@ =~= old(v)@ + bool_bytes(b));
    }
}

/// Append the decimal digits of `n`.
fn push_dec_u64(v: &mut Vec<u8>, n: u64)
    ensures
        final(v)@ == old(v)@ + dec_nat(n as nat),
    decreases n,
{
    if n >= 10 {
        push_dec_u64(v, n / 10);
    }
    v.push(48 + (n % 10) as u8);
    proof {
        assert(v@ =~= old(v)@ + dec_nat(n as nat));
    }
}

/// Append the decimal rendering of `n`, sign included.
fn push_dec_i32(v: &mut Vec<u8>, n: i32)
    ensures
        final(v)@ == old(v)@ + dec_int(n as int),
{
    if n < 0 {
        v.push(45);
        let magnitude: u64 = (-(n as i64)) as u64;
        push_dec_u64(v, magnitude);
        proof {
            assert(v@ =~= old(v)@ + dec_int(n as int));
        }
    } else {
        push_dec_u64(v, n as u64);
    }
}

/// Consume `lit` from the front of `s`, yielding the remainder.
pub open spec fn take_lit(s: Seq<u8>, lit: Seq<u8>) -> Option<Seq<u8>> {
    if lit.len() <= s.len() && s.take(lit.len() as int) == lit {
        Some(s.skip(lit.len() as int))
    } else {
        None
    }
}

/// Length of the maximal run of decimal digits at the front of `s`.
pub open spec fn digit_run(s: Seq<u8>) -> int
    decreases s.len(),
{
    if s.len() > 0 && is_digit(s[0]) {
        1 + digit_run(s.skip(1))
    } else {
        0
    }
}

/// Numeric value of a sequence of decimal digits.
pub open spec fn digits_val(d: Seq<u8>) -> nat
    decreases d.len(),
{
    if d.len() == 0 {
        0
    } else {
        digits_val(d.drop_last()) * 10 + (if d.last() >= 48 {
            (d.last() - 48) as nat
        } else {
            0
        })
    }
}

/// Consume a decimal natural number from the front of `s`: the maximal
/// digit run, which must be non-empty and free of leading zeros.
pub open spec fn parse_nat(s: Seq<u8>) -> Option<(nat, Seq<u8>)> {
    let k = digit_run(s);
    if k == 0 {
        None
    } else if k > 1 && s[0] == 48 {
        None
    } else {
        Some((digits_val(s.take(k)), s.skip(k)))
    }
}

/// Consume a decimal number that must fit in `u64`.
pub open spec fn parse_u64(s: Seq<u8>) -> Option<(u64, Seq<u8>)> {
    match parse_nat(s) {
        Some((v, rest)) => if v <= u64::MAX {
            Some((v as u64, rest))
        } else {
            None
        },
        None => None,
    }
}

/// Consume a decimal number, optionally signed, that must fit in `i32`.
/// `-0` is not canonical and is rejected.
pub open spec fn parse_i32(s: Seq<u8>) -> Option<(i32, Seq<u8>)> {
    if s.len() > 0 && s[0] == 45 {
        match parse_nat(s.skip(1)) {
            Some((v, rest)) => if 1 <= v <= 0x8000_0000 {
                Some(((-(v as int)) as i32, rest))
            } else {
                None
            },
            None => None,
        }
    } else {
        match parse_nat(s) {
            Some((v, rest)) => if v <= 0x7fff_ffff {
                Some((v as i32, rest))
            } else {
                None
            },
            None => None,
        }
    }
}

/// Consume a JSON boolean literal.
pub open spec fn parse_bool(s: Seq<u8>) -> Option<(bool, Seq<u8>)> {
    match take_lit(s, bool_bytes(true)) {
        Some(rest) => Some((true, rest)),
        None => match take_lit(s, bool_bytes(false)) {
            Some(rest) => Some((false, rest)),
            None => None,
        },
    }
}

/// Decode a canonical serialized session: the four fields in their fixed
/// order and spelling, with nothing before or after.
pub open spec fn parse_session(s: Seq<u8>) -> Option<UserSession> {
    match take_lit(s, key_user()) {
        None => None,
        Some(s1) => match parse_i32(s1) {
            None => None,
            Some((user, s2)) => match take_lit(s2, key_length()) {
                None => None,
                Some(s3) => match parse_u64(s3) {
                    None => None,
                    Some((length, s4)) => match take_lit(s4, key_officer()) {
                        None => None,
                        Some(s5) => match parse_bool(s5) {
                            None => None,
                            Some((is_officer, s6)) => match take_lit(s6, key_start()) {
                                None => None,
                                Some(s7) => match parse_u64(s7) {
                                    None => None,
                                    Some((start, s8)) => if s8 =~= seq![125u8] {
                                        Some(UserSession { user, length, is_officer, start })
                                    } else {
                                        None
                                    },
                                },
                            },
                        },
                    },
                },
            },
        },
    }
}

proof fn lemma_take_lit_of_concat(lit: Seq<u8>, rest: Seq<u8>)
    ensures
        take_lit(lit + rest, lit) == Some(rest),
{
    assert((lit + rest).take(lit.len() as int) =~= lit);
    assert((lit + rest).skip(lit.len() as int) =~= rest);
}

/// The decimal rendering of a natural number is a non-empty digit string
/// without leading zeros whose value is the number itself.
proof fn lemma_dec_nat_props(n: nat)
    ensures
        dec_nat(n).len() >= 1,
        forall|i: int| 0 <= i < dec_nat(n).len() ==> is_digit(#[trigger] dec_nat(n)[i]),
        dec_nat(n).len() > 1 ==> dec_nat(n)[0] != 48,
        digits_val(dec_nat(n)) == n,
        n < 10 ==> dec_nat(n) =~= seq![(48 + n) as u8],
        n >= 10 ==> dec_nat(n).len() > 1,
    decreases n,
{
    if n < 10 {
        assert(digits_val(dec_nat(n)) == digits_val(dec_nat(n).drop_last()) * 10 + n);
        assert(dec_nat(n).drop_last() =~= Seq::<u8>::empty());
    } else {
        lemma_dec_nat_props(n / 10);
        let d = dec_nat(n / 10).push((48 + n % 10) as u8);
        assert(d.drop_last() =~= dec_nat(n / 10));
        assert(d.last() == (48 + n % 10) as u8);
        assert(digits_val(d) == (n / 10) * 10 + n % 10);
        assert(d[0] == dec_nat(n / 10)[0]);
        if n / 10 < 10 {
            assert(n / 10 >= 1);
            assert(dec_nat(n / 10)[0] == (48 + n / 10) as u8);
            assert(d[0] != 48);
        }
    }
}

/// A digit string followed by a non-digit delimiter is exactly the maximal
/// digit run.
proof fn lemma_digit_run_of_concat(d: Seq<u8>, rest: Seq<u8>)
    requires
        forall|i: int| 0 <= i < d.len() ==> is_digit(#[trigger] d[i]),
        rest.len() == 0 || !is_digit(rest[0]),
    ensures
        digit_run(d + rest) == d.len(),
    decreases d.len(),
{
    if d.len() == 0 {
        assert(d + rest =~= rest);
        if rest.len() > 0 {
            assert(!is_digit(rest[0]));
        }
    } else {
        assert((d + rest)[0] == d[0]);
        assert((d + rest).skip(1) =~= d.skip(1) + rest);
        assert(forall|i: int| 0 <= i < d.skip(1).len() ==> is_digit(#[trigger] d.skip(1)[i]));
        lemma_digit_run_of_concat(d.skip(1), rest);
    }
}

/// Parsing a natural number back from its rendering, with any non-digit
/// material after it, recovers the number and leaves the rest untouched.
proof fn lemma_parse_nat_inverse(n: nat, rest: Seq<u8>)
    requires
        rest.len() == 0 || !is_digit(rest[0]),
    ensures
        parse_nat(dec_nat(n) + rest) == Some((n, rest)),
{
    let d = dec_nat(n);
    let s = d + rest;
    lemma_dec_nat_props(n);
    lemma_digit_run_of_concat(d, rest);
    assert(digit_run(s) == d.len());
    assert(s.take(d.len() as int) =~= d);
    assert(s.skip(d.len() as int) =~= rest);
    assert(s[0] == d[0]);
}

proof fn lemma_parse_u64_inverse(v: u64, rest: Seq<u8>)
    requires
        rest.len() == 0 || !is_digit(rest[0]),
    ensures
        parse_u64(dec_nat(v as nat) + rest) == Some((v, rest)),
{
    lemma_parse_nat_inverse(v as nat, rest);
}

proof fn lemma_parse_i32_inverse(v: i32, rest: Seq<u8>)
    requires
        rest.len() == 0 || !is_digit(rest[0]),
        rest.len() == 0 || rest[0] != 45,
    ensures
        parse_i32(dec_int(v as int) + rest) == Some((v, rest)),
{
    if v < 0 {
        let magnitude = (-(v as int)) as nat;
        let s = dec_int(v as int) + rest;
        assert(s =~= seq![45u8] + (dec_nat(magnitude) + rest));
        assert(s[0] == 45);
        assert(s.skip(1) =~= dec_nat(magnitude) + rest);
        lemma_parse_nat_inverse(magnitude, rest);
        assert(1 <= magnitude <= 0x8000_0000);
    } else {
        let s = dec_int(v as int) + rest;
        lemma_dec_nat_props(v as nat);
        lemma_parse_nat_inverse(v as nat, rest);
        assert(s[0] == dec_nat(v as nat)[0]);
        assert(is_digit(s[0]));
        assert(s[0] != 45);
    }
}

/// Decoding is the exact inverse of encoding: every token round-trips
/// through its canonical wire form.
#[verifier::rlimit(100)]
pub proof fn lemma_session_round_trip(t: UserSession)
    ensures
        parse_session(serial_of(t)) == Some(t),
{
    let tail_start = dec_nat(t.start as nat) + seq![125u8];
    let s7 = key_start() + tail_start;
    let s5 = bool_bytes(t.is_officer) + s7;
    let s3 = dec_nat(t.length as nat) + (key_officer() + s5);
    let s1 = dec_int(t.user as int) + (key_length() + s3);
    let s = key_user() + s1;
    assert(serial_of(t) =~= s);

    lemma_take_lit_of_concat(key_user(), s1);
    lemma_parse_i32_inverse(t.user, key_length() + s3);
    assert((key_length() + s3)[0] == 44);
    lemma_take_lit_of_concat(key_length(), s3);
    lemma_parse_u64_inverse(t.length, key_officer() + s5);
    assert((key_officer() + s5)[0] == 44);
    lemma_take_lit_of_concat(key_officer(), s5);
    if t.is_officer {
        lemma_take_lit_of_concat(bool_bytes(true), s7);
        assert(take_lit(s5, bool_bytes(true)) == Some(s7));
    } else {
        lemma_take_lit_of_concat(bool_bytes(false), s7);
        assert(s5[0] == 102);
        assert(bool_bytes(true).len() <= s5.len() ==> s5.take(4)[0] == 102);
        assert(take_lit(s5, bool_bytes(true)) is None);
        assert(take_lit(s5, bool_bytes(false)) == Some(s7));
    }
    lemma_take_lit_of_concat(key_start(), tail_start);
    lemma_parse_u64_inverse(t.start, seq![125u8]);
    assert(parse_session(s) == Some(t));
}

/// A non-empty digit string that does not start with zero has a positive
/// value.
proof fn lemma_digits_val_positive(d: Seq<u8>)
    requires
        d.len() >= 1,
        forall|i: int| 0 <= i < d.len() ==> is_digit(#[trigger] d[i]),
        d[0] != 48,
    ensures
        digits_val(d) >= 1,
{
    lemma_digits_val_grows(d, 1, d.len() as int);
    assert(d.take(1).drop_last() =~= Seq::<u8>::empty());
    assert(d.take(1).last() == d[0]);
    assert(digits_val(d.take(1)) >= 1);
    assert(d.take(d.len() as int) =~= d);
}

/// A digit string without leading zeros is the canonical rendering of its
/// own value: the decimal encoding is unique.
proof fn lemma_digits_canonical(d: Seq<u8>)
    requires
        d.len() >= 1,
        forall|i: int| 0 <= i < d.len() ==> is_digit(#[trigger] d[i]),
        d.len() > 1 ==> d[0] != 48,
    ensures
        d == dec_nat(digits_val(d)),
    decreases d.len(),
{
    let v = digits_val(d);
    if d.len() == 1 {
        assert(d.drop_last() =~= Seq::<u8>::empty());
        assert(d.last() == d[0]);
        assert(is_digit(d[0]));
        assert(digits_val(Seq::<u8>::empty()) == 0);
        assert(v == digits_val(d.drop_last()) * 10 + (d.last() - 48) as nat);
        assert(v == (d[0] - 48) as nat);
        assert(d =~= dec_nat(v));
    } else {
        let dd = d.drop_last();
        assert(dd[0] == d[0]);
        assert(forall|i: int| 0 <= i < dd.len() ==> is_digit(#[trigger] dd[i]));
        lemma_digits_canonical(dd);
        lemma_digits_val_positive(dd);
        assert(v == digits_val(dd) * 10 + (d.last() - 48) as nat);
        assert(v / 10 == digits_val(dd) && v % 10 == (d.last() - 48) as nat) by (nonlinear_arith)
            requires
                v == digits_val(dd) * 10 + (d.last() - 48) as nat,
                0 <= ((d.last() - 48) as nat) < 10,
        ;
        assert(v >= 10);
        assert(d =~= dd.push(d.last()));
        assert(d == dec_nat(v));
    }
}

/// Completeness of the literal step: a successful match means the input is
/// exactly the literal followed by the remainder.
proof fn lemma_take_lit_complete(s: Seq<u8>, lit: Seq<u8>, rest: Seq<u8>)
    requires
        take_lit(s, lit) == Some(rest),
    ensures
        s == lit + rest,
{
    assert(s =~= s.take(lit.len() as int) + s.skip(lit.len() as int));
}

/// Completeness of the number step: a successful parse means the input
/// began with the canonical rendering of the value, and the remainder
/// starts with a non-digit.
proof fn lemma_parse_nat_complete(s: Seq<u8>, v: nat, rest: Seq<u8>)
    requires
        parse_nat(s) == Some((v, rest)),
    ensures
        s == dec_nat(v) + rest,
        rest.len() == 0 || !is_digit(rest[0]),
{
    let k = digit_run(s);
    lemma_digit_run_bounds(s);
    let d = s.take(k);
    assert(forall|i: int| 0 <= i < d.len() ==> is_digit(#[trigger] d[i]));
    assert(d.len() > 1 ==> d[0] != 48);
    lemma_digits_canonical(d);
    assert(s =~= d + s.skip(k));
    if rest.len() > 0 {
        assert(rest[0] == s[k]);
    }
}

proof fn lemma_parse_u64_complete(s: Seq<u8>, v: u64, rest: Seq<u8>)
    requires
        parse_u64(s) == Some((v, rest)),
    ensures
        s == dec_nat(v as nat) + rest,
{
    lemma_parse_nat_complete(s, v as nat, rest);
}

proof fn lemma_parse_i32_complete(s: Seq<u8>, v: i32, rest: Seq<u8>)
    requires
        parse_i32(s) == Some((v, rest)),
    ensures
        s == dec_int(v as int) + rest,
{
    if s.len() > 0 && s[0] == 45 {
        match parse_nat(s.skip(1)) {
            Some((m, r)) => {
                lemma_parse_nat_complete(s.skip(1), m, r);
                assert(v as int == -(m as int));
                assert(s =~= seq![45u8] + s.skip(1));
                assert(s =~= (seq![45u8] + dec_nat(m)) + rest);
                assert(dec_int(v as int) =~= seq![45u8] + dec_nat(m));
            },
            None => {
                assert(false);
            },
        }
    } else {
        match parse_nat(s) {
            Some((m, r)) => {
                lemma_parse_nat_complete(s, m, r);
                assert(v as int == m);
            },
            None => {
                assert(false);
            },
        }
    }
}

/// The decoder accepts nothing but canonical encodings: a successful parse
/// identifies the input as the serialization of the token it returns. With
/// the round-trip lemma, every token has exactly one accepted wire form.
#[verifier::rlimit(100)]
pub proof fn lemma_parse_canonical(s: Seq<u8>, t: UserSession)
    requires
        parse_session(s) == Some(t),
    ensures
        s == serial_of(t),
{
    match take_lit(s, key_user()) {
        None => assert(false),
        Some(s1) => match parse_i32(s1) {
            None => assert(false),
            Some((user, s2)) => match take_lit(s2, key_length()) {
                None => assert(false),
                Some(s3) => match parse_u64(s3) {
                    None => assert(false),
                    Some((length, s4)) => match take_lit(s4, key_officer()) {
                        None => assert(false),
                        Some(s5) => match parse_bool(s5) {
                            None => assert(false),
                            Some((is_officer, s6)) => match take_lit(s6, key_start()) {
                                None => assert(false),
                                Some(s7) => match parse_u64(s7) {
                                    None => assert(false),
                                    Some((start, s8)) => {
                                        lemma_take_lit_complete(s, key_user(), s1);
                                        lemma_parse_i32_complete(s1, user, s2);
                                        lemma_take_lit_complete(s2, key_length(), s3);
                                        lemma_parse_u64_complete(s3, length, s4);
                                        lemma_take_lit_complete(s4, key_officer(), s5);
                                        if is_officer {
                                            lemma_take_lit_complete(s5, bool_bytes(true), s6);
                                        } else {
                                            lemma_take_lit_complete(s5, bool_bytes(false), s6);
                                        }
                                        lemma_take_lit_complete(s6, key_start(), s7);
                                        lemma_parse_u64_complete(s7, start, s8);
                                        assert(s8 =~= seq![125u8]);
                                        assert(t == UserSession { user, length, is_officer, start });
                                        assert(s =~= serial_of(t));
                                    },
                                },
                            },
                        },
                    },
                },
            },
        },
    }
}

/// A serialized session is always a non-trivial JSON object: it is longer
/// than any sentinel literal and ends with a closing brace.
pub proof fn lemma_serial_shape(t: UserSession)
    ensures
        serial_of(t).len() > 4,
        serial_of(t).last() == 125,
{
    lemma_dec_nat_props(t.length as nat);
    lemma_dec_nat_props(t.start as nat);
    if t.user < 0 {
        lemma_dec_nat_props((-(t.user as int)) as nat);
    } else {
        lemma_dec_nat_props(t.user as nat);
    }
    assert(dec_int(t.user as int).len() >= 1);
    assert(serial_of(t).last() == 125);
}

/// Failure of `UserSession::deserialize`: the input is not a canonical
/// serialized session. No detail is carried; the caller folds every decode
/// failure into an authentication failure.
#[derive(Clone, Copy, Debug, PartialEq, Eq, Structural)]
pub struct DecodeError;

proof fn lemma_digit_run_bounds(s: Seq<u8>)
    ensures
        0 <= digit_run(s) <= s.len(),
        forall|i: int| 0 <= i < digit_run(s) ==> is_digit(#[trigger] s[i]),
        digit_run(s) < s.len() ==> !is_digit(s[digit_run(s)]),
    decreases s.len(),
{
    if s.len() > 0 && is_digit(s[0]) {
        lemma_digit_run_bounds(s.skip(1));
        assert forall|i: int| 0 <= i < digit_run(s) implies is_digit(#[trigger] s[i]) by {
            if i > 0 {
                assert(s[i] == s.skip(1)[i - 1]);
            }
        }
        if digit_run(s) < s.len() {
            assert(s[digit_run(s)] == s.skip(1)[digit_run(s) - 1]);
        }
    }
}

/// The digit run is the unique cut: everything before it is a digit and the
/// byte after it, if any, is not.
proof fn lemma_digit_run_is(s: Seq<u8>, k: int)
    requires
        0 <= k <= s.len(),
        forall|i: int| 0 <= i < k ==> is_digit(#[trigger] s[i]),
        k < s.len() ==> !is_digit(s[k]),
    ensures
        digit_run(s) == k,
{
    lemma_digit_run_bounds(s);
    if digit_run(s) < k {
        assert(is_digit(s[digit_run(s)]));
    }
    if digit_run(s) > k {
        assert(is_digit(s[k]));
    }
}

proof fn lemma_digits_val_take_step(s: Seq<u8>, m: int)
    requires
        0 <= m < s.len(),
    ensures
        digits_val(s.take(m + 1)) == digits_val(s.take(m)) * 10 + (if s[m] >= 48 {
            (s[m] - 48) as nat
        } else {
            0
        }),
{
    assert(s.take(m + 1).drop_last() =~= s.take(m));
    assert(s.take(m + 1).last() == s[m]);
}

/// Extending a digit string never shrinks its value.
proof fn lemma_digits_val_grows(s: Seq<u8>, m: int, k: int)
    requires
        0 <= m <= k <= s.len(),
    ensures
        digits_val(s.take(m)) <= digits_val(s.take(k)),
    decreases k - m,
{
    if m < k {
        lemma_digits_val_take_step(s, m);
        lemma_digits_val_grows(s, m + 1, k);
    }
}

/// Compare `lit` against `bytes` at position `i`; on success the cursor
/// lands right after it.
fn eat_lit(bytes: &[u8], i: usize, lit: &[u8]) -> (r: Option<usize>)
    requires
        i <= bytes@.len(),
    ensures
        match r {
            Some(j) => i <= j <= bytes@.len() && take_lit(bytes@.skip(i as int), lit@) == Some(
                bytes@.skip(j as int),
            ),
            None => take_lit(bytes@.skip(i as int), lit@) is None,
        },
{
    let s = Ghost(bytes@.skip(i as int));
    if lit.len() > bytes.len() - i {
        return None;
    }
    let mut k: usize = 0;
    while k < lit.len()
        invariant
            0 <= k <= lit@.len(),
            i + lit@.len() <= bytes@.len() <= usize::MAX,
            s@ == bytes@.skip(i as int),
            forall|m: int| 0 <= m < k ==> bytes@[i + m] == lit@[m],
        decreases lit@.len() - k,
    {
        proof {
            assert(i + k < bytes@.len());
        }
        if bytes[i + k] != lit[k] {
            proof {
                assert(s@.take(lit@.len() as int)[k as int] == bytes@[i + k]);
            }
            return None;
        }
        k += 1;
    }
    proof {
        assert(s@.take(lit@.len() as int) =~= lit@);
        assert(s@.skip(lit@.len() as int) =~= bytes@.skip((i + lit@.len()) as int));
    }
    Some(i + lit.len())
}

/// Read a decimal `u64` at position `i`: the maximal digit run, no leading
/// zeros, value within range.
fn eat_u64(bytes: &[u8], i: usize) -> (r: Option<(u64, usize)>)
    requires
        i <= bytes@.len(),
    ensures
        match r {
            Some(p) => i <= p.1 <= bytes@.len() && parse_u64(bytes@.skip(i as int)) == Some(
                (p.0, bytes@.skip(p.1 as int)),
            ),
            None => parse_u64(bytes@.skip(i as int)) is None,
        },
{
    let s = Ghost(bytes@.skip(i as int));
    let mut j: usize = i;
    while j < bytes.len() && 48 <= bytes[j] && bytes[j] <= 57
        invariant
            i <= j <= bytes@.len(),
            s@ == bytes@.skip(i as int),
            forall|m: int| i <= m < j ==> is_digit(#[trigger] bytes@[m]),
        decreases bytes@.len() - j,
    {
        j += 1;
    }
    let k: usize = j - i;
    proof {
        assert forall|m: int| 0 <= m < k implies is_digit(#[trigger] s@[m]) by {
            assert(s@[m] == bytes@[i + m]);
        }
        if k < s@.len() {
            assert(s@[k as int] == bytes@[j as int]);
        }
        lemma_digit_run_is(s@, k as int);
    }
    if k == 0 {
        return None;
    }
    if k > 1 && bytes[i] == 48 {
        proof {
            assert(s@[0] == bytes@[i as int]);
        }
        return None;
    }
    let mut acc: u64 = 0;
    let mut m: usize = i;
    while m < j
        invariant
            i <= m <= j <= bytes@.len(),
            s@ == bytes@.skip(i as int),
            k == j - i,
            digit_run(s@) == k,
            forall|q: int| 0 <= q < k ==> is_digit(#[trigger] s@[q]),
            acc == digits_val(s@.take((m - i) as int)),
        decreases j - m,
    {
        proof {
            assert(s@[(m - i) as int] == bytes@[m as int]);
            lemma_digits_val_take_step(s@, (m - i) as int);
        }
        let d: u8 = bytes[m] - 48;
        if acc > (u64::MAX - d as u64) / 10 {
            proof {
                assert(acc * 10 + d > u64::MAX) by (nonlinear_arith)
                    requires
                        acc > (u64::MAX - d as u64) / 10,
                        0 <= d < 10,
                ;
                lemma_digits_val_grows(s@, (m - i) + 1, k as int);
                assert(digits_val(s@.take(k as int)) > u64::MAX);
            }
            return None;
        }
        proof {
            assert(acc * 10 + d <= u64::MAX) by (nonlinear_arith)
                requires
                    acc <= (u64::MAX - d as u64) / 10,
                    0 <= d < 10,
            ;
        }
        acc = acc * 10 + d as u64;
        m += 1;
    }
    proof {
        assert(s@.skip(k as int) =~= bytes@.skip(j as int));
    }
    Some((acc, j))
}

/// Read a decimal `i32` at position `i`, with an optional leading minus
/// sign; `-0` is rejected as non-canonical.
fn eat_i32(bytes: &[u8], i: usize) -> (r: Option<(i32, usize)>)
    requires
        i <= bytes@.len(),
    ensures
        match r {
            Some(p) => i <= p.1 <= bytes@.len() && parse_i32(bytes@.skip(i as int)) == Some(
                (p.0, bytes@.skip(p.1 as int)),
            ),
            None => parse_i32(bytes@.skip(i as int)) is None,
        },
{
    let s = Ghost(bytes@.skip(i as int));
    if i < bytes.len() && bytes[i] == 45 {
        proof {
            assert(s@[0] == bytes@[i as int]);
            assert(s@.skip(1) =~= bytes@.skip(i as int + 1));
        }
        match eat_u64(bytes, i + 1) {
            None => None,
            Some((v, j)) => {
                if 1 <= v && v <= 0x8000_0000 {
                    let val: i32 = (-(v as i64)) as i32;
                    Some((val, j))
                } else {
                    None
                }
            },
        }
    } else {
        proof {
            if s@.len() > 0 {
                assert(s@[0] == bytes@[i as int]);
            }
        }
        match eat_u64(bytes, i) {
            None => None,
            Some((v, j)) => {
                if v <= 0x7fff_ffff {
                    Some((v as i32, j))
                } else {
                    None
                }
            },
        }
    }
}

impl UserSession {
    /// Decode a canonical serialized session. Exactly the outputs of
    /// `serialize` are accepted; every malformed input is a `DecodeError`.
    pub fn deserialize(bytes: &[u8]) -> (r: Result<UserSession, DecodeError>)
        ensures
            match parse_session(bytes@) {
                Some(t) => r == Ok::<UserSession, DecodeError>(t),
                None => r == Err::<UserSession, DecodeError>(DecodeError),
            },
    {
        proof {
            assert(bytes@.skip(0) =~= bytes@);
        }
        let mut ku: Vec<u8> = Vec::new();
        push_key_user(&mut ku);
        let j1 = match eat_lit(bytes, 0, ku.as_slice()) {
            None => {
                return Err(DecodeError);
            },
            Some(j) => j,
        };
        let (user, j2) = match eat_i32(bytes, j1) {
            None => {
                return Err(DecodeError);
            },
            Some(p) => p,
        };
        let mut kl: Vec<u8> = Vec::new();
        push_key_length(&mut kl);
        let j3 = match eat_lit(bytes, j2, kl.as_slice()) {
            None => {
                return Err(DecodeError);
            },
            Some(j) => j,
        };
        let (length, j4) = match eat_u64(bytes, j3) {
            None => {
                return Err(DecodeError);
            },
            Some(p) => p,
        };
        let mut ko: Vec<u8> = Vec::new();
        push_key_officer(&mut ko);
        let j5 = match eat_lit(bytes, j4, ko.as_slice()) {
            None => {
                return Err(DecodeError);
            },
            Some(j) => j,
        };
        let mut bt: Vec<u8> = Vec::new();
        push_bool(&mut bt, true);
        let mut bf: Vec<u8> = Vec::new();
        push_bool(&mut bf, false);
        let (is_officer, j6) = match eat_lit(bytes, j5, bt.as_slice()) {
            Some(j) => (true, j),
            None => match eat_lit(bytes, j5, bf.as_slice()) {
                Some(j) => (false, j),
                None => {
                    return Err(DecodeError);
                },
            },
        };
        let mut ks: Vec<u8> = Vec::new();
        push_key_start(&mut ks);
        let j7 = match eat_lit(bytes, j6, ks.as_slice()) {
            None => {
                return Err(DecodeError);
            },
            Some(j) => j,
        };
        let (start, j8) = match eat_u64(bytes, j7) {
            None => {
                return Err(DecodeError);
            },
            Some(p) => p,
        };
        let tail_ok = bytes.len() - j8 == 1 && bytes[j8] == 125;
        proof {
            let s8 = bytes@.skip(j8 as int);
            if bytes@.len() - j8 == 1 && bytes@[j8 as int] == 125 {
                assert(s8 =~= seq![125u8]);
            } else if s8 =~= seq![125u8] {
                assert(s8.len() == 1);
                assert(bytes@[j8 as int] == s8[0]);
            }
        }
        if tail_ok {
            Ok(UserSession { user, length, is_officer, start })
        } else {
            Err(DecodeError)
        }
    }

    /// Encode the token in its canonical wire form. Encoding is total: it
    /// succeeds for every token.
    pub fn serialize(&self) -> (r: Vec<u8>)
        ensures
            r@ == serial_of(*self),
    {
        let mut v: Vec<u8> = Vec::new();
        push_key_user(&mut v);
        push_dec_i32(&mut v, self.user);
        push_key_length(&mut v);
        push_dec_u64(&mut v, self.length);
        push_key_officer(&mut v);
        push_bool(&mut v, self.is_officer);
        push_key_start(&mut v);
        push_dec_u64(&mut v, self.start);
        v.push(125);
        proof {
            assert(v@ =~= serial_of(*self));
        }
        v
    }
}

} // verus!
