//! The claims payload codec. The signed token's payload is a small JSON
//! object `{"token_uuid":"...","user":"...","exp":N}`; this module defines
//! that grammar as spec functions, an executable writer that produces
//! exactly the canonical serialization, an executable parser that decides
//! exactly the spec-level grammar, and the round-trip law connecting them.
//!
//! Everything here works on UTF-8 bytes; string values are escaped the way
//! standard JSON writers escape them (`\"`, `\\`, and `\u00XX` for control
//! characters), so any user identity round-trips exactly.

use vstd::prelude::*;

verus! {

// --- string escaping -------------------------------------------------------

/// Lowercase hex digit for a nibble.
pub open spec fn hex_digit(n: u8) -> u8 {
    if n < 10 {
        (48 + n) as u8
    } else {
        (87 + n) as u8
    }
}

/// `48..=57` or `97..=102`: the digits a `\u00XX` escape may carry.
pub open spec fn is_hex_lower(b: u8) -> bool {
    (48 <= b && b <= 57) || (97 <= b && b <= 102)
}

/// Value of a lowercase hex digit.
pub open spec fn hex_val(b: u8) -> u8 {
    if b <= 57 {
        (b - 48) as u8
    } else {
        (b - 87) as u8
    }
}

/// How one byte of a string value appears inside a JSON string: quote and
/// backslash are escaped, control bytes become `\u00XX`, everything else
/// (including UTF-8 continuation bytes) passes through.
pub open spec fn esc_byte(b: u8) -> Seq<u8> {
    if b == 34 {
        seq![92u8, 34u8]
    } else if b == 92 {
        seq![92u8, 92u8]
    } else if b < 32 {
        seq![92u8, 117u8, 48u8, 48u8, hex_digit(b / 16), hex_digit(b % 16)]
    } else {
        seq![b]
    }
}

/// JSON escaping of a whole byte string.
pub open spec fn esc(s: Seq<u8>) -> Seq<u8>
    decreases s.len(),
{
    if s.len() == 0 {
        Seq::empty()
    } else {
        esc_byte(s[0]) + esc(s.drop_first())
    }
}

proof fn lemma_esc_push(s: Seq<u8>, b: u8)
    ensures
        esc(s.push(b)) == esc(s) + esc_byte(b),
    decreases s.len(),
{
    if s.len() == 0 {
        assert(s.push(b)[0] == b);
        assert(s.push(b).drop_first() =~= Seq::<u8>::empty());
        assert(esc(s.push(b)) == esc_byte(b) + esc(s.push(b).drop_first()));
        assert(esc_byte(b) + Seq::<u8>::empty() =~= esc_byte(b));
        assert(esc(s) + esc_byte(b) =~= esc_byte(b));
    } else {
        assert(s.push(b).drop_first() =~= s.drop_first().push(b));
        lemma_esc_push(s.drop_first(), b);
        assert(esc(s.push(b)) =~= esc(s) + esc_byte(b));
    }
}

// --- decimal integers ------------------------------------------------------

/// Canonical decimal digits of a nonnegative integer, most significant
/// first, no leading zeros (`0` itself is the single digit `0`).
pub open spec fn dec_nat(n: nat) -> Seq<u8>
    decreases n,
{
    if n < 10 {
        seq![(48 + n) as u8]
    } else {
        dec_nat(n / 10).push((48 + n % 10) as u8)
    }
}

/// Canonical decimal form of an integer, with `-` for negatives.
pub open spec fn dec_int(v: int) -> Seq<u8> {
    if v < 0 {
        seq![45u8] + dec_nat((-v) as nat)
    } else {
        dec_nat(v as nat)
    }
}

pub open spec fn is_digit(b: u8) -> bool {
    48 <= b && b <= 57
}

/// Numeric value of a digit string, most significant digit first.
pub open spec fn dec_val(d: Seq<u8>) -> int
    decreases d.len(),
{
    if d.len() == 0 {
        0
    } else {
        dec_val(d.drop_last()) * 10 + (d.last() - 48)
    }
}

/// Number of leading decimal digits.
pub open spec fn digits_len(s: Seq<u8>) -> int
    decreases s.len(),
{
    if s.len() == 0 || !is_digit(s[0]) {
        0
    } else {
        1 + digits_len(s.drop_first())
    }
}

pub open spec fn pow10(n: nat) -> int
    decreases n,
{
    if n == 0 {
        1
    } else {
        10 * pow10((n - 1) as nat)
    }
}

proof fn lemma_dec_nat_shape(n: nat)
    ensures
        dec_nat(n).len() >= 1,
        forall|i: int| 0 <= i < dec_nat(n).len() ==> is_digit(#[trigger] dec_nat(n)[i]),
        n > 0 ==> dec_nat(n)[0] != 48,
        dec_val(dec_nat(n)) == n,
    decreases n,
{
    if n < 10 {
        let d = dec_nat(n);
        assert(d =~= seq![(48 + n) as u8]);
        assert(d.len() == 1);
        assert(d.drop_last() =~= Seq::<u8>::empty());
        assert(dec_val(d) == dec_val(d.drop_last()) * 10 + (d.last() - 48));
        assert(dec_val(d.drop_last()) == 0);
    } else {
        lemma_dec_nat_shape(n / 10);
        let d = dec_nat(n / 10);
        assert(dec_nat(n) =~= d.push((48 + n % 10) as u8));
        assert(dec_nat(n).drop_last() =~= d);
        assert(dec_nat(n)[0] == d[0]);
        assert(n / 10 > 0);
        assert(dec_val(dec_nat(n)) == dec_val(d) * 10 + (n % 10));
        assert(dec_val(dec_nat(n)) == n);
    }
}

proof fn lemma_dec_val_bounds(d: Seq<u8>)
    requires
        forall|i: int| 0 <= i < d.len() ==> is_digit(#[trigger] d[i]),
    ensures
        0 <= dec_val(d) < pow10(d.len()),
        d.len() > 0 && d[0] != 48 ==> dec_val(d) >= pow10((d.len() - 1) as nat),
    decreases d.len(),
{
    if d.len() == 0 {
    } else {
        let b = d.drop_last();
        assert(forall|i: int| 0 <= i < b.len() ==> b[i] == d[i]);
        lemma_dec_val_bounds(b);
        assert(dec_val(d) == dec_val(b) * 10 + (d.last() - 48));
        assert(pow10(d.len()) == 10 * pow10(b.len()));
        assert(dec_val(b) <= pow10(b.len()) - 1);
        assert(dec_val(b) * 10 <= (pow10(b.len()) - 1) * 10) by (nonlinear_arith)
            requires
                dec_val(b) <= pow10(b.len()) - 1,
        ;
        if d.len() > 1 && d[0] != 48 {
            assert(b[0] == d[0]);
            assert(dec_val(b) >= pow10((b.len() - 1) as nat));
            assert(dec_val(b) * 10 >= pow10((b.len() - 1) as nat) * 10) by (nonlinear_arith)
                requires
                    dec_val(b) >= pow10((b.len() - 1) as nat),
            ;
        }
    }
}

// --- the claims object grammar ---------------------------------------------

/// The bytes of `{"token_uuid":"`.
pub open spec fn lit_open() -> Seq<u8> {
    seq![123u8, 34u8, 116u8, 111u8, 107u8, 101u8, 110u8, 95u8, 117u8, 117u8, 105u8, 100u8, 34u8, 58u8, 34u8]
}

/// The bytes of `","user":"`.
pub open spec fn lit_mid() -> Seq<u8> {
    seq![34u8, 44u8, 34u8, 117u8, 115u8, 101u8, 114u8, 34u8, 58u8, 34u8]
}

/// The bytes of `","exp":`.
pub open spec fn lit_exp() -> Seq<u8> {
    seq![34u8, 44u8, 34u8, 101u8, 120u8, 112u8, 34u8, 58u8]
}

/// The canonical claims payload for a token id, a user identity (both as
/// UTF-8 bytes) and an expiry timestamp.
pub open spec fn claims_json(uuid: Seq<u8>, user: Seq<u8>, exp: int) -> Seq<u8> {
    lit_open() + esc(uuid) + lit_mid() + esc(user) + lit_exp() + dec_int(exp) + seq![125u8]
}

/// The bytes of `,"user":"`: what follows a scanned string value before the
/// user field (the string scanner has already consumed the closing quote).
pub open spec fn lit_mid_tail() -> Seq<u8> {
    seq![44u8, 34u8, 117u8, 115u8, 101u8, 114u8, 34u8, 58u8, 34u8]
}

/// The bytes of `,"exp":`.
pub open spec fn lit_exp_tail() -> Seq<u8> {
    seq![44u8, 34u8, 101u8, 120u8, 112u8, 34u8, 58u8]
}

// --- the spec-level parser ---------------------------------------------------

pub open spec fn is_prefix(p: Seq<u8>, s: Seq<u8>) -> bool {
    p.len() <= s.len() && s.subrange(0, p.len() as int) == p
}

/// Consumes an exact literal, or rejects.
pub open spec fn expect(s: Seq<u8>, lit: Seq<u8>) -> Option<Seq<u8>> {
    if is_prefix(lit, s) {
        Some(s.skip(lit.len() as int))
    } else {
        None
    }
}

/// Scans a JSON string body up to and including its closing quote,
/// returning the unescaped value and the rest of the input. Accepts exactly
/// the escapes the writer emits: `\"`, `\\`, and `\u00XX` (lowercase hex)
/// for control bytes.
pub open spec fn scan_jstr(s: Seq<u8>) -> Option<(Seq<u8>, Seq<u8>)>
    decreases s.len(),
{
    if s.len() == 0 {
        None
    } else if s[0] == 34 {
        Some((Seq::empty(), s.drop_first()))
    } else if s[0] == 92 {
        if s.len() < 2 {
            None
        } else if s[1] == 34 || s[1] == 92 {
            match scan_jstr(s.skip(2)) {
                Some(p) => Some((seq![s[1]] + p.0, p.1)),
                None => None,
            }
        } else if s[1] == 117 {
            if s.len() >= 6 && s[2] == 48 && s[3] == 48 && is_hex_lower(s[4]) && is_hex_lower(s[5])
                && hex_val(s[4]) * 16 + hex_val(s[5]) < 32 {
                match scan_jstr(s.skip(6)) {
                    Some(p) => Some(
                        (seq![(hex_val(s[4]) * 16 + hex_val(s[5])) as u8] + p.0, p.1),
                    ),
                    None => None,
                }
            } else {
                None
            }
        } else {
            None
        }
    } else if s[0] < 32 {
        None
    } else {
        match scan_jstr(s.drop_first()) {
            Some(p) => Some((seq![s[0]] + p.0, p.1)),
            None => None,
        }
    }
}

/// Scans a canonical decimal integer (optional `-`, no leading zeros, no
/// `-0`) that fits in a signed 64-bit word.
pub open spec fn scan_int(s: Seq<u8>) -> Option<(int, Seq<u8>)> {
    if s.len() > 0 && s[0] == 45 {
        let t = s.drop_first();
        let k = digits_len(t);
        if k == 0 {
            None
        } else {
            let d = t.take(k);
            if d[0] == 48 {
                None
            } else {
                let v = -dec_val(d);
                if -0x8000000000000000 <= v {
                    Some((v, t.skip(k)))
                } else {
                    None
                }
            }
        }
    } else {
        let k = digits_len(s);
        if k == 0 {
            None
        } else {
            let d = s.take(k);
            if k > 1 && d[0] == 48 {
                None
            } else {
                let v = dec_val(d);
                if v <= 0x7fffffffffffffff {
                    Some((v, s.skip(k)))
                } else {
                    None
                }
            }
        }
    }
}

/// The claims grammar: accepts exactly the payloads `claims_json` can
/// produce, and recovers the three fields.
pub open spec fn parse_claims(s: Seq<u8>) -> Option<(Seq<u8>, Seq<u8>, int)> {
    match expect(s, lit_open()) {
        None => None,
        Some(s1) => match scan_jstr(s1) {
            None => None,
            Some(p1) => match expect(p1.1, lit_mid_tail()) {
                None => None,
                Some(s3) => match scan_jstr(s3) {
                    None => None,
                    Some(p2) => match expect(p2.1, lit_exp_tail()) {
                        None => None,
                        Some(s5) => match scan_int(s5) {
                            None => None,
                            Some(p3) => if p3.1 == seq![125u8] {
                                Some((p1.0, p2.0, p3.0))
                            } else {
                                None
                            },
                        },
                    },
                },
            },
        },
    }
}

// --- round trip: parsing inverts writing ------------------------------------

proof fn lemma_expect_prefix(lit: Seq<u8>, rest: Seq<u8>)
    ensures
        expect(lit + rest, lit) == Some(rest),
{
    let s = lit + rest;
    assert(s.subrange(0, lit.len() as int) =~= lit);
    assert(s.skip(lit.len() as int) =~= rest);
}

proof fn lemma_scan_jstr_esc(v: Seq<u8>, rest: Seq<u8>)
    ensures
        scan_jstr(esc(v) + seq![34u8] + rest) == Some((v, rest)),
    decreases v.len(),
{
    let s = esc(v) + seq![34u8] + rest;
    if v.len() == 0 {
        assert(esc(v) =~= Seq::<u8>::empty());
        assert(s[0] == 34);
        assert(s.drop_first() =~= rest);
        assert(scan_jstr(s) == Some((Seq::<u8>::empty(), rest)));
    } else {
        let b = v[0];
        let vt = v.drop_first();
        let z = esc(vt) + seq![34u8] + rest;
        assert(esc(v) == esc_byte(b) + esc(vt));
        assert(s =~= esc_byte(b) + z);
        lemma_scan_jstr_esc(vt, rest);
        if b == 34 || b == 92 {
            assert(s[0] == 92 && s[1] == b);
            assert(s.len() >= 2);
            assert(s.skip(2) =~= z);
            assert(scan_jstr(s) == Some((seq![b] + vt, rest)));
            assert(seq![b] + vt =~= v);
        } else if b < 32 {
            let h1 = hex_digit(b / 16);
            let h2 = hex_digit(b % 16);
            assert(s[0] == 92 && s[1] == 117 && s[2] == 48 && s[3] == 48 && s[4] == h1 && s[5]
                == h2);
            assert(s.len() >= 6);
            assert(is_hex_lower(h1) && is_hex_lower(h2));
            assert(hex_val(h1) == b / 16 && hex_val(h2) == b % 16);
            assert(hex_val(h1) * 16 + hex_val(h2) == b) by {
                assert(b / 16 * 16 + b % 16 == b);
            }
            assert(s.skip(6) =~= z);
            assert(scan_jstr(s) == Some((seq![b] + vt, rest)));
            assert(seq![b] + vt =~= v);
        } else {
            assert(s[0] == b);
            assert(b != 34 && b != 92 && b >= 32);
            assert(s.drop_first() =~= z);
            assert(scan_jstr(s) == Some((seq![b] + vt, rest)));
            assert(seq![b] + vt =~= v);
        }
    }
}

proof fn lemma_digits_len_concat(d: Seq<u8>, rest: Seq<u8>)
    requires
        forall|i: int| 0 <= i < d.len() ==> is_digit(#[trigger] d[i]),
        rest.len() == 0 || !is_digit(rest[0]),
    ensures
        digits_len(d + rest) == d.len(),
        (d + rest).take(d.len() as int) == d,
        (d + rest).skip(d.len() as int) == rest,
    decreases d.len(),
{
    let s = d + rest;
    assert(s.take(d.len() as int) =~= d);
    assert(s.skip(d.len() as int) =~= rest);
    if d.len() == 0 {
        assert(s =~= rest);
    } else {
        assert(s[0] == d[0]);
        assert(s.drop_first() =~= d.drop_first() + rest);
        lemma_digits_len_concat(d.drop_first(), rest);
    }
}

proof fn lemma_scan_int_dec(v: int, rest: Seq<u8>)
    requires
        -0x8000000000000000 <= v <= 0x7fffffffffffffff,
        rest.len() > 0,
        !is_digit(rest[0]),
        rest[0] != 45,
    ensures
        scan_int(dec_int(v) + rest) == Some((v, rest)),
{
    let s = dec_int(v) + rest;
    if v < 0 {
        lemma_dec_nat_shape((-v) as nat);
        let d = dec_nat((-v) as nat);
        assert(dec_int(v) == seq![45u8] + d);
        assert(s[0] == 45);
        let t = s.drop_first();
        assert(t =~= d + rest);
        lemma_digits_len_concat(d, rest);
        assert(digits_len(t) == d.len());
        assert(t.take(d.len() as int) == d);
        assert(d[0] != 48);
        assert(dec_val(d) == -v);
        assert(t.skip(d.len() as int) == rest);
    } else {
        lemma_dec_nat_shape(v as nat);
        let d = dec_nat(v as nat);
        assert(dec_int(v) == d);
        assert(s[0] == d[0]);
        assert(is_digit(d[0]));
        assert(s[0] != 45);
        lemma_digits_len_concat(d, rest);
        assert(digits_len(s) == d.len());
        assert(s.take(d.len() as int) == d);
        if d.len() > 1 {
            assert(v >= 10) by {
                if v < 10 {
                    assert(d.len() == 1);
                }
            }
            assert(d[0] != 48);
        }
        assert(dec_val(d) == v);
        assert(s.skip(d.len() as int) == rest);
    }
}

/// The round-trip law for the claims payload: parsing a canonical claims
/// object recovers exactly the token id, user identity and expiry that were
/// written. Together with `claims_json_bytes` and `parse_claims_bytes` this
/// says the executable codec loses nothing.
pub proof fn lemma_claims_round_trip(uuid: Seq<u8>, user: Seq<u8>, exp: int)
    requires
        -0x8000000000000000 <= exp <= 0x7fffffffffffffff,
    ensures
        parse_claims(claims_json(uuid, user, exp)) == Some((uuid, user, exp)),
{
    let z5 = dec_int(exp) + seq![125u8];
    let z4 = lit_exp_tail() + z5;
    let z3 = esc(user) + seq![34u8] + z4;
    let z2 = lit_mid_tail() + z3;
    let z1 = esc(uuid) + seq![34u8] + z2;
    let s = claims_json(uuid, user, exp);
    assert(s =~= lit_open() + z1);
    lemma_expect_prefix(lit_open(), z1);
    assert(expect(s, lit_open()) == Some(z1));
    lemma_scan_jstr_esc(uuid, z2);
    assert(z2 =~= lit_mid_tail() + z3);
    lemma_expect_prefix(lit_mid_tail(), z3);
    lemma_scan_jstr_esc(user, z4);
    assert(z4 =~= lit_exp_tail() + z5);
    lemma_expect_prefix(lit_exp_tail(), z5);
    lemma_scan_int_dec(exp, seq![125u8]);
    assert(z5 =~= dec_int(exp) + seq![125u8]);
}

// --- executable writer ------------------------------------------------------

fn push_escaped(out: &mut Vec<u8>, s: &[u8])
    ensures
        final(out)@ == old(out)@ + esc(s@),
{
    let ghost orig = out@;
    let mut i: usize = 0;
    proof {
        assert(s@.take(0) =~= Seq::<u8>::empty());
        assert(orig + esc(s@.take(0)) =~= orig);
    }
    while i < s.len()
        invariant
            i <= s@.len(),
            out@ == orig + esc(s@.take(i as int)),
        decreases s@.len() - i,
    {
        let b = s[i];
        if b == 34 {
            out.push(92);
            out.push(34);
        } else if b == 92 {
            out.push(92);
            out.push(92);
        } else if b < 32 {
            out.push(92);
            out.push(117);
            out.push(48);
            out.push(48);
            let hi = b / 16;
            let lo = b % 16;
            out.push(if hi < 10 { 48 + hi } else { 87 + hi });
            out.push(if lo < 10 { 48 + lo } else { 87 + lo });
        } else {
            out.push(b);
        }
        proof {
            lemma_esc_push(s@.take(i as int), s@[i as int]);
            assert(s@.take(i + 1) =~= s@.take(i as int).push(s@[i as int]));
            assert(out@ =~= orig + esc(s@.take(i + 1)));
        }
        i += 1;
    }
    proof {
        assert(s@.take(s@.len() as int) =~= s@);
    }
}

fn push_dec_u64(out: &mut Vec<u8>, n: u64)
    ensures
        final(out)@ == old(out)@ + dec_nat(n as nat),
    decreases n,
{
    if n < 10 {
        out.push(48 + (n as u8));
        assert(old(out)@.push((48 + n as nat) as u8) =~= old(out)@ + dec_nat(n as nat));
    } else {
        push_dec_u64(out, n / 10);
        out.push(48 + ((n % 10) as u8));
        assert(old(out)@ + dec_nat((n / 10) as nat).push((48 + (n as nat) % 10) as u8) =~= old(
            out,
        )@ + dec_nat(n as nat));
    }
}

fn push_dec_i64(out: &mut Vec<u8>, v: i64)
    ensures
        final(out)@ == old(out)@ + dec_int(v as int),
{
    if v < 0 {
        out.push(45);
        let m = -(v as i128);
        assert(0 < m <= 0x8000000000000000);
        let mu = m as u64;
        push_dec_u64(out, mu);
        assert(old(out)@.push(45u8) + dec_nat(mu as nat) =~= old(out)@ + dec_int(v as int));
    } else {
        push_dec_u64(out, v as u64);
    }
}

/// Appends the byte sequence `lit` (one of the three grammar literals plus
/// the closing brace) to `out`.
fn push_all(out: &mut Vec<u8>, lit: &[u8])
    ensures
        final(out)@ == old(out)@ + lit@,
{
    out.extend_from_slice(lit);
}

/// The canonical serialization of a claims payload: exactly
/// `claims_json(uuid@, user@, exp)`.
pub fn claims_json_bytes(uuid: &[u8], user: &[u8], exp: i64) -> (out: Vec<u8>)
    ensures
        out@ == claims_json(uuid@, user@, exp as int),
{
    let mut out: Vec<u8> = Vec::new();
    let open: [u8; 15] = [123, 34, 116, 111, 107, 101, 110, 95, 117, 117, 105, 100, 34, 58, 34];
    let mid: [u8; 10] = [34, 44, 34, 117, 115, 101, 114, 34, 58, 34];
    let expl: [u8; 8] = [34, 44, 34, 101, 120, 112, 34, 58];
    push_all(&mut out, open.as_slice());
    proof {
        assert(out@ =~= lit_open());
    }
    push_escaped(&mut out, uuid);
    push_all(&mut out, mid.as_slice());
    proof {
        assert(out@ =~= lit_open() + esc(uuid@) + lit_mid());
    }
    push_escaped(&mut out, user);
    push_all(&mut out, expl.as_slice());
    proof {
        assert(out@ =~= lit_open() + esc(uuid@) + lit_mid() + esc(user@) + lit_exp());
    }
    push_dec_i64(&mut out, exp);
    out.push(125);
    proof {
        assert(out@ =~= claims_json(uuid@, user@, exp as int));
    }
    out
}

// --- executable parser -------------------------------------------------------

fn is_digit_exec(b: u8) -> (r: bool)
    ensures
        r == is_digit(b),
{
    48 <= b && b <= 57
}

/// Consumes `lit` at position `i` of `s`, mirroring `expect` on the suffix.
fn expect_at(s: &[u8], i: usize, lit: &[u8]) -> (r: Option<usize>)
    requires
        i <= s@.len(),
    ensures
        match r {
            Some(j) => i <= j <= s@.len() && expect(s@.skip(i as int), lit@) == Some(
                s@.skip(j as int),
            ),
            None => expect(s@.skip(i as int), lit@) is None,
        },
{
    let ghost t = s@.skip(i as int);
    let n = s.len();
    if n - i < lit.len() {
        assert(!is_prefix(lit@, t));
        return None;
    }
    let mut m: usize = 0;
    while m < lit.len()
        invariant
            0 <= m <= lit@.len(),
            n == s@.len(),
            i + lit@.len() <= n,
            t == s@.skip(i as int),
            forall|q: int| 0 <= q < m ==> #[trigger] s@[i + q] == lit@[q],
        decreases lit@.len() - m,
    {
        if s[i + m] != lit[m] {
            assert(t[m as int] == s@[i + m]);
            assert(!is_prefix(lit@, t)) by {
                if is_prefix(lit@, t) {
                    assert(t.subrange(0, lit@.len() as int)[m as int] == t[m as int]);
                }
            }
            return None;
        }
        m += 1;
    }
    let j = i + lit.len();
    proof {
        assert(t.subrange(0, lit@.len() as int) =~= lit@) by {
            assert(forall|q: int|
                0 <= q < lit@.len() ==> t.subrange(0, lit@.len() as int)[q] == #[trigger] t[q]
                    && t[q] == s@[i + q]);
        }
        assert(is_prefix(lit@, t));
        assert(t.skip(lit@.len() as int) =~= s@.skip(j as int));
    }
    Some(j)
}

/// Scans a JSON string body starting at `i`, mirroring `scan_jstr` on the
/// suffix of `s`.
fn scan_jstr_at(s: &[u8], i: usize) -> (r: Option<(Vec<u8>, usize)>)
    requires
        i <= s@.len(),
    ensures
        match r {
            Some(p) => i <= p.1 <= s@.len() && scan_jstr(s@.skip(i as int)) == Some(
                (p.0@, s@.skip(p.1 as int)),
            ),
            None => scan_jstr(s@.skip(i as int)) is None,
        },
    decreases s@.len() - i,
{
    let ghost t = s@.skip(i as int);
    if i == s.len() {
        assert(t.len() == 0);
        return None;
    }
    assert(t[0] == s@[i as int]);
    let b = s[i];
    if b == 34 {
        proof {
            assert(t.drop_first() =~= s@.skip(i + 1));
        }
        return Some((Vec::new(), i + 1));
    }
    if b == 92 {
        if s.len() - i < 2 {
            assert(t.len() < 2);
            return None;
        }
        assert(t[1] == s@[i + 1]);
        let e = s[i + 1];
        if e == 34 || e == 92 {
            proof {
                assert(t.skip(2) =~= s@.skip(i + 2));
            }
            match scan_jstr_at(s, i + 2) {
                Some((mut v, j)) => {
                    v.insert(0, e);
                    proof {
                        assert(v@ =~= seq![t[1]] + v@.drop_first());
                    }
                    return Some((v, j));
                },
                None => {
                    return None;
                },
            }
        }
        if e == 117 {
            if s.len() - i < 6 {
                assert(t.len() < 6);
                return None;
            }
            assert(t[2] == s@[i + 2] && t[3] == s@[i + 3] && t[4] == s@[i + 4] && t[5] == s@[i
                + 5]);
            let h1 = s[i + 4];
            let h2 = s[i + 5];
            let hex_ok = s[i + 2] == 48 && s[i + 3] == 48 && is_hex_lower_exec(h1)
                && is_hex_lower_exec(h2);
            if !hex_ok {
                return None;
            }
            let val = hex_val_exec(h1) * 16 + hex_val_exec(h2);
            if val >= 32 {
                return None;
            }
            proof {
                assert(t.skip(6) =~= s@.skip(i + 6));
            }
            match scan_jstr_at(s, i + 6) {
                Some((mut v, j)) => {
                    v.insert(0, val);
                    proof {
                        assert(v@ =~= seq![(hex_val(t[4]) * 16 + hex_val(t[5])) as u8]
                            + v@.drop_first());
                    }
                    return Some((v, j));
                },
                None => {
                    return None;
                },
            }
        }
        return None;
    }
    if b < 32 {
        return None;
    }
    proof {
        assert(t.drop_first() =~= s@.skip(i + 1));
    }
    match scan_jstr_at(s, i + 1) {
        Some((mut v, j)) => {
            v.insert(0, b);
            proof {
                assert(v@ =~= seq![t[0]] + v@.drop_first());
            }
            Some((v, j))
        },
        None => None,
    }
}

fn is_hex_lower_exec(b: u8) -> (r: bool)
    ensures
        r == is_hex_lower(b),
{
    (48 <= b && b <= 57) || (97 <= b && b <= 102)
}

fn hex_val_exec(b: u8) -> (r: u8)
    requires
        is_hex_lower(b),
    ensures
        r == hex_val(b),
        r < 16,
{
    if b <= 57 {
        b - 48
    } else {
        b - 87
    }
}

proof fn lemma_digits_len_is(t: Seq<u8>, n: int)
    requires
        0 <= n <= t.len(),
        forall|m: int| 0 <= m < n ==> is_digit(#[trigger] t[m]),
        n == t.len() || !is_digit(t[n]),
    ensures
        digits_len(t) == n,
    decreases n,
{
    if n == 0 {
    } else {
        assert(is_digit(t[0]));
        lemma_digits_len_is(t.drop_first(), n - 1);
    }
}

proof fn lemma_pow10_19()
    ensures
        pow10(19) == 10_000_000_000_000_000_000,
        forall|a: nat, b: nat| a <= b ==> #[trigger] pow10(a) <= #[trigger] pow10(b),
{
    assert forall|a: nat, b: nat| a <= b implies #[trigger] pow10(a) <= #[trigger] pow10(b) by {
        lemma_pow10_mono(a, b);
    }
    assert(pow10(0) == 1);
    assert(pow10(1) == 10);
    assert(pow10(2) == 100);
    assert(pow10(3) == 1000);
    assert(pow10(4) == 10000);
    assert(pow10(5) == 100000);
    assert(pow10(6) == 1000000);
    assert(pow10(7) == 10000000);
    assert(pow10(8) == 100000000);
    assert(pow10(9) == 1000000000);
    assert(pow10(10) == 10000000000);
    assert(pow10(11) == 100000000000);
    assert(pow10(12) == 1000000000000);
    assert(pow10(13) == 10000000000000);
    assert(pow10(14) == 100000000000000);
    assert(pow10(15) == 1000000000000000);
    assert(pow10(16) == 10000000000000000);
    assert(pow10(17) == 100000000000000000);
    assert(pow10(18) == 1000000000000000000);
    assert(pow10(19) == 10000000000000000000);
}

proof fn lemma_pow10_mono(a: nat, b: nat)
    requires
        a <= b,
    ensures
        1 <= pow10(a) <= pow10(b),
    decreases b,
{
    if b == 0 {
    } else if a == b {
        lemma_pow10_mono((b - 1) as nat, (b - 1) as nat);
    } else {
        lemma_pow10_mono(a, (b - 1) as nat);
    }
}

/// Scans a decimal integer starting at `i`, mirroring `scan_int` on the
/// suffix of `s`.
fn scan_int_at(s: &[u8], i: usize) -> (r: Option<(i64, usize)>)
    requires
        i <= s@.len(),
    ensures
        match r {
            Some(p) => i <= p.1 <= s@.len() && scan_int(s@.skip(i as int)) == Some(
                (p.0 as int, s@.skip(p.1 as int)),
            ),
            None => scan_int(s@.skip(i as int)) is None,
        },
{
    let ghost t0 = s@.skip(i as int);
    let neg = i < s.len() && s[i] == 45;
    let start = if neg {
        i + 1
    } else {
        i
    };
    let ghost t = s@.skip(start as int);
    proof {
        if neg {
            assert(t0[0] == s@[i as int]);
            assert(t0.drop_first() =~= t);
        } else {
            assert(t0 == t);
        }
    }
    let mut j: usize = start;
    while j < s.len() && is_digit_exec(s[j])
        invariant
            start <= j <= s@.len(),
            forall|m: int| start <= m < j ==> is_digit(#[trigger] s@[m]),
        decreases s@.len() - j,
    {
        j += 1;
    }
    let k = j - start;
    proof {
        assert(forall|m: int| 0 <= m < k ==> #[trigger] t[m] == s@[start + m]);
        lemma_digits_len_is(t, k as int);
    }
    if k == 0 {
        return None;
    }
    let ghost d = t.take(k as int);
    assert(d[0] == s@[start as int]);
    if s[start] == 48 && (neg || k > 1) {
        return None;
    }
    proof {
        assert(forall|m: int| 0 <= m < d.len() ==> is_digit(#[trigger] d[m]));
        lemma_dec_val_bounds(d);
        lemma_pow10_19();
    }
    if k > 19 {
        // Magnitude is at least 10^19, beyond any 64-bit value.
        proof {
            assert(d[0] != 48);
            assert(dec_val(d) >= pow10((k - 1) as nat));
            assert(pow10((k - 1) as nat) >= pow10(19));
        }
        return None;
    }
    let mut acc: i128 = 0;
    let mut m: usize = 0;
    proof {
        assert(d.take(0) =~= Seq::<u8>::empty());
    }
    let n = s.len();
    while m < k
        invariant
            0 <= m <= k <= 19,
            n == s@.len(),
            start + k <= n,
            d == t.take(k as int),
            t == s@.skip(start as int),
            forall|q: int| 0 <= q < d.len() ==> is_digit(#[trigger] d[q]),
            acc == dec_val(d.take(m as int)),
            0 <= acc < pow10(m as nat),
        decreases k - m,
    {
        proof {
            lemma_pow10_19();
            assert(d.take(m + 1).drop_last() =~= d.take(m as int));
            assert(d.take(m + 1).last() == d[m as int]);
            assert(d[m as int] == s@[start + m]);
            lemma_dec_val_bounds(d.take(m + 1));
        }
        let digit = s[start + m];
        acc = acc * 10 + ((digit - 48) as i128);
        m += 1;
    }
    proof {
        assert(d.take(k as int) =~= d);
        lemma_pow10_19();
        assert(acc < pow10(19));
    }
    if neg {
        if acc > 0x8000000000000000i128 {
            return None;
        }
        let v: i64 = (-acc) as i64;
        proof {
            assert(t.skip(k as int) =~= s@.skip(j as int));
        }
        Some((v, j))
    } else {
        if acc > 0x7fffffffffffffffi128 {
            return None;
        }
        let v: i64 = acc as i64;
        proof {
            assert(t.skip(k as int) =~= s@.skip(j as int));
        }
        Some((v, j))
    }
}

/// Decides the claims grammar on a whole payload: returns the token id and
/// user (as UTF-8 bytes) and the expiry exactly when `s` is a well-formed
/// claims object.
pub fn parse_claims_bytes(s: &[u8]) -> (r: Option<(Vec<u8>, Vec<u8>, i64)>)
    ensures
        match r {
            Some(p) => parse_claims(s@) == Some((p.0@, p.1@, p.2 as int)),
            None => parse_claims(s@) is None,
        },
{
    let open: [u8; 15] = [123, 34, 116, 111, 107, 101, 110, 95, 117, 117, 105, 100, 34, 58, 34];
    let mid: [u8; 9] = [44, 34, 117, 115, 101, 114, 34, 58, 34];
    let expl: [u8; 7] = [44, 34, 101, 120, 112, 34, 58];
    proof {
        assert(open@ =~= lit_open());
        assert(mid@ =~= lit_mid_tail());
        assert(expl@ =~= lit_exp_tail());
        assert(s@.skip(0) =~= s@);
    }
    let i1 = match expect_at(s, 0, open.as_slice()) {
        Some(j) => j,
        None => {
            return None;
        },
    };
    let (uuid, i2) = match scan_jstr_at(s, i1) {
        Some(p) => p,
        None => {
            return None;
        },
    };
    let i3 = match expect_at(s, i2, mid.as_slice()) {
        Some(j) => j,
        None => {
            return None;
        },
    };
    let (user, i4) = match scan_jstr_at(s, i3) {
        Some(p) => p,
        None => {
            return None;
        },
    };
    let i5 = match expect_at(s, i4, expl.as_slice()) {
        Some(j) => j,
        None => {
            return None;
        },
    };
    let (exp, i6) = match scan_int_at(s, i5) {
        Some(p) => p,
        None => {
            return None;
        },
    };
    if i6 < s.len() && s.len() - i6 == 1 && s[i6] == 125 {
        proof {
            assert(s@.skip(i6 as int) =~= seq![125u8]);
        }
        Some((uuid, user, exp))
    } else {
        proof {
            let rest = s@.skip(i6 as int);
            if rest == seq![125u8] {
                assert(rest.len() == 1);
                assert(rest[0] == s@[i6 as int]);
            }
        }
        None
    }
}

} // verus!
