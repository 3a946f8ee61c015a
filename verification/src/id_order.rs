//! Order ids read from their canonical text rank as that text does.
use vstd::prelude::*;
use crate::book::{key_before, key_of};
use crate::pattern::capture_group;
use crate::text::{all_digits, char_digit, digits_value, radix_value};
use crate::value::{hex_group, uuid_from_captures};

verus! {

/// `base` to the power `n`.
pub open spec fn power(base: nat, n: nat) -> nat
    decreases n,
{
    if n == 0 {
        1
    } else {
        base * power(base, (n - 1) as nat)
    }
}

/// A lowercase hexadecimal digit.
pub open spec fn is_lower_hex(c: char) -> bool {
    ('0' <= c && c <= '9') || ('a' <= c && c <= 'f')
}

/// `s` is `n` lowercase hexadecimal digits.
pub open spec fn lower_hex_text(s: Seq<char>, n: nat) -> bool {
    &&& s.len() == n
    &&& forall|i: int| 0 <= i < s.len() ==> is_lower_hex(#[trigger] s[i])
}

/// The five groups of a UUID match are the canonical lowercase text of a
/// UUID: 8, 4, 4, 4 and 12 lowercase hexadecimal digits.
pub open spec fn canonical_uuid_groups(caps: Seq<Option<Seq<char>>>) -> bool {
    &&& capture_group(caps, 1) is Some && lower_hex_text(capture_group(caps, 1)->0, 8)
    &&& capture_group(caps, 2) is Some && lower_hex_text(capture_group(caps, 2)->0, 4)
    &&& capture_group(caps, 3) is Some && lower_hex_text(capture_group(caps, 3)->0, 4)
    &&& capture_group(caps, 4) is Some && lower_hex_text(capture_group(caps, 4)->0, 4)
    &&& capture_group(caps, 5) is Some && lower_hex_text(capture_group(caps, 5)->0, 12)
}

/// The text of a UUID whose groups are `caps`: the five groups joined by
/// hyphens.
pub open spec fn uuid_text(caps: Seq<Option<Seq<char>>>) -> Seq<char> {
    let h = seq!['-'];
    capture_group(caps, 1)->0 + h + capture_group(caps, 2)->0 + h + capture_group(caps, 3)->0 + h
        + capture_group(caps, 4)->0 + h + capture_group(caps, 5)->0
}

/// The order of strings: character by character, a proper prefix first.
pub open spec fn text_before(s: Seq<char>, t: Seq<char>) -> bool
    decreases s.len(),
{
    if s.len() == 0 {
        t.len() > 0
    } else if t.len() == 0 {
        false
    } else if s[0] != t[0] {
        s[0] < t[0]
    } else {
        text_before(s.drop_first(), t.drop_first())
    }
}

/// Reading `s + t` is reading `s`, shifted by the digits of `t`, plus `t`.
pub proof fn law_digits_concat(s: Seq<char>, t: Seq<char>, radix: nat)
    ensures
        digits_value(s + t, radix) == digits_value(s, radix) * power(radix, t.len()) + digits_value(
            t,
            radix,
        ),
    decreases t.len(),
{
    if t.len() == 0 {
        assert(s + t =~= s);
        assert(digits_value(s, radix) * 1 == digits_value(s, radix));
    } else {
        let t1 = t.drop_last();
        assert((s + t).drop_last() =~= s + t1);
        assert((s + t).last() == t.last());
        law_digits_concat(s, t1, radix);
        let vs = digits_value(s, radix);
        let v1 = digits_value(t1, radix);
        let p1 = power(radix, t1.len());
        let d: nat = match char_digit(t.last(), radix) {
            Some(d) => d,
            None => 0,
        };
        assert(power(radix, t.len()) == radix * p1);
        assert(digits_value(s + t, radix) == digits_value(s + t1, radix) * radix + d);
        assert(digits_value(t, radix) == v1 * radix + d);
        assert((vs * p1 + v1) * radix + d == vs * (radix * p1) + (v1 * radix + d))
            by (nonlinear_arith);
    }
}

/// Digits in `radix` read as less than `radix` to the number of digits.
pub proof fn law_digits_bound(s: Seq<char>, radix: nat)
    requires
        all_digits(s, radix),
    ensures
        digits_value(s, radix) < power(radix, s.len()),
    decreases s.len(),
{
    if s.len() > 0 {
        let p = s.drop_last();
        assert(all_digits(p, radix)) by {
            assert forall|i: int| 0 <= i < p.len() implies (#[trigger] char_digit(p[i], radix)) is Some by {
                assert(p[i] == s[i]);
            }
        }
        law_digits_bound(p, radix);
        assert(char_digit(s[s.len() - 1], radix) is Some);
        let d = char_digit(s.last(), radix)->0;
        let v = digits_value(p, radix);
        let pp = power(radix, p.len());
        assert(d < radix);
        assert(v * radix + d < radix * pp) by (nonlinear_arith)
            requires
                v < pp,
                d < radix,
        ;
    }
}

/// A lowercase hexadecimal digit is a digit in radix 16, and a higher
/// character is a higher digit.
proof fn lemma_lower_hex_digits(c1: char, c2: char)
    requires
        is_lower_hex(c1),
        is_lower_hex(c2),
    ensures
        char_digit(c1, 16) is Some,
        char_digit(c2, 16) is Some,
        c1 < c2 ==> char_digit(c1, 16)->0 < char_digit(c2, 16)->0,
        c1 == c2 <==> char_digit(c1, 16)->0 == char_digit(c2, 16)->0,
{
}

/// Lowercase hexadecimal text is all digits in radix 16.
proof fn lemma_lower_hex_all_digits(s: Seq<char>, n: nat)
    requires
        lower_hex_text(s, n),
    ensures
        all_digits(s, 16),
{
    assert forall|i: int| 0 <= i < s.len() implies (#[trigger] char_digit(s[i], 16)) is Some by {
        lemma_lower_hex_digits(s[i], s[i]);
    }
}

/// Joining lowercase hexadecimal texts gives lowercase hexadecimal text.
proof fn lemma_lower_hex_concat(s: Seq<char>, t: Seq<char>, m: nat, n: nat)
    requires
        lower_hex_text(s, m),
        lower_hex_text(t, n),
    ensures
        lower_hex_text(s + t, m + n),
{
    assert forall|i: int| 0 <= i < (s + t).len() implies is_lower_hex(#[trigger] (s + t)[i]) by {
        if i < s.len() {
            assert((s + t)[i] == s[i]);
        } else {
            assert((s + t)[i] == t[i - s.len()]);
        }
    }
}

/// Among lowercase hexadecimal texts of one length, the order of the texts
/// is the order of the numbers they spell, and equal texts spell equal
/// numbers.
proof fn lemma_hex_text_order(s: Seq<char>, t: Seq<char>, n: nat)
    requires
        lower_hex_text(s, n),
        lower_hex_text(t, n),
    ensures
        text_before(s, t) <==> digits_value(s, 16) < digits_value(t, 16),
        s == t <==> digits_value(s, 16) == digits_value(t, 16),
    decreases n,
{
    if n == 0 {
        assert(s =~= t);
    } else {
        let rs = s.drop_first();
        let rt = t.drop_first();
        assert(lower_hex_text(rs, (n - 1) as nat)) by {
            assert forall|i: int| 0 <= i < rs.len() implies is_lower_hex(#[trigger] rs[i]) by {
                assert(rs[i] == s[i + 1]);
            }
        }
        assert(lower_hex_text(rt, (n - 1) as nat)) by {
            assert forall|i: int| 0 <= i < rt.len() implies is_lower_hex(#[trigger] rt[i]) by {
                assert(rt[i] == t[i + 1]);
            }
        }
        lemma_hex_text_order(rs, rt, (n - 1) as nat);
        lemma_lower_hex_digits(s[0], t[0]);
        lemma_lower_hex_digits(t[0], s[0]);
        lemma_lower_hex_all_digits(rs, (n - 1) as nat);
        lemma_lower_hex_all_digits(rt, (n - 1) as nat);
        law_digits_bound(rs, 16);
        law_digits_bound(rt, 16);
        let hs = seq![s[0]];
        let ht = seq![t[0]];
        assert(hs + rs =~= s);
        assert(ht + rt =~= t);
        assert(hs.drop_last() =~= Seq::<char>::empty());
        assert(ht.drop_last() =~= Seq::<char>::empty());
        law_digits_concat(hs, rs, 16);
        law_digits_concat(ht, rt, 16);
        let ds = char_digit(s[0], 16)->0;
        let dt = char_digit(t[0], 16)->0;
        assert(hs.last() == s[0]);
        assert(ht.last() == t[0]);
        assert(digits_value(hs.drop_last(), 16) == 0);
        assert(digits_value(ht.drop_last(), 16) == 0);
        assert(digits_value(hs, 16) == ds);
        assert(digits_value(ht, 16) == dt);
        let p = power(16, (n - 1) as nat);
        let vs = digits_value(rs, 16);
        let vt = digits_value(rt, 16);
        assert(digits_value(s, 16) == ds * p + vs);
        assert(digits_value(t, 16) == dt * p + vt);
        if s[0] < t[0] {
            assert(ds * p + vs < dt * p + vt) by (nonlinear_arith)
                requires
                    ds < dt,
                    vs < p,
            ;
            assert(s != t);
        } else if t[0] < s[0] {
            assert(dt * p + vt < ds * p + vs) by (nonlinear_arith)
                requires
                    dt < ds,
                    vt < p,
            ;
            assert(s != t);
        } else {
            assert(ds == dt);
            if rs =~= rt {
                assert(s =~= t);
            } else {
                assert(s != t) by {
                    if s == t {
                        assert(rs =~= rt);
                    }
                }
            }
        }
    }
}

/// The order of `x + y` against `x2 + y2`, where `x` and `x2` are equally
/// long, is decided by `x` and `x2` first, then by `y` and `y2`; and the two
/// are equal when both parts are.
proof fn lemma_text_before_concat(x: Seq<char>, y: Seq<char>, x2: Seq<char>, y2: Seq<char>)
    requires
        x.len() == x2.len(),
    ensures
        text_before(x + y, x2 + y2) == (text_before(x, x2) || (x == x2 && text_before(y, y2))),
        (x + y == x2 + y2) == (x == x2 && y == y2),
    decreases x.len(),
{
    if x.len() == 0 {
        assert(x + y =~= y);
        assert(x2 + y2 =~= y2);
        assert(x =~= x2);
    } else {
        assert((x + y)[0] == x[0]);
        assert((x2 + y2)[0] == x2[0]);
        assert((x + y).drop_first() =~= x.drop_first() + y);
        assert((x2 + y2).drop_first() =~= x2.drop_first() + y2);
        lemma_text_before_concat(x.drop_first(), y, x2.drop_first(), y2);
        assert(x =~= seq![x[0]] + x.drop_first());
        assert(x2 =~= seq![x2[0]] + x2.drop_first());
        if x == x2 {
            assert(x.drop_first() =~= x2.drop_first());
        }
    }
    if x + y == x2 + y2 {
        assert(x =~= (x + y).take(x.len() as int));
        assert(x2 =~= (x2 + y2).take(x.len() as int));
        assert(y =~= (x + y).skip(x.len() as int));
        assert(y2 =~= (x2 + y2).skip(x.len() as int));
    }
}

/// An id read from canonical UUID text holds the number that the text's 32
/// hexadecimal digits spell: the first 16 digits in `data_a`, the last 16 in
/// `data_b`.
pub proof fn law_canonical_uuid_value(caps: Seq<Option<Seq<char>>>)
    requires
        canonical_uuid_groups(caps),
    ensures
        ({
            let x = capture_group(caps, 1)->0 + capture_group(caps, 2)->0 + capture_group(caps, 3)->0;
            let y = capture_group(caps, 4)->0 + capture_group(caps, 5)->0;
            &&& lower_hex_text(x, 16)
            &&& lower_hex_text(y, 16)
            &&& uuid_from_captures(caps) is Some
            &&& key_of(uuid_from_captures(caps)->0) == (
                digits_value(x, 16) as u64,
                digits_value(y, 16) as u64,
            )
            &&& digits_value(x, 16) < 0x1_0000_0000_0000_0000
            &&& digits_value(y, 16) < 0x1_0000_0000_0000_0000
        }),
{
    let g1 = capture_group(caps, 1)->0;
    let g2 = capture_group(caps, 2)->0;
    let g3 = capture_group(caps, 3)->0;
    let g4 = capture_group(caps, 4)->0;
    let g5 = capture_group(caps, 5)->0;
    reveal_with_fuel(power, 17);
    assert(power(16, 4) == 0x1_0000);
    assert(power(16, 8) == 0x1_0000_0000);
    assert(power(16, 12) == 0x1_0000_0000_0000);
    assert(power(16, 16) == 0x1_0000_0000_0000_0000);
    lemma_lower_hex_all_digits(g1, 8);
    lemma_lower_hex_all_digits(g2, 4);
    lemma_lower_hex_all_digits(g3, 4);
    lemma_lower_hex_all_digits(g4, 4);
    lemma_lower_hex_all_digits(g5, 12);
    law_digits_bound(g1, 16);
    law_digits_bound(g2, 16);
    law_digits_bound(g3, 16);
    law_digits_bound(g4, 16);
    law_digits_bound(g5, 16);
    lemma_lower_hex_digits(g1[0], g1[0]);
    lemma_lower_hex_digits(g2[0], g2[0]);
    lemma_lower_hex_digits(g3[0], g3[0]);
    lemma_lower_hex_digits(g4[0], g4[0]);
    lemma_lower_hex_digits(g5[0], g5[0]);
    let a = digits_value(g1, 16);
    let b = digits_value(g2, 16);
    let c = digits_value(g3, 16);
    let d = digits_value(g4, 16);
    let e = digits_value(g5, 16);
    assert(radix_value(g1, 16, u32::MAX as nat) == Some(a));
    assert(radix_value(g2, 16, u16::MAX as nat) == Some(b));
    assert(radix_value(g3, 16, u16::MAX as nat) == Some(c));
    assert(radix_value(g4, 16, u16::MAX as nat) == Some(d));
    assert(radix_value(g5, 16, u64::MAX as nat) == Some(e));
    assert(hex_group(caps, 1, u32::MAX as nat) == Some(a));
    assert(hex_group(caps, 5, u64::MAX as nat) == Some(e));
    law_digits_concat(g1, g2, 16);
    law_digits_concat(g1 + g2, g3, 16);
    law_digits_concat(g4, g5, 16);
    lemma_lower_hex_concat(g1, g2, 8, 4);
    lemma_lower_hex_concat(g1 + g2, g3, 12, 4);
    lemma_lower_hex_concat(g4, g5, 4, 12);
    let x = g1 + g2 + g3;
    let y = g4 + g5;
    assert(digits_value(x, 16) == a * 0x1_0000_0000 + b * 0x1_0000 + c);
    assert(digits_value(y, 16) == d * 0x1_0000_0000_0000 + e);
    law_digits_bound(x, 16);
    law_digits_bound(y, 16);
    lemma_lower_hex_all_digits(x, 16);
    lemma_lower_hex_all_digits(y, 16);
}

/// Two ids read from the groups of canonical UUID texts rank as the texts
/// do, and are equal exactly when the texts are.
pub proof fn law_uuid_order_follows_text(c1: Seq<Option<Seq<char>>>, c2: Seq<Option<Seq<char>>>)
    requires
        canonical_uuid_groups(c1),
        canonical_uuid_groups(c2),
    ensures
        uuid_from_captures(c1) is Some,
        uuid_from_captures(c2) is Some,
        key_before(key_of(uuid_from_captures(c1)->0), key_of(uuid_from_captures(c2)->0))
            <==> text_before(uuid_text(c1), uuid_text(c2)),
        uuid_from_captures(c1) == uuid_from_captures(c2) <==> uuid_text(c1) == uuid_text(c2),
{
    law_canonical_uuid_value(c1);
    law_canonical_uuid_value(c2);
    let h = seq!['-'];
    let (g1, g2, g3, g4, g5) = (
        capture_group(c1, 1)->0,
        capture_group(c1, 2)->0,
        capture_group(c1, 3)->0,
        capture_group(c1, 4)->0,
        capture_group(c1, 5)->0,
    );
    let (k1, k2, k3, k4, k5) = (
        capture_group(c2, 1)->0,
        capture_group(c2, 2)->0,
        capture_group(c2, 3)->0,
        capture_group(c2, 4)->0,
        capture_group(c2, 5)->0,
    );
    let x1 = g1 + g2 + g3;
    let y1 = g4 + g5;
    let x2 = k1 + k2 + k3;
    let y2 = k4 + k5;
    lemma_hex_text_order(x1, x2, 16);
    lemma_hex_text_order(y1, y2, 16);
    // the two numeric halves
    lemma_text_before_concat(g1, g2, k1, k2);
    lemma_text_before_concat(g1 + g2, g3, k1 + k2, k3);
    lemma_text_before_concat(g4, g5, k4, k5);
    // the hyphenated text
    assert(!text_before(h, h)) by {
        reveal_with_fuel(text_before, 2);
        assert(h.drop_first() =~= Seq::<char>::empty());
    }
    lemma_text_before_concat(g1, h, k1, h);
    lemma_text_before_concat(g1 + h, g2, k1 + h, k2);
    lemma_text_before_concat(g1 + h + g2, h, k1 + h + k2, h);
    lemma_text_before_concat(g1 + h + g2 + h, g3, k1 + h + k2 + h, k3);
    lemma_text_before_concat(g1 + h + g2 + h + g3, h, k1 + h + k2 + h + k3, h);
    lemma_text_before_concat(g1 + h + g2 + h + g3 + h, g4, k1 + h + k2 + h + k3 + h, k4);
    lemma_text_before_concat(
        g1 + h + g2 + h + g3 + h + g4,
        h,
        k1 + h + k2 + h + k3 + h + k4,
        h,
    );
    lemma_text_before_concat(
        g1 + h + g2 + h + g3 + h + g4 + h,
        g5,
        k1 + h + k2 + h + k3 + h + k4 + h,
        k5,
    );
}

} // verus!
