//! Character-level helpers: turning a string into its characters, comparing
//! strings, and reading an unsigned integer written in a given radix.
use vstd::prelude::*;

verus! {

/// The value of `c` as a digit in `radix` (2 to 36), as `char::to_digit`
/// reads it: `0`-`9`, then `a`-`z` or `A`-`Z` for 10 to 35.
pub open spec fn char_digit(c: char, radix: nat) -> Option<nat> {
    let d: int = if '0' <= c && c <= '9' {
        c as int - 48
    } else if 'a' <= c && c <= 'z' {
        c as int - 87
    } else if 'A' <= c && c <= 'Z' {
        c as int - 55
    } else {
        36
    };
    if d < radix {
        Some(d as nat)
    } else {
        None
    }
}

/// Every character of `s` is a digit in `radix`.
pub open spec fn all_digits(s: Seq<char>, radix: nat) -> bool {
    forall|i: int| 0 <= i < s.len() ==> (#[trigger] char_digit(s[i], radix)) is Some
}

/// The number that the digits of `s` spell in `radix`, most significant first.
pub open spec fn digits_value(s: Seq<char>, radix: nat) -> nat
    decreases s.len(),
{
    if s.len() == 0 {
        0
    } else {
        let d: nat = match char_digit(s.last(), radix) {
            Some(d) => d,
            None => 0,
        };
        digits_value(s.drop_last(), radix) * radix + d
    }
}

/// What an unsigned integer type whose largest value is `max` reads from `s`
/// in `radix`: an optional leading `+`, then at least one digit, and a value
/// that fits; anything else is refused.
pub open spec fn radix_value(s: Seq<char>, radix: nat, max: nat) -> Option<nat> {
    let body = if s.len() > 0 && s[0] == '+' {
        s.drop_first()
    } else {
        s
    };
    if body.len() > 0 && all_digits(body, radix) && digits_value(body, radix) <= max {
        Some(digits_value(body, radix))
    } else {
        None
    }
}

/// Appending digits never makes the value smaller.
pub proof fn lemma_digits_value_prefix(s: Seq<char>, radix: nat, k: int)
    requires
        radix >= 1,
        0 <= k <= s.len(),
    ensures
        digits_value(s.take(k), radix) <= digits_value(s, radix),
    decreases s.len(),
{
    if k < s.len() {
        assert(s.drop_last().take(k) =~= s.take(k));
        lemma_digits_value_prefix(s.drop_last(), radix, k);
        let v = digits_value(s.drop_last(), radix);
        assert(v <= v * radix) by (nonlinear_arith)
            requires
                radix >= 1,
        ;
    } else {
        assert(s.take(k) =~= s);
    }
}

/// The characters of `s`, one by one.
pub fn chars_of(s: &str) -> (r: Vec<char>)
    ensures
        r@ == s@,
{
    let mut r: Vec<char> = Vec::new();
    for c in it: s.chars()
        invariant
            it.seq() == s@,
            r@ == it.seq().take(it.index() as int),
    {
        proof {
            assert(it.seq().take(it.index() as int + 1) =~= r@.push(c));
        }
        r.push(c);
    }
    assert(r@ =~= s@);
    r
}

/// Whether two character sequences are equal.
pub fn chars_equal(a: &Vec<char>, b: &Vec<char>) -> (r: bool)
    ensures
        r == (a@ == b@),
{
    if a.len() != b.len() {
        return false;
    }
    let mut i: usize = 0;
    while i < a.len()
        invariant
            a.len() == b.len(),
            i <= a.len(),
            forall|j: int| 0 <= j < i ==> a@[j] == b@[j],
        decreases a.len() - i,
    {
        if a[i] != b[i] {
            return false;
        }
        i = i + 1;
    }
    assert(a@ =~= b@);
    true
}

/// Whether the string `a` holds exactly the characters `b`.
pub fn str_equals(a: &str, b: &str) -> (r: bool)
    ensures
        r == (a@ == b@),
{
    let va = chars_of(a);
    let vb = chars_of(b);
    chars_equal(&va, &vb)
}

/// The digit value of `c` in `radix`, as `char_digit` states it.
pub fn digit_of(c: char, radix: u32) -> (r: Option<u32>)
    requires
        2 <= radix <= 36,
    ensures
        match r {
            Some(d) => char_digit(c, radix as nat) == Some(d as nat),
            None => char_digit(c, radix as nat) is None,
        },
{
    let code: u32 = c as u32;
    let d: u32 = if '0' <= c && c <= '9' {
        code - 48
    } else if 'a' <= c && c <= 'z' {
        code - 87
    } else if 'A' <= c && c <= 'Z' {
        code - 55
    } else {
        36
    };
    if d < radix {
        Some(d)
    } else {
        None
    }
}

/// Reads an unsigned integer written in `radix` from `s`, refusing values
/// above `max`: the reading of `u64::from_str_radix` and its narrower kin.
pub fn parse_radix(s: &str, radix: u32, max: u64) -> (r: Option<u64>)
    requires
        2 <= radix <= 36,
    ensures
        match r {
            Some(v) => radix_value(s@, radix as nat, max as nat) == Some(v as nat),
            None => radix_value(s@, radix as nat, max as nat) is None,
        },
{
    let cs = chars_of(s);
    let start: usize = if cs.len() > 0 && cs[0] == '+' {
        1
    } else {
        0
    };
    let ghost body = if s@.len() > 0 && s@[0] == '+' {
        s@.drop_first()
    } else {
        s@
    };
    assert(body =~= cs@.subrange(start as int, cs@.len() as int));
    if start == cs.len() {
        return None;
    }
    let mut acc: u64 = 0;
    let mut i: usize = start;
    while i < cs.len()
        invariant
            cs@ == s@,
            start <= i <= cs.len(),
            body =~= cs@.subrange(start as int, cs@.len() as int),
            body == (if s@.len() > 0 && s@[0] == '+' {
                s@.drop_first()
            } else {
                s@
            }),
            2 <= radix <= 36,
            all_digits(body.take(i - start), radix as nat),
            acc as nat == digits_value(body.take(i - start), radix as nat),
            acc <= max,
        decreases cs.len() - i,
    {
        let ghost k: int = i - start;
        assert(body.take(k + 1).drop_last() =~= body.take(k));
        assert(body.take(k + 1).last() == cs@[i as int]);
        match digit_of(cs[i], radix) {
            None => {
                assert(body[k] == cs@[i as int]);
                assert(char_digit(body[k], radix as nat) is None);
                assert(!all_digits(body, radix as nat));
                assert(radix_value(s@, radix as nat, max as nat) is None);
                return None;
            },
            Some(d) => {
                assert((acc as u128) * (radix as u128) <= 0xffff_ffff_ffff_ffffu128 * 36)
                    by (nonlinear_arith)
                    requires
                        acc <= 0xffff_ffff_ffff_ffffu64,
                        radix <= 36,
                ;
                let next: u128 = (acc as u128) * (radix as u128) + (d as u128);
                assert(next as nat == digits_value(body.take(k + 1), radix as nat));
                assert(all_digits(body.take(k + 1), radix as nat)) by {
                    assert forall|j: int| 0 <= j < k + 1 implies (#[trigger] char_digit(
                        body.take(k + 1)[j],
                        radix as nat,
                    )) is Some by {
                        if j < k {
                            assert(body.take(k + 1)[j] == body.take(k)[j]);
                        }
                    }
                }
                if next > max as u128 {
                    proof {
                        if all_digits(body, radix as nat) {
                            lemma_digits_value_prefix(body, radix as nat, k + 1);
                        }
                    }
                    return None;
                }
                acc = next as u64;
            },
        }
        i = i + 1;
    }
    assert(body.take(i - start) =~= body);
    Some(acc)
}

} // verus!
