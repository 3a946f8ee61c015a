//! Fixed-point values with ten decimal places, order identifiers, and the
//! side of the book an order stands on.
use vstd::prelude::*;
use crate::pattern::{capture_group, captures_of, group_at, regex_captures};
use crate::text::{chars_of, radix_value, parse_radix, str_equals};

verus! {

/// A value from 0 to 99,999,999.9999999999, held as a count of units of
/// 10^-10.
#[derive(Clone, Copy, PartialEq, Eq, Structural, PartialOrd, Ord, Debug)]
pub struct Value {
    pub data: u64,
}

/// 10 to the power `n`.
pub open spec fn pow10(n: nat) -> nat
    decreases n,
{
    if n == 0 {
        1
    } else {
        10 * pow10((n - 1) as nat)
    }
}

/// The number of units of 10^-10 in one whole unit.
pub open spec fn unit() -> nat {
    pow10(10)
}

/// The regular expression that finds a value in a packet field: optional
/// quotes, one to eight integer digits, an optional point, up to twelve
/// fractional digits.
pub open spec fn value_pattern() -> Seq<char> {
    "\"*(\\d{1,8})\\.?(\\d{1,12})?"@
}

/// The integer part read from group 1 of a value match.
pub open spec fn value_top(caps: Seq<Option<Seq<char>>>) -> Option<nat> {
    match capture_group(caps, 1) {
        Some(t) => radix_value(t, 10, u64::MAX as nat),
        None => None,
    }
}

/// The fractional digits (group 2 of a value match) and what they read as.
pub open spec fn value_bottom(caps: Seq<Option<Seq<char>>>) -> Option<(Seq<char>, nat)> {
    match capture_group(caps, 2) {
        Some(b) => match radix_value(b, 10, u64::MAX as nat) {
            Some(v) => Some((b, v)),
            None => None,
        },
        None => None,
    }
}

/// The captures of a value match can be turned into a value without
/// arithmetic overflow: the integer part times 10^10 fits, and where a
/// fractional part reads as a number it has one to ten digits and the sum
/// fits.
pub open spec fn value_captures_in_range(caps: Seq<Option<Seq<char>>>) -> bool {
    match value_top(caps) {
        None => true,
        Some(top) => {
            &&& top * unit() <= u64::MAX
            &&& match value_bottom(caps) {
                Some((b, v)) => 1 <= b.len() <= 10 && top * unit() + v * pow10(
                    (10 - b.len()) as nat,
                ) <= u64::MAX,
                None => true,
            }
        },
    }
}

/// The value that the captures of a value match spell: the integer part
/// times 10^10, plus the fractional digits scaled so that the first one is
/// tenths. `None` where a group that took part does not read as a number,
/// or where the integer part did not take part.
pub open spec fn value_from_captures(caps: Seq<Option<Seq<char>>>) -> Option<Value> {
    match value_top(caps) {
        None => None,
        Some(top) => match capture_group(caps, 2) {
            None => Some(Value { data: (top * unit()) as u64 }),
            Some(_) => match value_bottom(caps) {
                None => None,
                Some((b, v)) => Some(
                    Value { data: (top * unit() + v * pow10((10 - b.len()) as nat)) as u64 },
                ),
            },
        },
    }
}

/// What `Value::new` gives for `s`.
pub open spec fn spec_value_new(s: Seq<char>) -> Option<Value> {
    if s == "null"@ {
        Some(Value { data: 0 })
    } else {
        match regex_captures(value_pattern(), s) {
            None => None,
            Some(caps) => if value_captures_in_range(caps) {
                value_from_captures(caps)
            } else {
                None
            },
        }
    }
}

/// The powers of ten from 10^0 to 10^10.
pub proof fn law_pow10_values()
    ensures
        pow10(0) == 1,
        pow10(1) == 10,
        pow10(2) == 100,
        pow10(3) == 1000,
        pow10(4) == 10000,
        pow10(5) == 100000,
        pow10(6) == 1000000,
        pow10(7) == 10000000,
        pow10(8) == 100000000,
        pow10(9) == 1000000000,
        pow10(10) == 10000000000,
{
    reveal_with_fuel(pow10, 11);
}

impl Value {
    /// Reads a value from a packet field: `null` reads as zero; otherwise the
    /// first match of `value_pattern` in `buffer` gives the digits. A match
    /// that `Value::from_captures` cannot take (more than ten fractional
    /// digits, or arithmetic overflow) gives `None`: reading such a field is
    /// refused here rather than treated as a fault.
    pub fn new(buffer: &str) -> (r: Option<Value>)
        ensures
            r == spec_value_new(buffer@),
    {
        if str_equals(buffer, "null") {
            return Some(Value { data: 0 });
        }
        match captures_of("\"*(\\d{1,8})\\.?(\\d{1,12})?", buffer) {
            None => None,
            Some(caps) => {
                if Value::captures_in_range(&caps) {
                    Value::from_captures(&caps)
                } else {
                    None
                }
            },
        }
    }

    /// Whether `caps` meets the requirement of `Value::from_captures`.
    pub fn captures_in_range(caps: &Vec<Option<String>>) -> (r: bool)
        ensures
            r == value_captures_in_range(caps.deep_view()),
    {
        proof {
            law_pow10_values();
        }
        let top = match group_at(caps, 1) {
            None => return true,
            Some(t) => match parse_radix(t, 10, u64::MAX) {
                None => return true,
                Some(v) => v,
            },
        };
        if top > 1844674407 {
            return false;
        }
        let top_units: u64 = top * 10000000000;
        match group_at(caps, 2) {
            None => true,
            Some(b) => match parse_radix(b, 10, u64::MAX) {
                None => true,
                Some(bot) => {
                    let len = chars_of(b).len();
                    if len < 1 || len > 10 {
                        return false;
                    }
                    let scale = Value::fraction_scale(len);
                    let limit: u64 = u64::MAX - top_units;
                    let room: u64 = limit / scale;
                    if bot > room {
                        proof {
                            assert(bot * scale > limit) by (nonlinear_arith)
                                requires
                                    bot > room,
                                    room == limit / scale,
                                    scale > 0,
                            ;
                        }
                        return false;
                    }
                    proof {
                        assert(bot * scale <= limit) by (nonlinear_arith)
                            requires
                                bot <= room,
                                room == limit / scale,
                                scale > 0,
                        ;
                    }
                    true
                },
            },
        }
    }

    /// The multiplier of a fractional part of `len` digits: 10^(10 - len).
    fn fraction_scale(len: usize) -> (r: u64)
        requires
            1 <= len <= 10,
        ensures
            r == pow10((10 - len) as nat),
            r > 0,
    {
        proof {
            law_pow10_values();
        }
        match len {
            1 => 1000000000,
            2 => 100000000,
            3 => 10000000,
            4 => 1000000,
            5 => 100000,
            6 => 10000,
            7 => 1000,
            8 => 100,
            9 => 10,
            _ => 1,
        }
    }

    /// Turns the capture groups of a value match into a value: group 1 is the
    /// integer part, group 2 (where it took part) the fractional digits.
    pub fn from_captures(caps: &Vec<Option<String>>) -> (r: Option<Value>)
        requires
            value_captures_in_range(caps.deep_view()),
        ensures
            r == value_from_captures(caps.deep_view()),
    {
        proof {
            law_pow10_values();
        }
        let top = match group_at(caps, 1) {
            None => return None,
            Some(t) => match parse_radix(t, 10, u64::MAX) {
                None => return None,
                Some(v) => v * 10000000000,
            },
        };
        match group_at(caps, 2) {
            None => Some(Value { data: top }),
            Some(b) => match parse_radix(b, 10, u64::MAX) {
                Some(bot) => {
                    let len = chars_of(b).len();
                    let scale = Value::fraction_scale(len);
                    proof {
                        assert(bot * scale <= u64::MAX - top);
                    }
                    Some(Value { data: top + bot * scale })
                },
                None => None,
            },
        }
    }

    /// The smallest value.
    pub fn zero() -> (r: Value)
        ensures
            r.data == 0,
    {
        Value { data: 0 }
    }

    /// The largest value.
    pub fn max() -> (r: Value)
        ensures
            r.data == u64::MAX,
    {
        Value { data: u64::MAX }
    }
}

/// An order identifier: the 128 bits of a UUID, the first 64 in `data_a`.
#[derive(Clone, Copy, PartialEq, Eq, Structural, PartialOrd, Ord, Debug)]
pub struct UUID {
    pub data_a: u64,
    pub data_b: u64,
}

/// The regular expression that finds a UUID: five groups of 8, 4, 4, 4 and
/// 12 hexadecimal digits, joined by hyphens.
pub open spec fn uuid_pattern() -> Seq<char> {
    "([a-f\\d]{8})-([a-f\\d]{4})-([a-f\\d]{4})-([a-f\\d]{4})-([a-f\\d]{12})"@
}

/// Group `i` of `caps` read as hexadecimal with largest value `max`.
pub open spec fn hex_group(caps: Seq<Option<Seq<char>>>, i: int, max: nat) -> Option<nat> {
    match capture_group(caps, i) {
        Some(g) => radix_value(g, 16, max),
        None => None,
    }
}

/// The UUID that the five groups of a UUID match spell: the first group in
/// the high 32 bits of `data_a`, the second in bits 16 to 31 and the third in
/// the low 16; the fourth in the high 16 bits of `data_b`, plus the fifth
/// (with wrap-around). `None` where a group is missing or does not read as a
/// number of its width (32, 16, 16, 16 and 64 bits).
pub open spec fn uuid_from_captures(caps: Seq<Option<Seq<char>>>) -> Option<UUID> {
    let a = hex_group(caps, 1, u32::MAX as nat);
    let b = hex_group(caps, 2, u16::MAX as nat);
    let c = hex_group(caps, 3, u16::MAX as nat);
    let d = hex_group(caps, 4, u16::MAX as nat);
    let e = hex_group(caps, 5, u64::MAX as nat);
    if a is Some && b is Some && c is Some && d is Some && e is Some {
        Some(
            UUID {
                data_a: (a->0 * 0x1_0000_0000 + b->0 * 0x1_0000 + c->0) as u64,
                data_b: ((d->0 * 0x1_0000_0000_0000 + e->0) % 0x1_0000_0000_0000_0000) as u64,
            },
        )
    } else {
        None
    }
}

/// What `UUID::new` gives for `s`.
pub open spec fn spec_uuid_new(s: Seq<char>) -> Option<UUID> {
    match regex_captures(uuid_pattern(), s) {
        None => None,
        Some(caps) => uuid_from_captures(caps),
    }
}

impl UUID {
    /// Reads the first UUID in `buffer`.
    pub fn new(buffer: &str) -> (r: Option<UUID>)
        ensures
            r == spec_uuid_new(buffer@),
    {
        match captures_of(
            "([a-f\\d]{8})-([a-f\\d]{4})-([a-f\\d]{4})-([a-f\\d]{4})-([a-f\\d]{12})",
            buffer,
        ) {
            None => None,
            Some(caps) => UUID::from_captures(&caps),
        }
    }

    /// Group `i` of `caps` read as hexadecimal, at most `max`.
    fn hex_at(caps: &Vec<Option<String>>, i: usize, max: u64) -> (r: Option<u64>)
        ensures
            match r {
                Some(v) => hex_group(caps.deep_view(), i as int, max as nat) == Some(v as nat),
                None => hex_group(caps.deep_view(), i as int, max as nat) is None,
            },
    {
        match group_at(caps, i) {
            None => None,
            Some(g) => parse_radix(g, 16, max),
        }
    }

    /// Turns the five capture groups of a UUID match into a UUID.
    pub fn from_captures(caps: &Vec<Option<String>>) -> (r: Option<UUID>)
        ensures
            r == uuid_from_captures(caps.deep_view()),
    {
        let a = match UUID::hex_at(caps, 1, 0xffff_ffff) {
            None => return None,
            Some(x) => x * 0x1_0000_0000,
        };
        let b = match UUID::hex_at(caps, 2, 0xffff) {
            None => return None,
            Some(x) => x * 0x1_0000,
        };
        let c = match UUID::hex_at(caps, 3, 0xffff) {
            None => return None,
            Some(x) => x,
        };
        let d = match UUID::hex_at(caps, 4, 0xffff) {
            None => return None,
            Some(x) => x * 0x1_0000_0000_0000,
        };
        let e = match UUID::hex_at(caps, 5, u64::MAX) {
            None => return None,
            Some(x) => x,
        };
        Some(UUID { data_a: a.wrapping_add(b.wrapping_add(c)), data_b: d.wrapping_add(e) })
    }
}

/// The side of the book: offers to sell, and bids to buy.
#[derive(Clone, Copy, Debug, PartialEq, Eq, Structural)]
pub enum Side {
    Sell,
    Buy,
}

/// What `Side::new` gives for `s`.
pub open spec fn spec_side_new(s: Seq<char>) -> Option<Side> {
    if s == "sell"@ {
        Some(Side::Sell)
    } else if s == "buy"@ {
        Some(Side::Buy)
    } else {
        None
    }
}

impl Side {
    /// Reads `sell` or `buy`; anything else is `None`.
    pub fn new(buffer: &str) -> (r: Option<Side>)
        ensures
            r == spec_side_new(buffer@),
    {
        if str_equals(buffer, "sell") {
            Some(Side::Sell)
        } else if str_equals(buffer, "buy") {
            Some(Side::Buy)
        } else {
            None
        }
    }
}

} // verus!
