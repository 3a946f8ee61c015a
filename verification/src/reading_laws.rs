//! What the readers of fields and packets give, stated over the text that
//! they read.
use vstd::prelude::*;
use crate::id_order::{law_digits_bound, law_digits_concat, power};
use crate::op::{closing_pattern, done_pattern, ignore_market_pattern, ignore_pattern, match_pattern, open_pattern, packet_matches, reset_pattern, spec_done_order, spec_make_order_book_op, spec_open_order, done_from_captures, modify_from_captures, open_from_captures, OrderBookOp};
use crate::pattern::capture_group;
use crate::text::{all_digits, char_digit, digits_value, radix_value};
use crate::value::{uuid_pattern, value_pattern, UUID, 
    law_pow10_values, pow10, spec_side_new, spec_uuid_new, spec_value_new, value_captures_in_range,
    value_from_captures, Side, Value,
};

verus! {

/// The name of a side in a packet.
pub open spec fn side_text(side: Side) -> Seq<char> {
    match side {
        Side::Buy => "buy"@,
        Side::Sell => "sell"@,
    }
}

/// A side is read from its name and from nothing else.
pub proof fn law_side_names(text: Seq<char>, side: Side)
    ensures
        spec_side_new(text) == Some(side) <==> text == side_text(side),
        spec_side_new(text) is None <==> (text != side_text(Side::Buy) && text != side_text(
            Side::Sell,
        )),
{
    reveal_strlit("buy");
    reveal_strlit("sell");
    assert("buy"@ != "sell"@) by {
        assert("buy"@.len() != "sell"@.len());
    }
}

/// A decimal digit character stands for its distance from `0`, in every
/// radix from ten up; a lowercase letter stands for ten more than its
/// distance from `a`, where the radix admits it; other characters are no
/// digit.
pub proof fn law_char_digits(c: char, radix: nat)
    requires
        10 <= radix <= 36,
    ensures
        '0' <= c <= '9' ==> char_digit(c, radix) == Some((c as int - '0' as int) as nat),
        ('a' <= c <= 'z' && c as int - 'a' as int + 10 < radix) ==> char_digit(c, radix) == Some(
            (c as int - 'a' as int + 10) as nat,
        ),
        ('a' <= c <= 'z' && c as int - 'a' as int + 10 >= radix) ==> char_digit(c, radix) is None,
        ('A' <= c <= 'Z' && c as int - 'A' as int + 10 < radix) ==> char_digit(c, radix) == Some(
            (c as int - 'A' as int + 10) as nat,
        ),
        ('A' <= c <= 'Z' && c as int - 'A' as int + 10 >= radix) ==> char_digit(c, radix) is None,
        !('0' <= c <= '9') && !('a' <= c <= 'z') && !('A' <= c <= 'Z') ==> char_digit(
            c,
            radix,
        ) is None,
{
}

/// A leading `+` is allowed and changes nothing: the text after it is read
/// as it would be alone.
pub proof fn law_plus_sign(s: Seq<char>, radix: nat, max: nat)
    requires
        s.len() > 0,
        s[0] != '+',
    ensures
        radix_value(seq!['+'] + s, radix, max) == radix_value(s, radix, max),
        radix_value(seq!['+'], radix, max) is None,
        radix_value(Seq::<char>::empty(), radix, max) is None,
{
    assert((seq!['+'] + s).drop_first() =~= s);
    assert(seq!['+'].drop_first() =~= Seq::<char>::empty());
}

/// Text of digits is read as the number it spells where that number fits,
/// and refused where it does not; a character that is no digit is refused.
pub proof fn law_radix_reading(s: Seq<char>, radix: nat, max: nat)
    requires
        s.len() > 0,
        s[0] != '+',
    ensures
        all_digits(s, radix) && digits_value(s, radix) <= max ==> radix_value(s, radix, max) == Some(
            digits_value(s, radix),
        ),
        all_digits(s, radix) && digits_value(s, radix) > max ==> radix_value(s, radix, max) is None,
        (exists|i: int| 0 <= i < s.len() && (#[trigger] char_digit(s[i], radix)) is None)
            ==> radix_value(s, radix, max) is None,
{
}

/// `null` reads as the value zero.
pub proof fn law_null_value()
    ensures
        spec_value_new("null"@) == Some(Value { data: 0 }),
{
}

/// `s` is written only with the characters `0` to `9`.
pub open spec fn is_decimal_text(s: Seq<char>) -> bool {
    forall|i: int| 0 <= i < s.len() ==> '0' <= #[trigger] s[i] && s[i] <= '9'
}

/// The number a decimal numeral stands for: each digit times ten to the
/// number of digits after it.
pub open spec fn decimal_numeral(s: Seq<char>) -> nat
    decreases s.len(),
{
    if s.len() == 0 {
        0
    } else {
        ((s[0] as int - '0' as int) as nat) * pow10((s.len() - 1) as nat) + decimal_numeral(
            s.drop_first(),
        )
    }
}

/// Ten to a power is `pow10` of it.
proof fn lemma_power_ten(n: nat)
    ensures
        power(10, n) == pow10(n),
    decreases n,
{
    if n > 0 {
        lemma_power_ten((n - 1) as nat);
    }
}

/// `pow10` of a sum is the product of the `pow10`s.
proof fn lemma_pow10_add(a: nat, b: nat)
    ensures
        pow10(a + b) == pow10(a) * pow10(b),
    decreases a,
{
    if a == 0 {
        assert(pow10(0) == 1);
        assert(1 * pow10(b) == pow10(b));
    } else {
        lemma_pow10_add((a - 1) as nat, b);
        assert(((a + b - 1) as nat) == ((a - 1) as nat) + b);
        assert(pow10(a + b) == 10 * pow10(((a - 1) as nat) + b));
        assert(10 * (pow10((a - 1) as nat) * pow10(b)) == (10 * pow10((a - 1) as nat)) * pow10(b))
            by (nonlinear_arith);
    }
}

/// Decimal text is read in radix ten as the number the numeral stands for,
/// and that number is below ten to the number of digits.
pub proof fn law_decimal_reading(s: Seq<char>)
    requires
        is_decimal_text(s),
    ensures
        all_digits(s, 10),
        digits_value(s, 10) == decimal_numeral(s),
        decimal_numeral(s) < pow10(s.len()),
    decreases s.len(),
{
    assert forall|i: int| 0 <= i < s.len() implies (#[trigger] char_digit(s[i], 10)) is Some by {
        assert('0' <= s[i] && s[i] <= '9');
    }
    if s.len() > 0 {
        let rest = s.drop_first();
        assert(is_decimal_text(rest)) by {
            assert forall|i: int| 0 <= i < rest.len() implies '0' <= #[trigger] rest[i] && rest[i]
                <= '9' by {
                assert(rest[i] == s[i + 1]);
            }
        }
        law_decimal_reading(rest);
        let head = seq![s[0]];
        assert(head + rest =~= s);
        assert(head.drop_last() =~= Seq::<char>::empty());
        assert(head.last() == s[0]);
        assert('0' <= s[0] && s[0] <= '9');
        assert(char_digit(s[0], 10) == Some((s[0] as int - 48) as nat));
        assert(digits_value(head.drop_last(), 10) == 0);
        assert(digits_value(head, 10) == (s[0] as int - '0' as int) as nat);
        law_digits_concat(head, rest, 10);
        lemma_power_ten(rest.len());
    }
    law_digits_bound(s, 10);
    lemma_power_ten(s.len());
}

/// A numeral of zeros stands for zero.
pub proof fn law_zero_numeral(s: Seq<char>)
    requires
        forall|i: int| 0 <= i < s.len() ==> #[trigger] s[i] == '0',
    ensures
        decimal_numeral(s) == 0,
    decreases s.len(),
{
    if s.len() > 0 {
        let rest = s.drop_first();
        assert forall|i: int| 0 <= i < rest.len() implies #[trigger] rest[i] == '0' by {
            assert(rest[i] == s[i + 1]);
        }
        law_zero_numeral(rest);
        assert(s[0] == '0');
        let p = pow10((s.len() - 1) as nat);
        assert(((s[0] as int - '0' as int) as nat) == 0);
        assert(0 * p == 0);
    }
}

/// A value read from an integer part of one to eight decimal digits and a
/// fractional part of one to ten decimal digits is the integer part times
/// 10^10 plus the fraction scaled so that its first digit is tenths; it is
/// always in range, and a fraction of zeros adds nothing.
pub proof fn law_decimal_value(caps: Seq<Option<Seq<char>>>, int_part: Seq<char>, frac: Seq<char>)
    requires
        capture_group(caps, 1) == Some(int_part),
        1 <= int_part.len() <= 8,
        is_decimal_text(int_part),
        capture_group(caps, 2) == Some(frac),
        1 <= frac.len() <= 10,
        is_decimal_text(frac),
    ensures
        value_captures_in_range(caps),
        decimal_numeral(int_part) * 10000000000 + decimal_numeral(frac) * pow10(
            (10 - frac.len()) as nat,
        ) < 1000000010000000000,
        value_from_captures(caps) == Some(
            Value {
                data: (decimal_numeral(int_part) * 10000000000 + decimal_numeral(frac) * pow10(
                    (10 - frac.len()) as nat,
                )) as u64,
            },
        ),
        (forall|i: int| 0 <= i < frac.len() ==> #[trigger] frac[i] == '0') ==> value_from_captures(
            caps,
        ) == Some(Value { data: (decimal_numeral(int_part) * 10000000000) as u64 }),
{
    law_pow10_values();
    law_decimal_reading(int_part);
    law_decimal_reading(frac);
    let i = decimal_numeral(int_part);
    let f = decimal_numeral(frac);
    assert(int_part[0] != '+');
    assert(frac[0] != '+');
    assert(radix_value(int_part, 10, u64::MAX as nat) == Some(i));
    assert(radix_value(frac, 10, u64::MAX as nat) == Some(f));
    let k = (10 - frac.len()) as nat;
    lemma_pow10_add(frac.len(), k);
    assert(frac.len() + k == 10);
    lemma_pow10_monotone_8(int_part.len());
    assert(i < 100000000);
    assert(f * pow10(k) < 10000000000) by (nonlinear_arith)
        requires
            f < pow10(frac.len()),
            pow10(frac.len()) * pow10(k) == 10000000000,
            pow10(k) >= 1,
    ;
    assert(i * 10000000000 < 1000000000000000000) by (nonlinear_arith)
        requires
            i < 100000000,
    ;
    if forall|j: int| 0 <= j < frac.len() ==> #[trigger] frac[j] == '0' {
        law_zero_numeral(frac);
        assert(f == 0);
        assert(f * pow10(k) == 0) by (nonlinear_arith)
            requires
                f == 0,
        ;
    }
}

/// Ten to at most eight is at most 10^8.
proof fn lemma_pow10_monotone_8(n: nat)
    requires
        n <= 8,
    ensures
        pow10(n) <= 100000000,
        pow10(n) >= 1,
{
    law_pow10_values();
}

/// A value read from an integer part of one to eight decimal digits with no
/// fractional part is the integer part times 10^10.
pub proof fn law_whole_value(caps: Seq<Option<Seq<char>>>, int_part: Seq<char>)
    requires
        capture_group(caps, 1) == Some(int_part),
        1 <= int_part.len() <= 8,
        is_decimal_text(int_part),
        capture_group(caps, 2) is None,
    ensures
        value_captures_in_range(caps),
        value_from_captures(caps) == Some(
            Value { data: (decimal_numeral(int_part) * 10000000000) as u64 },
        ),
{
    law_pow10_values();
    law_decimal_reading(int_part);
    lemma_pow10_monotone_8(int_part.len());
    assert(int_part[0] != '+');
    let i = decimal_numeral(int_part);
    assert(radix_value(int_part, 10, u64::MAX as nat) == Some(i));
    assert(i * 10000000000 < 1000000000000000000) by (nonlinear_arith)
        requires
            i < 100000000,
    ;
}

/// Group `i` of `caps` took part and reads as the order id `id`.
pub open spec fn id_in_group(caps: Seq<Option<Seq<char>>>, i: int, id: UUID) -> bool {
    capture_group(caps, i) is Some && spec_uuid_new(capture_group(caps, i)->0) == Some(id)
}

/// Group `i` of `caps` took part and reads as the value `v`.
pub open spec fn value_in_group(caps: Seq<Option<Seq<char>>>, i: int, v: Value) -> bool {
    capture_group(caps, i) is Some && spec_value_new(capture_group(caps, i)->0) == Some(v)
}

/// A trade packet fills the order named in group 1, on the side named in
/// group 2, by the size in group 3; it is read whenever all three read.
pub proof fn law_trade_reading(caps: Seq<Option<Seq<char>>>)
    ensures
        modify_from_captures(caps) is Some ==> modify_from_captures(caps)->0 is Modify,
        modify_from_captures(caps) matches Some(OrderBookOp::Modify(id, side, size)) ==> {
            &&& capture_group(caps, 2) == Some(side_text(side))
            &&& id_in_group(caps, 1, id)
            &&& value_in_group(caps, 3, size)
        },
        forall|id: UUID, side: Side, size: Value|
            #![trigger id_in_group(caps, 1, id), side_text(side), value_in_group(caps, 3, size)]
            id_in_group(caps, 1, id) && capture_group(caps, 2) == Some(side_text(side))
                && value_in_group(caps, 3, size) ==> modify_from_captures(caps) == Some(
                OrderBookOp::Modify(id, side, size),
            ),
{
    if capture_group(caps, 2) is Some {
        law_side_names(capture_group(caps, 2)->0, Side::Buy);
        law_side_names(capture_group(caps, 2)->0, Side::Sell);
    }
}

/// An open packet places the order named in group 3, on the side named in
/// group 1, at the price in group 2 with the size in group 4.
pub proof fn law_open_reading(caps: Seq<Option<Seq<char>>>)
    ensures
        open_from_captures(caps) is Some ==> open_from_captures(caps)->0 is Open,
        open_from_captures(caps) matches Some(OrderBookOp::Open(id, side, price, size)) ==> {
            &&& capture_group(caps, 1) == Some(side_text(side))
            &&& value_in_group(caps, 2, price)
            &&& id_in_group(caps, 3, id)
            &&& value_in_group(caps, 4, size)
        },
        forall|id: UUID, side: Side, price: Value, size: Value|
            #![trigger side_text(side), value_in_group(caps, 2, price), id_in_group(caps, 3, id), value_in_group(caps, 4, size)]
            capture_group(caps, 1) == Some(side_text(side)) && value_in_group(caps, 2, price)
                && id_in_group(caps, 3, id) && value_in_group(caps, 4, size) ==> open_from_captures(
                caps,
            ) == Some(OrderBookOp::Open(id, side, price, size)),
{
    if capture_group(caps, 1) is Some {
        law_side_names(capture_group(caps, 1)->0, Side::Buy);
        law_side_names(capture_group(caps, 1)->0, Side::Sell);
    }
}

/// A done packet takes off the order named in group 2, from the side named
/// in group 1.
pub proof fn law_done_reading(caps: Seq<Option<Seq<char>>>)
    ensures
        done_from_captures(caps) is Some ==> done_from_captures(caps)->0 is Done,
        done_from_captures(caps) matches Some(OrderBookOp::Done(id, side)) ==> {
            &&& capture_group(caps, 1) == Some(side_text(side))
            &&& id_in_group(caps, 2, id)
        },
        forall|id: UUID, side: Side|
            #![trigger side_text(side), id_in_group(caps, 2, id)]
            capture_group(caps, 1) == Some(side_text(side)) && id_in_group(caps, 2, id)
                ==> done_from_captures(caps) == Some(OrderBookOp::Done(id, side)),
{
    if capture_group(caps, 1) is Some {
        law_side_names(capture_group(caps, 1)->0, Side::Buy);
        law_side_names(capture_group(caps, 1)->0, Side::Sell);
    }
}

/// A run of `width` characters, each a lowercase letter from `a` to `f` or
/// a digit, captured as a group.
pub open spec fn hex_run(width: Seq<char>) -> Seq<char> {
    "([a-f\\d]{"@ + width + "})"@
}

/// The UUID pattern is five hexadecimal runs of 8, 4, 4, 4 and 12
/// characters joined by hyphens: every group admits the same characters.
pub proof fn law_uuid_pattern_shape()
    ensures
        uuid_pattern() == hex_run("8"@) + "-"@ + hex_run("4"@) + "-"@ + hex_run("4"@) + "-"@
            + hex_run("4"@) + "-"@ + hex_run("12"@),
{
    reveal_strlit("([a-f\\d]{8})-([a-f\\d]{4})-([a-f\\d]{4})-([a-f\\d]{4})-([a-f\\d]{12})");
    reveal_strlit("([a-f\\d]{");
    reveal_strlit("})");
    reveal_strlit("8");
    reveal_strlit("4");
    reveal_strlit("12");
    reveal_strlit("-");
    assert(uuid_pattern() =~= hex_run("8"@) + "-"@ + hex_run("4"@) + "-"@ + hex_run("4"@) + "-"@
        + hex_run("4"@) + "-"@ + hex_run("12"@));
}

/// The value pattern takes optional quotes, one to eight integer digits, an
/// optional point and up to twelve fractional digits.
pub proof fn law_value_pattern_shape()
    ensures
        value_pattern() == "\"*"@ + "(\\d{1,8})"@ + "\\.?"@ + "(\\d{1,12})?"@,
{
    reveal_strlit("\"*(\\d{1,8})\\.?(\\d{1,12})?");
    reveal_strlit("\"*");
    reveal_strlit("(\\d{1,8})");
    reveal_strlit("\\.?");
    reveal_strlit("(\\d{1,12})?");
    assert(value_pattern() =~= "\"*"@ + "(\\d{1,8})"@ + "\\.?"@ + "(\\d{1,12})?"@);
}

/// The rules that set packets aside: a packet is ignored only as a change or
/// received packet, or as the done packet of a market order (a literal
/// prefix with no alternative, so nothing about the reason or a limit
/// order); the closing packet is one literal; a reset packet names the type
/// `reset`.
pub proof fn law_ignore_rules_shape()
    ensures
        ignore_pattern() == "\\{\"type\":\""@ + "change|received"@ + "\".*}"@,
        ignore_market_pattern() == "\\{\"type\":\"done\",\"order_type\":\"market\""@ + ".*}"@,
        !ignore_market_pattern().contains('|'),
        closing_pattern() == "\\{\"type\":\"closing\"\\}"@,
        !closing_pattern().contains('|'),
        reset_pattern() == ".*"@ + "\"type\":\"reset\""@ + ".*"@,
        !reset_pattern().contains('|'),
{
    reveal_strlit("\\{\"type\":\"change|received\".*}");
    reveal_strlit("\\{\"type\":\"");
    reveal_strlit("change|received");
    reveal_strlit("\".*}");
    reveal_strlit("\\{\"type\":\"done\",\"order_type\":\"market\".*}");
    reveal_strlit("\\{\"type\":\"done\",\"order_type\":\"market\"");
    reveal_strlit(".*}");
    reveal_strlit("\\{\"type\":\"closing\"\\}");
    reveal_strlit(".*\"type\":\"reset\".*");
    reveal_strlit(".*");
    reveal_strlit("\"type\":\"reset\"");
    assert(ignore_pattern() =~= "\\{\"type\":\""@ + "change|received"@ + "\".*}"@);
    assert(ignore_market_pattern() =~= "\\{\"type\":\"done\",\"order_type\":\"market\""@ + ".*}"@);
    assert(reset_pattern() =~= ".*"@ + "\"type\":\"reset\""@ + ".*"@);
}

/// The patterns of the three readable packets: open, limit done and trade.
pub proof fn law_reading_patterns_shape()
    ensures
        open_pattern() == ".*\"type\":\"open\",.*\"side\":\"(buy|sell)\",\"price\":(null|\"[\\d\\.]+\"),\"order_id\":\"([a-z\\d-]+)\",\"remaining_size\":(null|\"[\\d\\.]+\")"@,
        done_pattern() == ".*type\":\"done\",\"order_type\":\"limit\",\"side\":\"(buy|sell)\".*\"order_id\":\"([a-z\\d-]+)\""@,
        match_pattern() == ".*\"type\":\"match\",\"sequence\":.*\"taker_order_id\":\"([a-f\\d-]+)\",\"side\":\"(buy|sell)\",\"size\":(null|\"[\\d\\.]+\"),\"price\":(null|\"[\\d\\.]+\"),"@,
{
}

/// How a packet is read: the rules that set packets aside come first, in
/// the order ignore, closing, reset; then an open reading, then a limit done
/// reading, then a trade reading.
pub proof fn law_packet_cascade(packet: Seq<char>)
    ensures
        packet_matches(ignore_pattern(), packet) || packet_matches(ignore_market_pattern(), packet)
            ==> spec_make_order_book_op(packet) == Some(OrderBookOp::Ignored),
        !packet_matches(ignore_pattern(), packet) && !packet_matches(ignore_market_pattern(), packet)
            && packet_matches(closing_pattern(), packet) ==> spec_make_order_book_op(packet)
            == Some(OrderBookOp::Error),
        ({
            let set_aside = packet_matches(ignore_pattern(), packet) || packet_matches(
                ignore_market_pattern(),
                packet,
            ) || packet_matches(closing_pattern(), packet) || packet_matches(reset_pattern(), packet);
            &&& !set_aside && spec_open_order(packet) is Some ==> spec_make_order_book_op(packet)
                == spec_open_order(packet)
            &&& !set_aside && spec_open_order(packet) is None && spec_done_order(packet) is Some
                ==> spec_make_order_book_op(packet) == spec_done_order(packet)
        }),
{
}

} // verus!
