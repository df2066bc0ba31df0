//! The parameters of a controller and their text form
//! `<check_interval_ms>,<stability_factor>,<averaging_duration_ms>`, for
//! example `1000,0.9,3000`.
//!
//! The two durations are decimal numbers that fit in 64 bits. The stability
//! factor is written as `0.` and up to three digits, not all of them zero;
//! it is kept in thousandths, so `0.9` is 900.

use crate::errors::AdapterError;
use crate::intervals::{IntervalData, IntervalDerivedData};
use vstd::prelude::*;
use vstd::string::*;

verus! {

pub const DEFAULT_CHECK_INTERVAL_MS: u64 = 1000;

pub const DEFAULT_STABILITY_FACTOR: u32 = 900;

pub const DEFAULT_AVERAGING_DURATION_MS: u64 = 3000;

/// One more than the largest stability factor, which stands for 1.
pub const STABILITY_SCALE: u32 = 1000;

/// The digit that `c` shows, if it shows one.
pub open spec fn digit_of(c: char) -> Option<nat> {
    if c == '0' {
        Some(0)
    } else if c == '1' {
        Some(1)
    } else if c == '2' {
        Some(2)
    } else if c == '3' {
        Some(3)
    } else if c == '4' {
        Some(4)
    } else if c == '5' {
        Some(5)
    } else if c == '6' {
        Some(6)
    } else if c == '7' {
        Some(7)
    } else if c == '8' {
        Some(8)
    } else if c == '9' {
        Some(9)
    } else {
        None
    }
}

/// The character that shows the digit `d`.
pub open spec fn digit_char(d: nat) -> char {
    if d == 0 {
        '0'
    } else if d == 1 {
        '1'
    } else if d == 2 {
        '2'
    } else if d == 3 {
        '3'
    } else if d == 4 {
        '4'
    } else if d == 5 {
        '5'
    } else if d == 6 {
        '6'
    } else if d == 7 {
        '7'
    } else if d == 8 {
        '8'
    } else {
        '9'
    }
}

/// The digit that `c` shows, or zero.
pub open spec fn digit_value(c: char) -> nat {
    match digit_of(c) {
        Some(d) => d,
        None => 0,
    }
}

pub open spec fn all_digits(text: Seq<char>) -> bool {
    forall|i: int| 0 <= i < text.len() ==> digit_of(#[trigger] text[i]) is Some
}

/// The number that the digits of `text` write in decimal.
pub open spec fn decimal_value(text: Seq<char>) -> nat
    decreases text.len(),
{
    if text.len() == 0 {
        0
    } else {
        decimal_value(text.drop_last()) * 10 + digit_value(text.last())
    }
}

/// The number that `text` writes, where it is one or more digits and the
/// number fits in 64 bits.
pub open spec fn parse_number(text: Seq<char>) -> Option<u64> {
    if text.len() > 0 && all_digits(text) && decimal_value(text) <= u64::MAX {
        Some(decimal_value(text) as u64)
    } else {
        None
    }
}

/// The stability factor that `text` writes, in thousandths: `0.` and one to
/// three digits, not all of them zero.
pub open spec fn parse_stability(text: Seq<char>) -> Option<u32> {
    if 3 <= text.len() <= 5 && text[0] == '0' && text[1] == '.' && all_digits(text.skip(2))
        && thousandths(text.skip(2)) > 0 {
        Some(thousandths(text.skip(2)) as u32)
    } else {
        None
    }
}

/// The thousandths that up to three digits after a decimal point write.
pub open spec fn thousandths(digits: Seq<char>) -> nat {
    digit_value(digits[0]) * 100 + (if digits.len() > 1 {
        digit_value(digits[1]) * 10
    } else {
        0
    }) + (if digits.len() > 2 {
        digit_value(digits[2])
    } else {
        0
    })
}

/// The position of the first comma in `text`, or the length of `text` where
/// it holds none.
pub open spec fn first_comma(text: Seq<char>) -> int
    decreases text.len(),
{
    if text.len() == 0 || text[0] == ',' {
        0
    } else {
        1 + first_comma(text.drop_first())
    }
}

/// The three parameters that `text` writes: its first three fields, which
/// commas separate. Fields after the third are not read.
pub open spec fn parse_algo_params(text: Seq<char>) -> Option<(u64, u32, u64)> {
    let first_end = first_comma(text);
    let after_first = text.skip(first_end + 1);
    let second_end = first_comma(after_first);
    let after_second = after_first.skip(second_end + 1);
    let third_end = first_comma(after_second);
    if first_end < text.len() && second_end < after_first.len() {
        match (
            parse_number(text.take(first_end)),
            parse_stability(after_first.take(second_end)),
            parse_number(after_second.take(third_end)),
        ) {
            (Some(check_interval_ms), Some(stability_factor), Some(averaging_duration)) => Some(
                (check_interval_ms, stability_factor, averaging_duration),
            ),
            _ => None,
        }
    } else {
        None
    }
}

/// `n` in decimal, without leading zeros.
pub open spec fn decimal(n: nat) -> Seq<char>
    decreases n,
{
    if n < 10 {
        seq![digit_char(n)]
    } else {
        decimal(n / 10).push(digit_char(n % 10))
    }
}

/// A stability factor of `permille` thousandths as text.
pub open spec fn stability_text(permille: nat) -> Seq<char> {
    seq![
        '0',
        '.',
        digit_char(permille / 100),
        digit_char((permille / 10) % 10),
        digit_char(permille % 10),
    ]
}

/// The text form of three parameters.
pub open spec fn algo_params_text(
    check_interval_ms: u64,
    stability_factor: u32,
    averaging_duration: u64,
) -> Seq<char> {
    decimal(check_interval_ms as nat) + seq![','] + stability_text(stability_factor as nat)
        + seq![','] + decimal(averaging_duration as nat)
}

/// What a controller is set up with. `calc_metrics` derives the two metrics
/// from an interval; the stability factor is given in thousandths.
pub struct ScalingParameters<F> {
    pub syscall_nrs: Vec<i32>,
    pub calc_metrics: F,
    /// The least time between two decisions, in milliseconds.
    pub check_interval_ms: u64,
    /// More than 0 and less than `STABILITY_SCALE`: the share of a metric
    /// that must still exceed another for the first to count as better.
    pub stability_factor: u32,
    /// The time over which metrics are averaged, in milliseconds.
    pub averaging_duration: u64,
}

impl<F: Fn(&IntervalData) -> IntervalDerivedData> ScalingParameters<F> {
    /// Whether `calc_metrics` can be called on every interval.
    pub open spec fn accepts_every_interval(self) -> bool {
        forall|data: &IntervalData| call_requires(self.calc_metrics, (data,))
    }

    /// Parameters with the default durations and stability factor.
    pub fn new(syscall_nrs: Vec<i32>, calc_metrics: F) -> (parameters: Self)
        ensures
            parameters.syscall_nrs == syscall_nrs,
            parameters.calc_metrics == calc_metrics,
            parameters.check_interval_ms == DEFAULT_CHECK_INTERVAL_MS,
            parameters.stability_factor == DEFAULT_STABILITY_FACTOR,
            parameters.averaging_duration == DEFAULT_AVERAGING_DURATION_MS,
    {
        ScalingParameters {
            syscall_nrs,
            calc_metrics,
            check_interval_ms: DEFAULT_CHECK_INTERVAL_MS,
            stability_factor: DEFAULT_STABILITY_FACTOR,
            averaging_duration: DEFAULT_AVERAGING_DURATION_MS,
        }
    }

    /// Takes the two durations and the stability factor from their text form.
    /// Text that does not write three parameters is refused, and then no
    /// parameters are left.
    pub fn with_algo_params(self, params_untyped: &str) -> (configured: Result<Self, AdapterError>)
        ensures
            match parse_algo_params(params_untyped@) {
                Some((check_interval_ms, stability_factor, averaging_duration)) => {
                    &&& configured matches Ok(parameters)
                    &&& parameters.syscall_nrs == self.syscall_nrs
                    &&& parameters.calc_metrics == self.calc_metrics
                    &&& parameters.check_interval_ms == check_interval_ms
                    &&& parameters.stability_factor == stability_factor
                    &&& parameters.averaging_duration == averaging_duration
                },
                None => configured == Err::<Self, AdapterError>(AdapterError::MalformedParameters),
            },
    {
        match read_algo_params(params_untyped) {
            Some((check_interval_ms, stability_factor, averaging_duration)) => {
                let mut parameters = self;
                parameters.check_interval_ms = check_interval_ms;
                parameters.stability_factor = stability_factor;
                parameters.averaging_duration = averaging_duration;
                Ok(parameters)
            },
            None => Err(AdapterError::MalformedParameters),
        }
    }

    pub fn with_check_interval_ms(self, check_interval_ms: u64) -> (parameters: Self)
        ensures
            parameters == (ScalingParameters { check_interval_ms, ..self }),
    {
        let mut parameters = self;
        parameters.check_interval_ms = check_interval_ms;
        parameters
    }

    /// Sets the stability factor, in thousandths. It should be more than 0
    /// and less than `STABILITY_SCALE`.
    pub fn with_stability_factor(self, stability_factor: u32) -> (parameters: Self)
        ensures
            parameters == (ScalingParameters { stability_factor, ..self }),
    {
        let mut parameters = self;
        parameters.stability_factor = stability_factor;
        parameters
    }

    pub fn with_averaging_duration_ms(self, averaging_duration_ms: u64) -> (parameters: Self)
        ensures
            parameters == (ScalingParameters { averaging_duration: averaging_duration_ms, ..self }),
    {
        let mut parameters = self;
        parameters.averaging_duration = averaging_duration_ms;
        parameters
    }

    /// The two durations and the stability factor in their text form.
    pub fn algo_params(&self) -> (text: String)
        requires
            self.stability_factor < STABILITY_SCALE,
        ensures
            text@ == algo_params_text(
                self.check_interval_ms,
                self.stability_factor,
                self.averaging_duration,
            ),
    {
        let mut text = String::new();
        append_decimal(&mut text, self.check_interval_ms);
        text.append(",");
        text.append("0.");
        text.append(digit_text((self.stability_factor / 100) as u64));
        text.append(digit_text(((self.stability_factor / 10) % 10) as u64));
        text.append(digit_text((self.stability_factor % 10) as u64));
        text.append(",");
        let ghost head = text@;
        append_decimal(&mut text, self.averaging_duration);
        proof {
            reveal_strlit(",");
            reveal_strlit("0.");
            assert(","@ =~= seq![',']);
            assert("0."@ =~= seq!['0', '.']);
            assert(head =~= decimal(self.check_interval_ms as nat) + seq![','] + stability_text(
                self.stability_factor as nat,
            ) + seq![',']);
        }
        text
    }
}

/// The text of one digit.
fn digit_text(d: u64) -> (text: &'static str)
    requires
        d < 10,
    ensures
        text@ == seq![digit_char(d as nat)],
{
    let text = if d == 0 {
        "0"
    } else if d == 1 {
        "1"
    } else if d == 2 {
        "2"
    } else if d == 3 {
        "3"
    } else if d == 4 {
        "4"
    } else if d == 5 {
        "5"
    } else if d == 6 {
        "6"
    } else if d == 7 {
        "7"
    } else if d == 8 {
        "8"
    } else {
        "9"
    };
    proof {
        reveal_strlit("0");
        reveal_strlit("1");
        reveal_strlit("2");
        reveal_strlit("3");
        reveal_strlit("4");
        reveal_strlit("5");
        reveal_strlit("6");
        reveal_strlit("7");
        reveal_strlit("8");
        reveal_strlit("9");
        assert(text@ =~= seq![digit_char(d as nat)]);
    }
    text
}

/// Writes `n` in decimal at the end of `text`.
fn append_decimal(text: &mut String, n: u64)
    ensures
        final(text)@ == old(text)@ + decimal(n as nat),
    decreases n,
{
    if n >= 10 {
        append_decimal(text, n / 10);
    }
    text.append(digit_text(n % 10));
    proof {
        if n >= 10 {
            assert(text@ =~= old(text)@ + decimal(n as nat));
        }
    }
}

/// The digit that `c` shows, if it shows one.
fn read_digit(c: char) -> (digit: Option<u64>)
    ensures
        match digit {
            Some(d) => digit_of(c) == Some(d as nat),
            None => digit_of(c) is None,
        },
{
    if c == '0' {
        Some(0)
    } else if c == '1' {
        Some(1)
    } else if c == '2' {
        Some(2)
    } else if c == '3' {
        Some(3)
    } else if c == '4' {
        Some(4)
    } else if c == '5' {
        Some(5)
    } else if c == '6' {
        Some(6)
    } else if c == '7' {
        Some(7)
    } else if c == '8' {
        Some(8)
    } else if c == '9' {
        Some(9)
    } else {
        None
    }
}

/// A longer text of digits writes no smaller number than its beginning.
pub proof fn lemma_decimal_value_grows(text: Seq<char>, n: int)
    requires
        0 <= n <= text.len(),
    ensures
        decimal_value(text.take(n)) <= decimal_value(text),
    decreases text.len() - n,
{
    if n == text.len() {
        assert(text.take(n) =~= text);
    } else {
        lemma_decimal_value_grows(text, n + 1);
        assert(text.take(n + 1).drop_last() =~= text.take(n));
    }
}

/// The number that the characters of `text` from `from` up to `to` write.
fn read_number(text: &str, from: usize, to: usize) -> (number: Option<u64>)
    requires
        from <= to <= text@.len(),
    ensures
        number == parse_number(text@.subrange(from as int, to as int)),
{
    let ghost field = text@.subrange(from as int, to as int);
    if from == to {
        return None;
    }
    let mut value: u64 = 0;
    let mut i: usize = from;
    while i < to
        invariant
            from <= i <= to <= text@.len(),
            field == text@.subrange(from as int, to as int),
            all_digits(field.take(i - from)),
            value == decimal_value(field.take(i - from)),
        decreases to - i,
    {
        let c = text.get_char(i);
        proof {
            assert(field[i - from] == c);
            assert(field.take(i - from + 1).drop_last() =~= field.take(i - from));
            lemma_decimal_value_grows(field, i - from + 1);
        }
        let digit = match read_digit(c) {
            Some(digit) => digit,
            None => {
                return None;
            },
        };
        let shifted = match value.checked_mul(10) {
            Some(shifted) => shifted,
            None => {
                return None;
            },
        };
        value = match shifted.checked_add(digit) {
            Some(sum) => sum,
            None => {
                return None;
            },
        };
        i += 1;
    }
    proof {
        assert(field.take(to - from) =~= field);
    }
    Some(value)
}

/// The stability factor that the characters of `text` from `from` up to `to`
/// write, in thousandths.
fn read_stability(text: &str, from: usize, to: usize) -> (factor: Option<u32>)
    requires
        from <= to <= text@.len(),
    ensures
        factor == parse_stability(text@.subrange(from as int, to as int)),
{
    let ghost field = text@.subrange(from as int, to as int);
    if to - from < 3 || to - from > 5 {
        return None;
    }
    if text.get_char(from) != '0' || text.get_char(from + 1) != '.' {
        return None;
    }
    let ghost digits = field.skip(2);
    let amount: usize = to - from - 2;
    let mut value: u32 = 0;
    let mut k: usize = 0;
    while k < amount
        invariant
            k <= amount <= 3,
            amount == to - from - 2,
            to <= text@.len(),
            field == text@.subrange(from as int, to as int),
            digits == field.skip(2),
            forall|j: int| 0 <= j < k ==> digit_of(#[trigger] digits[j]) is Some,
            value == (if k > 0 {
                digit_value(digits[0]) * 100
            } else {
                0
            }) + (if k > 1 {
                digit_value(digits[1]) * 10
            } else {
                0
            }) + (if k > 2 {
                digit_value(digits[2])
            } else {
                0
            }),
        decreases amount - k,
    {
        let c = text.get_char(from + 2 + k);
        assert(digits[k as int] == c);
        let digit = match read_digit(c) {
            Some(digit) => digit,
            None => {
                return None;
            },
        };
        let place: u32 = if k == 0 {
            100
        } else if k == 1 {
            10
        } else {
            1
        };
        value = value + (digit as u32) * place;
        k += 1;
    }
    if value == 0 {
        return None;
    }
    Some(value)
}

/// The position of the first comma of `text` at `from` or later, or the
/// length of `text` where none follows.
fn find_comma(text: &str, from: usize, length: usize) -> (position: usize)
    requires
        from <= length == text@.len(),
    ensures
        position == from + first_comma(text@.skip(from as int)),
        from <= position <= length,
{
    let mut i: usize = from;
    proof {
        assert(text@.skip(from as int).skip(0) =~= text@.skip(from as int));
    }
    while i < length
        invariant
            from <= i <= length == text@.len(),
            first_comma(text@.skip(from as int)) == (i - from) + first_comma(text@.skip(i as int)),
        decreases length - i,
    {
        let c = text.get_char(i);
        proof {
            assert(text@.skip(i as int)[0] == c);
            assert(text@.skip(i as int).drop_first() =~= text@.skip(i + 1));
        }
        if c == ',' {
            return i;
        }
        i += 1;
    }
    i
}

/// The three parameters that `text` writes.
pub fn read_algo_params(text: &str) -> (parameters: Option<(u64, u32, u64)>)
    ensures
        parameters == parse_algo_params(text@),
{
    let length = text.unicode_len();
    let first_end = find_comma(text, 0, length);
    proof {
        assert(text@.skip(0) =~= text@);
    }
    if first_end >= length {
        return None;
    }
    let second_end = find_comma(text, first_end + 1, length);
    if second_end >= length {
        return None;
    }
    let third_end = find_comma(text, second_end + 1, length);
    proof {
        let after_first = text@.skip(first_end + 1);
        let after_second = after_first.skip(second_end - first_end);
        assert(after_second =~= text@.skip(second_end + 1));
        assert(text@.take(first_end as int) =~= text@.subrange(0, first_end as int));
        assert(after_first.take(second_end - first_end - 1) =~= text@.subrange(
            first_end + 1,
            second_end as int,
        ));
        assert(after_second.take(third_end - second_end - 1) =~= text@.subrange(
            second_end + 1,
            third_end as int,
        ));
    }
    let check_interval_ms = read_number(text, 0, first_end);
    let stability_factor = read_stability(text, first_end + 1, second_end);
    let averaging_duration = read_number(text, second_end + 1, third_end);
    match (check_interval_ms, stability_factor, averaging_duration) {
        (Some(check_interval_ms), Some(stability_factor), Some(averaging_duration)) => Some(
            (check_interval_ms, stability_factor, averaging_duration),
        ),
        _ => None,
    }
}

/// A number written in decimal is read back as itself, and its text is made
/// of digits only.
pub proof fn lemma_number_round_trip(n: u64)
    ensures
        parse_number(decimal(n as nat)) == Some(n),
        all_digits(decimal(n as nat)),
        decimal(n as nat).len() > 0,
{
    lemma_decimal(n as nat);
}

/// The text of a number in decimal is made of digits that write the number.
pub proof fn lemma_decimal(n: nat)
    ensures
        all_digits(decimal(n)),
        decimal(n).len() > 0,
        decimal_value(decimal(n)) == n,
    decreases n,
{
    let text = decimal(n);
    if n < 10 {
        assert(digit_of(digit_char(n)) == Some(n));
        assert(text.drop_last() =~= Seq::<char>::empty());
        assert(decimal_value(text.drop_last()) == 0);
    } else {
        lemma_decimal(n / 10);
        assert(digit_of(digit_char(n % 10)) == Some(n % 10));
        assert(text.drop_last() =~= decimal(n / 10));
        assert forall|i: int| 0 <= i < text.len() implies digit_of(#[trigger] text[i]) is Some by {
            if i < text.len() - 1 {
                assert(text[i] == decimal(n / 10)[i]);
            }
        }
    }
}

/// In a text that begins with `head`, which holds no comma, and goes on with
/// a comma, the first comma is the one after `head`.
pub proof fn lemma_first_comma_after(head: Seq<char>, tail: Seq<char>)
    requires
        forall|i: int| 0 <= i < head.len() ==> head[i] != ',',
    ensures
        first_comma(head + seq![','] + tail) == head.len(),
    decreases head.len(),
{
    let text = head + seq![','] + tail;
    if head.len() == 0 {
        assert(text[0] == ',');
    } else {
        assert(text[0] == head[0]);
        let rest = head.drop_first();
        assert(text.drop_first() =~= rest + seq![','] + tail);
        assert forall|i: int| 0 <= i < rest.len() implies rest[i] != ',' by {
            assert(rest[i] == head[i + 1]);
        }
        lemma_first_comma_after(rest, tail);
    }
}

/// In a text without a comma, `first_comma` gives the length.
pub proof fn lemma_no_comma(text: Seq<char>)
    requires
        forall|i: int| 0 <= i < text.len() ==> text[i] != ',',
    ensures
        first_comma(text) == text.len(),
    decreases text.len(),
{
    if text.len() > 0 {
        let rest = text.drop_first();
        assert forall|i: int| 0 <= i < rest.len() implies rest[i] != ',' by {
            assert(rest[i] == text[i + 1]);
        }
        lemma_no_comma(rest);
    }
}

/// A stability factor that lies between 0 and 1 is read back from its text
/// as itself.
pub proof fn lemma_stability_round_trip(permille: u32)
    requires
        0 < permille < STABILITY_SCALE,
    ensures
        parse_stability(stability_text(permille as nat)) == Some(permille),
{
    let p = permille as nat;
    let text = stability_text(p);
    let digits = text.skip(2);
    assert(digits[0] == digit_char(p / 100));
    assert(digits[1] == digit_char((p / 10) % 10));
    assert(digits[2] == digit_char(p % 10));
    assert(digit_of(digit_char(p / 100)) == Some(p / 100));
    assert(digit_of(digit_char((p / 10) % 10)) == Some((p / 10) % 10));
    assert(digit_of(digit_char(p % 10)) == Some(p % 10));
    assert((p / 100) * 100 + ((p / 10) % 10) * 10 + p % 10 == p);
}

/// Reading the text form of three parameters gives the three parameters
/// back, where the stability factor lies between 0 and 1.
pub proof fn lemma_algo_params_round_trip(
    check_interval_ms: u64,
    stability_factor: u32,
    averaging_duration: u64,
)
    requires
        0 < stability_factor < STABILITY_SCALE,
    ensures
        parse_algo_params(algo_params_text(check_interval_ms, stability_factor, averaging_duration))
            == Some((check_interval_ms, stability_factor, averaging_duration)),
{
    let first = decimal(check_interval_ms as nat);
    let second = stability_text(stability_factor as nat);
    let third = decimal(averaging_duration as nat);
    let text = algo_params_text(check_interval_ms, stability_factor, averaging_duration);
    lemma_number_round_trip(check_interval_ms);
    lemma_number_round_trip(averaging_duration);
    lemma_stability_round_trip(stability_factor);
    assert forall|i: int| 0 <= i < first.len() implies first[i] != ',' by {
        assert(digit_of(first[i]) is Some);
    }
    assert forall|i: int| 0 <= i < third.len() implies third[i] != ',' by {
        assert(digit_of(third[i]) is Some);
    }
    assert forall|i: int| 0 <= i < second.len() implies second[i] != ',' by {
        let p = stability_factor as nat;
        assert(digit_of(digit_char(p / 100)) is Some);
        assert(digit_of(digit_char((p / 10) % 10)) is Some);
        assert(digit_of(digit_char(p % 10)) is Some);
    }
    assert(text =~= first + seq![','] + (second + seq![','] + third));
    lemma_first_comma_after(first, second + seq![','] + third);
    let after_first = text.skip(first.len() as int + 1);
    assert(after_first =~= second + seq![','] + third);
    lemma_first_comma_after(second, third);
    let after_second = after_first.skip(second.len() as int + 1);
    assert(after_second =~= third);
    lemma_no_comma(third);
    assert(text.take(first.len() as int) =~= first);
    assert(after_first.take(second.len() as int) =~= second);
    assert(after_second.take(third.len() as int) =~= third);
}

} // verus!
