//! The delay between two posts, written as a number of seconds or minutes.
use vstd::prelude::*;
use vstd::string::*;

verus! {

/// An error described by a message for the user.
#[derive(Debug)]
pub struct ErrorMessage(pub String);

/// Why an environment variable could not be read.
#[derive(Debug, Clone, Copy, PartialEq, Eq, Structural)]
pub enum EnvVarProblem {
    NotPresent,
    NotUnicode,
}

/// The message for an environment variable `key` (its name, read lossily)
/// that could not be read.
pub fn env_var_error(key: &str, problem: EnvVarProblem) -> (r: ErrorMessage)
    ensures
        problem == EnvVarProblem::NotPresent ==> r.0@ == "environment variable '"@ + key@ + "' is not set"@,
        problem == EnvVarProblem::NotUnicode ==> r.0@ == "environment variable '"@ + key@ + "' is not valid UTF-8"@,
{
    let mut msg = String::from_str("environment variable '");
    msg.append(key);
    match problem {
        EnvVarProblem::NotPresent => msg.append("' is not set"),
        EnvVarProblem::NotUnicode => msg.append("' is not valid UTF-8"),
    }
    ErrorMessage(msg)
}

/// A delay, kept as a whole number of seconds.
#[derive(Debug, Clone, Copy, PartialEq, Eq, Structural)]
pub struct Delay {
    secs: u16,
}

/// Whether `b` is an ASCII decimal digit.
pub open spec fn is_digit_byte(b: u8) -> bool {
    48 <= b <= 57
}

/// The value of a sequence of decimal digits, most significant first.
pub open spec fn decimal_value(digits: Seq<u8>) -> nat
    decreases digits.len(),
{
    if digits.len() == 0 {
        0
    } else {
        decimal_value(digits.drop_last()) * 10 + (digits.last() - 48) as nat
    }
}

/// The digits that follow an optional leading `+`.
pub open spec fn unsigned_digits(text: Seq<u8>) -> Seq<u8> {
    if text.len() > 0 && text[0] == 43 {
        text.drop_first()
    } else {
        text
    }
}

/// The `u16` that `text` denotes in the form std's `u16::from_str` accepts:
/// an optional `+`, then one or more decimal digits, with a value that fits.
pub open spec fn spec_parse_u16(text: Seq<u8>) -> Option<u16> {
    let digits = unsigned_digits(text);
    if digits.len() > 0 && (forall|i: int| 0 <= i < digits.len() ==> is_digit_byte(#[trigger] digits[i]))
        && decimal_value(digits) <= 65535 {
        Some(decimal_value(digits) as u16)
    } else {
        None
    }
}

/// The outcome of parsing `text` as a delay: a number followed by `s`
/// (seconds) or `m` (minutes), at most 65535 seconds in all.
pub enum DelayParse {
    /// The delay in seconds.
    Seconds(u16),
    /// The text does not end with `s` or `m`.
    NoUnit,
    /// The number before the unit is not a valid `u16`.
    InvalidNumber,
    /// The number of minutes is more than 65535 seconds.
    TooBig,
}

/// What parsing the bytes of a delay gives.
pub open spec fn spec_parse_delay(bytes: Seq<u8>) -> DelayParse {
    if bytes.len() == 0 || (bytes.last() != 115 && bytes.last() != 109) {
        DelayParse::NoUnit
    } else {
        match spec_parse_u16(bytes.drop_last()) {
            None => DelayParse::InvalidNumber,
            Some(n) => if bytes.last() == 109 {
                if n * 60 > 65535 {
                    DelayParse::TooBig
                } else {
                    DelayParse::Seconds((n * 60) as u16)
                }
            } else {
                DelayParse::Seconds(n)
            },
        }
    }
}

/// A number followed by `s` is that many seconds, and followed by `m` sixty
/// times as many, as long as that fits in 65535 seconds; a number that does
/// not fit is refused as too big with `m`.
pub proof fn law_delay_units(number: Seq<u8>, n: u16)
    requires
        spec_parse_u16(number) == Some(n),
    ensures
        spec_parse_delay(number.push(115)) == DelayParse::Seconds(n),
        n * 60 <= 65535 ==> spec_parse_delay(number.push(109)) == DelayParse::Seconds((n * 60) as u16),
        n * 60 > 65535 ==> spec_parse_delay(number.push(109)) == DelayParse::TooBig,
{
    assert(number.push(115).drop_last() =~= number);
    assert(number.push(109).drop_last() =~= number);
}

/// The ASCII decimal digits of `n`, without leading zeros, as `format!("{n}")`
/// writes them.
pub open spec fn spec_decimal_bytes(n: nat) -> Seq<u8>
    decreases n,
{
    if n < 10 {
        seq![(48 + n) as u8]
    } else {
        spec_decimal_bytes(n / 10).push((48 + n % 10) as u8)
    }
}

/// The digits of `n` are digits, begin with a digit, and have the value `n`.
proof fn lemma_decimal_bytes(n: nat)
    ensures
        spec_decimal_bytes(n).len() > 0,
        is_digit_byte(spec_decimal_bytes(n)[0]),
        forall|i: int| 0 <= i < spec_decimal_bytes(n).len() ==> is_digit_byte(#[trigger] spec_decimal_bytes(n)[i]),
        decimal_value(spec_decimal_bytes(n)) == n,
    decreases n,
{
    let d = spec_decimal_bytes(n);
    if n >= 10 {
        lemma_decimal_bytes(n / 10);
        assert(d.drop_last() =~= spec_decimal_bytes(n / 10));
        assert(d[0] == spec_decimal_bytes(n / 10)[0]);
        assert(d.last() == (48 + n % 10) as u8);
        assert(d.last() - 48 == n % 10);
        assert((n / 10) * 10 + n % 10 == n) by (nonlinear_arith);
        assert(decimal_value(d) == decimal_value(d.drop_last()) * 10 + (d.last() - 48) as nat);
    } else {
        assert(d.drop_last() =~= Seq::<u8>::empty());
        assert(decimal_value(d) == decimal_value(d.drop_last()) * 10 + (d.last() - 48) as nat);
    }
}

/// Writing `n` seconds as text and parsing it gives a delay of `n` seconds:
/// `"{n}s"` always, and `"{n / 60}m"` when `n` is a whole number of minutes.
/// With `law_delays_equal_by_seconds`, `Delay::from_secs(n)` is the delay
/// that parsing either text gives.
pub proof fn law_from_secs_is_parsed_text(n: u16)
    ensures
        spec_parse_delay(spec_decimal_bytes(n as nat).push(115)) == DelayParse::Seconds(n),
        n % 60 == 0 ==> spec_parse_delay(spec_decimal_bytes((n / 60) as nat).push(109)) == DelayParse::Seconds(n),
{
    lemma_decimal_bytes(n as nat);
    assert(unsigned_digits(spec_decimal_bytes(n as nat)) == spec_decimal_bytes(n as nat));
    assert(spec_parse_u16(spec_decimal_bytes(n as nat)) == Some(n));
    law_delay_units(spec_decimal_bytes(n as nat), n);
    let m: u16 = n / 60;
    lemma_decimal_bytes(m as nat);
    assert(unsigned_digits(spec_decimal_bytes(m as nat)) == spec_decimal_bytes(m as nat));
    assert(spec_parse_u16(spec_decimal_bytes(m as nat)) == Some(m));
    law_delay_units(spec_decimal_bytes(m as nat), m);
    if n % 60 == 0 {
        assert(m * 60 == n) by (nonlinear_arith)
            requires
                m == n / 60,
                n % 60 == 0,
        ;
    }
}

/// Two delays of the same number of seconds are the same delay.
pub proof fn law_delays_equal_by_seconds(a: Delay, b: Delay)
    requires
        a.seconds() == b.seconds(),
    ensures
        a == b,
{
}

/// Each extra digit multiplies the value by ten at least.
proof fn lemma_decimal_value_grows(digits: Seq<u8>, k: int)
    requires
        0 <= k <= digits.len(),
        forall|i: int| 0 <= i < digits.len() ==> is_digit_byte(#[trigger] digits[i]),
    ensures
        decimal_value(digits.subrange(0, k)) <= decimal_value(digits),
    decreases digits.len() - k,
{
    if k < digits.len() {
        let next = digits.subrange(0, k + 1);
        assert(next.drop_last() =~= digits.subrange(0, k));
        lemma_decimal_value_grows(digits, k + 1);
    } else {
        assert(digits.subrange(0, k) =~= digits);
    }
}

/// Parses `bytes[start..end]` as std's `u16::from_str` does.
fn parse_u16_bytes(bytes: &[u8], start: usize, end: usize) -> (res: Option<u16>)
    requires
        start <= end <= bytes@.len(),
    ensures
        res == spec_parse_u16(bytes@.subrange(start as int, end as int)),
{
    let ghost text = bytes@.subrange(start as int, end as int);
    let mut i = start;
    if i < end && bytes[i] == 43 {
        i = i + 1;
    }
    let ghost digits = unsigned_digits(text);
    assert(digits =~= bytes@.subrange(i as int, end as int));
    if i == end {
        return None;
    }
    let first = i;
    let mut acc: u32 = 0;
    while i < end
        invariant
            start <= first <= i <= end <= bytes@.len(),
            first < end,
            text == bytes@.subrange(start as int, end as int),
            digits == unsigned_digits(text),
            digits =~= bytes@.subrange(first as int, end as int),
            forall|j: int| first <= j < i ==> is_digit_byte(#[trigger] bytes@[j]),
            acc == decimal_value(bytes@.subrange(first as int, i as int)),
            acc <= 65535,
        decreases end - i,
    {
        let b = bytes[i];
        if b < 48 || b > 57 {
            assert(digits[i - first] == b);
            return None;
        }
        let ghost prev = bytes@.subrange(first as int, i as int);
        let ghost next = bytes@.subrange(first as int, i + 1);
        assert(next.drop_last() =~= prev);
        acc = acc * 10 + (b - 48) as u32;
        i = i + 1;
        if acc > 65535 {
            proof {
                if forall|j: int| 0 <= j < digits.len() ==> is_digit_byte(#[trigger] digits[j]) {
                    assert(digits.subrange(0, i - first) =~= next);
                    lemma_decimal_value_grows(digits, i - first);
                }
            }
            return None;
        }
    }
    assert(bytes@.subrange(first as int, i as int) =~= digits);
    Some(acc as u16)
}

/// The `u64` that `text` denotes in the form std's `u64::from_str` accepts:
/// an optional `+`, then one or more decimal digits, with a value that fits.
pub open spec fn spec_parse_u64(text: Seq<u8>) -> Option<u64> {
    let digits = unsigned_digits(text);
    if digits.len() > 0 && (forall|i: int| 0 <= i < digits.len() ==> is_digit_byte(#[trigger] digits[i]))
        && decimal_value(digits) <= u64::MAX {
        Some(decimal_value(digits) as u64)
    } else {
        None
    }
}

/// Parses `s` as std's `u64::from_str` does.
pub fn parse_u64(s: &str) -> (res: Option<u64>)
    ensures
        res == spec_parse_u64(s.spec_bytes()),
{
    let bytes = s.as_bytes();
    let end = bytes.len();
    let ghost text = bytes@;
    let mut i: usize = 0;
    if i < end && bytes[i] == 43 {
        i = i + 1;
    }
    let ghost digits = unsigned_digits(text);
    assert(digits =~= bytes@.subrange(i as int, end as int));
    if i == end {
        return None;
    }
    let first = i;
    let mut acc: u64 = 0;
    while i < end
        invariant
            first <= i <= end == bytes@.len(),
            first < end,
            text == bytes@,
            bytes@ == s.spec_bytes(),
            digits == unsigned_digits(text),
            digits =~= bytes@.subrange(first as int, end as int),
            forall|j: int| first <= j < i ==> is_digit_byte(#[trigger] bytes@[j]),
            acc == decimal_value(bytes@.subrange(first as int, i as int)),
        decreases end - i,
    {
        let b = bytes[i];
        if b < 48 || b > 57 {
            assert(digits[i - first] == b);
            return None;
        }
        let ghost prev = bytes@.subrange(first as int, i as int);
        let ghost next = bytes@.subrange(first as int, i + 1);
        assert(next.drop_last() =~= prev);
        let d = (b - 48) as u64;
        if acc > (u64::MAX - d) / 10 {
            proof {
                assert(acc * 10 + d > u64::MAX) by (nonlinear_arith)
                    requires
                        acc > (u64::MAX - d) / 10,
                        d <= 9,
                ;
                if forall|j: int| 0 <= j < digits.len() ==> is_digit_byte(#[trigger] digits[j]) {
                    assert(digits.subrange(0, i + 1 - first) =~= next);
                    lemma_decimal_value_grows(digits, i + 1 - first);
                }
            }
            return None;
        }
        assert(acc * 10 + d <= u64::MAX) by (nonlinear_arith)
            requires
                acc <= (u64::MAX - d) / 10,
                d <= 9,
        ;
        acc = acc * 10 + d;
        i = i + 1;
    }
    assert(bytes@.subrange(first as int, i as int) =~= digits);
    Some(acc)
}

impl Delay {
    /// The set of delays, as a number of seconds.
    pub closed spec fn seconds(self) -> nat {
        self.secs as nat
    }

    /// A delay of `secs` seconds.
    pub fn from_secs(secs: u16) -> (d: Delay)
        ensures
            d.seconds() == secs,
    {
        Delay { secs }
    }

    /// The number of seconds of this delay.
    pub fn as_secs(self) -> (secs: u16)
        ensures
            secs == self.seconds(),
    {
        self.secs
    }

    /// This delay as a `Duration`: its seconds, and no fraction of a second.
    pub fn duration(self) -> (r: std::time::Duration)
        ensures
            self.seconds() <= u16::MAX,
            duration_parts(r) == (self.seconds() as u64, 0u32),
    {
        secs_to_duration(self.secs as u64)
    }

    /// Parses a delay written as a number of seconds (`30s`) or minutes (`10m`).
    pub fn parse(s: &str) -> (res: Result<Delay, ErrorMessage>)
        ensures
            match spec_parse_delay(s.spec_bytes()) {
                DelayParse::Seconds(secs) => res matches Ok(d) && d.seconds() == secs,
                DelayParse::NoUnit => res matches Err(e)
                    && e.0@ == "delay must end with 's' or 'm'"@,
                DelayParse::InvalidNumber => res matches Err(e)
                    && e.0@ == s@ + " is not a valid delay"@,
                DelayParse::TooBig => res matches Err(e) && e.0@ == s@ + " is too big"@,
            },
    {
        let raw = s.as_bytes();
        let n = raw.len();
        if n == 0 || (raw[n - 1] != 115 && raw[n - 1] != 109) {
            return Err(ErrorMessage(String::from_str("delay must end with 's' or 'm'")));
        }
        let unit = raw[n - 1];
        assert(raw@.subrange(0, n - 1) =~= raw@.drop_last());
        match parse_u16_bytes(raw, 0, n - 1) {
            None => {
                let mut msg = String::from_str(s);
                msg.append(" is not a valid delay");
                Err(ErrorMessage(msg))
            },
            Some(value) => {
                if unit == 109 {
                    match value.checked_mul(60) {
                        Some(secs) => Ok(Delay { secs }),
                        None => {
                            let mut msg = String::from_str(s);
                            msg.append(" is too big");
                            Err(ErrorMessage(msg))
                        },
                    }
                } else {
                    Ok(Delay { secs: value })
                }
            },
        }
    }
}

impl std::str::FromStr for Delay {
    type Err = ErrorMessage;

    fn from_str(s: &str) -> (res: Result<Delay, ErrorMessage>)
        ensures
            match spec_parse_delay(s.spec_bytes()) {
                DelayParse::Seconds(secs) => res matches Ok(d) && d.seconds() == secs,
                DelayParse::NoUnit => res matches Err(e)
                    && e.0@ == "delay must end with 's' or 'm'"@,
                DelayParse::InvalidNumber => res matches Err(e)
                    && e.0@ == s@ + " is not a valid delay"@,
                DelayParse::TooBig => res matches Err(e) && e.0@ == s@ + " is too big"@,
            },
    {
        Delay::parse(s)
    }
}

/// The length of a `Duration`: its whole seconds and the nanoseconds past
/// them, as `Duration::as_secs` and `Duration::subsec_nanos` give them.
pub uninterp spec fn duration_parts(d: std::time::Duration) -> (u64, u32);

/// `std::time::Duration::from_secs`: as std documents it, a `Duration` of
/// `secs` whole seconds and no fraction of a second.
#[verifier::external_body]
fn secs_to_duration(secs: u64) -> (r: std::time::Duration)
    ensures
        duration_parts(r) == (secs, 0u32),
{
    std::time::Duration::from_secs(secs)
}

} // verus!
