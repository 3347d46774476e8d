//! Small helpers shared by the services.
use std::time::Instant;
use vstd::prelude::*;

use crate::ids::{is_random_uuid, new_v4};

verus! {

/// A value together with an id.
pub struct Indexed<I, T> {
    pub id: I,
    pub value: T,
}

impl<T> Indexed<u128, T> {
    /// `value` under a new random id.
    pub fn from_value(value: T) -> (r: Indexed<u128, T>)
        ensures
            r.value == value,
            is_random_uuid(r.id),
    {
        Indexed { id: new_v4(), value }
    }
}

#[verifier::external_type_specification]
#[verifier::external_body]
pub struct ExInstant(Instant);

/// The current instant of the monotonic clock: `std::time::Instant::now`.
/// Nothing is claimed of it.
#[verifier::external_body]
fn instant_now() -> Instant {
    Instant::now()
}

/// The whole milliseconds since `instant`: `std::time::Instant::elapsed` and
/// `Duration::as_millis`. It depends on the clock: nothing is claimed of it.
#[verifier::external_body]
fn millis_since(instant: &Instant) -> u128 {
    instant.elapsed().as_millis()
}

/// The decimal digit for `d` (0 to 9).
pub open spec fn decimal_digit(d: nat) -> char {
    (48 + d) as char
}

/// The decimal text of `n`, without leading zeros.
pub open spec fn spec_decimal(n: nat) -> Seq<char>
    decreases n,
{
    if n < 10 {
        seq![decimal_digit(n)]
    } else {
        spec_decimal(n / 10).push(decimal_digit(n % 10))
    }
}

/// The decimal text of `n`: `ToString` of `u128`, which writes an unsigned
/// integer as its decimal digits.
#[verifier::external_body]
fn decimal_text(n: u128) -> (r: String)
    ensures
        r@ == spec_decimal(n as nat),
{
    n.to_string()
}

/// The line that reports how long the work `name` took.
pub open spec fn spec_report(name: Seq<char>, ms: u128) -> Seq<char> {
    "'"@ + name + "' took "@ + spec_decimal(ms as nat) + " ms"@
}

/// The line that reports that the work `name` took `ms` milliseconds.
pub fn report_text(name: &str, ms: u128) -> (r: String)
    ensures
        r@ == spec_report(name@, ms),
{
    let mut text = String::from_str("'");
    text.append(name);
    text.append("' took ");
    let digits = decimal_text(ms);
    text.append(digits.as_str());
    text.append(" ms");
    text
}

/// A stopwatch with a name, for timing parts of the work.
pub struct NamedInstant {
    name: String,
    instant: Instant,
}

impl NamedInstant {
    /// Starts a stopwatch called `name`.
    pub fn now(name: String) -> (r: NamedInstant)
        ensures
            r.name() == name,
    {
        NamedInstant { name, instant: instant_now() }
    }

    pub closed spec fn name(&self) -> String {
        self.name
    }

    /// Whole milliseconds since the stopwatch was started, as the monotonic
    /// clock tells them: the count depends on the time of the call, so
    /// nothing is claimed of it.
    fn elapsed_ms(&self) -> u128 {
        millis_since(&self.instant)
    }

    /// The line that reports the time since the stopwatch was started, in
    /// whole milliseconds.
    pub fn report_in_ms(&self) -> (r: String)
        ensures
            exists|ms: u128| r@ == #[trigger] spec_report(self.name()@, ms),
    {
        let ms = self.elapsed_ms();
        let r = report_text(self.name.as_str(), ms);
        assert(r@ == spec_report(self.name()@, ms));
        r
    }
}

} // verus!
