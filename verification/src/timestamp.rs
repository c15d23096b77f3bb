//! Moments in time and the differences between them, in milliseconds.

use crate::text::{decimal_string, parse_u64};
use rand::rngs::StdRng;
use std::num::ParseIntError;
use std::ops::{Add, Div, Mul, Rem, Shl, Shr, Sub};
use std::str::FromStr;
use std::time::SystemTime;
use vstd::prelude::*;

verus! {

/// A timestamp type, representing a concrete moment in time.
#[derive(Clone, Copy, Debug, PartialEq, Eq, PartialOrd, Ord, Hash, Structural)]
pub struct Timestamp(pub u64);

/// A time difference between two timestamps.
#[derive(Clone, Copy, Debug, PartialEq, Eq, PartialOrd, Ord, Hash, Structural)]
pub struct TimeDiff(pub u64);

/// Declares the standard random number generator.
#[verifier::external_type_specification]
#[verifier::external_body]
pub struct ExStdRng(StdRng);

/// Calls `SystemTime::elapsed` on the Unix epoch and hands out the milliseconds; `None` if the
/// system clock reads a time before the epoch. Nothing is claimed of what the clock reads.
#[verifier::external_body]
fn unix_elapsed_millis() -> (r: Option<u128>) {
    match SystemTime::UNIX_EPOCH.elapsed() {
        Ok(elapsed) => Some(elapsed.as_millis()),
        Err(_) => None,
    }
}

/// Calls `rand::Rng::gen_range`, which draws a number from the half-open range `low..high` and
/// panics on an empty one. Which number comes is left to chance.
#[verifier::external_body]
fn gen_range(rng: &mut StdRng, low: u64, high: u64) -> (r: u64)
    requires
        low < high,
    ensures
        low <= r < high,
{
    rand::Rng::gen_range(rng, low, high)
}

impl TimeDiff {
    /// Returns the time difference in milliseconds.
    pub fn millis(&self) -> (r: u64)
        ensures
            r == self.0,
    {
        self.0
    }

    /// Returns the number of milliseconds in decimal.
    pub fn to_text(&self) -> (r: String)
        ensures
            r@ == crate::text::decimal(self.0 as nat),
    {
        decimal_string(self.0)
    }

    /// Reads a number of milliseconds.
    pub fn parse(s: &str) -> (r: Result<TimeDiff, ParseIntError>)
        ensures
            match r {
                Ok(d) => crate::text::parsed_u64(s@) == Some(d.0),
                Err(_) => crate::text::parsed_u64(s@) is None,
            },
    {
        match parse_u64(s) {
            Ok(n) => Ok(TimeDiff(n)),
            Err(e) => Err(e),
        }
    }

    /// Returns the longer of two time differences.
    pub fn max(self, other: TimeDiff) -> (r: TimeDiff)
        ensures
            r == if self.0 <= other.0 {
                other
            } else {
                self
            },
    {
        if self.0 <= other.0 {
            other
        } else {
            self
        }
    }

    /// Adds `rhs` to this time difference.
    pub fn add_assign(&mut self, rhs: TimeDiff)
        requires
            old(self).0 + rhs.0 <= u64::MAX,
        ensures
            final(self).0 == old(self).0 + rhs.0,
    {
        self.0 = self.0 + rhs.0;
    }

    /// Subtracts `rhs` from this time difference.
    pub fn sub_assign(&mut self, rhs: TimeDiff)
        requires
            rhs.0 <= old(self).0,
        ensures
            final(self).0 == old(self).0 - rhs.0,
    {
        self.0 = self.0 - rhs.0;
    }
}

impl Timestamp {
    /// Returns the timestamp of the current moment, or `None` if the system clock reads a time
    /// before the Unix epoch. What the clock reads is not stated; `from_clock` says what each
    /// reading gives.
    pub fn now() -> (r: Option<Timestamp>)
        ensures
            exists|reading: Option<u128>| r == #[trigger] Timestamp::of_clock(reading),
    {
        let reading = unix_elapsed_millis();
        Timestamp::from_clock(reading)
    }

    /// What a reading of the clock gives: a timestamp, unless the time is before the Unix epoch.
    pub open spec fn of_clock(reading: Option<u128>) -> Option<Timestamp> {
        match reading {
            Some(millis) => Some(Timestamp::of_unix_millis(millis)),
            None => None,
        }
    }

    /// Returns the timestamp of a reading of the clock in milliseconds since the Unix epoch, or
    /// `None` for a reading before it.
    pub fn from_clock(reading: Option<u128>) -> (r: Option<Timestamp>)
        ensures
            r == Timestamp::of_clock(reading),
    {
        match reading {
            Some(millis) => Some(Timestamp::from_unix_millis(millis)),
            None => None,
        }
    }

    /// The timestamp of a reading of the clock: its low 64 bits.
    pub open spec fn of_unix_millis(millis: u128) -> Timestamp {
        Timestamp((millis % 0x1_0000_0000_0000_0000) as u64)
    }

    /// Returns the timestamp of a reading of the clock, in milliseconds since the Unix epoch.
    pub fn from_unix_millis(millis: u128) -> (r: Timestamp)
        ensures
            r == Timestamp::of_unix_millis(millis),
    {
        Timestamp((millis % 0x1_0000_0000_0000_0000) as u64)
    }

    /// Returns a zero timestamp.
    pub fn zero() -> (r: Timestamp)
        ensures
            r == Timestamp(0),
    {
        Timestamp(0)
    }

    /// Returns the timestamp as the number of milliseconds since the Unix epoch.
    pub fn millis(&self) -> (r: u64)
        ensures
            r == self.0,
    {
        self.0
    }

    /// Returns the difference between `self` and `other`, or `0` if `self` is earlier than `other`.
    pub fn saturating_sub(self, other: Timestamp) -> (r: TimeDiff)
        ensures
            r.0 == if self.0 >= other.0 {
                self.0 - other.0
            } else {
                0
            },
    {
        if self.0 >= other.0 {
            TimeDiff(self.0 - other.0)
        } else {
            TimeDiff(0)
        }
    }

    /// Returns the number of trailing zeros in the number of milliseconds since the epoch.
    pub fn trailing_zeros(&self) -> (r: u8)
        ensures
            r == self.0.trailing_zeros(),
            r <= 64,
    {
        proof {
            vstd::std_specs::bits::axiom_u64_trailing_zeros(self.0);
        }
        self.0.trailing_zeros() as u8
    }

    /// Returns the later of two timestamps.
    pub fn max(self, other: Timestamp) -> (r: Timestamp)
        ensures
            r == if self.0 <= other.0 {
                other
            } else {
                self
            },
    {
        if self.0 <= other.0 {
            other
        } else {
            self
        }
    }

    /// Generates a random timestamp between 200 and 1000 seconds after a fixed moment.
    pub fn random(rng: &mut StdRng) -> (r: Timestamp)
        ensures
            1_596_763_200_000 <= r.0 < 1_596_764_000_000,
    {
        Timestamp(1_596_763_000_000 + gen_range(rng, 200_000, 1_000_000))
    }

    /// Returns the number of milliseconds in decimal.
    pub fn to_text(&self) -> (r: String)
        ensures
            r@ == crate::text::decimal(self.0 as nat),
    {
        decimal_string(self.0)
    }

    /// Reads a number of milliseconds since the Unix epoch.
    pub fn parse(s: &str) -> (r: Result<Timestamp, ParseIntError>)
        ensures
            match r {
                Ok(t) => crate::text::parsed_u64(s@) == Some(t.0),
                Err(_) => crate::text::parsed_u64(s@) is None,
            },
    {
        match parse_u64(s) {
            Ok(n) => Ok(Timestamp(n)),
            Err(e) => Err(e),
        }
    }

    /// Moves this timestamp forward by `rhs`.
    pub fn add_assign(&mut self, rhs: TimeDiff)
        requires
            old(self).0 + rhs.0 <= u64::MAX,
        ensures
            final(self).0 == old(self).0 + rhs.0,
    {
        self.0 = self.0 + rhs.0;
    }
}

impl FromStr for TimeDiff {
    type Err = ParseIntError;

    fn from_str(s: &str) -> (r: Result<TimeDiff, ParseIntError>) {
        TimeDiff::parse(s)
    }
}

impl FromStr for Timestamp {
    type Err = ParseIntError;

    fn from_str(s: &str) -> (r: Result<Timestamp, ParseIntError>) {
        Timestamp::parse(s)
    }
}

impl Sub<Timestamp> for Timestamp {
    type Output = TimeDiff;

    fn sub(self, other: Timestamp) -> (r: TimeDiff) {
        TimeDiff(self.0 - other.0)
    }
}

impl vstd::std_specs::ops::SubSpecImpl<Timestamp> for Timestamp {
    open spec fn obeys_sub_spec() -> bool {
        true
    }

    open spec fn sub_req(self, rhs: Timestamp) -> bool {
        rhs.0 <= self.0
    }

    open spec fn sub_spec(self, rhs: Timestamp) -> TimeDiff {
        TimeDiff((self.0 - rhs.0) as u64)
    }
}

impl Add<TimeDiff> for Timestamp {
    type Output = Timestamp;

    fn add(self, diff: TimeDiff) -> (r: Timestamp) {
        Timestamp(self.0 + diff.0)
    }
}

impl vstd::std_specs::ops::AddSpecImpl<TimeDiff> for Timestamp {
    open spec fn obeys_add_spec() -> bool {
        true
    }

    open spec fn add_req(self, rhs: TimeDiff) -> bool {
        self.0 + rhs.0 <= u64::MAX
    }

    open spec fn add_spec(self, rhs: TimeDiff) -> Timestamp {
        Timestamp((self.0 + rhs.0) as u64)
    }
}

impl Sub<TimeDiff> for Timestamp {
    type Output = Timestamp;

    fn sub(self, diff: TimeDiff) -> (r: Timestamp) {
        Timestamp(self.0 - diff.0)
    }
}

impl vstd::std_specs::ops::SubSpecImpl<TimeDiff> for Timestamp {
    open spec fn obeys_sub_spec() -> bool {
        true
    }

    open spec fn sub_req(self, rhs: TimeDiff) -> bool {
        rhs.0 <= self.0
    }

    open spec fn sub_spec(self, rhs: TimeDiff) -> Timestamp {
        Timestamp((self.0 - rhs.0) as u64)
    }
}

impl Div<TimeDiff> for Timestamp {
    type Output = u64;

    fn div(self, rhs: TimeDiff) -> (r: u64) {
        self.0 / rhs.0
    }
}

impl vstd::std_specs::ops::DivSpecImpl<TimeDiff> for Timestamp {
    open spec fn obeys_div_spec() -> bool {
        true
    }

    open spec fn div_req(self, rhs: TimeDiff) -> bool {
        rhs.0 != 0
    }

    open spec fn div_spec(self, rhs: TimeDiff) -> u64 {
        self.0 / rhs.0
    }
}

impl Rem<TimeDiff> for Timestamp {
    type Output = TimeDiff;

    fn rem(self, diff: TimeDiff) -> (r: TimeDiff) {
        TimeDiff(self.0 % diff.0)
    }
}

impl vstd::std_specs::ops::RemSpecImpl<TimeDiff> for Timestamp {
    open spec fn obeys_rem_spec() -> bool {
        true
    }

    open spec fn rem_req(self, rhs: TimeDiff) -> bool {
        rhs.0 != 0
    }

    open spec fn rem_spec(self, rhs: TimeDiff) -> TimeDiff {
        TimeDiff(self.0 % rhs.0)
    }
}

impl Shr<u8> for Timestamp {
    type Output = Timestamp;

    fn shr(self, rhs: u8) -> (r: Timestamp) {
        Timestamp(self.0 >> rhs)
    }
}

impl vstd::std_specs::ops::ShrSpecImpl<u8> for Timestamp {
    open spec fn obeys_shr_spec() -> bool {
        true
    }

    open spec fn shr_req(self, rhs: u8) -> bool {
        rhs < 64
    }

    open spec fn shr_spec(self, rhs: u8) -> Timestamp {
        Timestamp(self.0 >> rhs)
    }
}

impl Shl<u8> for Timestamp {
    type Output = Timestamp;

    fn shl(self, rhs: u8) -> (r: Timestamp) {
        Timestamp(self.0 << rhs)
    }
}

impl vstd::std_specs::ops::ShlSpecImpl<u8> for Timestamp {
    open spec fn obeys_shl_spec() -> bool {
        true
    }

    open spec fn shl_req(self, rhs: u8) -> bool {
        rhs < 64
    }

    open spec fn shl_spec(self, rhs: u8) -> Timestamp {
        Timestamp(self.0 << rhs)
    }
}

impl Add<TimeDiff> for TimeDiff {
    type Output = TimeDiff;

    fn add(self, rhs: TimeDiff) -> (r: TimeDiff) {
        TimeDiff(self.0 + rhs.0)
    }
}

impl vstd::std_specs::ops::AddSpecImpl<TimeDiff> for TimeDiff {
    open spec fn obeys_add_spec() -> bool {
        true
    }

    open spec fn add_req(self, rhs: TimeDiff) -> bool {
        self.0 + rhs.0 <= u64::MAX
    }

    open spec fn add_spec(self, rhs: TimeDiff) -> TimeDiff {
        TimeDiff((self.0 + rhs.0) as u64)
    }
}

impl Sub<TimeDiff> for TimeDiff {
    type Output = TimeDiff;

    fn sub(self, rhs: TimeDiff) -> (r: TimeDiff) {
        TimeDiff(self.0 - rhs.0)
    }
}

impl vstd::std_specs::ops::SubSpecImpl<TimeDiff> for TimeDiff {
    open spec fn obeys_sub_spec() -> bool {
        true
    }

    open spec fn sub_req(self, rhs: TimeDiff) -> bool {
        rhs.0 <= self.0
    }

    open spec fn sub_spec(self, rhs: TimeDiff) -> TimeDiff {
        TimeDiff((self.0 - rhs.0) as u64)
    }
}

impl Mul<u64> for TimeDiff {
    type Output = TimeDiff;

    fn mul(self, rhs: u64) -> (r: TimeDiff) {
        TimeDiff(self.0 * rhs)
    }
}

impl vstd::std_specs::ops::MulSpecImpl<u64> for TimeDiff {
    open spec fn obeys_mul_spec() -> bool {
        true
    }

    open spec fn mul_req(self, rhs: u64) -> bool {
        self.0 * rhs <= u64::MAX
    }

    open spec fn mul_spec(self, rhs: u64) -> TimeDiff {
        TimeDiff((self.0 * rhs) as u64)
    }
}

impl Div<u64> for TimeDiff {
    type Output = TimeDiff;

    fn div(self, rhs: u64) -> (r: TimeDiff) {
        TimeDiff(self.0 / rhs)
    }
}

impl vstd::std_specs::ops::DivSpecImpl<u64> for TimeDiff {
    open spec fn obeys_div_spec() -> bool {
        true
    }

    open spec fn div_req(self, rhs: u64) -> bool {
        rhs != 0
    }

    open spec fn div_spec(self, rhs: u64) -> TimeDiff {
        TimeDiff(self.0 / rhs)
    }
}

impl From<u64> for TimeDiff {
    fn from(millis: u64) -> (r: TimeDiff) {
        TimeDiff(millis)
    }
}

impl vstd::std_specs::convert::FromSpecImpl<u64> for TimeDiff {
    open spec fn obeys_from_spec() -> bool {
        true
    }

    open spec fn from_spec(millis: u64) -> TimeDiff {
        TimeDiff(millis)
    }
}

impl From<u64> for Timestamp {
    fn from(millis: u64) -> (r: Timestamp) {
        Timestamp(millis)
    }
}

impl vstd::std_specs::convert::FromSpecImpl<u64> for Timestamp {
    open spec fn obeys_from_spec() -> bool {
        true
    }

    open spec fn from_spec(millis: u64) -> Timestamp {
        Timestamp(millis)
    }
}

/// Moving forward by the difference to an earlier moment leads back to the later one.
pub proof fn law_difference_restores(later: Timestamp, earlier: Timestamp)
    requires
        earlier.0 <= later.0,
    ensures
        vstd::std_specs::ops::AddSpec::add_req(earlier, vstd::std_specs::ops::SubSpec::sub_spec(later, earlier)),
        vstd::std_specs::ops::AddSpec::add_spec(earlier, vstd::std_specs::ops::SubSpec::sub_spec(later, earlier)) == later,
{
}

/// A timestamp is its quotient by a time difference times that difference, plus the remainder.
pub proof fn law_quotient_and_remainder(t: Timestamp, d: TimeDiff)
    requires
        d.0 != 0,
    ensures
        vstd::std_specs::ops::DivSpec::div_spec(t, d) * d.0 + vstd::std_specs::ops::RemSpec::rem_spec(t, d).0 == t.0,
        vstd::std_specs::ops::RemSpec::rem_spec(t, d).0 < d.0,
{
    assert((t.0 as int) == (d.0 as int) * ((t.0 as int) / (d.0 as int)) + (t.0 as int) % (d.0 as int) && (t.0 as int) % (d.0 as int) < d.0) by (nonlinear_arith)
        requires
            d.0 != 0,
    ;
    assert((t.0 / d.0) * d.0 == (d.0 as int) * ((t.0 as int) / (d.0 as int))) by (nonlinear_arith)
        requires
            d.0 != 0,
    ;
}

/// A timestamp and a time difference written as text read back as themselves.
pub proof fn law_text_reads_back(t: Timestamp, d: TimeDiff)
    ensures
        crate::text::parsed_u64(crate::text::decimal(t.0 as nat)) == Some(t.0),
        crate::text::parsed_u64(crate::text::decimal(d.0 as nat)) == Some(d.0),
{
    crate::text::lemma_decimal_parses(t.0);
    crate::text::lemma_decimal_parses(d.0);
}

/// Reading a clock gives the milliseconds that it tells, as long as they fit.
pub proof fn law_clock_tells_milliseconds(millis: u128)
    requires
        millis <= u64::MAX,
    ensures
        Timestamp::of_clock(Some(millis)) matches Some(t) && t.0 == millis,
        Timestamp::of_clock(None) is None,
{
}

/// Shifting a time to the right divides it by a power of two, and shifting it to the left multiplies it,
/// as long as it fits.
pub proof fn law_shifts(t: Timestamp, by: u8)
    requires
        by < 64,
    ensures
        vstd::std_specs::ops::ShrSpec::shr_spec(t, by).0 as int == t.0 as int / (vstd::arithmetic::power2::pow2(by as nat) as int),
        t.0 * vstd::arithmetic::power2::pow2(by as nat) <= u64::MAX ==> vstd::std_specs::ops::ShlSpec::shl_spec(t, by).0 == t.0
            * vstd::arithmetic::power2::pow2(by as nat),
{
    vstd::bits::lemma_u64_shr_is_div(t.0, by as u64);
    assert(t.0 >> by == t.0 >> (by as u64));
    if t.0 * vstd::arithmetic::power2::pow2(by as nat) <= u64::MAX {
        vstd::bits::lemma_u64_shl_is_mul(t.0, by as u64);
        assert(t.0 << by == t.0 << (by as u64));
    }
}

} // verus!
