//! Timestamps and durations.

use vstd::prelude::*;

verus! {

/// A timestamp based on the tsc counter
#[derive(Debug, Default, Clone, Copy, PartialEq, Eq, Structural)]
pub struct TscTimestamp(u64);

impl View for TscTimestamp {
    type V = u64;

    closed spec fn view(&self) -> u64 {
        self.0
    }
}

impl TscTimestamp {
    /// The timestamp at tick `t`.
    pub closed spec fn at(t: u64) -> Self {
        TscTimestamp(t)
    }

    /// The ticks of a timestamp are the ticks it was made from.
    pub proof fn lemma_at(t: u64)
        ensures
            Self::at(t)@ == t,
    {
    }

    /// Create a new timestamp
    pub fn new(t: u64) -> (r: Self)
        ensures
            r@ == t,
            r == Self::at(t),
    {
        Self(t)
    }

    /// convert the timsetamp to a u64
    pub fn as_u64(self) -> (r: u64)
        ensures
            r == self@,
    {
        self.0
    }
}

impl From<u64> for TscTimestamp {
    fn from(value: u64) -> (r: Self)
        ensures
            r@ == value,
    {
        Self::new(value)
    }
}

impl vstd::std_specs::convert::FromSpecImpl<u64> for TscTimestamp {
    open spec fn obeys_from_spec() -> bool {
        true
    }

    open spec fn from_spec(v: u64) -> Self {
        TscTimestamp::at(v)
    }
}

impl From<TscTimestamp> for u64 {
    fn from(value: TscTimestamp) -> (r: Self)
        ensures
            r == value@,
    {
        value.as_u64()
    }
}

impl vstd::std_specs::convert::FromSpecImpl<TscTimestamp> for u64 {
    open spec fn obeys_from_spec() -> bool {
        true
    }

    open spec fn from_spec(v: TscTimestamp) -> Self {
        v@
    }
}

impl core::ops::Sub<TscTimestamp> for TscTimestamp {
    type Output = TscDuration;

    /// The signed number of ticks from `rhs` to `self`, which must fit into an `i64`.
    fn sub(self, rhs: TscTimestamp) -> (r: TscDuration)
        ensures
            r@ == self@ - rhs@,
    {
        let slf = self.0 as i128;
        let rhs = rhs.0 as i128;
        TscDuration((slf - rhs) as i64)
    }
}

impl vstd::std_specs::ops::SubSpecImpl<TscTimestamp> for TscTimestamp {
    open spec fn obeys_sub_spec() -> bool {
        true
    }

    open spec fn sub_req(self, rhs: TscTimestamp) -> bool {
        i64::MIN <= self@ - rhs@ <= i64::MAX
    }

    open spec fn sub_spec(self, rhs: TscTimestamp) -> TscDuration {
        TscDuration::from_ticks((self@ - rhs@) as i64)
    }
}

/// A duration based on the tsc counter
#[derive(Debug, Default, Clone, Copy, PartialEq, Eq, Structural)]
pub struct TscDuration(i64);

impl View for TscDuration {
    type V = i64;

    closed spec fn view(&self) -> i64 {
        self.0
    }
}

impl TscDuration {
    /// The duration of `t` ticks.
    pub closed spec fn from_ticks(t: i64) -> Self {
        TscDuration(t)
    }

    /// The ticks of a duration are the ticks it was made from.
    pub proof fn lemma_from_ticks(t: i64)
        ensures
            Self::from_ticks(t)@ == t,
    {
    }

    /// Two durations with the same ticks are the same duration.
    pub proof fn lemma_view_injective(a: Self, b: Self)
        ensures
            a@ == b@ ==> a == b,
    {
    }

    /// create a new duration
    pub fn new(t: i64) -> (r: Self)
        ensures
            r@ == t,
            r == Self::from_ticks(t),
    {
        Self(t)
    }

    /// convert the duration to an i64
    pub fn as_i64(self) -> (r: i64)
        ensures
            r == self@,
    {
        self.0
    }
}

impl From<i64> for TscDuration {
    fn from(value: i64) -> (r: Self)
        ensures
            r@ == value,
    {
        Self::new(value)
    }
}

impl vstd::std_specs::convert::FromSpecImpl<i64> for TscDuration {
    open spec fn obeys_from_spec() -> bool {
        true
    }

    open spec fn from_spec(v: i64) -> Self {
        TscDuration::from_ticks(v)
    }
}

impl From<TscDuration> for i64 {
    fn from(value: TscDuration) -> (r: Self)
        ensures
            r == value@,
    {
        value.as_i64()
    }
}

impl vstd::std_specs::convert::FromSpecImpl<TscDuration> for i64 {
    open spec fn obeys_from_spec() -> bool {
        true
    }

    open spec fn from_spec(v: TscDuration) -> Self {
        v@
    }
}

impl TryFrom<i128> for TscDuration {
    type Error = core::num::TryFromIntError;

    /// The duration of `value` ticks, or an error if `value` does not fit into an `i64`.
    fn try_from(value: i128) -> (r: Result<Self, Self::Error>)
        ensures
            r is Ok <==> i64::MIN <= value <= i64::MAX,
            r matches Ok(d) ==> d@ == value,
    {
        match i64::try_from(value) {
            Ok(v) => Ok(Self::new(v)),
            Err(e) => Err(e),
        }
    }
}

impl vstd::std_specs::convert::TryFromSpecImpl<i128> for TscDuration {
    open spec fn obeys_try_from_spec() -> bool {
        true
    }

    open spec fn try_from_spec(v: i128) -> Result<Self, Self::Error> {
        match <i64 as vstd::std_specs::convert::TryFromSpec<i128>>::try_from_spec(v) {
            Ok(t) => Ok(TscDuration::from_ticks(t)),
            Err(e) => Err(e),
        }
    }
}

impl TryFrom<u64> for TscDuration {
    type Error = core::num::TryFromIntError;

    /// The duration of `value` ticks, or an error if `value` does not fit into an `i64`.
    fn try_from(value: u64) -> (r: Result<Self, Self::Error>)
        ensures
            r is Ok <==> value <= i64::MAX,
            r matches Ok(d) ==> d@ == value,
    {
        match i64::try_from(value as i128) {
            Ok(v) => Ok(Self::new(v)),
            Err(e) => Err(e),
        }
    }
}

impl vstd::std_specs::convert::TryFromSpecImpl<u64> for TscDuration {
    open spec fn obeys_try_from_spec() -> bool {
        true
    }

    open spec fn try_from_spec(v: u64) -> Result<Self, Self::Error> {
        match <i64 as vstd::std_specs::convert::TryFromSpec<i128>>::try_from_spec(v as i128) {
            Ok(t) => Ok(TscDuration::from_ticks(t)),
            Err(e) => Err(e),
        }
    }
}

impl core::ops::Add<TscDuration> for TscDuration {
    type Output = TscDuration;

    /// The sum of two durations, which must fit into an `i64`.
    fn add(self, rhs: TscDuration) -> (r: TscDuration)
        ensures
            r@ == self@ + rhs@,
    {
        TscDuration(self.0 + rhs.0)
    }
}

impl vstd::std_specs::ops::AddSpecImpl<TscDuration> for TscDuration {
    open spec fn obeys_add_spec() -> bool {
        true
    }

    open spec fn add_req(self, rhs: TscDuration) -> bool {
        i64::MIN <= self@ + rhs@ <= i64::MAX
    }

    open spec fn add_spec(self, rhs: TscDuration) -> TscDuration {
        TscDuration::from_ticks((self@ + rhs@) as i64)
    }
}

impl core::ops::Sub<TscDuration> for TscDuration {
    type Output = TscDuration;

    /// The difference of two durations, which must fit into an `i64`.
    fn sub(self, rhs: TscDuration) -> (r: TscDuration)
        ensures
            r@ == self@ - rhs@,
    {
        TscDuration(self.0 - rhs.0)
    }
}

impl vstd::std_specs::ops::SubSpecImpl<TscDuration> for TscDuration {
    open spec fn obeys_sub_spec() -> bool {
        true
    }

    open spec fn sub_req(self, rhs: TscDuration) -> bool {
        i64::MIN <= self@ - rhs@ <= i64::MAX
    }

    open spec fn sub_spec(self, rhs: TscDuration) -> TscDuration {
        TscDuration::from_ticks((self@ - rhs@) as i64)
    }
}

impl core::ops::Add<TscDuration> for TscTimestamp {
    type Output = TscTimestamp;

    /// The timestamp `rhs` ticks after `self`, which must lie within `u64`.
    fn add(self, rhs: TscDuration) -> (r: TscTimestamp)
        ensures
            r@ == self@ + rhs@,
    {
        let tsc = (self.0 as i128) + (rhs.0 as i128);
        TscTimestamp(tsc as u64)
    }
}

impl vstd::std_specs::ops::AddSpecImpl<TscDuration> for TscTimestamp {
    open spec fn obeys_add_spec() -> bool {
        true
    }

    open spec fn add_req(self, rhs: TscDuration) -> bool {
        0 <= self@ + rhs@ <= u64::MAX
    }

    open spec fn add_spec(self, rhs: TscDuration) -> TscTimestamp {
        TscTimestamp::at((self@ + rhs@) as u64)
    }
}

impl core::ops::Sub<TscDuration> for TscTimestamp {
    type Output = TscTimestamp;

    /// The timestamp `rhs` ticks before `self`, which must lie within `u64`.
    fn sub(self, rhs: TscDuration) -> (r: TscTimestamp)
        ensures
            r@ == self@ - rhs@,
    {
        let tsc = (self.0 as i128) - (rhs.0 as i128);
        TscTimestamp(tsc as u64)
    }
}

impl vstd::std_specs::ops::SubSpecImpl<TscDuration> for TscTimestamp {
    open spec fn obeys_sub_spec() -> bool {
        true
    }

    open spec fn sub_req(self, rhs: TscDuration) -> bool {
        0 <= self@ - rhs@ <= u64::MAX
    }

    open spec fn sub_spec(self, rhs: TscDuration) -> TscTimestamp {
        TscTimestamp::at((self@ - rhs@) as u64)
    }
}

} // verus!

verus! {

/// Moving a timestamp by a duration and measuring the distance back gives the
/// same duration: `(t + d) - t == d`.
pub proof fn lemma_timestamp_add_then_measure(t: TscTimestamp, d: TscDuration)
    requires
        0 <= t@ + d@ <= u64::MAX,
    ensures
        ({
            let moved = TscTimestamp::at((t@ + d@) as u64);
            &&& moved@ == t@ + d@
            &&& TscDuration::from_ticks((moved@ - t@) as i64) == d
        }),
{
    TscTimestamp::lemma_at((t@ + d@) as u64);
    TscDuration::lemma_from_ticks(d@);
    TscDuration::lemma_view_injective(TscDuration::from_ticks(d@), d);
}

/// Adding a duration and subtracting it again gives back the duration it
/// started from.
pub proof fn lemma_duration_add_then_sub(a: TscDuration, b: TscDuration)
    requires
        i64::MIN <= a@ + b@ <= i64::MAX,
    ensures
        TscDuration::from_ticks((TscDuration::from_ticks((a@ + b@) as i64)@ - b@) as i64) == a,
{
    TscDuration::lemma_from_ticks((a@ + b@) as i64);
    TscDuration::lemma_from_ticks(a@);
    TscDuration::lemma_view_injective(TscDuration::from_ticks(a@), a);
}

} // verus!
