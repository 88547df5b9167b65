//! A duration in one of several scales.

use core::cmp::Ordering;
use vstd::prelude::*;

use crate::text::{decimal, push_decimal, push_zero_padded, string_push, zero_padded};
use vstd::string::StringExecFns;

verus! {

/// The duration with the smaller scale always fits into that scale, so at most
/// one of the two can fail to be scaled.
proof fn lemma_smaller_scale_fits(a: Duration, b: Duration)
    ensures
        Duration::spec_with_smaller_multiplier(a, b).0 is Some
            || Duration::spec_with_smaller_multiplier(a, b).1 is Some,
{
    let target = Duration::spec_smallest_multiplier(a, b);
    vstd::arithmetic::div_mod::lemma_div_by_self(target as int);
    if a.spec_multiplier() < b.spec_multiplier() {
        assert(a.spec_multiplier() / target == 1);
        assert(a.spec_as_u64() * 1 == a.spec_as_u64());
        assert(a.scaled_to(target) is Some);
    } else {
        assert(b.spec_multiplier() / target == 1);
        assert(b.spec_as_u64() * 1 == b.spec_as_u64());
        assert(b.scaled_to(target) is Some);
    }
}

/// Converting a duration into micro seconds keeps it equal to the duration
/// it was converted from.
pub proof fn lemma_to_micros_keeps_value(d: Duration)
    requires
        d.total_micros() <= u64::MAX,
    ensures
        Duration::spec_eq(Duration::Micros(d.total_micros() as u64), d),
{
    let m = Duration::Micros(d.total_micros() as u64);
    assert(Duration::spec_smallest_multiplier(m, d) == 1);
    assert(d.spec_multiplier() / 1 == d.spec_multiplier());
}

/// scale multiplier for micro seconds
pub const MICROS_MUL: u64 = 1;

/// scale multiplier for milli seconds
pub const MILLIS_MUL: u64 = 1000;

/// scale multiplier for seconds
pub const SECONDS_MUL: u64 = 1_000_000;

/// scale multiplier for minutes
pub const MINUTES_MUL: u64 = 60_000_000;

/// scale multiplier for hours, 60 times the multiplier for minutes
pub const HOURS_MUL: u64 = 3_600_000_000;

/// an enum represention a timed duration
///
/// this does not support fractions so converting into a
/// larger scale will lose information.
#[derive(Clone, Copy)]
pub enum Duration {
    /// duration in microseconds
    Micros(u64),
    /// duration in milliseconds
    Millis(u64),
    /// duration in seconds
    Seconds(u64),
    /// duration in minutse
    Minutes(u64),
    /// duration in hours
    Hours(u64),
}

impl Duration {
    /// The number of micro seconds in one unit of this duration's scale.
    pub open spec fn spec_multiplier(self) -> u64 {
        match self {
            Duration::Micros(_) => MICROS_MUL,
            Duration::Millis(_) => MILLIS_MUL,
            Duration::Seconds(_) => SECONDS_MUL,
            Duration::Minutes(_) => MINUTES_MUL,
            Duration::Hours(_) => HOURS_MUL,
        }
    }

    /// The number of units, in this duration's own scale.
    pub open spec fn spec_as_u64(self) -> u64 {
        match self {
            Duration::Micros(x) => x,
            Duration::Millis(x) => x,
            Duration::Seconds(x) => x,
            Duration::Minutes(x) => x,
            Duration::Hours(x) => x,
        }
    }

    /// The length of this duration in micro seconds.
    pub open spec fn total_micros(self) -> int {
        self.spec_as_u64() * self.spec_multiplier()
    }

    /// This duration expressed in units of `target` micro seconds, or `None` if
    /// that number does not fit into a `u64`.
    pub open spec fn scaled_to(self, target: u64) -> Option<u64> {
        let factor = self.spec_multiplier() / target;
        if self.spec_as_u64() * factor <= u64::MAX {
            Some((self.spec_as_u64() * factor) as u64)
        } else {
            None
        }
    }

    /// The smaller of the two multipliers.
    pub open spec fn spec_smallest_multiplier(a: Duration, b: Duration) -> u64 {
        if a.spec_multiplier() < b.spec_multiplier() {
            a.spec_multiplier()
        } else {
            b.spec_multiplier()
        }
    }

    /// Both durations in the smaller of their two scales.
    pub open spec fn spec_with_smaller_multiplier(a: Duration, b: Duration) -> (Option<u64>, Option<u64>) {
        let target = Duration::spec_smallest_multiplier(a, b);
        (a.scaled_to(target), b.scaled_to(target))
    }

    /// Whether two durations are equal: both fit into the smaller scale and are
    /// the same number there.
    pub open spec fn spec_eq(a: Duration, b: Duration) -> bool {
        match Duration::spec_with_smaller_multiplier(a, b) {
            (Some(x), Some(y)) => x == y,
            _ => false,
        }
    }

    /// creates a new [Duration] in micro seconds
    pub fn new_micros(micros: u64) -> (r: Duration)
        ensures
            r == Duration::Micros(micros),
    {
        Duration::Micros(micros)
    }

    /// creates a new [Duration] in milli seconds
    pub fn new_millis(millis: u64) -> (r: Duration)
        ensures
            r == Duration::Millis(millis),
    {
        Duration::Millis(millis)
    }

    /// creates a new [Duration] in seconds
    pub fn new_seconds(seconds: u64) -> (r: Duration)
        ensures
            r == Duration::Seconds(seconds),
    {
        Duration::Seconds(seconds)
    }

    /// creates a new [Duration] in minutes
    pub fn new_minutes(minutes: u64) -> (r: Duration)
        ensures
            r == Duration::Minutes(minutes),
    {
        Duration::Minutes(minutes)
    }

    /// creates a new [Duration] in hours
    pub fn new_hours(hours: u64) -> (r: Duration)
        ensures
            r == Duration::Hours(hours),
    {
        Duration::Hours(hours)
    }

    /// returns the internally used multiplier for conversions
    fn multiplier(&self) -> (r: u64)
        ensures
            r == self.spec_multiplier(),
    {
        match self {
            Duration::Micros(_) => MICROS_MUL,
            Duration::Millis(_) => MILLIS_MUL,
            Duration::Seconds(_) => SECONDS_MUL,
            Duration::Minutes(_) => MINUTES_MUL,
            Duration::Hours(_) => HOURS_MUL,
        }
    }

    /// The si name suffix of this duration's scale.
    pub open spec fn spec_multiplier_name(self) -> Seq<char> {
        match self {
            Duration::Micros(_) => seq!['\u{b5}', 's'],
            Duration::Millis(_) => seq!['m', 's'],
            Duration::Seconds(_) => seq!['s'],
            Duration::Minutes(_) => seq!['m'],
            Duration::Hours(_) => seq!['h'],
        }
    }

    /// returns the si name suffix
    fn multiplier_name(&self) -> (r: &'static str)
        ensures
            r@ == self.spec_multiplier_name(),
    {
        match self {
            Duration::Micros(_) => {
                let r = "\u{b5}s";
                proof {
                    reveal_strlit("\u{b5}s");
                }
                r
            },
            Duration::Millis(_) => {
                let r = "ms";
                proof {
                    reveal_strlit("ms");
                }
                r
            },
            Duration::Seconds(_) => {
                let r = "s";
                proof {
                    reveal_strlit("s");
                }
                r
            },
            Duration::Minutes(_) => {
                let r = "m";
                proof {
                    reveal_strlit("m");
                }
                r
            },
            Duration::Hours(_) => {
                let r = "h";
                proof {
                    reveal_strlit("h");
                }
                r
            },
        }
    }

    /// returns the smaller multiplier of the 2 durations
    fn smallest_multiplier(a: Duration, b: Duration) -> (r: u64)
        ensures
            r == Duration::spec_smallest_multiplier(a, b),
    {
        if a.multiplier() < b.multiplier() {
            a.multiplier()
        } else {
            b.multiplier()
        }
    }

    /// returns both durations with the smaller muliplier, used for conversions
    fn with_smaller_multiplier(a: Duration, b: Duration) -> (r: (Option<u64>, Option<u64>))
        ensures
            r == Duration::spec_with_smaller_multiplier(a, b),
    {
        let target_multi = Duration::smallest_multiplier(a, b);
        (
            a.as_u64().checked_mul(a.multiplier() / target_multi),
            b.as_u64().checked_mul(b.multiplier() / target_multi),
        )
    }

    /// get's the duration u64 in it's current scale.
    /// use `to_micors().as_u64()` to get a specific scale.
    pub fn as_u64(&self) -> (r: u64)
        ensures
            r == self.spec_as_u64(),
    {
        match self {
            Duration::Micros(x) => *x,
            Duration::Millis(x) => *x,
            Duration::Seconds(x) => *x,
            Duration::Minutes(x) => *x,
            Duration::Hours(x) => *x,
        }
    }

    /// converts duration into micro seconds
    pub fn to_micros(&self) -> (r: Duration)
        requires
            self.total_micros() <= u64::MAX,
        ensures
            r == Duration::Micros((self.total_micros() / MICROS_MUL as int) as u64),
    {
        Duration::new_micros(self.as_u64() * self.multiplier() / MICROS_MUL)
    }

    /// converts duration into milli seconds
    pub fn to_millis(&self) -> (r: Duration)
        requires
            self.total_micros() <= u64::MAX,
        ensures
            r == Duration::Millis((self.total_micros() / MILLIS_MUL as int) as u64),
    {
        Duration::new_millis(self.as_u64() * self.multiplier() / MILLIS_MUL)
    }

    /// converts duration into seconds
    pub fn to_seconds(&self) -> (r: Duration)
        requires
            self.total_micros() <= u64::MAX,
        ensures
            r == Duration::Seconds((self.total_micros() / SECONDS_MUL as int) as u64),
    {
        Duration::new_seconds(self.as_u64() * self.multiplier() / SECONDS_MUL)
    }

    /// converts duration into minutes.
    pub fn to_minutes(&self) -> (r: Duration)
        requires
            self.total_micros() <= u64::MAX,
        ensures
            r == Duration::Minutes((self.total_micros() / MINUTES_MUL as int) as u64),
    {
        Duration::new_minutes(self.as_u64() * self.multiplier() / MINUTES_MUL)
    }

    /// converts duration into hours
    pub fn to_hours(&self) -> (r: Duration)
        requires
            self.total_micros() <= u64::MAX,
        ensures
            r == Duration::Hours((self.total_micros() / HOURS_MUL as int) as u64),
    {
        Duration::new_hours(self.as_u64() * self.multiplier() / HOURS_MUL)
    }
}

impl Duration {
    /// The debug text of a duration: its number in its own scale, followed by
    /// the unit, e.g. `12ms`.
    pub open spec fn debug_text(self) -> Seq<char> {
        decimal(self.spec_as_u64() as nat) + self.spec_multiplier_name()
    }

    /// The display text of a duration.
    ///
    /// A zero duration is shown like its debug text. Otherwise the duration is
    /// shown as `hh:mm:ss.mmm_uuu` followed by the unit of its largest part,
    /// where leading parts that are zero are left out, as is the micro second
    /// part when it is zero.
    pub open spec fn display_text(self) -> Seq<char> {
        if self.spec_as_u64() == 0 {
            self.debug_text()
        } else {
            let s = self.total_micros() as nat;
            let hours = if s >= HOURS_MUL {
                zero_padded(s / HOURS_MUL as nat, 2) + seq![':']
            } else {
                Seq::empty()
            };
            let minutes = if s >= MINUTES_MUL {
                zero_padded((s % HOURS_MUL as nat) / MINUTES_MUL as nat, 2) + seq![':']
            } else {
                Seq::empty()
            };
            let seconds = if s >= SECONDS_MUL {
                zero_padded((s % MINUTES_MUL as nat) / SECONDS_MUL as nat, 2) + seq!['.']
            } else {
                Seq::empty()
            };
            let millis = if s >= MILLIS_MUL {
                zero_padded((s % SECONDS_MUL as nat) / MILLIS_MUL as nat, 3) + if s
                    % MILLIS_MUL as nat > 0 {
                    seq!['_']
                } else {
                    Seq::empty()
                }
            } else {
                Seq::empty()
            };
            let micros = if s % MILLIS_MUL as nat > 0 {
                zero_padded(s % MILLIS_MUL as nat, 3)
            } else {
                Seq::empty()
            };
            let unit = if s >= HOURS_MUL {
                seq!['h']
            } else if s >= MINUTES_MUL {
                seq!['m']
            } else if s >= SECONDS_MUL {
                seq!['s']
            } else if s >= MILLIS_MUL {
                seq!['m', 's']
            } else {
                seq!['\u{b5}', 's']
            };
            hours + minutes + seconds + millis + micros + unit
        }
    }

    /// The debug text of this duration, see [Duration::debug_text].
    pub fn debug_string(&self) -> (r: String)
        ensures
            r@ == self.debug_text(),
    {
        let mut r = String::new();
        push_decimal(&mut r, self.as_u64());
        r.append(self.multiplier_name());
        r
    }

    /// The display text of this duration, see [Duration::display_text].
    pub fn to_string(&self) -> (r: String)
        requires
            self.total_micros() <= u64::MAX,
        ensures
            r@ == self.display_text(),
    {
        if self.as_u64() == 0 {
            return self.debug_string();
        }
        let scaled = self.as_u64() * self.multiplier();
        let mut r = String::new();
        let ghost s = scaled as nat;
        let ghost start = r@;
        if scaled >= HOURS_MUL {
            push_zero_padded(&mut r, scaled / HOURS_MUL, 2);
            string_push(&mut r, ':');
        }
        let ghost after_hours = r@;
        if scaled >= MINUTES_MUL {
            push_zero_padded(&mut r, (scaled % HOURS_MUL) / MINUTES_MUL, 2);
            string_push(&mut r, ':');
        }
        let ghost after_minutes = r@;
        if scaled >= SECONDS_MUL {
            push_zero_padded(&mut r, (scaled % MINUTES_MUL) / SECONDS_MUL, 2);
            string_push(&mut r, '.');
        }
        let ghost after_seconds = r@;
        let rest = scaled % MILLIS_MUL;
        if scaled >= MILLIS_MUL {
            push_zero_padded(&mut r, (scaled % SECONDS_MUL) / MILLIS_MUL, 3);
            if rest > 0 {
                string_push(&mut r, '_');
            }
        }
        let ghost after_millis = r@;
        if rest > 0 {
            push_zero_padded(&mut r, rest, 3);
        }
        let ghost after_micros = r@;
        let unit = if scaled >= HOURS_MUL {
            Duration::new_hours(0).multiplier_name()
        } else if scaled >= MINUTES_MUL {
            Duration::new_minutes(0).multiplier_name()
        } else if scaled >= SECONDS_MUL {
            Duration::new_seconds(0).multiplier_name()
        } else if scaled >= MILLIS_MUL {
            Duration::new_millis(0).multiplier_name()
        } else {
            Duration::new_micros(0).multiplier_name()
        };
        r.append(unit);
        proof {
            assert(r@ =~= self.display_text());
        }
        r
    }
}

impl PartialEq for Duration {
    fn eq(&self, other: &Self) -> (r: bool) {
        match Duration::with_smaller_multiplier(*self, *other) {
            (Some(a), Some(b)) => a == b,
            _ => false,
        }
    }
}

impl vstd::std_specs::cmp::PartialEqSpecImpl for Duration {
    open spec fn obeys_eq_spec() -> bool {
        true
    }

    open spec fn eq_spec(&self, other: &Duration) -> bool {
        Duration::spec_eq(*self, *other)
    }
}

impl Eq for Duration {
}

impl Duration {
    /// How two durations compare: by their value in the smaller of their two
    /// scales; a duration too large for that scale is the larger one.
    pub open spec fn order(a: Duration, b: Duration) -> Ordering {
        match Duration::spec_with_smaller_multiplier(a, b) {
            (Some(x), Some(y)) => if x < y {
                Ordering::Less
            } else if x == y {
                Ordering::Equal
            } else {
                Ordering::Greater
            },
            (Some(_), None) => Ordering::Less,
            (None, Some(_)) => Ordering::Greater,
            (None, None) => Ordering::Equal,
        }
    }

    /// Compares two durations, see [Duration::order].
    pub fn cmp(&self, other: &Self) -> (r: Ordering)
        ensures
            r == Duration::order(*self, *other),
    {
        match Duration::with_smaller_multiplier(*self, *other) {
            (Some(a), Some(b)) => if a < b {
                Ordering::Less
            } else if a == b {
                Ordering::Equal
            } else {
                Ordering::Greater
            },
            (Some(_), None) => Ordering::Less,
            (None, Some(_)) => Ordering::Greater,
            (None, None) => Ordering::Equal,
        }
    }
}

impl PartialOrd for Duration {
    fn partial_cmp(&self, other: &Self) -> (r: Option<Ordering>) {
        Some(self.cmp(other))
    }
}

impl vstd::std_specs::cmp::PartialOrdSpecImpl for Duration {
    open spec fn obeys_partial_cmp_spec() -> bool {
        true
    }

    open spec fn partial_cmp_spec(&self, other: &Duration) -> Option<Ordering> {
        Some(Duration::order(*self, *other))
    }
}

/// The reverse of an ordering.
pub open spec fn reversed(o: Ordering) -> Ordering {
    match o {
        Ordering::Less => Ordering::Greater,
        Ordering::Equal => Ordering::Equal,
        Ordering::Greater => Ordering::Less,
    }
}

/// Comparing the other way round gives the reverse ordering.
pub proof fn lemma_order_antisymmetric(a: Duration, b: Duration)
    ensures
        Duration::order(a, b) == reversed(Duration::order(b, a)),
{
}

/// Two durations compare as equal exactly when they are `==`.
pub proof fn lemma_order_equal_iff_eq(a: Duration, b: Duration)
    ensures
        (Duration::order(a, b) == Ordering::Equal) <==> Duration::spec_eq(a, b),
{
    lemma_smaller_scale_fits(a, b);
}

/// Every duration is equal to itself.
pub proof fn lemma_eq_reflexive(a: Duration)
    ensures
        Duration::spec_eq(a, a),
{
    lemma_smaller_scale_fits(a, a);
}

/// Equality of durations is symmetric.
pub proof fn lemma_eq_symmetric(a: Duration, b: Duration)
    ensures
        Duration::spec_eq(a, b) == Duration::spec_eq(b, a),
{
}

/// Two durations are equal exactly when they are the same number of micro
/// seconds.
proof fn lemma_eq_iff_same_micros(a: Duration, b: Duration)
    ensures
        Duration::spec_eq(a, b) <==> a.total_micros() == b.total_micros(),
{
    let target = Duration::spec_smallest_multiplier(a, b);
    let fa = a.spec_multiplier() / target;
    let fb = b.spec_multiplier() / target;
    assert(fa * target == a.spec_multiplier() && fb * target == b.spec_multiplier()) by {
        assert(target == 1 || target == 1000 || target == 1_000_000 || target == 60_000_000
            || target == 3_600_000_000);
    }
    lemma_smaller_scale_fits(a, b);
    let x = a.spec_as_u64() as int;
    let y = b.spec_as_u64() as int;
    let t = target as int;
    assert(x * fa * t == a.total_micros()) by (nonlinear_arith)
        requires
            fa * t == a.spec_multiplier(),
            a.total_micros() == x * a.spec_multiplier(),
    ;
    assert(y * fb * t == b.total_micros()) by (nonlinear_arith)
        requires
            fb * t == b.spec_multiplier(),
            b.total_micros() == y * b.spec_multiplier(),
    ;
    if a.total_micros() == b.total_micros() {
        assert(x * fa == y * fb) by (nonlinear_arith)
            requires
                x * fa * t == y * fb * t,
                t > 0,
        ;
        vstd::arithmetic::div_mod::lemma_div_by_self(t);
        if a.spec_multiplier() <= b.spec_multiplier() {
            assert(target == a.spec_multiplier());
            assert(fa == 1);
            assert(x * fa == x) by (nonlinear_arith)
                requires
                    fa == 1,
            ;
            assert(y * fb == x);
        } else {
            assert(target == b.spec_multiplier());
            assert(fb == 1);
            assert(y * fb == y) by (nonlinear_arith)
                requires
                    fb == 1,
            ;
            assert(x * fa == y);
        }
    }
    if Duration::spec_eq(a, b) {
        assert(x * fa == y * fb);
        assert(x * fa * t == y * fb * t) by (nonlinear_arith)
            requires
                x * fa == y * fb,
        ;
    }
}

/// Equality of durations is transitive, so that it is an equivalence.
pub proof fn lemma_eq_transitive(a: Duration, b: Duration, c: Duration)
    requires
        Duration::spec_eq(a, b),
        Duration::spec_eq(b, c),
    ensures
        Duration::spec_eq(a, c),
{
    lemma_eq_iff_same_micros(a, b);
    lemma_eq_iff_same_micros(b, c);
    lemma_eq_iff_same_micros(a, c);
}

/// Scaled to the smaller of their two scales, two durations compare as
/// their lengths in micro seconds do, and one that does not fit that scale is
/// the longer one.
proof fn lemma_scaled_micros(a: Duration, b: Duration)
    ensures
        ({
            let (sa, sb) = Duration::spec_with_smaller_multiplier(a, b);
            &&& sa is Some || sb is Some
            &&& (sa is Some && sb is Some) ==> ((sa->0 < sb->0) == (a.total_micros()
                < b.total_micros()) && (sa->0 == sb->0) == (a.total_micros() == b.total_micros()))
            &&& (sa is Some && sb is None) ==> a.total_micros() < b.total_micros()
            &&& (sa is None && sb is Some) ==> a.total_micros() > b.total_micros()
        }),
{
    let target = Duration::spec_smallest_multiplier(a, b);
    let fa = a.spec_multiplier() / target;
    let fb = b.spec_multiplier() / target;
    assert(fa * target == a.spec_multiplier() && fb * target == b.spec_multiplier()) by {
        assert(target == 1 || target == 1000 || target == 1_000_000 || target == 60_000_000
            || target == 3_600_000_000);
    }
    lemma_smaller_scale_fits(a, b);
    let x = a.spec_as_u64() as int;
    let y = b.spec_as_u64() as int;
    let t = target as int;
    assert(x * fa * t == a.total_micros()) by (nonlinear_arith)
        requires
            fa * t == a.spec_multiplier(),
            a.total_micros() == x * a.spec_multiplier(),
    ;
    assert(y * fb * t == b.total_micros()) by (nonlinear_arith)
        requires
            fb * t == b.spec_multiplier(),
            b.total_micros() == y * b.spec_multiplier(),
    ;
    assert(t > 0);
    assert((x * fa < y * fb) == (x * fa * t < y * fb * t)) by (nonlinear_arith)
        requires
            t > 0,
    ;
    assert((x * fa == y * fb) == (x * fa * t == y * fb * t)) by (nonlinear_arith)
        requires
            t > 0,
    ;
}

/// Durations are ordered by their length in micro seconds.
pub proof fn lemma_order_by_micros(a: Duration, b: Duration)
    ensures
        Duration::order(a, b) == (if a.total_micros() < b.total_micros() {
            Ordering::Less
        } else if a.total_micros() == b.total_micros() {
            Ordering::Equal
        } else {
            Ordering::Greater
        }),
{
    lemma_scaled_micros(a, b);
}

/// The order of durations is transitive.
pub proof fn lemma_order_transitive(a: Duration, b: Duration, c: Duration)
    requires
        Duration::order(a, b) == Ordering::Less,
        Duration::order(b, c) == Ordering::Less,
    ensures
        Duration::order(a, c) == Ordering::Less,
{
    lemma_order_by_micros(a, b);
    lemma_order_by_micros(b, c);
    lemma_order_by_micros(a, c);
}

} // verus!
