use vstd::prelude::*;

verus! {

/// Largest baud-rate prescaler the timing register can hold.
pub const PRESCALER_MAX: u16 = 1024;

/// Largest length of time segment 1, in time quanta.
pub const SEG1_MAX: u8 = 16;

/// Largest length of time segment 2, in time quanta.
pub const SEG2_MAX: u8 = 8;

/// Largest resynchronization jump width, in time quanta.
pub const SJW_MAX: u8 = 4;

/// Fewest time quanta a bit can span (sync segment plus one quantum per segment).
pub const QUANTA_MIN: u8 = 3;

/// Most time quanta a bit can span (sync segment plus both segments at their maximum).
pub const QUANTA_MAX: u8 = 25;

/// Nominal bit timing: a bit lasts `1 + seg1 + seg2` quanta of `prescaler` clock cycles each.
#[derive(Clone, Copy, Debug, PartialEq, Eq)]
pub struct BitTiming {
    pub prescaler: u16,
    pub seg1: u8,
    pub seg2: u8,
    pub sjw: u8,
}

impl BitTiming {
    /// Time quanta per bit.
    pub open spec fn quanta(self) -> int {
        1 + self.seg1 + self.seg2
    }

    /// How far the sample point lies before seven eighths of the bit,
    /// in units of `1 / (8 * quanta)` of a bit.
    pub open spec fn offset(self) -> int {
        7 * self.quanta() - 8 * (1 + self.seg1)
    }

    /// Every field within what the hardware can represent, the jump width derived from `seg2`.
    pub open spec fn in_range(self) -> bool {
        &&& 1 <= self.prescaler <= PRESCALER_MAX
        &&& 1 <= self.seg1 <= SEG1_MAX
        &&& 1 <= self.seg2 <= SEG2_MAX
        &&& self.sjw == (if self.seg2 < SJW_MAX { self.seg2 } else { SJW_MAX })
    }

    /// The sample point `(1 + seg1) / quanta` lies between 75% and 87.5%.
    pub open spec fn sample_point_in_band(self) -> bool {
        &&& 4 * (1 + self.seg1) >= 3 * self.quanta()
        &&& 8 * (1 + self.seg1) <= 7 * self.quanta()
    }
}

/// `clock / (prescaler * quanta)` is exactly `bitrate`.
pub open spec fn exact_rate(clock: u32, bitrate: u32, t: BitTiming) -> bool {
    &&& bitrate > 0
    &&& clock as int == bitrate as int * t.prescaler as int * t.quanta()
}

/// `t` is an admissible timing for `bitrate` from a peripheral clock of `clock` Hz.
pub open spec fn is_solution(clock: u32, bitrate: u32, t: BitTiming) -> bool {
    &&& t.in_range()
    &&& t.sample_point_in_band()
    &&& exact_rate(clock, bitrate, t)
}

/// `t` samples strictly closer to seven eighths of the bit than `u`.
pub open spec fn closer(t: BitTiming, u: BitTiming) -> bool {
    t.offset() * u.quanta() < u.offset() * t.quanta()
}

/// `t` is at least as good as `u`: closer to the target sample point, or as close
/// with no more quanta per bit.
pub open spec fn at_least_as_good(t: BitTiming, u: BitTiming) -> bool {
    ||| closer(t, u)
    ||| (t.offset() * u.quanta() == u.offset() * t.quanta() && t.quanta() <= u.quanta())
}

/// The timing chosen for `bitrate` from `clock`: an admissible one that is at
/// least as good as every admissible one.
pub open spec fn is_best_solution(clock: u32, bitrate: u32, t: BitTiming) -> bool {
    &&& is_solution(clock, bitrate, t)
    &&& forall|u: BitTiming| #[trigger] is_solution(clock, bitrate, u) ==> at_least_as_good(t, u)
}

proof fn lemma_cross_trans(x1: int, y1: int, x2: int, y2: int, x3: int, y3: int)
    requires
        y1 > 0,
        y2 > 0,
        y3 > 0,
        x1 * y2 <= x2 * y1,
        x2 * y3 <= x3 * y2,
    ensures
        x1 * y3 <= x3 * y1,
        (x1 * y2 < x2 * y1 || x2 * y3 < x3 * y2) ==> x1 * y3 < x3 * y1,
{
    assert(x1 * y2 * y3 <= x2 * y1 * y3) by (nonlinear_arith)
        requires x1 * y2 <= x2 * y1, y3 > 0;
    assert(x2 * y3 * y1 <= x3 * y2 * y1) by (nonlinear_arith)
        requires x2 * y3 <= x3 * y2, y1 > 0;
    assert(x1 * y3 <= x3 * y1) by (nonlinear_arith)
        requires x1 * y2 * y3 <= x2 * y1 * y3, x2 * y3 * y1 <= x3 * y2 * y1, y2 > 0;
    if x1 * y2 < x2 * y1 {
        assert(x1 * y2 * y3 < x2 * y1 * y3) by (nonlinear_arith)
            requires x1 * y2 < x2 * y1, y3 > 0;
        assert(x1 * y3 < x3 * y1) by (nonlinear_arith)
            requires x1 * y2 * y3 < x2 * y1 * y3, x2 * y3 * y1 <= x3 * y2 * y1, y2 > 0;
    }
    if x2 * y3 < x3 * y2 {
        assert(x2 * y3 * y1 < x3 * y2 * y1) by (nonlinear_arith)
            requires x2 * y3 < x3 * y2, y1 > 0;
        assert(x1 * y3 < x3 * y1) by (nonlinear_arith)
            requires x1 * y2 * y3 <= x2 * y1 * y3, x2 * y3 * y1 < x3 * y2 * y1, y2 > 0;
    }
}

/// The preference between timings is transitive.
pub proof fn lemma_at_least_as_good_trans(a: BitTiming, b: BitTiming, c: BitTiming)
    requires
        at_least_as_good(a, b),
        at_least_as_good(b, c),
    ensures
        at_least_as_good(a, c),
{
    lemma_cross_trans(a.offset(), a.quanta(), b.offset(), b.quanta(), c.offset(), c.quanta());
}

/// The best admissible timing with exactly `n` quanta per bit, if there is one.
fn best_with_quanta(clock: u32, bitrate: u32, n: u8) -> (r: Option<BitTiming>)
    requires
        bitrate > 0,
        QUANTA_MIN <= n <= QUANTA_MAX,
    ensures
        match r {
            Some(t) => {
                &&& is_solution(clock, bitrate, t)
                &&& t.quanta() == n
                &&& forall|u: BitTiming| #[trigger] is_solution(clock, bitrate, u) && u.quanta() == n
                    ==> at_least_as_good(t, u)
            },
            None => forall|u: BitTiming| #[trigger] is_solution(clock, bitrate, u) ==> u.quanta() != n,
        },
{
    assert(bitrate as int * n as int <= 0xffff_ffff * 255) by (nonlinear_arith)
        requires bitrate <= 0xffff_ffff, n <= 255;
    let q: u64 = bitrate as u64 * n as u64;
    assert(q > 0) by (nonlinear_arith)
        requires q as int == bitrate as int * n as int, bitrate > 0, n > 0;
    assert forall|u: BitTiming| #[trigger] is_solution(clock, bitrate, u) && u.quanta() == n implies
        clock as u64 % q == 0 && (clock as u64 / q) as int == u.prescaler as int by {
        assert(clock as int == u.prescaler as int * q as int + 0) by (nonlinear_arith)
            requires clock as int == bitrate as int * u.prescaler as int * n as int,
                q as int == bitrate as int * n as int;
        vstd::arithmetic::div_mod::lemma_fundamental_div_mod_converse(
            clock as int, q as int, u.prescaler as int, 0);
    }
    if clock as u64 % q != 0 {
        return None;
    }
    let p: u64 = clock as u64 / q;
    if p < 1 || p > PRESCALER_MAX as u64 {
        return None;
    }
    // The offset falls as seg1 grows, so the best split takes the largest
    // seg1 that keeps the sample point at or below seven eighths.
    let mut s1: u8 = 7 * n / 8 - 1;
    if s1 > SEG1_MAX {
        s1 = SEG1_MAX;
    }
    if s1 > n - 2 {
        s1 = n - 2;
    }
    let s2: u8 = n - 1 - s1;
    if s1 < 1 || s2 > SEG2_MAX || 4 * (1 + s1 as u32) < 3 * n as u32 {
        return None;
    }
    let sjw: u8 = if s2 < SJW_MAX { s2 } else { SJW_MAX };
    let t = BitTiming { prescaler: p as u16, seg1: s1, seg2: s2, sjw };
    assert(clock as int == p as int * q as int) by {
        vstd::arithmetic::div_mod::lemma_fundamental_div_mod(clock as int, q as int);
    }
    assert(clock as int == bitrate as int * t.prescaler as int * t.quanta()) by (nonlinear_arith)
        requires clock as int == p as int * q as int, q as int == bitrate as int * n as int,
            t.prescaler as int == p as int, t.quanta() == n as int;
    assert forall|u: BitTiming| #[trigger] is_solution(clock, bitrate, u) && u.quanta() == n implies
        at_least_as_good(t, u) by {
        assert(t.offset() <= u.offset());
        assert(t.offset() * u.quanta() <= u.offset() * t.quanta()) by (nonlinear_arith)
            requires t.offset() <= u.offset(), u.quanta() == t.quanta(), t.quanta() > 0;
    }
    Some(t)
}

/// Chooses the bit timing for `bitrate` from a peripheral clock of `clock` Hz:
/// among the admissible timings, the one whose sample point lies closest to
/// seven eighths of the bit, and of equally close ones the one with the fewest
/// quanta. `None` when no timing is admissible.
pub fn calc_can_timings(clock: u32, bitrate: u32) -> (r: Option<BitTiming>)
    ensures
        match r {
            Some(t) => is_best_solution(clock, bitrate, t),
            None => forall|u: BitTiming| !#[trigger] is_solution(clock, bitrate, u),
        },
{
    if bitrate == 0 {
        return None;
    }
    let mut best: Option<BitTiming> = None;
    let mut n: u8 = QUANTA_MIN;
    while n <= QUANTA_MAX
        invariant
            bitrate > 0,
            QUANTA_MIN <= n <= QUANTA_MAX + 1,
            match best {
                Some(b) => is_solution(clock, bitrate, b) && b.quanta() < n,
                None => true,
            },
            forall|u: BitTiming| #[trigger] is_solution(clock, bitrate, u) && u.quanta() < n
                ==> (best matches Some(b) && at_least_as_good(b, u)),
        decreases QUANTA_MAX + 1 - n,
    {
        match best_with_quanta(clock, bitrate, n) {
            Some(c) => {
                match best {
                    None => {
                        best = Some(c);
                    },
                    Some(b) => {
                        let (co, bq, bo, cq) = (c.offset_num(), b.quanta_num(), b.offset_num(), c.quanta_num());
                        assert(co as int * bq as int <= 255 * 255) by (nonlinear_arith)
                            requires co <= 255, bq <= 255;
                        assert(bo as int * cq as int <= 255 * 255) by (nonlinear_arith)
                            requires bo <= 255, cq <= 255;
                        if (co as u64) * (bq as u64) < (bo as u64) * (cq as u64) {
                            assert forall|u: BitTiming| #[trigger] is_solution(clock, bitrate, u)
                                && u.quanta() <= n implies at_least_as_good(c, u) by {
                                if u.quanta() < n {
                                    lemma_at_least_as_good_trans(c, b, u);
                                }
                            }
                            best = Some(c);
                        } else {
                            assert forall|u: BitTiming| #[trigger] is_solution(clock, bitrate, u)
                                && u.quanta() <= n implies at_least_as_good(b, u) by {
                                if u.quanta() == n {
                                    lemma_at_least_as_good_trans(b, c, u);
                                }
                            }
                        }
                    },
                }
            },
            None => {},
        }
        n = n + 1;
    }
    best
}

impl BitTiming {
    /// Time quanta per bit.
    pub fn quanta_num(&self) -> (r: u8)
        requires
            self.in_range(),
        ensures
            r as int == self.quanta(),
    {
        1 + self.seg1 + self.seg2
    }

    /// The sample point's distance below seven eighths of the bit, in units of `1 / (8 * quanta)`.
    pub fn offset_num(&self) -> (r: u8)
        requires
            self.in_range(),
            self.sample_point_in_band(),
        ensures
            r as int == self.offset(),
    {
        7 * self.quanta_num() - 8 * (1 + self.seg1)
    }
}

} // verus!
