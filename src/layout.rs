//! Rectangles, width constraints and the horizontal constraint solver.
use vstd::prelude::*;

verus! {

/// A rectangular region of cells.
#[derive(Debug, Clone, Copy, PartialEq, Eq, Structural, Hash)]
pub struct Rect {
    pub x: u16,
    pub y: u16,
    pub width: u16,
    pub height: u16,
}

impl Rect {
    pub fn new(x: u16, y: u16, width: u16, height: u16) -> (r: Rect)
        ensures
            r == (Rect { x, y, width, height }),
    {
        Rect { x, y, width, height }
    }

    /// Number of cells covered by the region.
    pub fn area(&self) -> (r: u32)
        ensures
            r == self.width * self.height,
    {
        proof {
            vstd::arithmetic::mul::lemma_mul_upper_bound(
                self.width as int,
                0xffff,
                self.height as int,
                0xffff,
            );
        }
        (self.width as u32) * (self.height as u32)
    }

    pub fn left(&self) -> (r: u16)
        ensures
            r == self.x,
    {
        self.x
    }

    pub fn top(&self) -> (r: u16)
        ensures
            r == self.y,
    {
        self.y
    }

    /// The first column past the region, saturating at the coordinate limit.
    pub fn right(&self) -> (r: u16)
        ensures
            r == spec_min(self.x + self.width, u16::MAX as int),
    {
        self.x.saturating_add(self.width)
    }

    /// The first row past the region, saturating at the coordinate limit.
    pub fn bottom(&self) -> (r: u16)
        ensures
            r == spec_min(self.y + self.height, u16::MAX as int),
    {
        self.y.saturating_add(self.height)
    }
}

pub open spec fn spec_min(a: int, b: int) -> int {
    if a <= b {
        a
    } else {
        b
    }
}

/// A demand on the width of one segment of a split.
#[derive(Debug, Clone, Copy, PartialEq, Eq, Structural, Hash)]
pub enum Constraint {
    /// A share of the total, in percent.
    Percentage(u16),
    /// A share of the total, as numerator and denominator.
    Ratio(u32, u32),
    /// Exactly this many cells.
    Length(u16),
    /// At most this many cells.
    Max(u16),
    /// At least this many cells.
    Min(u16),
}

/// How width beyond what the constraints ask for is handed out.
///
/// Segments are served in order, each with what it asks for, as far as the
/// free width reaches. Where the width is short this cuts the later segments
/// first: two `Max(4)` columns after a 3-wide selection column in 7 cells get
/// `(3, 4)` and `(7, 0)`, two `Min(4)` columns get the same, and a `Ratio(1,
/// 3)` is floored (6 of 20). Solvers that weigh all constraints at once and
/// round fractional positions may shrink the selection column or a spacer
/// instead, or give 7 and 6; this one does not.
#[derive(Debug, Clone, Copy, PartialEq, Eq, Structural, Hash)]
pub enum SegmentSize {
    /// The leftover stays unused, after the last segment.
    Unused,
    /// The last segment takes all of the leftover.
    LastTakesRemainder,
    /// Every segment that is not capped by a `Length` or a `Max` asks for at
    /// least an equal share of the width that the capped ones leave.
    EvenDistribution,
}

/// The width that a constraint asks for out of `total` cells.
pub open spec fn desired(c: Constraint, total: int) -> int {
    match c {
        Constraint::Percentage(p) => total * (p as int) / 100,
        Constraint::Ratio(a, b) => if b == 0 {
            0
        } else {
            total * (a as int) / (b as int)
        },
        Constraint::Length(n) => n as int,
        Constraint::Max(n) => n as int,
        Constraint::Min(n) => n as int,
    }
}

/// Whether a segment under this constraint may take more than it asks for.
pub open spec fn grows(c: Constraint) -> bool {
    !(c is Length || c is Max)
}

/// The number of segments among the first `i` that may grow.
pub open spec fn growing_count(cs: Seq<Constraint>, i: int) -> int
    decreases i,
{
    if i <= 0 {
        0
    } else {
        growing_count(cs, i - 1) + if grows(cs[i - 1]) {
            1int
        } else {
            0int
        }
    }
}

/// What the first `i` segments that may not grow ask for together, cut to
/// `total`.
pub open spec fn capped_demand(cs: Seq<Constraint>, total: int, i: int) -> int
    decreases i,
{
    if i <= 0 {
        0
    } else {
        spec_min(
            capped_demand(cs, total, i - 1) + if grows(cs[i - 1]) {
                0
            } else {
                desired(cs[i - 1], total)
            },
            total,
        )
    }
}

/// An equal share, among the segments that may grow, of the width that the
/// others leave.
pub open spec fn even_share(cs: Seq<Constraint>, total: int) -> int {
    let k = growing_count(cs, cs.len() as int);
    if k == 0 {
        0
    } else {
        (total - capped_demand(cs, total, cs.len() as int)) / k
    }
}

/// What segment `i` asks for under the policy.
pub open spec fn ask(cs: Seq<Constraint>, total: int, policy: SegmentSize, i: int) -> int {
    let d = desired(cs[i], total);
    if policy is EvenDistribution && grows(cs[i]) && d < even_share(cs, total) {
        even_share(cs, total)
    } else {
        d
    }
}

/// The width still free before segment `i` is served; segments are served in
/// order, each with what it asks for, as far as the free width reaches.
pub open spec fn free_before(cs: Seq<Constraint>, total: int, policy: SegmentSize, i: int) -> int
    decreases i, 0int,
{
    if i <= 0 {
        total
    } else {
        free_before(cs, total, policy, i - 1) - base_width(cs, total, policy, i - 1)
    }
}

/// The width that segment `i` is served.
pub open spec fn base_width(cs: Seq<Constraint>, total: int, policy: SegmentSize, i: int) -> int
    decreases i, 1int,
{
    if i < 0 {
        0
    } else {
        spec_min(ask(cs, total, policy, i), free_before(cs, total, policy, i))
    }
}

/// The width left over once every segment has been served.
pub open spec fn leftover(cs: Seq<Constraint>, total: int, policy: SegmentSize) -> int {
    free_before(cs, total, policy, cs.len() as int)
}

/// The final width of segment `i`: what it was served, and the leftover too
/// for the last segment where it takes the remainder.
pub open spec fn segment_width(cs: Seq<Constraint>, total: int, policy: SegmentSize, i: int) -> int {
    base_width(cs, total, policy, i) + if policy is LastTakesRemainder && i == cs.len() - 1 {
        leftover(cs, total, policy)
    } else {
        0
    }
}

/// Where segment `i` starts, relative to the left edge of the split region.
pub open spec fn segment_start(cs: Seq<Constraint>, total: int, policy: SegmentSize, i: int) -> int
    decreases i,
{
    if i <= 0 {
        0
    } else {
        segment_start(cs, total, policy, i - 1) + segment_width(cs, total, policy, i - 1)
    }
}

/// The segments that a horizontal split of `area` yields: side by side, in
/// the order of the constraints, each as tall as `area`.
pub open spec fn split_spec(area: Rect, cs: Seq<Constraint>, policy: SegmentSize) -> Seq<Rect> {
    Seq::new(
        cs.len(),
        |i: int|
            Rect {
                x: (area.x + segment_start(cs, area.width as int, policy, i)) as u16,
                y: area.y,
                width: segment_width(cs, area.width as int, policy, i) as u16,
                height: area.height,
            },
    )
}

proof fn lemma_desired_nonneg(c: Constraint, total: int)
    requires
        0 <= total,
    ensures
        0 <= desired(c, total),
{
    match c {
        Constraint::Percentage(p) => {
            vstd::arithmetic::mul::lemma_mul_nonnegative(total, p as int);
            vstd::arithmetic::div_mod::lemma_div_pos_is_pos(total * (p as int), 100);
        },
        Constraint::Ratio(a, b) => {
            if b != 0 {
                vstd::arithmetic::mul::lemma_mul_nonnegative(total, a as int);
                vstd::arithmetic::div_mod::lemma_div_pos_is_pos(total * (a as int), b as int);
            }
        },
        _ => {},
    }
}

proof fn lemma_capped_demand_bounds(cs: Seq<Constraint>, total: int, i: int)
    requires
        0 <= total,
        0 <= i <= cs.len(),
    ensures
        0 <= capped_demand(cs, total, i) <= total,
    decreases i,
{
    if i > 0 {
        lemma_capped_demand_bounds(cs, total, i - 1);
        lemma_desired_nonneg(cs[i - 1], total);
    }
}

proof fn lemma_ask_nonneg(cs: Seq<Constraint>, total: int, policy: SegmentSize, i: int)
    requires
        0 <= total,
        0 <= i < cs.len(),
    ensures
        0 <= ask(cs, total, policy, i),
{
    lemma_desired_nonneg(cs[i], total);
}

proof fn lemma_free_bounds(cs: Seq<Constraint>, total: int, policy: SegmentSize, i: int)
    requires
        0 <= total,
        0 <= i <= cs.len(),
    ensures
        0 <= free_before(cs, total, policy, i) <= total,
        i < cs.len() ==> 0 <= base_width(cs, total, policy, i) <= free_before(cs, total, policy, i),
    decreases i,
{
    if i > 0 {
        lemma_free_bounds(cs, total, policy, i - 1);
        lemma_ask_nonneg(cs, total, policy, i - 1);
    }
    if i < cs.len() {
        lemma_ask_nonneg(cs, total, policy, i);
    }
}

proof fn lemma_start_formula(cs: Seq<Constraint>, total: int, policy: SegmentSize, i: int)
    requires
        0 <= total,
        0 <= i <= cs.len(),
    ensures
        segment_start(cs, total, policy, i) == total - free_before(cs, total, policy, i) + if policy
            is LastTakesRemainder && i == cs.len() && i > 0 {
            leftover(cs, total, policy)
        } else {
            0
        },
    decreases i,
{
    if i > 0 {
        lemma_start_formula(cs, total, policy, i - 1);
    }
}

/// Every segment has a width of zero or more and ends within the split width.
pub proof fn lemma_segments_fit(cs: Seq<Constraint>, total: int, policy: SegmentSize)
    requires
        0 <= total,
    ensures
        forall|i: int|
            0 <= i < cs.len() ==> {
                &&& 0 <= #[trigger] segment_width(cs, total, policy, i)
                &&& segment_start(cs, total, policy, i) + segment_width(cs, total, policy, i) <= total
            },
        forall|i: int| 0 <= i <= cs.len() ==> 0 <= #[trigger] segment_start(cs, total, policy, i) <= total,
{
    let n = cs.len() as int;
    lemma_free_bounds(cs, total, policy, n);
    assert forall|i: int| 0 <= i <= n implies 0 <= #[trigger] segment_start(cs, total, policy, i) <= total by {
        lemma_start_formula(cs, total, policy, i);
        lemma_free_bounds(cs, total, policy, i);
    }
    assert forall|i: int| 0 <= i < n implies {
        &&& 0 <= #[trigger] segment_width(cs, total, policy, i)
        &&& segment_start(cs, total, policy, i) + segment_width(cs, total, policy, i) <= total
    } by {
        lemma_free_bounds(cs, total, policy, i);
        assert(segment_start(cs, total, policy, i + 1) <= total);
    }
}

/// Segments start from left to right.
pub proof fn lemma_starts_ordered(cs: Seq<Constraint>, total: int, policy: SegmentSize, a: int, b: int)
    requires
        0 <= total,
        0 <= a <= b <= cs.len(),
    ensures
        segment_start(cs, total, policy, a) <= segment_start(cs, total, policy, b),
    decreases b - a,
{
    if b > a {
        lemma_segments_fit(cs, total, policy);
        lemma_starts_ordered(cs, total, policy, a, b - 1);
        assert(0 <= segment_width(cs, total, policy, b - 1));
    }
}

/// The width that constraint `c` asks for out of `total`.
fn desired_width(c: Constraint, total: u16) -> (r: u64)
    ensures
        r == desired(c, total as int),
        r <= 0xffff * 0xffff_ffff,
{
    match c {
        Constraint::Percentage(p) => {
            proof {
                vstd::arithmetic::mul::lemma_mul_upper_bound(total as int, 0xffff, p as int, 0xffff);
                vstd::arithmetic::mul::lemma_mul_nonnegative(total as int, p as int);
                vstd::arithmetic::div_mod::lemma_div_is_ordered_by_denominator(
                    (total as int) * (p as int),
                    1,
                    100,
                );
            }
            (total as u64) * (p as u64) / 100
        },
        Constraint::Ratio(a, b) => {
            if b == 0 {
                0
            } else {
                proof {
                    vstd::arithmetic::mul::lemma_mul_upper_bound(
                        total as int,
                        0xffff,
                        a as int,
                        0xffff_ffff,
                    );
                    vstd::arithmetic::mul::lemma_mul_nonnegative(total as int, a as int);
                    vstd::arithmetic::div_mod::lemma_div_is_ordered_by_denominator(
                        (total as int) * (a as int),
                        1,
                        b as int,
                    );
                }
                (total as u64) * (a as u64) / (b as u64)
            }
        },
        Constraint::Length(n) => n as u64,
        Constraint::Max(n) => n as u64,
        Constraint::Min(n) => n as u64,
    }
}

fn constraint_grows(c: Constraint) -> (r: bool)
    ensures
        r == grows(c),
{
    match c {
        Constraint::Length(_) | Constraint::Max(_) => false,
        _ => true,
    }
}

/// Splits `area` from left to right into one segment per constraint.
///
/// Segments are served in order, each with what its constraint asks for out
/// of the full width, as far as the free width reaches; `policy` says who
/// gets more (see `SegmentSize`).
pub fn split_horizontal(area: Rect, constraints: &Vec<Constraint>, policy: SegmentSize) -> (r: Vec<Rect>)
    requires
        area.x + area.width <= u16::MAX,
    ensures
        r@ == split_spec(area, constraints@, policy),
{
    let ghost cs = constraints@;
    let ghost total = area.width as int;
    let n = constraints.len();
    let mut growing: usize = 0;
    let mut demand: u64 = 0;
    let mut i: usize = 0;
    while i < n
        invariant
            n == cs.len(),
            cs == constraints@,
            total == area.width,
            0 <= i <= n,
            growing == growing_count(cs, i as int),
            growing <= i,
            demand == capped_demand(cs, total, i as int),
            demand <= total,
        decreases n - i,
    {
        let d = desired_width(constraints[i], area.width);
        if constraint_grows(constraints[i]) {
            growing = growing + 1;
        } else {
            proof {
                lemma_desired_nonneg(cs[i as int], total);
            }
            demand = if demand + d < area.width as u64 {
                demand + d
            } else {
                area.width as u64
            };
        }
        i = i + 1;
    }
    let share: u64 = if growing == 0 {
        0
    } else {
        (area.width as u64 - demand) / (growing as u64)
    };
    assert(share == even_share(cs, total));
    let mut bases: Vec<u16> = Vec::new();
    let mut free: u16 = area.width;
    let mut i: usize = 0;
    while i < n
        invariant
            n == cs.len(),
            cs == constraints@,
            total == area.width,
            share == even_share(cs, total),
            0 <= i <= n,
            bases@.len() == i,
            forall|j: int| 0 <= j < i ==> bases@[j] == base_width(cs, total, policy, j),
            free == free_before(cs, total, policy, i as int),
        decreases n - i,
    {
        proof {
            lemma_free_bounds(cs, total, policy, i as int);
        }
        let d = desired_width(constraints[i], area.width);
        let a = if policy == SegmentSize::EvenDistribution && constraint_grows(constraints[i]) && d
            < share {
            share
        } else {
            d
        };
        let w = if a < free as u64 {
            a as u16
        } else {
            free
        };
        bases.push(w);
        free = free - w;
        i = i + 1;
    }
    let left = free;
    proof {
        lemma_segments_fit(cs, total, policy);
    }
    let mut out: Vec<Rect> = Vec::new();
    let mut start: u16 = 0;
    let mut i: usize = 0;
    while i < n
        invariant
            n == cs.len(),
            cs == constraints@,
            total == area.width,
            area.x + area.width <= u16::MAX,
            0 <= i <= n,
            bases@.len() == n,
            forall|j: int| 0 <= j < n ==> bases@[j] == base_width(cs, total, policy, j),
            left == leftover(cs, total, policy),
            start == segment_start(cs, total, policy, i as int),
            out@.len() == i,
            forall|j: int| 0 <= j < i ==> out@[j] == split_spec(area, cs, policy)[j],
            forall|j: int|
                0 <= j < cs.len() ==> {
                    &&& 0 <= #[trigger] segment_width(cs, total, policy, j)
                    &&& segment_start(cs, total, policy, j) + segment_width(cs, total, policy, j)
                        <= total
                },
        decreases n - i,
    {
        let extra: u16 = if policy == SegmentSize::LastTakesRemainder && i == n - 1 {
            left
        } else {
            0
        };
        assert(segment_width(cs, total, policy, i as int) == bases@[i as int] + extra);
        let w = bases[i] + extra;
        out.push(Rect { x: area.x + start, y: area.y, width: w, height: area.height });
        start = start + w;
        i = i + 1;
    }
    proof {
        assert(out@ =~= split_spec(area, cs, policy));
    }
    out
}

} // verus!
