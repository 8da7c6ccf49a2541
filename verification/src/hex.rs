//! Axial hex-grid coordinates and the distance, line and range queries
//! that movement and visibility are built on.
//!
//! All operations here are pure and total over the coordinate domain;
//! callers filter out-of-bounds results themselves.

use vstd::arithmetic::div_mod::{
    lemma_div_is_ordered, lemma_div_multiples_vanish, lemma_fundamental_div_mod_converse,
};
use vstd::prelude::*;

verus! {

/// An axial hex-grid coordinate: column `q` and row `r` in a skewed
/// axis system, always non-negative on the map.
#[derive(Clone, Copy, Debug, PartialEq, Eq, Hash, Structural)]
pub struct AxialCoordinates {
    pub column_q: u16,
    pub row_r: u16,
}

impl AxialCoordinates {
    pub fn new(q: u16, r: u16) -> (c: AxialCoordinates)
        ensures
            c.column_q == q,
            c.row_r == r,
    {
        AxialCoordinates { column_q: q, row_r: r }
    }
}

/// Absolute value of a mathematical integer.
pub open spec fn abs_int(x: int) -> int {
    if x >= 0 {
        x
    } else {
        -x
    }
}

/// Hex distance between two axial coordinates:
/// `|dq| + |dq + dr| + |dr| / 2`.
pub open spec fn hex_dist(aq: int, ar: int, bq: int, br: int) -> int {
    abs_int(aq - bq) + abs_int((aq - bq) + (ar - br)) + abs_int(ar - br) / 2
}

/// Two coordinates are hex-adjacent when they differ by one of the six
/// axial neighbour offsets.
pub open spec fn hex_adjacent(a: AxialCoordinates, b: AxialCoordinates) -> bool {
    let dq = b.column_q - a.column_q;
    let dr = b.row_r - a.row_r;
    ||| (dq == 1 && dr == 0)
    ||| (dq == -1 && dr == 0)
    ||| (dq == 0 && dr == 1)
    ||| (dq == 0 && dr == -1)
    ||| (dq == 1 && dr == -1)
    ||| (dq == -1 && dr == 1)
}

/// `(q, r)` lies within `radius` hex steps of `center`: both coordinate
/// offsets and their sum are bounded by the radius. This is the closed
/// hex disk that visibility queries enumerate.
pub open spec fn in_hex_disk(center: AxialCoordinates, q: int, r: int, radius: int) -> bool {
    let dq = q - center.column_q;
    let dr = r - center.row_r;
    &&& -radius <= dq <= radius
    &&& -radius <= dr <= radius
    &&& -radius <= dq + dr <= radius
}

/// Whether `(q, r)` lies within `radius` hex steps of `center`.
pub fn hex_disk_contains(center: AxialCoordinates, q: u16, r: u16, radius: u16) -> (within: bool)
    ensures
        within == in_hex_disk(center, q as int, r as int, radius as int),
{
    let dq: i32 = q as i32 - center.column_q as i32;
    let dr: i32 = r as i32 - center.row_r as i32;
    let rad: i32 = radius as i32;
    -rad <= dq && dq <= rad && -rad <= dr && dr <= rad && -rad <= dq + dr && dq + dr <= rad
}

/// Hex distance, as executable code.
pub fn hex_distance(a: AxialCoordinates, b: AxialCoordinates) -> (d: u32)
    ensures
        d == hex_dist(a.column_q as int, a.row_r as int, b.column_q as int, b.row_r as int),
{
    let dq: i32 = a.column_q as i32 - b.column_q as i32;
    let dr: i32 = a.row_r as i32 - b.row_r as i32;
    let abs_q: i32 = if dq >= 0 { dq } else { -dq };
    let abs_q_plus_r: i32 = if dq + dr >= 0 { dq + dr } else { -(dq + dr) };
    let abs_r: i32 = if dr >= 0 { dr } else { -dr };
    (abs_q + abs_q_plus_r + abs_r / 2) as u32
}

/// The distance between two coordinates is zero exactly when they are equal.
pub proof fn lemma_hex_dist_zero(a: AxialCoordinates, b: AxialCoordinates)
    ensures
        hex_dist(a.column_q as int, a.row_r as int, b.column_q as int, b.row_r as int) == 0 <==> a
            == b,
{
}

/// Hex distance is never negative.
pub proof fn lemma_hex_dist_nonneg(aq: int, ar: int, bq: int, br: int)
    ensures
        hex_dist(aq, ar, bq, br) >= 0,
{
    vstd::arithmetic::div_mod::lemma_div_pos_is_pos(abs_int(ar - br), 2);
}

/// The distance dominates the absolute offset of either coordinate.
pub proof fn lemma_hex_dist_bounds_offsets(aq: int, ar: int, bq: int, br: int)
    ensures
        hex_dist(aq, ar, bq, br) >= abs_int(aq - bq),
        hex_dist(aq, ar, bq, br) >= abs_int(ar - br),
{
}

/// `n / d` rounded to the nearest integer, halves rounded up.
/// Line interpolation only ever rounds non-negative values.
pub open spec fn round_div(n: int, d: int) -> int
    recommends
        n >= 0,
        d > 0,
{
    (2 * n + d) / (2 * d)
}

/// Rounding a whole multiple of the denominator is exact.
pub proof fn lemma_round_div_exact(k: int, d: int)
    requires
        k >= 0,
        d > 0,
    ensures
        round_div(k * d, d) == k,
{
    assert(2 * (k * d) + d == k * (2 * d) + d) by (nonlinear_arith);
    lemma_fundamental_div_mod_converse(2 * (k * d) + d, 2 * d, k, d);
}

/// Rounded division is monotone in the numerator.
pub proof fn lemma_round_div_monotone(n1: int, n2: int, d: int)
    requires
        0 <= n1 <= n2,
        d > 0,
    ensures
        round_div(n1, d) <= round_div(n2, d),
{
    lemma_div_is_ordered(2 * n1 + d, 2 * n2 + d, 2 * d);
}

/// Shifting the numerator by one denominator shifts the result by one.
pub proof fn lemma_round_div_shift(n: int, d: int)
    requires
        n >= 0,
        d > 0,
    ensures
        round_div(n + d, d) == round_div(n, d) + 1,
{
    assert(2 * (n + d) + d == (2 * n + d) + 1 * (2 * d));
    lemma_div_multiples_vanish(1, 2 * d);
    assert(((2 * n + d) + 1 * (2 * d)) / (2 * d) == (2 * n + d) / (2 * d) + 1) by {
        vstd::arithmetic::div_mod::lemma_hoist_over_denominator(2 * n + d, 1, (2 * d) as nat);
    }
}

/// The interpolated numerator for sample `i` of the line from `a` to `b`:
/// `a * d + (b - a) * i`, so that sample `i` is this value rounded over `d`.
pub open spec fn line_num(a: int, b: int, i: int, d: int) -> int {
    a * d + (b - a) * i
}

/// The `q` coordinate of sample `i` on the hex line from `a` to `b`.
pub open spec fn line_q(a: AxialCoordinates, b: AxialCoordinates, i: int) -> int {
    let d = hex_dist(a.column_q as int, a.row_r as int, b.column_q as int, b.row_r as int);
    if d == 0 {
        a.column_q as int
    } else {
        round_div(line_num(a.column_q as int, b.column_q as int, i, d), d)
    }
}

/// The `r` coordinate of sample `i` on the hex line from `a` to `b`.
pub open spec fn line_r(a: AxialCoordinates, b: AxialCoordinates, i: int) -> int {
    let d = hex_dist(a.column_q as int, a.row_r as int, b.column_q as int, b.row_r as int);
    if d == 0 {
        a.row_r as int
    } else {
        round_div(line_num(a.row_r as int, b.row_r as int, i, d), d)
    }
}

/// `s` is the hex line from `a` to `b`: one rounded linear-interpolation
/// sample for every step from `0` to the hex distance, inclusive.
pub open spec fn is_hex_line(a: AxialCoordinates, b: AxialCoordinates, s: Seq<
    AxialCoordinates,
>) -> bool {
    let d = hex_dist(a.column_q as int, a.row_r as int, b.column_q as int, b.row_r as int);
    &&& s.len() == d + 1
    &&& forall|i: int|
        0 <= i < s.len() ==> s[i].column_q == line_q(a, b, i) && s[i].row_r == line_r(a, b, i)
}

/// The interpolated numerators stay within the non-negative band spanned
/// by the endpoints, and each line sample lies between the endpoint
/// coordinates.
proof fn lemma_line_num_bounds(a: int, b: int, i: int, d: int)
    requires
        0 <= a,
        0 <= b,
        d > 0,
        0 <= i <= d,
    ensures
        line_num(a, b, i, d) >= 0,
        a <= b ==> a * d <= line_num(a, b, i, d) <= b * d,
        a > b ==> b * d <= line_num(a, b, i, d) <= a * d,
{
    assert(a <= b ==> 0 <= (b - a) * i <= (b - a) * d) by (nonlinear_arith)
        requires
            0 <= i <= d,
    ;
    assert(a > b ==> (b - a) * d <= (b - a) * i <= 0) by (nonlinear_arith)
        requires
            0 <= i <= d,
    ;
    assert(a * d + (b - a) * d == b * d) by (nonlinear_arith);
    assert(a * d >= 0 && b * d >= 0) by (nonlinear_arith)
        requires
            0 <= a,
            0 <= b,
            d > 0,
    ;
}

/// Each line sample coordinate lies between the two endpoint coordinates.
proof fn lemma_line_sample_bounds(a: int, b: int, i: int, d: int)
    requires
        0 <= a,
        0 <= b,
        d > 0,
        0 <= i <= d,
        abs_int(b - a) <= d,
    ensures
        a <= b ==> a <= round_div(line_num(a, b, i, d), d) <= b,
        a > b ==> b <= round_div(line_num(a, b, i, d), d) <= a,
{
    lemma_line_num_bounds(a, b, i, d);
    lemma_round_div_exact(a, d);
    lemma_round_div_exact(b, d);
    if a <= b {
        lemma_round_div_monotone(a * d, line_num(a, b, i, d), d);
        lemma_round_div_monotone(line_num(a, b, i, d), b * d, d);
    } else {
        lemma_round_div_monotone(b * d, line_num(a, b, i, d), d);
        lemma_round_div_monotone(line_num(a, b, i, d), a * d, d);
    }
}

/// Consecutive samples of one coordinate move by at most one step, in
/// the direction of the endpoint difference.
proof fn lemma_line_sample_step(a: int, b: int, i: int, d: int)
    requires
        0 <= a,
        0 <= b,
        d > 0,
        0 <= i < d,
        abs_int(b - a) <= d,
    ensures
        a <= b ==> round_div(line_num(a, b, i, d), d) <= round_div(line_num(a, b, i + 1, d), d)
            <= round_div(line_num(a, b, i, d), d) + 1,
        a > b ==> round_div(line_num(a, b, i, d), d) - 1 <= round_div(line_num(a, b, i + 1, d), d)
            <= round_div(line_num(a, b, i, d), d),
{
    lemma_line_num_bounds(a, b, i, d);
    lemma_line_num_bounds(a, b, i + 1, d);
    assert(line_num(a, b, i + 1, d) == line_num(a, b, i, d) + (b - a)) by (nonlinear_arith);
    if a <= b {
        lemma_round_div_monotone(line_num(a, b, i, d), line_num(a, b, i + 1, d), d);
        lemma_round_div_shift(line_num(a, b, i, d), d);
        lemma_round_div_monotone(line_num(a, b, i + 1, d), line_num(a, b, i, d) + d, d);
    } else {
        lemma_round_div_monotone(line_num(a, b, i + 1, d), line_num(a, b, i, d), d);
        lemma_round_div_shift(line_num(a, b, i + 1, d), d);
        lemma_round_div_monotone(line_num(a, b, i, d), line_num(a, b, i + 1, d) + d, d);
    }
}

/// The line starts at `a` and ends at `b`.
proof fn lemma_line_endpoints(a: AxialCoordinates, b: AxialCoordinates)
    ensures
        line_q(a, b, 0) == a.column_q as int,
        line_r(a, b, 0) == a.row_r as int,
        line_q(a, b, hex_dist(a.column_q as int, a.row_r as int, b.column_q as int, b.row_r as int))
            == b.column_q as int,
        line_r(a, b, hex_dist(a.column_q as int, a.row_r as int, b.column_q as int, b.row_r as int))
            == b.row_r as int,
{
    let d = hex_dist(a.column_q as int, a.row_r as int, b.column_q as int, b.row_r as int);
    if d == 0 {
        lemma_hex_dist_zero(a, b);
    } else {
        let aq = a.column_q as int;
        let bq = b.column_q as int;
        let ar = a.row_r as int;
        let br = b.row_r as int;
        assert(line_num(aq, bq, 0, d) == aq * d) by (nonlinear_arith);
        assert(line_num(ar, br, 0, d) == ar * d) by (nonlinear_arith);
        assert(line_num(aq, bq, d, d) == bq * d) by (nonlinear_arith);
        assert(line_num(ar, br, d, d) == br * d) by (nonlinear_arith);
        lemma_round_div_exact(aq, d);
        lemma_round_div_exact(ar, d);
        lemma_round_div_exact(bq, d);
        lemma_round_div_exact(br, d);
    }
}

/// Every sample of the hex line stays inside the rectangle spanned by
/// the two endpoints.
pub proof fn lemma_hex_line_in_band(a: AxialCoordinates, b: AxialCoordinates, i: int)
    requires
        0 <= i <= hex_dist(a.column_q as int, a.row_r as int, b.column_q as int, b.row_r as int),
    ensures
        min_int(a.column_q as int, b.column_q as int) <= line_q(a, b, i) <= max_int(
            a.column_q as int,
            b.column_q as int,
        ),
        min_int(a.row_r as int, b.row_r as int) <= line_r(a, b, i) <= max_int(
            a.row_r as int,
            b.row_r as int,
        ),
{
    let d = hex_dist(a.column_q as int, a.row_r as int, b.column_q as int, b.row_r as int);
    if d != 0 {
        lemma_hex_dist_bounds_offsets(
            a.column_q as int,
            a.row_r as int,
            b.column_q as int,
            b.row_r as int,
        );
        lemma_line_sample_bounds(a.column_q as int, b.column_q as int, i, d);
        lemma_line_sample_bounds(a.row_r as int, b.row_r as int, i, d);
    }
}

/// Smaller of two integers.
pub open spec fn min_int(x: int, y: int) -> int {
    if x <= y {
        x
    } else {
        y
    }
}

/// Larger of two integers.
pub open spec fn max_int(x: int, y: int) -> int {
    if x <= y {
        y
    } else {
        x
    }
}

/// The hex line from `a` to `b`, as a mathematical sequence.
pub open spec fn spec_hex_line(a: AxialCoordinates, b: AxialCoordinates) -> Seq<AxialCoordinates> {
    let d = hex_dist(a.column_q as int, a.row_r as int, b.column_q as int, b.row_r as int);
    Seq::new(
        (d + 1) as nat,
        |i: int| AxialCoordinates { column_q: line_q(a, b, i) as u16, row_r: line_r(a, b, i) as u16 },
    )
}

/// The characterisation pins the line down: any sequence satisfying it
/// is the hex line.
pub proof fn lemma_hex_line_unique(a: AxialCoordinates, b: AxialCoordinates, s: Seq<
    AxialCoordinates,
>)
    requires
        is_hex_line(a, b, s),
    ensures
        s == spec_hex_line(a, b),
{
    let d = hex_dist(a.column_q as int, a.row_r as int, b.column_q as int, b.row_r as int);
    assert forall|i: int| 0 <= i < s.len() implies s[i] == spec_hex_line(a, b)[i] by {
        lemma_hex_line_in_band(a, b, i);
        assert(0 <= line_q(a, b, i) <= u16::MAX);
        assert(0 <= line_r(a, b, i) <= u16::MAX);
    }
    assert(s =~= spec_hex_line(a, b));
}

/// Step `i` of the line `s` moves by at most one in each coordinate.
pub open spec fn small_step(s: Seq<AxialCoordinates>, i: int) -> bool {
    abs_int(s[i + 1].column_q - s[i].column_q) <= 1 && abs_int(s[i + 1].row_r - s[i].row_r) <= 1
}

/// Step `i` of the line `s` is hex-adjacent or stationary.
pub open spec fn adjacent_step(s: Seq<AxialCoordinates>, i: int) -> bool {
    hex_adjacent(s[i], s[i + 1]) || s[i] == s[i + 1]
}

/// Compute the hex line from `a` to `b`: `hex_dist + 1` rounded
/// linear-interpolation samples, starting at `a` and ending at `b`.
pub fn hex_line(a: AxialCoordinates, b: AxialCoordinates) -> (line: Vec<AxialCoordinates>)
    ensures
        is_hex_line(a, b, line@),
        line@ == spec_hex_line(a, b),
{
    let d32: u32 = hex_distance(a, b);
    if d32 == 0 {
        proof {
            lemma_hex_dist_zero(a, b);
        }
        let mut line: Vec<AxialCoordinates> = Vec::new();
        line.push(a);
        proof {
            lemma_hex_line_unique(a, b, line@);
        }
        return line;
    }
    let d: i64 = d32 as i64;
    assert(d <= 229372);
    let dq: i64 = b.column_q as i64 - a.column_q as i64;
    let dr: i64 = b.row_r as i64 - a.row_r as i64;
    let mut line: Vec<AxialCoordinates> = Vec::new();
    let mut i: i64 = 0;
    while i <= d
        invariant
            d == hex_dist(a.column_q as int, a.row_r as int, b.column_q as int, b.row_r as int),
            0 < d <= 229372,
            dq == b.column_q - a.column_q,
            dr == b.row_r - a.row_r,
            0 <= i <= d + 1,
            line@.len() == i,
            forall|j: int|
                0 <= j < i ==> line@[j].column_q == line_q(a, b, j) && line@[j].row_r == line_r(
                    a,
                    b,
                    j,
                ),
        decreases d + 1 - i,
    {
        proof {
            lemma_hex_dist_bounds_offsets(
                a.column_q as int,
                a.row_r as int,
                b.column_q as int,
                b.row_r as int,
            );
            lemma_line_num_bounds(a.column_q as int, b.column_q as int, i as int, d as int);
            lemma_line_num_bounds(a.row_r as int, b.row_r as int, i as int, d as int);
            lemma_hex_line_in_band(a, b, i as int);
            assert(0 <= a.column_q as int * d <= 65535 * 229372 && 0 <= a.row_r as int * d
                <= 65535 * 229372) by (nonlinear_arith)
                requires
                    0 <= a.column_q <= 65535,
                    0 <= a.row_r <= 65535,
                    0 < d <= 229372,
            ;
            assert(-65535 * 229372 <= dq * i <= 65535 * 229372 && -65535 * 229372 <= dr * i
                <= 65535 * 229372) by (nonlinear_arith)
                requires
                    -65535 <= dq <= 65535,
                    -65535 <= dr <= 65535,
                    0 <= i <= 229372,
            ;
        }
        let nq: i64 = a.column_q as i64 * d + dq * i;
        let nr: i64 = a.row_r as i64 * d + dr * i;
        let q: i64 = (2 * nq + d) / (2 * d);
        let r: i64 = (2 * nr + d) / (2 * d);
        assert(q == line_q(a, b, i as int));
        assert(r == line_r(a, b, i as int));
        line.push(AxialCoordinates { column_q: q as u16, row_r: r as u16 });
        i = i + 1;
    }
    proof {
        lemma_hex_line_unique(a, b, line@);
    }
    line
}

/// The hex line from `a` to `b` has `hex_dist(a, b) + 1` points, starts
/// at `a`, ends at `b`, and consecutive points never move by more than
/// one step in either coordinate. When the two coordinate deltas do not
/// pull in the same direction, consecutive points are hex-adjacent or
/// equal; a line whose deltas share a sign may instead take a combined
/// diagonal step.
pub proof fn lemma_hex_line_properties(a: AxialCoordinates, b: AxialCoordinates, s: Seq<
    AxialCoordinates,
>)
    requires
        is_hex_line(a, b, s),
    ensures
        s.len() == hex_dist(a.column_q as int, a.row_r as int, b.column_q as int, b.row_r as int)
            + 1,
        s[0] == a,
        s[s.len() - 1] == b,
        forall|i: int| 0 <= i < s.len() - 1 ==> #[trigger] small_step(s, i),
        (b.column_q - a.column_q) * (b.row_r - a.row_r) <= 0 ==> forall|i: int|
            0 <= i < s.len() - 1 ==> #[trigger] adjacent_step(s, i),
{
    let d = hex_dist(a.column_q as int, a.row_r as int, b.column_q as int, b.row_r as int);
    let aq = a.column_q as int;
    let bq = b.column_q as int;
    let ar = a.row_r as int;
    let br = b.row_r as int;
    lemma_line_endpoints(a, b);
    assert(s[0] == a);
    assert(s[s.len() - 1] == b);
    lemma_hex_dist_bounds_offsets(aq, ar, bq, br);
    assert forall|i: int| 0 <= i < s.len() - 1 implies #[trigger] small_step(s, i) by {
        lemma_hex_line_step_shape(a, b, s, i);
    }
    if (bq - aq) * (br - ar) <= 0 {
        assert forall|i: int| 0 <= i < s.len() - 1 implies #[trigger] adjacent_step(s, i) by {
            lemma_hex_line_step_shape(a, b, s, i);
        }
    }
}

/// One step of a hex line moves by at most one in each coordinate, and
/// is hex-adjacent or stationary when the endpoint deltas do not share
/// a sign.
proof fn lemma_hex_line_step_shape(
    a: AxialCoordinates,
    b: AxialCoordinates,
    s: Seq<AxialCoordinates>,
    i: int,
)
    requires
        is_hex_line(a, b, s),
        0 <= i < s.len() - 1,
    ensures
        small_step(s, i),
        (b.column_q - a.column_q) * (b.row_r - a.row_r) <= 0 ==> adjacent_step(s, i),
{
    let d = hex_dist(a.column_q as int, a.row_r as int, b.column_q as int, b.row_r as int);
    let aq = a.column_q as int;
    let bq = b.column_q as int;
    let ar = a.row_r as int;
    let br = b.row_r as int;
    lemma_hex_dist_bounds_offsets(aq, ar, bq, br);
    {
        if d > 0 {
            lemma_line_sample_step(aq, bq, i, d);
            lemma_line_sample_step(ar, br, i, d);
            assert(s[i].column_q == line_q(a, b, i) && s[i].row_r == line_r(a, b, i));
            assert(s[i + 1].column_q == line_q(a, b, i + 1) && s[i + 1].row_r == line_r(
                a,
                b,
                i + 1,
            ));
            let sq = s[i + 1].column_q - s[i].column_q;
            let sr = s[i + 1].row_r - s[i].row_r;
            assert(aq <= bq ==> 0 <= sq <= 1);
            assert(aq > bq ==> -1 <= sq <= 0);
            assert(ar <= br ==> 0 <= sr <= 1);
            assert(ar > br ==> -1 <= sr <= 0);
            if (bq - aq) * (br - ar) <= 0 {
                assert(bq - aq >= 0 && br - ar >= 0 ==> bq == aq || br == ar) by (
                nonlinear_arith)
                    requires
                        (bq - aq) * (br - ar) <= 0,
                ;
                assert(bq - aq <= 0 && br - ar <= 0 ==> bq == aq || br == ar) by (
                nonlinear_arith)
                    requires
                        (bq - aq) * (br - ar) <= 0,
                ;
                if aq == bq {
                    lemma_line_sample_bounds(aq, bq, i, d);
                    lemma_line_sample_bounds(aq, bq, i + 1, d);
                }
                if ar == br {
                    lemma_line_sample_bounds(ar, br, i, d);
                    lemma_line_sample_bounds(ar, br, i + 1, d);
                }
            }
        }
    }
}

} // verus!
