//! Target temperatures over the day, by linear interpolation between
//! breakpoints.

use crate::units::floor_div;
use vstd::prelude::*;

verus! {

/// One breakpoint of a schedule: the target temperature at a time of day.
#[derive(Debug, Clone, Copy, PartialEq, Eq, Structural)]
pub struct Breakpoint {
    /// Time of day in seconds after midnight.
    pub second: u32,
    /// Target temperature at that time.
    pub temperature: i64,
}

/// The value at `x` on the line from `val_start` at `x_start` to `val_end`
/// at `x_end`, held at the nearer end outside of the two, and rounded down.
/// Where the two ends fall together the value is `val_start`.
pub open spec fn linear_value(val_start: int, val_end: int, x_start: int, x_end: int, x: int) -> int {
    if x_end == x_start {
        val_start
    } else {
        let span = if x_end > x_start {
            x_end - x_start
        } else {
            x_start - x_end
        };
        let run = if x_end > x_start {
            x - x_start
        } else {
            x_start - x
        };
        if run <= 0 {
            val_start
        } else if run >= span {
            val_end
        } else {
            (val_end * run + val_start * (span - run)) / span
        }
    }
}

/// The index of the first breakpoint from `from` on that lies after `x`,
/// or the number of breakpoints if there is none.
pub open spec fn first_after(table: Seq<Breakpoint>, x: int, from: int) -> int
    decreases table.len() - from,
{
    if from >= table.len() {
        table.len() as int
    } else if x < table[from].second {
        from
    } else {
        first_after(table, x, from + 1)
    }
}

/// The target temperature that a schedule gives for the time of day `x`.
///
/// Up to the first breakpoint it is the first target. From there on it lies
/// on the line between the last breakpoint that is not after `x` and the
/// first one that is; after the last breakpoint it is the last target.
pub open spec fn scheduled(table: Seq<Breakpoint>, x: int) -> int
    recommends
        table.len() > 0,
{
    if x <= table[0].second {
        table[0].temperature as int
    } else {
        let i = first_after(table, x, 1);
        if i < table.len() {
            linear_value(
                table[i - 1].temperature as int,
                table[i].temperature as int,
                table[i - 1].second as int,
                table[i].second as int,
                x,
            )
        } else {
            table.last().temperature as int
        }
    }
}

/// Whether the times of a schedule increase from each breakpoint to the next.
pub open spec fn increasing(table: Seq<Breakpoint>) -> bool {
    forall|i: int, j: int| 0 <= i < j < table.len() ==> table[i].second < table[j].second
}

proof fn lemma_weighted_mean_bounds(lo: int, hi: int, run: int, span: int)
    requires
        0 < run < span,
        lo <= hi,
    ensures
        lo <= (hi * run + lo * (span - run)) / span <= hi,
        lo <= (lo * run + hi * (span - run)) / span <= hi,
{
    assert(hi * run + lo * (span - run) == lo * span + (hi - lo) * run) by (nonlinear_arith);
    assert(lo * run + hi * (span - run) == lo * span + (hi - lo) * (span - run))
        by (nonlinear_arith);
    assert(0 <= (hi - lo) * run <= (hi - lo) * span) by (nonlinear_arith)
        requires
            0 < run < span,
            lo <= hi,
    ;
    assert(0 <= (hi - lo) * (span - run) <= (hi - lo) * span) by (nonlinear_arith)
        requires
            0 < run < span,
            lo <= hi,
    ;
    assert(lo * span + (hi - lo) * span == hi * span) by (nonlinear_arith);
    lemma_div_between(lo * span + (hi - lo) * run, span, lo, hi);
    lemma_div_between(lo * span + (hi - lo) * (span - run), span, lo, hi);
}

proof fn lemma_div_between(a: int, d: int, lo: int, hi: int)
    requires
        d > 0,
        lo * d <= a <= hi * d,
    ensures
        lo <= a / d <= hi,
{
    assert(lo <= a / d <= hi) by (nonlinear_arith)
        requires
            d > 0,
            lo * d <= a <= hi * d,
    ;
}

/// A value on a line lies between the values at its two ends.
pub proof fn lemma_linear_value_between(
    val_start: int,
    val_end: int,
    x_start: int,
    x_end: int,
    x: int,
)
    ensures
        val_start <= val_end ==> val_start <= linear_value(val_start, val_end, x_start, x_end, x)
            <= val_end,
        val_end <= val_start ==> val_end <= linear_value(val_start, val_end, x_start, x_end, x)
            <= val_start,
{
    if x_end != x_start {
        let span = if x_end > x_start {
            x_end - x_start
        } else {
            x_start - x_end
        };
        let run = if x_end > x_start {
            x - x_start
        } else {
            x_start - x
        };
        if 0 < run < span {
            if val_start <= val_end {
                lemma_weighted_mean_bounds(val_start, val_end, run, span);
            }
            if val_end <= val_start {
                lemma_weighted_mean_bounds(val_end, val_start, run, span);
            }
        }
    }
}

/// A target lies between the least and the greatest value of its type.
pub proof fn lemma_scheduled_in_range(table: Seq<Breakpoint>, x: int)
    requires
        table.len() > 0,
    ensures
        i64::MIN <= scheduled(table, x) <= i64::MAX,
{
    if x > table[0].second {
        let i = first_after(table, x, 1);
        lemma_first_after_bounds(table, x, 1);
        if i < table.len() {
            lemma_linear_value_between(
                table[i - 1].temperature as int,
                table[i].temperature as int,
                table[i - 1].second as int,
                table[i].second as int,
                x,
            );
        }
    }
}

proof fn lemma_first_after_bounds(table: Seq<Breakpoint>, x: int, from: int)
    requires
        0 <= from <= table.len(),
    ensures
        from <= first_after(table, x, from) <= table.len(),
    decreases table.len() - from,
{
    if from < table.len() && x >= table[from].second {
        lemma_first_after_bounds(table, x, from + 1);
    }
}

/// The value on the line between two points, see `linear_value`.
pub fn linear(val_start: i64, val_end: i64, x_start: u32, x_end: u32, x_target: u32) -> (r: i64)
    ensures
        r == linear_value(
            val_start as int,
            val_end as int,
            x_start as int,
            x_end as int,
            x_target as int,
        ),
{
    if x_end == x_start {
        return val_start;
    }
    let span: i128 = if x_end > x_start {
        x_end as i128 - x_start as i128
    } else {
        x_start as i128 - x_end as i128
    };
    let run: i128 = if x_end > x_start {
        x_target as i128 - x_start as i128
    } else {
        x_start as i128 - x_target as i128
    };
    if run <= 0 {
        val_start
    } else if run >= span {
        val_end
    } else {
        proof {
            lemma_linear_value_between(
                val_start as int,
                val_end as int,
                x_start as int,
                x_end as int,
                x_target as int,
            );
            assert(-0x8000_0000_0000_0000 * 0x1_0000_0000 <= val_end * run <= 0x8000_0000_0000_0000
                * 0x1_0000_0000) by (nonlinear_arith)
                requires
                    -0x8000_0000_0000_0000 <= val_end < 0x8000_0000_0000_0000,
                    0 < run < 0x1_0000_0000,
            ;
            assert(-0x8000_0000_0000_0000 * 0x1_0000_0000 <= val_start * (span - run)
                <= 0x8000_0000_0000_0000 * 0x1_0000_0000) by (nonlinear_arith)
                requires
                    -0x8000_0000_0000_0000 <= val_start < 0x8000_0000_0000_0000,
                    0 < span - run < 0x1_0000_0000,
            ;
        }
        let weighted: i128 = (val_end as i128) * run + (val_start as i128) * (span - run);
        floor_div(weighted, span) as i64
    }
}

/// The target temperature that `table` gives for the time of day
/// `second_of_day`, see `scheduled`.
pub fn target_at(table: &[Breakpoint], second_of_day: u32) -> (r: i64)
    requires
        table@.len() > 0,
    ensures
        r == scheduled(table@, second_of_day as int),
{
    if second_of_day <= table[0].second {
        return table[0].temperature;
    }
    let mut i: usize = 1;
    while i < table.len()
        invariant
            1 <= i <= table@.len(),
            second_of_day > table@[0].second,
            first_after(table@, second_of_day as int, 1) == first_after(
                table@,
                second_of_day as int,
                i as int,
            ),
        decreases table@.len() - i,
    {
        let prev_point = table[i - 1];
        let curr_point = table[i];
        assert(first_after(table@, second_of_day as int, i as int) == if second_of_day
            < curr_point.second {
            i as int
        } else {
            first_after(table@, second_of_day as int, i + 1)
        });
        if second_of_day < curr_point.second {
            return linear(
                prev_point.temperature,
                curr_point.temperature,
                prev_point.second,
                curr_point.second,
                second_of_day,
            );
        }
        i = i + 1;
    }
    table[table.len() - 1].temperature
}

proof fn lemma_first_after_in_segment(table: Seq<Breakpoint>, x: int, i: int, from: int)
    requires
        increasing(table),
        1 <= from <= i <= table.len(),
        table[i - 1].second <= x,
        i < table.len() ==> x < table[i].second,
    ensures
        first_after(table, x, from) == i,
    decreases i - from,
{
    if from < i {
        assert(table[from].second <= table[i - 1].second) by {
            if from < i - 1 {
                assert(table[from].second < table[i - 1].second);
            }
        }
        lemma_first_after_in_segment(table, x, i, from + 1);
    }
}

/// Within a segment, its two ends included, the target lies on the line
/// between the two breakpoints of the segment.
pub proof fn lemma_target_on_segment(table: Seq<Breakpoint>, i: int, x: int)
    requires
        increasing(table),
        1 <= i < table.len(),
        table[i - 1].second <= x <= table[i].second,
    ensures
        scheduled(table, x) == linear_value(
            table[i - 1].temperature as int,
            table[i].temperature as int,
            table[i - 1].second as int,
            table[i].second as int,
            x,
        ),
{
    assert(table[i - 1].second < table[i].second);
    if x == table[i].second {
        assert(table[0].second < table[i].second);
        lemma_first_after_in_segment(table, x, i + 1, 1);
    } else if x <= table[0].second {
        assert(i == 1) by {
            if i > 1 {
                assert(table[0].second < table[i - 1].second);
            }
        }
    } else {
        lemma_first_after_in_segment(table, x, i, 1);
    }
}

/// Clamping before the first breakpoint: up to its time the target is the
/// first target.
pub proof fn lemma_target_before_first(table: Seq<Breakpoint>, x: int)
    requires
        table.len() > 0,
        x <= table[0].second,
    ensures
        scheduled(table, x) == table[0].temperature,
{
}

/// Clamping after the last breakpoint: from its time on the target is the
/// last target.
pub proof fn lemma_target_after_last(table: Seq<Breakpoint>, x: int)
    requires
        table.len() > 0,
        increasing(table),
        x >= table.last().second,
    ensures
        scheduled(table, x) == table.last().temperature,
{
    let n = table.len() as int;
    if n > 1 {
        assert(table[0].second < table[n - 1].second);
        lemma_first_after_in_segment(table, x, n, 1);
    }
}

/// At the time of a breakpoint the target is that breakpoint's target.
pub proof fn lemma_target_at_breakpoint(table: Seq<Breakpoint>, i: int)
    requires
        increasing(table),
        0 <= i < table.len(),
    ensures
        scheduled(table, table[i].second as int) == table[i].temperature,
{
    if i == 0 {
    } else {
        lemma_target_on_segment(table, i, table[i].second as int);
        assert(table[i - 1].second < table[i].second);
    }
}

proof fn lemma_linear_value_ordered(vs: int, ve: int, xs: int, xe: int, x: int, y: int)
    requires
        xs < xe,
        xs <= x <= y <= xe,
        vs <= ve,
    ensures
        linear_value(vs, ve, xs, xe, x) <= linear_value(vs, ve, xs, xe, y),
        linear_value(ve, vs, xs, xe, x) >= linear_value(ve, vs, xs, xe, y),
{
    let span = xe - xs;
    lemma_linear_value_between(vs, ve, xs, xe, x);
    lemma_linear_value_between(vs, ve, xs, xe, y);
    lemma_linear_value_between(ve, vs, xs, xe, x);
    lemma_linear_value_between(ve, vs, xs, xe, y);
    if 0 < x - xs && y - xs < span {
        let a = x - xs;
        let b = y - xs;
        assert(ve * a + vs * (span - a) <= ve * b + vs * (span - b)) by (nonlinear_arith)
            requires
                a <= b,
                vs <= ve,
        ;
        assert(vs * a + ve * (span - a) >= vs * b + ve * (span - b)) by (nonlinear_arith)
            requires
                a <= b,
                vs <= ve,
        ;
        vstd::arithmetic::div_mod::lemma_div_is_ordered(
            ve * a + vs * (span - a),
            ve * b + vs * (span - b),
            span,
        );
        vstd::arithmetic::div_mod::lemma_div_is_ordered(
            vs * b + ve * (span - b),
            vs * a + ve * (span - a),
            span,
        );
    }
}

/// Between two breakpoints the target moves in one direction only: it does
/// not fall where the later target is the higher one, and does not rise
/// where it is the lower one.
pub proof fn lemma_target_monotonic(table: Seq<Breakpoint>, i: int, x: int, y: int)
    requires
        increasing(table),
        1 <= i < table.len(),
        table[i - 1].second <= x <= y <= table[i].second,
    ensures
        table[i - 1].temperature <= table[i].temperature ==> scheduled(table, x) <= scheduled(
            table,
            y,
        ),
        table[i - 1].temperature >= table[i].temperature ==> scheduled(table, x) >= scheduled(
            table,
            y,
        ),
{
    lemma_target_on_segment(table, i, x);
    lemma_target_on_segment(table, i, y);
    assert(table[i - 1].second < table[i].second);
    let vs = table[i - 1].temperature as int;
    let ve = table[i].temperature as int;
    let xs = table[i - 1].second as int;
    let xe = table[i].second as int;
    if vs <= ve {
        lemma_linear_value_ordered(vs, ve, xs, xe, x, y);
    }
    if vs >= ve {
        lemma_linear_value_ordered(ve, vs, xs, xe, x, y);
    }
}

/// Between two breakpoints the target stays between their two targets.
pub proof fn lemma_target_between(table: Seq<Breakpoint>, i: int, x: int)
    requires
        increasing(table),
        1 <= i < table.len(),
        table[i - 1].second <= x <= table[i].second,
    ensures
        table[i - 1].temperature <= table[i].temperature ==> table[i - 1].temperature
            <= scheduled(table, x) <= table[i].temperature,
        table[i - 1].temperature >= table[i].temperature ==> table[i - 1].temperature
            >= scheduled(table, x) >= table[i].temperature,
{
    lemma_target_on_segment(table, i, x);
    lemma_linear_value_between(
        table[i - 1].temperature as int,
        table[i].temperature as int,
        table[i - 1].second as int,
        table[i].second as int,
        x,
    );
}

/// The distance between two temperatures.
pub open spec fn distance(a: int, b: int) -> int {
    if a >= b {
        a - b
    } else {
        b - a
    }
}

proof fn lemma_floor_step(a: int, b: int, d: int)
    requires
        d > 0,
        a <= b,
    ensures
        a / d <= b / d <= a / d + (b - a) / d + 1,
{
    assert(a / d <= b / d <= a / d + (b - a) / d + 1) by (nonlinear_arith)
        requires
            d > 0,
            a <= b,
    ;
}

/// No jumps: from one second to the next within a segment, its two ends
/// included, the target moves by no more than the slope of the segment, and
/// one unit for the rounding.
pub proof fn lemma_target_continuous(table: Seq<Breakpoint>, i: int, x: int)
    requires
        increasing(table),
        1 <= i < table.len(),
        table[i - 1].second <= x < table[i].second,
    ensures
        distance(scheduled(table, x + 1), scheduled(table, x)) <= distance(
            table[i].temperature as int,
            table[i - 1].temperature as int,
        ) / (table[i].second - table[i - 1].second) + 1,
{
    lemma_target_on_segment(table, i, x);
    lemma_target_on_segment(table, i, x + 1);
    let vs = table[i - 1].temperature as int;
    let ve = table[i].temperature as int;
    let xs = table[i - 1].second as int;
    let xe = table[i].second as int;
    let span = xe - xs;
    let a = x - xs;
    let lo = linear_value(vs, ve, xs, xe, x);
    let hi = linear_value(vs, ve, xs, xe, x + 1);
    let at = |r: int| ve * r + vs * (span - r);
    assert(at(0) / span == vs) by (nonlinear_arith)
        requires
            span > 0,
            at(0) == vs * span,
    ;
    assert(at(span) / span == ve) by (nonlinear_arith)
        requires
            span > 0,
            at(span) == ve * span,
    ;
    assert(lo == at(a) / span);
    assert(hi == at(a + 1) / span);
    assert(at(a + 1) - at(a) == ve - vs) by (nonlinear_arith)
        requires
            at(a + 1) == ve * (a + 1) + vs * (span - (a + 1)),
            at(a) == ve * a + vs * (span - a),
    ;
    if vs <= ve {
        lemma_floor_step(at(a), at(a + 1), span);
    } else {
        lemma_floor_step(at(a + 1), at(a), span);
    }
}

/// Whether no segment of a schedule is steeper than `rise` units of
/// temperature in `run` seconds.
pub open spec fn slope_within(table: Seq<Breakpoint>, rise: int, run: int) -> bool {
    forall|i: int|
        1 <= i < table.len() ==> distance(
            (#[trigger] table[i]).temperature as int,
            table[i - 1].temperature as int,
        ) * run <= rise * (table[i].second - table[i - 1].second)
}

proof fn lemma_breakpoints_within(table: Seq<Breakpoint>, rise: int, run: int, a: int, b: int)
    requires
        run > 0,
        slope_within(table, rise, run),
        0 <= a <= b < table.len(),
    ensures
        distance(table[b].temperature as int, table[a].temperature as int) * run <= rise * (
        table[b].second - table[a].second),
    decreases b - a,
{
    let va = table[a].temperature as int;
    let vb = table[b].temperature as int;
    let xa = table[a].second as int;
    let xb = table[b].second as int;
    if a < b {
        lemma_breakpoints_within(table, rise, run, a, b - 1);
        let vm = table[b - 1].temperature as int;
        let xm = table[b - 1].second as int;
        assert(distance(table[b].temperature as int, table[b - 1].temperature as int) * run
            <= rise * (table[b].second - table[b - 1].second));
        assert(distance(vb, va) <= distance(vb, vm) + distance(vm, va));
        assert(distance(vb, va) * run <= rise * (xb - xa)) by (nonlinear_arith)
            requires
                distance(vb, va) <= distance(vb, vm) + distance(vm, va),
                distance(vb, vm) * run <= rise * (xb - xm),
                distance(vm, va) * run <= rise * (xm - xa),
                run > 0,
        ;
    } else {
        assert(distance(vb, va) * run == 0) by (nonlinear_arith)
            requires
                distance(vb, va) == 0,
        ;
        assert(rise * (xb - xa) == 0) by (nonlinear_arith)
            requires
                xb - xa == 0,
        ;
    }
}

/// Where the value on a line stands between the two ends of the line:
/// `span` times the value is the weighted sum of the two ends, less what
/// is lost to rounding, which is nothing at the two ends.
proof fn lemma_linear_value_exact(vs: int, ve: int, xs: int, xe: int, x: int) -> (rest: int)
    requires
        xs < xe,
        xs <= x <= xe,
    ensures
        0 <= rest < xe - xs,
        x == xs || x == xe ==> rest == 0,
        (xe - xs) * linear_value(vs, ve, xs, xe, x) == vs * (xe - xs) + (ve - vs) * (x - xs)
            - rest,
{
    let span = xe - xs;
    let r = x - xs;
    let t = linear_value(vs, ve, xs, xe, x);
    if r == 0 {
        assert((ve - vs) * r == 0) by (nonlinear_arith)
            requires
                r == 0,
        ;
        assert(span * t == vs * span) by (nonlinear_arith)
            requires
                t == vs,
        ;
        0
    } else if r == span {
        assert(vs * span + (ve - vs) * r == ve * span) by (nonlinear_arith)
            requires
                r == span,
        ;
        assert(span * t == ve * span) by (nonlinear_arith)
            requires
                t == ve,
        ;
        0
    } else {
        let n = ve * r + vs * (span - r);
        assert(n == vs * span + (ve - vs) * r) by (nonlinear_arith)
            requires
                n == ve * r + vs * (span - r),
        ;
        assert(t == n / span);
        vstd::arithmetic::div_mod::lemma_fundamental_div_mod(n, span);
        vstd::arithmetic::div_mod::lemma_mod_bound(n, span);
        n % span
    }
}

/// The change of the value on a line between two places on it, against
/// the slope of `rise` in `run` that the line does not exceed. Rounding
/// adds less than one unit: nothing below where the first place is the
/// start of the line, nothing above where the second is its end.
proof fn lemma_line_change(
    vs: int,
    ve: int,
    xs: int,
    xe: int,
    x: int,
    y: int,
    rise: int,
    run: int,
)
    requires
        xs < xe,
        xs <= x <= y <= xe,
        run > 0,
        distance(ve, vs) * run <= rise * (xe - xs),
    ensures
        -(rise * (y - x)) - run <= run * (linear_value(vs, ve, xs, xe, y) - linear_value(
            vs,
            ve,
            xs,
            xe,
            x,
        )) <= rise * (y - x) + run,
        x == xs ==> run * (linear_value(vs, ve, xs, xe, y) - vs) <= rise * (y - x),
        y == xe ==> -(rise * (y - x)) <= run * (ve - linear_value(vs, ve, xs, xe, x)),
{
    let span = xe - xs;
    let rx = lemma_linear_value_exact(vs, ve, xs, xe, x);
    let ry = lemma_linear_value_exact(vs, ve, xs, xe, y);
    let tx = linear_value(vs, ve, xs, xe, x);
    let ty = linear_value(vs, ve, xs, xe, y);
    let step = y - x;
    let change = (ve - vs) * step;
    let bound = rise * step;
    let dv = distance(ve, vs);
    assert(span * (ty - tx) == change + rx - ry) by (nonlinear_arith)
        requires
            span * ty == vs * span + (ve - vs) * (y - xs) - ry,
            span * tx == vs * span + (ve - vs) * (x - xs) - rx,
            change == (ve - vs) * (y - x),
    ;
    assert(-bound * span <= run * change <= bound * span) by (nonlinear_arith)
        requires
            dv * run <= rise * span,
            step >= 0,
            -dv <= ve - vs <= dv,
            run > 0,
            change == (ve - vs) * step,
            bound == rise * step,
    ;
    let t = ty - tx;
    assert(-bound - run <= run * t <= bound + run) by (nonlinear_arith)
        requires
            span * t == change + rx - ry,
            0 <= rx < span,
            0 <= ry < span,
            -bound * span <= run * change <= bound * span,
            run > 0,
            span > 0,
    ;
    if x == xs {
        assert(tx == vs);
        assert(run * t <= bound) by (nonlinear_arith)
            requires
                span * t == change + rx - ry,
                rx == 0,
                0 <= ry,
                run * change <= bound * span,
                run > 0,
                span > 0,
        ;
    }
    if y == xe {
        assert(ty == ve);
        assert(-bound <= run * t) by (nonlinear_arith)
            requires
                span * t == change + rx - ry,
                ry == 0,
                0 <= rx,
                -bound * span <= run * change,
                run > 0,
                span > 0,
        ;
    }
}

proof fn lemma_segment_of(table: Seq<Breakpoint>, x: int, k: int) -> (i: int)
    requires
        increasing(table),
        1 <= k < table.len(),
        table[k - 1].second <= x <= table.last().second,
    ensures
        k <= i < table.len(),
        table[i - 1].second <= x <= table[i].second,
    decreases table.len() - k,
{
    if x <= table[k].second {
        k
    } else {
        if k == table.len() - 1 {
            assert(table[k] == table.last());
        }
        lemma_segment_of(table, x, k + 1)
    }
}

/// The bound on the change of the target between two times that lie
/// between the first breakpoint and the last.
proof fn lemma_change_between_breakpoints(
    table: Seq<Breakpoint>,
    rise: int,
    run: int,
    x: int,
    y: int,
)
    requires
        table.len() > 1,
        increasing(table),
        run > 0,
        rise >= 0,
        slope_within(table, rise, run),
        table[0].second <= x < y <= table.last().second,
    ensures
        -(rise * (y - x)) - run <= run * (scheduled(table, y) - scheduled(table, x)) <= rise * (y
            - x) + run,
{
    let i = lemma_segment_of(table, x, 1);
    let j = lemma_segment_of(table, y, 1);
    lemma_target_on_segment(table, i, x);
    lemma_target_on_segment(table, j, y);
    assert(table[i - 1].second < table[i].second);
    assert(table[j - 1].second < table[j].second);
    let tx = scheduled(table, x);
    let ty = scheduled(table, y);
    if i > j {
        assert(table[j].second <= table[i - 1].second) by {
            if j < i - 1 {
                assert(table[j].second < table[i - 1].second);
            }
        }
    } else if i == j {
        lemma_line_change(
            table[i - 1].temperature as int,
            table[i].temperature as int,
            table[i - 1].second as int,
            table[i].second as int,
            x,
            y,
            rise,
            run,
        );
    } else {
        let v1 = table[i].temperature as int;
        let x1 = table[i].second as int;
        let v2 = table[j - 1].temperature as int;
        let x2 = table[j - 1].second as int;
        assert(x1 <= x2) by {
            if i < j - 1 {
                assert(table[i].second < table[j - 1].second);
            }
        }
        // from `x` to the end of its segment
        lemma_line_change(
            table[i - 1].temperature as int,
            v1,
            table[i - 1].second as int,
            x1,
            x,
            x1,
            rise,
            run,
        );
        assert(linear_value(
            table[i - 1].temperature as int,
            v1,
            table[i - 1].second as int,
            x1,
            x1,
        ) == v1);
        // from the start of the segment of `y` to `y`
        lemma_line_change(
            v2,
            table[j].temperature as int,
            x2,
            table[j].second as int,
            x2,
            y,
            rise,
            run,
        );
        assert(linear_value(v2, table[j].temperature as int, x2, table[j].second as int, x2)
            == v2);
        // from breakpoint to breakpoint between them
        lemma_breakpoints_within(table, rise, run, i, j - 1);
        let b1 = rise * (x1 - x);
        let bm = rise * (x2 - x1);
        let b2 = rise * (y - x2);
        let dm = distance(v2, v1);
        assert(b1 + bm + b2 == rise * (y - x)) by (nonlinear_arith)
            requires
                b1 == rise * (x1 - x),
                bm == rise * (x2 - x1),
                b2 == rise * (y - x2),
        ;
        assert(-bm <= run * (v2 - v1) <= bm) by (nonlinear_arith)
            requires
                dm * run <= bm,
                -dm <= v2 - v1 <= dm,
                run > 0,
        ;
        assert(run * (ty - tx) == run * (ty - v2) + run * (v2 - v1) + run * (v1 - tx))
            by (nonlinear_arith);
    }
}

/// No jump anywhere: between any two times of day the target changes by
/// no more than the steepest segment of the schedule allows for the time
/// between them, and one unit for the rounding. This holds across
/// breakpoints, and where the target is held before the first breakpoint
/// and after the last.
///
/// The slope is given as `rise` units of temperature in `run` seconds that
/// no segment exceeds.
pub proof fn lemma_target_change_bounded(
    table: Seq<Breakpoint>,
    rise: int,
    run: int,
    x: int,
    y: int,
)
    requires
        table.len() > 0,
        increasing(table),
        run > 0,
        rise >= 0,
        slope_within(table, rise, run),
        x <= y,
    ensures
        distance(scheduled(table, y), scheduled(table, x)) * run <= rise * (y - x) + run,
{
    let n = table.len() as int;
    let first = table[0].second as int;
    let last = table.last().second as int;
    assert(first <= last) by {
        if n > 1 {
            assert(table[0].second < table[n - 1].second);
        }
    }
    let xc = if x < first {
        first
    } else if x > last {
        last
    } else {
        x
    };
    let yc = if y < first {
        first
    } else if y > last {
        last
    } else {
        y
    };
    assert(scheduled(table, x) == scheduled(table, xc)) by {
        if x > last {
            lemma_target_after_last(table, x);
            lemma_target_after_last(table, last);
        }
    }
    assert(scheduled(table, y) == scheduled(table, yc)) by {
        if y > last {
            lemma_target_after_last(table, y);
            lemma_target_after_last(table, last);
        }
    }
    let tx = scheduled(table, xc);
    let ty = scheduled(table, yc);
    let d = distance(ty, tx);
    assert(0 <= rise * (yc - xc) <= rise * (y - x)) by (nonlinear_arith)
        requires
            rise >= 0,
            0 <= yc - xc <= y - x,
    ;
    if xc == yc {
        assert(d * run == 0) by (nonlinear_arith)
            requires
                d == 0,
        ;
    } else {
        lemma_change_between_breakpoints(table, rise, run, xc, yc);
        let t = ty - tx;
        let bound = rise * (yc - xc);
        assert(d * run <= bound + run) by (nonlinear_arith)
            requires
                -bound - run <= run * t <= bound + run,
                d == t || d == -t,
        ;
    }
}

/// How far the target rises or falls over segment `i` of a schedule.
pub open spec fn rise_of(table: Seq<Breakpoint>, i: int) -> int {
    distance(table[i].temperature as int, table[i - 1].temperature as int)
}

/// How long segment `i` of a schedule lasts.
pub open spec fn run_of(table: Seq<Breakpoint>, i: int) -> int {
    table[i].second - table[i - 1].second
}

/// The steepest of the segments 1 to `upto` of a schedule, the first of
/// them where several are equally steep.
pub open spec fn steepest(table: Seq<Breakpoint>, upto: int) -> int
    decreases upto,
{
    if upto <= 1 {
        1
    } else {
        let k = steepest(table, upto - 1);
        if rise_of(table, upto) * run_of(table, k) > rise_of(table, k) * run_of(table, upto) {
            upto
        } else {
            k
        }
    }
}

proof fn lemma_steepest(table: Seq<Breakpoint>, upto: int, i: int)
    requires
        increasing(table),
        1 <= i <= upto < table.len(),
    ensures
        1 <= steepest(table, upto) <= upto,
        rise_of(table, i) * run_of(table, steepest(table, upto)) <= rise_of(
            table,
            steepest(table, upto),
        ) * run_of(table, i),
    decreases upto,
{
    let m = steepest(table, upto);
    assert(table[i - 1].second < table[i].second);
    assert(table[upto - 1].second < table[upto].second);
    if upto > 1 {
        let k = steepest(table, upto - 1);
        lemma_steepest(table, upto - 1, 1);
        assert(table[k - 1].second < table[k].second);
        if i < upto {
            lemma_steepest(table, upto - 1, i);
            if m == upto {
                let ri = rise_of(table, i);
                let rk = rise_of(table, k);
                let rm = rise_of(table, m);
                let xi = run_of(table, i);
                let xk = run_of(table, k);
                let xm = run_of(table, m);
                assert(ri * xm <= rm * xi) by (nonlinear_arith)
                    requires
                        ri * xk <= rk * xi,
                        rm * xk > rk * xm,
                        xi > 0,
                        xk > 0,
                        xm > 0,
                        ri >= 0,
                        rk >= 0,
                        rm >= 0,
                ;
            }
        }
    }
}

/// No segment of a schedule is steeper than its steepest segment.
pub proof fn lemma_steepest_bounds(table: Seq<Breakpoint>)
    requires
        increasing(table),
        table.len() > 1,
    ensures
        1 <= steepest(table, table.len() - 1) < table.len(),
        run_of(table, steepest(table, table.len() - 1)) > 0,
        slope_within(
            table,
            rise_of(table, steepest(table, table.len() - 1)),
            run_of(table, steepest(table, table.len() - 1)),
        ),
{
    let last = table.len() - 1;
    let m = steepest(table, last);
    lemma_steepest(table, last, 1);
    assert(table[m - 1].second < table[m].second);
    assert forall|i: int| 1 <= i < table.len() implies distance(
        (#[trigger] table[i]).temperature as int,
        table[i - 1].temperature as int,
    ) * run_of(table, m) <= rise_of(table, m) * (table[i].second - table[i - 1].second) by {
        lemma_steepest(table, last, i);
    }
}

/// No jump anywhere, with the slope of the schedule itself: between any
/// two times of day the target changes by no more than the steepest
/// segment of the schedule does in as much time, and one unit for the
/// rounding.
pub proof fn lemma_target_no_jump(table: Seq<Breakpoint>, x: int, y: int)
    requires
        increasing(table),
        table.len() > 1,
        x <= y,
    ensures
        distance(scheduled(table, y), scheduled(table, x)) * run_of(
            table,
            steepest(table, table.len() - 1),
        ) <= rise_of(table, steepest(table, table.len() - 1)) * (y - x) + run_of(
            table,
            steepest(table, table.len() - 1),
        ),
{
    lemma_steepest_bounds(table);
    let m = steepest(table, table.len() - 1);
    lemma_target_change_bounded(table, rise_of(table, m), run_of(table, m), x, y);
}

/// Bedroom target at night.
pub const BEDROOM_TEMP_NIGHT: i64 = 19_300_000_000;

/// Bedroom target by day.
pub const BEDROOM_TEMP_DAY: i64 = 21_000_000_000;

/// Bedroom target while the room is not in use.
pub const BEDROOM_TEMP_DAY_OFF: i64 = 12_000_000_000;

/// The one target of the second room.
pub const IRINA_TEMP: i64 = 21_500_000_000;

/// Children's room target at night.
pub const CHILDREN_TEMP_NIGHT: i64 = 18_300_000_000;

/// Children's room target while the room is not in use.
pub const CHILDREN_TEMP_DAY_OFF: i64 = 12_000_000_000;

/// Children's room target in the morning.
pub const CHILDREN_TEMP_MORNING: i64 = 20_000_000_000;

/// Children's room target in the evening.
pub const CHILDREN_TEMP_EVENING: i64 = 20_000_000_000;

/// Number of rooms that have a schedule.
pub const ROOM_COUNT: usize = 3;

/// The schedule of the bedroom.
pub open spec fn bedroom_table() -> Seq<Breakpoint> {
    seq![
        Breakpoint { second: 0, temperature: BEDROOM_TEMP_DAY },
        Breakpoint { second: 10_800, temperature: BEDROOM_TEMP_NIGHT },
        Breakpoint { second: 18_000, temperature: BEDROOM_TEMP_NIGHT },
        Breakpoint { second: 28_800, temperature: BEDROOM_TEMP_DAY },
        Breakpoint { second: 34_200, temperature: BEDROOM_TEMP_DAY },
        Breakpoint { second: 57_600, temperature: BEDROOM_TEMP_DAY_OFF },
        Breakpoint { second: 82_800, temperature: BEDROOM_TEMP_DAY },
        Breakpoint { second: 86_400, temperature: BEDROOM_TEMP_DAY },
    ]
}

/// The schedule of the second room: one target all day.
pub open spec fn irina_table() -> Seq<Breakpoint> {
    seq![Breakpoint { second: 0, temperature: IRINA_TEMP }]
}

/// The schedule of the children's room.
pub open spec fn children_table() -> Seq<Breakpoint> {
    seq![
        Breakpoint { second: 0, temperature: CHILDREN_TEMP_EVENING },
        Breakpoint { second: 9_000, temperature: CHILDREN_TEMP_NIGHT },
        Breakpoint { second: 16_200, temperature: CHILDREN_TEMP_NIGHT },
        Breakpoint { second: 25_200, temperature: CHILDREN_TEMP_MORNING },
        Breakpoint { second: 32_400, temperature: CHILDREN_TEMP_MORNING },
        Breakpoint { second: 61_200, temperature: CHILDREN_TEMP_DAY_OFF },
        Breakpoint { second: 79_200, temperature: CHILDREN_TEMP_EVENING },
        Breakpoint { second: 86_400, temperature: CHILDREN_TEMP_EVENING },
    ]
}

/// The schedule of a room, by the room's number.
pub open spec fn room_table(room: int) -> Seq<Breakpoint> {
    if room == 0 {
        bedroom_table()
    } else if room == 1 {
        irina_table()
    } else {
        children_table()
    }
}

/// The schedule of the room with number `room`.
pub fn interpolate_intervals(room: usize) -> (r: Vec<Breakpoint>)
    requires
        room < ROOM_COUNT,
    ensures
        r@ == room_table(room as int),
{
    let r = if room == 0 {
        vec![
            Breakpoint { second: 0, temperature: BEDROOM_TEMP_DAY },
            Breakpoint { second: 10_800, temperature: BEDROOM_TEMP_NIGHT },
            Breakpoint { second: 18_000, temperature: BEDROOM_TEMP_NIGHT },
            Breakpoint { second: 28_800, temperature: BEDROOM_TEMP_DAY },
            Breakpoint { second: 34_200, temperature: BEDROOM_TEMP_DAY },
            Breakpoint { second: 57_600, temperature: BEDROOM_TEMP_DAY_OFF },
            Breakpoint { second: 82_800, temperature: BEDROOM_TEMP_DAY },
            Breakpoint { second: 86_400, temperature: BEDROOM_TEMP_DAY },
        ]
    } else if room == 1 {
        vec![Breakpoint { second: 0, temperature: IRINA_TEMP }]
    } else {
        vec![
            Breakpoint { second: 0, temperature: CHILDREN_TEMP_EVENING },
            Breakpoint { second: 9_000, temperature: CHILDREN_TEMP_NIGHT },
            Breakpoint { second: 16_200, temperature: CHILDREN_TEMP_NIGHT },
            Breakpoint { second: 25_200, temperature: CHILDREN_TEMP_MORNING },
            Breakpoint { second: 32_400, temperature: CHILDREN_TEMP_MORNING },
            Breakpoint { second: 61_200, temperature: CHILDREN_TEMP_DAY_OFF },
            Breakpoint { second: 79_200, temperature: CHILDREN_TEMP_EVENING },
            Breakpoint { second: 86_400, temperature: CHILDREN_TEMP_EVENING },
        ]
    };
    assert(r@ =~= room_table(room as int));
    r
}

/// Every room's schedule has a breakpoint, and its times increase.
pub proof fn lemma_room_tables_increasing(room: int)
    ensures
        room_table(room).len() > 0,
        increasing(room_table(room)),
{
}

/// The target of a room at a time of day.
pub fn room_target(room: usize, second_of_day: u32) -> (r: i64)
    requires
        room < ROOM_COUNT,
    ensures
        r == scheduled(room_table(room as int), second_of_day as int),
{
    let table = interpolate_intervals(room);
    proof {
        lemma_room_tables_increasing(room as int);
    }
    target_at(table.as_slice(), second_of_day)
}

} // verus!
