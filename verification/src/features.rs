//! The feature extractor: reduces a chart to eight weighted pattern
//! ratios, each kept as an exact rational.
//!
//! Every ratio is a fraction `count / total` of pattern occurrences over a
//! single pass through the object list, scaled by a fixed per-feature
//! weight.  Distance and angle thresholds are stated algebraically over
//! the integer coordinates, so the whole computation is exact.

use vstd::prelude::*;
use crate::model::{Beatmap, ChartObject, HitObjectType, Ratio};

verus! {

/// Absolute value of a mathematical integer.
pub open spec fn abs_i(v: int) -> int {
    if v >= 0 {
        v
    } else {
        -v
    }
}

/// Squared Euclidean distance between the positions of two objects.
pub open spec fn dist_sq(a: ChartObject, b: ChartObject) -> int {
    (a.x - b.x) * (a.x - b.x) + (a.y - b.y) * (a.y - b.y)
}

/// Milliseconds from `prev` to `cur`.
pub open spec fn time_gap(prev: ChartObject, cur: ChartObject) -> int {
    cur.start_time - prev.start_time
}

/// A dense stream step: the next object comes within 125 ms and less than
/// 100 units away.
pub open spec fn is_stream_pair(prev: ChartObject, cur: ChartObject) -> bool {
    &&& 0 < time_gap(prev, cur) < 125
    &&& dist_sq(cur, prev) < 10000
}

/// A spaced stream step: within 125 ms, at distance in [100, 200).
pub open spec fn is_spaced_pair(prev: ChartObject, cur: ChartObject) -> bool {
    &&& 0 < time_gap(prev, cur) < 125
    &&& 10000 <= dist_sq(cur, prev) < 40000
}

/// Whether the object at `i` sits within 36 units of any of the 2nd-,
/// 3rd- or 4th-previous object: a visual stacking proxy.
pub open spec fn overlaps_recent(objs: Seq<ChartObject>, i: int) -> bool {
    exists|j: int| 2 <= j <= 4 && j <= i && #[trigger] dist_sq(objs[i], objs[i - j]) < 1296
}

/// An axis value sits exactly on the 8-unit grid.  Coordinates are whole
/// units, so "within one unit of a multiple of eight" admits only the
/// multiples themselves.
pub open spec fn axis_snapped(v: int) -> bool {
    v % 8 == 0
}

/// Both coordinates sit on the 8-unit grid.
pub open spec fn grid_snapped(o: ChartObject) -> bool {
    axis_snapped(o.x as int) && axis_snapped(o.y as int)
}

/// Dot product of the two vectors that leave the middle point `b` of a
/// three-object turn towards `a` and `c`.
pub open spec fn turn_dot(a: ChartObject, b: ChartObject, c: ChartObject) -> int {
    (a.x - b.x) * (c.x - b.x) + (a.y - b.y) * (c.y - b.y)
}

/// Cross product of the same two vectors.
pub open spec fn turn_cross(a: ChartObject, b: ChartObject, c: ChartObject) -> int {
    (a.x - b.x) * (c.y - b.y) - (a.y - b.y) * (c.x - b.x)
}

/// The turn angle at `b` is defined: neither neighbour coincides with `b`.
pub open spec fn angle_defined(a: ChartObject, b: ChartObject, c: ChartObject) -> bool {
    &&& (a.x != b.x || a.y != b.y)
    &&& (c.x != b.x || c.y != b.y)
}

/// Whether two absolute turn angles differ by less than 15 degrees.
///
/// An absolute turn angle with dot product `d` and absolute cross product
/// `e >= 0` is `atan2(e, d)`, which lies in [0, 180] degrees.  Writing the
/// two angles as the arguments of the complex numbers `d1 + i*e1` and
/// `d2 + i*e2`, their difference is the argument of the product
/// `(d1 + i*e1) * (d2 - i*e2) = x + i*y` with `x = d1*d2 + e1*e2` and
/// `y = e1*d2 - d1*e2`.  That argument lies in (-180, 180], and its
/// magnitude is below 15 degrees exactly when `x > 0` and
/// `|y| < x * tan(15)`.  Since `tan(15) = 2 - sqrt(3)`, the latter is
/// `2*x - |y| > sqrt(3) * x`, i.e. `2*x - |y| > 0` and
/// `(2*x - |y|)^2 > 3*x^2`.
pub open spec fn angles_similar(d1: int, e1: int, d2: int, e2: int) -> bool {
    let x = d1 * d2 + e1 * e2;
    let y = e1 * d2 - d1 * e2;
    &&& x > 0
    &&& 2 * x - abs_i(y) > 0
    &&& (2 * x - abs_i(y)) * (2 * x - abs_i(y)) > 3 * (x * x)
}

/// The 4-object window ending at `i` counts as angle-consistent: both turn
/// angles are defined and differ by less than 15 degrees.
pub open spec fn window_consistent(objs: Seq<ChartObject>, i: int) -> bool {
    let a = objs[i - 3];
    let b = objs[i - 2];
    let c = objs[i - 1];
    let d = objs[i];
    &&& angle_defined(a, b, c)
    &&& angle_defined(b, c, d)
    &&& angles_similar(
        turn_dot(a, b, c),
        abs_i(turn_cross(a, b, c)),
        turn_dot(b, c, d),
        abs_i(turn_cross(b, c, d)),
    )
}

/// The curve point list holds two consecutive identical points (a sharp
/// "red" anchor).
pub open spec fn has_red_anchor(points: Seq<(i32, i32)>) -> bool {
    exists|i: int| 0 <= i && i + 1 < points.len() && #[trigger] points[i] == points[i + 1]
}

/// A slider whose curve holds a red anchor.
pub open spec fn is_sharp_slider(o: ChartObject) -> bool {
    o.obj_type == HitObjectType::Slider && match o.curve_points {
        Some(ps) => has_red_anchor(ps@),
        None => false,
    }
}

/// Number of positions `i` with `lo <= i < k` at which `p(objs, i)` holds.
pub open spec fn count_at(
    objs: Seq<ChartObject>,
    p: spec_fn(Seq<ChartObject>, int) -> bool,
    lo: int,
    k: int,
) -> int
    decreases k - lo,
{
    if k <= lo {
        0
    } else {
        count_at(objs, p, lo, k - 1) + if p(objs, k - 1) {
            1int
        } else {
            0int
        }
    }
}

pub open spec fn snap_pred() -> spec_fn(Seq<ChartObject>, int) -> bool {
    |s: Seq<ChartObject>, i: int| grid_snapped(s[i])
}

pub open spec fn stream_pred() -> spec_fn(Seq<ChartObject>, int) -> bool {
    |s: Seq<ChartObject>, i: int| is_stream_pair(s[i - 1], s[i])
}

pub open spec fn spaced_pred() -> spec_fn(Seq<ChartObject>, int) -> bool {
    |s: Seq<ChartObject>, i: int| is_spaced_pair(s[i - 1], s[i])
}

pub open spec fn overlap_pred() -> spec_fn(Seq<ChartObject>, int) -> bool {
    |s: Seq<ChartObject>, i: int| overlaps_recent(s, i)
}

pub open spec fn consistent_pred() -> spec_fn(Seq<ChartObject>, int) -> bool {
    |s: Seq<ChartObject>, i: int| window_consistent(s, i)
}

pub open spec fn circle_pred() -> spec_fn(Seq<ChartObject>, int) -> bool {
    |s: Seq<ChartObject>, i: int| s[i].obj_type == HitObjectType::Circle
}

pub open spec fn slider_pred() -> spec_fn(Seq<ChartObject>, int) -> bool {
    |s: Seq<ChartObject>, i: int| s[i].obj_type == HitObjectType::Slider
}

pub open spec fn sharp_pred() -> spec_fn(Seq<ChartObject>, int) -> bool {
    |s: Seq<ChartObject>, i: int| is_sharp_slider(s[i])
}

/// A count over a total, times a weight of `w10` tenths, as the exact
/// rational `(w10 * count) / (10 * total)`.
pub open spec fn weighted_ratio(w10: int, count: int, total: int) -> Ratio {
    Ratio { num: (w10 * count) as u64, den: (10 * total) as u64 }
}

/// The intensity feature: the average gap `total_gap / m` between
/// consecutive objects, linearly mapped from [50 ms, 500 ms] to [1, 0],
/// clamped, and weighted by 1.3.
pub open spec fn intensity_ratio(total_gap: int, m: int) -> Ratio {
    let u = total_gap - 50 * m;
    if u <= 0 {
        Ratio { num: 13, den: 10 }
    } else if u >= 450 * m {
        Ratio::spec_zero()
    } else {
        Ratio { num: (13 * (450 * m - u)) as u64, den: (4500 * m) as u64 }
    }
}

/// The eight weighted feature ratios of a chart with at least 3 objects:
/// dense streams, spaced streams, reading overlap, angle consistency,
/// grid adherence, circle share, sharp sliders, and intensity.
pub open spec fn spec_features(objs: Seq<ChartObject>) -> Seq<Ratio> {
    let n = objs.len() as int;
    let m = n - 1;
    let sliders = count_at(objs, slider_pred(), 0, n);
    seq![
        weighted_ratio(10, count_at(objs, stream_pred(), 1, n), m),
        weighted_ratio(10, count_at(objs, spaced_pred(), 1, n), m),
        weighted_ratio(15, count_at(objs, overlap_pred(), 0, n), n),
        if n > 3 {
            weighted_ratio(15, count_at(objs, consistent_pred(), 3, n), n - 3)
        } else {
            Ratio::spec_zero()
        },
        weighted_ratio(8, count_at(objs, snap_pred(), 0, n), n),
        weighted_ratio(7, count_at(objs, circle_pred(), 0, n), n),
        if sliders > 0 {
            weighted_ratio(12, count_at(objs, sharp_pred(), 0, n), sliders)
        } else {
            Ratio::spec_zero()
        },
        intensity_ratio(objs[n - 1].start_time - objs[0].start_time, m),
    ]
}

/// What extraction returns: nothing for an empty chart, eight zeros for a
/// chart too short to show patterns, and the feature ratios otherwise.
pub open spec fn spec_extract(objs: Seq<ChartObject>) -> Option<Seq<Ratio>> {
    if objs.len() == 0 {
        None
    } else if objs.len() < 3 {
        Some(Seq::new(8, |i: int| Ratio::spec_zero()))
    } else {
        Some(spec_features(objs))
    }
}

proof fn lemma_abs_mul_bound(p: int, q: int, bp: int, bq: int)
    requires
        abs_i(p) <= bp,
        abs_i(q) <= bq,
    ensures
        abs_i(p * q) <= bp * bq,
{
    assert(abs_i(p * q) <= bp * bq) by (nonlinear_arith)
        requires
            abs_i(p) <= bp,
            abs_i(q) <= bq,
    ;
}

/// Squared distance between two on-field objects, computed exactly.
fn dist_sq_exec(a: &ChartObject, b: &ChartObject) -> (r: i64)
    requires
        a.wf(),
        b.wf(),
    ensures
        r == dist_sq(*a, *b),
{
    let dx: i64 = a.x as i64 - b.x as i64;
    let dy: i64 = a.y as i64 - b.y as i64;
    proof {
        lemma_abs_mul_bound(dx as int, dx as int, 16384, 16384);
        lemma_abs_mul_bound(dy as int, dy as int, 16384, 16384);
        assert(dx * dx >= 0 && dy * dy >= 0) by (nonlinear_arith);
    }
    dx * dx + dy * dy
}

/// Whether both coordinates of `o` sit on the 8-unit grid.
fn grid_snapped_exec(o: &ChartObject) -> (r: bool)
    ensures
        r == grid_snapped(*o),
{
    o.x % 8 == 0 && o.y % 8 == 0
}

/// The turn at `b`: its dot product and absolute cross product, or `None`
/// when a neighbour coincides with `b` and the angle is undefined.
pub fn turn_parts(a: &ChartObject, b: &ChartObject, c: &ChartObject) -> (r: Option<(i64, i64)>)
    requires
        a.wf(),
        b.wf(),
        c.wf(),
    ensures
        match r {
            None => !angle_defined(*a, *b, *c),
            Some(p) => {
                &&& angle_defined(*a, *b, *c)
                &&& p.0 == turn_dot(*a, *b, *c)
                &&& p.1 == abs_i(turn_cross(*a, *b, *c))
                &&& abs_i(p.0 as int) <= 0x2000_0000
                &&& 0 <= p.1 <= 0x2000_0000
            },
        },
{
    if (a.x == b.x && a.y == b.y) || (c.x == b.x && c.y == b.y) {
        return None;
    }
    let v1x: i64 = a.x as i64 - b.x as i64;
    let v1y: i64 = a.y as i64 - b.y as i64;
    let v2x: i64 = c.x as i64 - b.x as i64;
    let v2y: i64 = c.y as i64 - b.y as i64;
    proof {
        lemma_abs_mul_bound(v1x as int, v2x as int, 16384, 16384);
        lemma_abs_mul_bound(v1y as int, v2y as int, 16384, 16384);
        lemma_abs_mul_bound(v1x as int, v2y as int, 16384, 16384);
        lemma_abs_mul_bound(v1y as int, v2x as int, 16384, 16384);
    }
    let dot: i64 = v1x * v2x + v1y * v2y;
    let cross: i64 = v1x * v2y - v1y * v2x;
    let e: i64 = if cross >= 0 {
        cross
    } else {
        -cross
    };
    Some((dot, e))
}

/// Whether two turns, given as (dot, |cross|) pairs, have absolute angles
/// within 15 degrees of each other.
fn similar_angles_exec(d1: i64, e1: i64, d2: i64, e2: i64) -> (r: bool)
    requires
        abs_i(d1 as int) <= 0x2000_0000,
        abs_i(d2 as int) <= 0x2000_0000,
        0 <= e1 <= 0x2000_0000,
        0 <= e2 <= 0x2000_0000,
    ensures
        r == angles_similar(d1 as int, e1 as int, d2 as int, e2 as int),
{
    proof {
        lemma_abs_mul_bound(d1 as int, d2 as int, 0x2000_0000, 0x2000_0000);
        lemma_abs_mul_bound(e1 as int, e2 as int, 0x2000_0000, 0x2000_0000);
        lemma_abs_mul_bound(e1 as int, d2 as int, 0x2000_0000, 0x2000_0000);
        lemma_abs_mul_bound(d1 as int, e2 as int, 0x2000_0000, 0x2000_0000);
    }
    let x: i64 = d1 * d2 + e1 * e2;
    let y: i64 = e1 * d2 - d1 * e2;
    if x <= 0 {
        return false;
    }
    let ay: i64 = if y >= 0 {
        y
    } else {
        -y
    };
    let t: i64 = 2 * x - ay;
    if t <= 0 {
        return false;
    }
    proof {
        lemma_abs_mul_bound(t as int, t as int, 0x4000_0000_0000_0000, 0x4000_0000_0000_0000);
        lemma_abs_mul_bound(x as int, x as int, 0x2000_0000_0000_0000, 0x2000_0000_0000_0000);
    }
    let lhs: i128 = (t as i128) * (t as i128);
    let rhs: i128 = 3 * ((x as i128) * (x as i128));
    lhs > rhs
}

/// Whether the object at `i` overlaps one of the 2nd-, 3rd- or
/// 4th-previous objects.
fn overlaps_recent_exec(objs: &Vec<ChartObject>, i: usize) -> (r: bool)
    requires
        i < objs@.len(),
        forall|k: int| 0 <= k < objs@.len() ==> (#[trigger] objs@[k]).wf(),
    ensures
        r == overlaps_recent(objs@, i as int),
{
    let mut j: usize = 2;
    while j <= 4
        invariant
            2 <= j <= 5,
            i < objs@.len(),
            forall|k: int| 0 <= k < objs@.len() ==> (#[trigger] objs@[k]).wf(),
            forall|jj: int|
                2 <= jj < j && jj <= i ==> #[trigger] dist_sq(objs@[i as int], objs@[i - jj])
                    >= 1296,
        decreases 5 - j,
    {
        if j <= i {
            if dist_sq_exec(&objs[i], &objs[i - j]) < 1296 {
                assert(overlaps_recent(objs@, i as int)) by {
                    let jj = j as int;
                    assert(2 <= jj <= 4 && jj <= i && dist_sq(objs@[i as int], objs@[i - jj])
                        < 1296);
                }
                return true;
            }
        }
        j = j + 1;
    }
    proof {
        if overlaps_recent(objs@, i as int) {
            let jj = choose|jj: int|
                2 <= jj <= 4 && jj <= i && #[trigger] dist_sq(objs@[i as int], objs@[i - jj])
                    < 1296;
            assert(dist_sq(objs@[i as int], objs@[i - jj]) >= 1296);
        }
    }
    false
}

/// Whether the curve point list holds two consecutive identical points.
fn has_red_anchor_exec(points: &Vec<(i32, i32)>) -> (r: bool)
    ensures
        r == has_red_anchor(points@),
{
    if points.len() == 0 {
        return false;
    }
    let mut i: usize = 0;
    while i < points.len() - 1
        invariant
            points@.len() >= 1,
            0 <= i <= points@.len() - 1,
            forall|k: int| 0 <= k < i ==> #[trigger] points@[k] != points@[k + 1],
        decreases points@.len() - i,
    {
        if points[i].0 == points[i + 1].0 && points[i].1 == points[i + 1].1 {
            assert(points@[i as int] == points@[i + 1]);
            return true;
        }
        i = i + 1;
    }
    false
}

/// In an ascending-ordered object list, earlier objects have no later
/// start times.
proof fn lemma_sorted_times(objs: Seq<ChartObject>, i: int, j: int)
    requires
        forall|k: int|
            1 <= k < objs.len() ==> #[trigger] objs[k - 1].start_time <= objs[k].start_time,
        0 <= i <= j < objs.len(),
    ensures
        objs[i].start_time <= objs[j].start_time,
    decreases j - i,
{
    if i < j {
        lemma_sorted_times(objs, i, j - 1);
        assert(objs[j - 1].start_time <= objs[j].start_time);
    }
}

/// Whether `o` is a sharp slider: a slider whose curve holds a red anchor.
fn is_sharp_slider_exec(o: &ChartObject) -> (r: bool)
    ensures
        r == is_sharp_slider(*o),
{
    match o.obj_type {
        HitObjectType::Slider => match &o.curve_points {
            Some(ps) => has_red_anchor_exec(ps),
            None => false,
        },
        _ => false,
    }
}

/// Extracts the feature vector of a chart: `None` for an empty chart,
/// eight zeros for fewer than three objects, and the eight weighted
/// pattern ratios otherwise.
pub fn extract_features(beatmap: &Beatmap) -> (r: Option<Vec<Ratio>>)
    requires
        beatmap.wf(),
    ensures
        r is Some <==> spec_extract(beatmap.hit_objects@) is Some,
        r is Some ==> r.unwrap()@ == spec_extract(beatmap.hit_objects@).unwrap(),
        r is Some ==> r.unwrap()@.len() == 8,
        r is Some ==> forall|i: int| 0 <= i < 8 ==> (#[trigger] r.unwrap()@[i]).wf(),
{
    let ghost s = beatmap.hit_objects@;
    let objs = &beatmap.hit_objects;
    let n = objs.len();
    if n == 0 {
        return None;
    }
    if n < 3 {
        let mut v: Vec<Ratio> = Vec::new();
        let mut k: usize = 0;
        while k < 8
            invariant
                v@.len() == k,
                0 <= k <= 8,
                forall|t: int| 0 <= t < k ==> v@[t] == Ratio::spec_zero(),
            decreases 8 - k,
        {
            v.push(Ratio::zero());
            k = k + 1;
        }
        proof {
            assert(v@ =~= Seq::new(8, |i: int| Ratio::spec_zero()));
        }
        return Some(v);
    }
    let mut snapped: u64 = 0;
    let mut streams: u64 = 0;
    let mut spaced: u64 = 0;
    let mut overlaps: u64 = 0;
    let mut consistent: u64 = 0;
    let mut circles: u64 = 0;
    let mut sliders: u64 = 0;
    let mut sharp: u64 = 0;
    let mut gap_sum: i64 = 0;
    let mut i: usize = 0;
    while i < n
        invariant
            beatmap.wf(),
            s == beatmap.hit_objects@,
            objs == &beatmap.hit_objects,
            3 <= n == s.len(),
            0 <= i <= n,
            snapped == count_at(s, snap_pred(), 0, i as int),
            streams == count_at(s, stream_pred(), 1, i as int),
            spaced == count_at(s, spaced_pred(), 1, i as int),
            overlaps == count_at(s, overlap_pred(), 0, i as int),
            consistent == count_at(s, consistent_pred(), 3, i as int),
            circles == count_at(s, circle_pred(), 0, i as int),
            sliders == count_at(s, slider_pred(), 0, i as int),
            sharp == count_at(s, sharp_pred(), 0, i as int),
            snapped <= i && streams <= i && spaced <= i && overlaps <= i,
            consistent <= i && circles <= i && sliders <= i && sharp <= i,
            i >= 1 ==> gap_sum == s[i - 1].start_time - s[0].start_time,
            i == 0 ==> gap_sum == 0,
        decreases n - i,
    {
        let cur = &objs[i];
        if grid_snapped_exec(cur) {
            snapped = snapped + 1;
        }
        proof {
            assert(snap_pred()(s, i as int) == grid_snapped(s[i as int]));
        }
        if i >= 1 {
            let prev = &objs[i - 1];
            let dt: i64 = cur.start_time as i64 - prev.start_time as i64;
            gap_sum = gap_sum + dt;
            let ds = dist_sq_exec(cur, prev);
            if 0 < dt && dt < 125 && ds < 10000 {
                streams = streams + 1;
            }
            if 0 < dt && dt < 125 && 10000 <= ds && ds < 40000 {
                spaced = spaced + 1;
            }
            proof {
                assert(stream_pred()(s, i as int) == is_stream_pair(s[i - 1], s[i as int]));
                assert(spaced_pred()(s, i as int) == is_spaced_pair(s[i - 1], s[i as int]));
            }
        }
        if overlaps_recent_exec(objs, i) {
            overlaps = overlaps + 1;
        }
        proof {
            assert(overlap_pred()(s, i as int) == overlaps_recent(s, i as int));
        }
        if i >= 3 {
            let t1 = turn_parts(&objs[i - 3], &objs[i - 2], &objs[i - 1]);
            let t2 = turn_parts(&objs[i - 2], &objs[i - 1], &objs[i]);
            let ok = match (t1, t2) {
                (Some(p1), Some(p2)) => similar_angles_exec(p1.0, p1.1, p2.0, p2.1),
                _ => false,
            };
            if ok {
                consistent = consistent + 1;
            }
            proof {
                assert(consistent_pred()(s, i as int) == window_consistent(s, i as int));
            }
        }
        match cur.obj_type {
            HitObjectType::Circle => {
                circles = circles + 1;
            },
            HitObjectType::Slider => {
                sliders = sliders + 1;
                if is_sharp_slider_exec(cur) {
                    sharp = sharp + 1;
                }
            },
            _ => {},
        }
        proof {
            assert(circle_pred()(s, i as int) == (s[i as int].obj_type == HitObjectType::Circle));
            assert(slider_pred()(s, i as int) == (s[i as int].obj_type == HitObjectType::Slider));
            assert(sharp_pred()(s, i as int) == is_sharp_slider(s[i as int]));
        }
        i = i + 1;
    }
    let m: u64 = n as u64 - 1;
    let mut v: Vec<Ratio> = Vec::new();
    v.push(Ratio { num: 10 * streams, den: 10 * m });
    v.push(Ratio { num: 10 * spaced, den: 10 * m });
    v.push(Ratio { num: 15 * overlaps, den: 10 * (n as u64) });
    if n > 3 {
        v.push(Ratio { num: 15 * consistent, den: 10 * (n as u64 - 3) });
    } else {
        v.push(Ratio::zero());
    }
    v.push(Ratio { num: 8 * snapped, den: 10 * (n as u64) });
    v.push(Ratio { num: 7 * circles, den: 10 * (n as u64) });
    if sliders > 0 {
        v.push(Ratio { num: 12 * sharp, den: 10 * sliders });
    } else {
        v.push(Ratio::zero());
    }
    proof {
        lemma_sorted_times(s, 0, n as int - 1);
    }
    let m_i64: i64 = m as i64;
    let u: i64 = gap_sum - 50 * m_i64;
    if u <= 0 {
        v.push(Ratio { num: 13, den: 10 });
    } else if u >= 450 * m_i64 {
        v.push(Ratio::zero());
    } else {
        v.push(Ratio { num: (13 * (450 * m_i64 - u)) as u64, den: 4500 * m });
    }
    proof {
        assert(v@ =~= spec_features(s));
    }
    Some(v)
}

/// Extraction returns nothing exactly on the empty chart, and otherwise
/// exactly eight values.
pub proof fn lemma_extract_shape(objs: Seq<ChartObject>)
    ensures
        spec_extract(objs) is None <==> objs.len() == 0,
        spec_extract(objs) is Some ==> spec_extract(objs).unwrap().len() == 8,
{
}

/// A nonempty chart with fewer than three objects yields eight zeros,
/// not an absent vector.
pub proof fn lemma_short_chart_zeros(objs: Seq<ChartObject>)
    requires
        0 < objs.len() < 3,
    ensures
        spec_extract(objs) is Some,
        spec_extract(objs).unwrap().len() == 8,
        forall|i: int| 0 <= i < 8 ==> spec_extract(objs).unwrap()[i] == Ratio::spec_zero(),
{
}

/// Reversing the winding order of the three points of a turn preserves
/// the absolute angle: the dot product is unchanged and the cross
/// product only flips its sign, so its magnitude stays the same.
pub proof fn lemma_angle_reflection(a: ChartObject, b: ChartObject, c: ChartObject)
    ensures
        angle_defined(c, b, a) == angle_defined(a, b, c),
        turn_dot(c, b, a) == turn_dot(a, b, c),
        abs_i(turn_cross(c, b, a)) == abs_i(turn_cross(a, b, c)),
{
    let ax = a.x as int;
    let ay = a.y as int;
    let bx = b.x as int;
    let by = b.y as int;
    let cx = c.x as int;
    let cy = c.y as int;
    assert((cx - bx) * (ax - bx) + (cy - by) * (ay - by) == (ax - bx) * (cx - bx) + (ay - by) * (cy
        - by)) by (nonlinear_arith);
    assert((cx - bx) * (ay - by) - (cy - by) * (ax - bx) == -((ax - bx) * (cy - by) - (ay - by) * (
    cx - bx))) by (nonlinear_arith);
}

/// Grid adherence is invariant under translation by exact multiples of
/// eight units in either axis.
pub proof fn lemma_grid_translation(o: ChartObject, t: ChartObject, kx: int, ky: int)
    requires
        t.x == o.x + 8 * kx,
        t.y == o.y + 8 * ky,
    ensures
        grid_snapped(t) == grid_snapped(o),
{
    vstd::arithmetic::div_mod::lemma_mod_multiples_vanish(kx, o.x as int, 8);
    vstd::arithmetic::div_mod::lemma_mod_multiples_vanish(ky, o.y as int, 8);
}

} // verus!
