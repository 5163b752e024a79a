//! The transfer function: a curve of control points that maps a normalised
//! sample to a colour, and the table of 256 colours that is derived from it.

use vstd::prelude::*;
use crate::fixed::{
    clamp, clamp_int, floor_div, lemma_floor_ratio_bound, lemma_mul_bound, wide_mul, HALF, ONE,
};

verus! {

/// The number of entries of the colour table.
pub const BUCKETS: usize = 256;

/// The distance between the sample values of two neighbouring table
/// entries: `ONE / 255`, which is exact.
pub const BUCKET_WIDTH: i64 = 257_000;

/// A quarter, 0.33, 0.66 and three quarters: the places of the inner points
/// of the named curves.
pub const QUARTER: i64 = 16_383_750;

pub const THIRD: i64 = 21_626_550;

pub const TWO_THIRDS: i64 = 43_253_100;

pub const THREE_QUARTERS: i64 = 49_151_250;

/// An anchor of the curve: the colour (red, green, blue, alpha) that a
/// sample value is given.
#[derive(Clone, Copy, Debug, PartialEq, Eq)]
pub struct ControlPoint {
    pub value: i64,
    pub color: [i64; 4],
}

/// Every channel of the colour lies between 0 and `ONE`.
pub open spec fn color_in_range(color: [i64; 4]) -> bool {
    forall|j: int| 0 <= j < 4 ==> 0 <= #[trigger] color[j] <= ONE
}

/// The values of the points never decrease along the sequence.
pub open spec fn sorted_by_value(points: Seq<ControlPoint>) -> bool {
    forall|i: int, j: int| 0 <= i <= j < points.len() ==> points[i].value <= points[j].value
}

/// What holds of the control points of every transfer function: there are at
/// least two, each has its value and its channels between 0 and `ONE`, and
/// they are sorted by value.
pub open spec fn valid_points(points: Seq<ControlPoint>) -> bool {
    &&& points.len() >= 2
    &&& forall|i: int|
        0 <= i < points.len() ==> 0 <= (#[trigger] points[i]).value <= ONE && color_in_range(
            points[i].color,
        )
    &&& sorted_by_value(points)
}

/// The number of points whose value is at most `v`. Among sorted points
/// these are the first ones, so this is also the place at which a point of
/// value `v` is inserted behind its equals.
pub open spec fn count_at_most(points: Seq<ControlPoint>, v: int) -> int
    decreases points.len(),
{
    if points.len() == 0 {
        0
    } else {
        count_at_most(points.drop_last(), v) + if points.last().value <= v {
            1int
        } else {
            0int
        }
    }
}

/// The channel value at `v` on the straight line from `c1` at `v1` to `c2`
/// at `v2`, rounded down.
pub open spec fn lerp(c1: int, c2: int, v1: int, v2: int, v: int) -> int {
    (c1 * (v2 - v) + c2 * (v - v1)) / (v2 - v1)
}

/// Channel `j` of the colour of table entry `bucket`, computed from the
/// control points alone.
///
/// The entry stands for the sample value `bucket / 255`. With `k` points at
/// or below that value: between point `k - 1` and point `k` the colour is
/// interpolated, and past the last point it is the last point's colour.
/// Before the first point the line through the first two points is
/// carried on, which can leave the unit range; where these two have one
/// value and so no line, it is the first point's colour.
pub open spec fn bucket_channel(points: Seq<ControlPoint>, bucket: int, j: int) -> int {
    let v = bucket * BUCKET_WIDTH;
    let k = count_at_most(points, v);
    if k == 0 {
        if points[0].value == points[1].value {
            points[0].color[j] as int
        } else {
            lerp(
                points[0].color[j] as int,
                points[1].color[j] as int,
                points[0].value as int,
                points[1].value as int,
                v,
            )
        }
    } else if k < points.len() {
        lerp(
            points[k - 1].color[j] as int,
            points[k].color[j] as int,
            points[k - 1].value as int,
            points[k].value as int,
            v,
        )
    } else {
        points[points.len() - 1].color[j] as int
    }
}

/// The table entry that a sample value falls into: the value is limited to
/// the unit range, multiplied by 255 and rounded down.
pub open spec fn bucket_of(value: int) -> int {
    let scaled = clamp_int(value, 0, ONE as int) * 255 / (ONE as int);
    if scaled > 255 {
        255
    } else {
        scaled
    }
}

/// The place of a point of value `v` among `points`, with the point put
/// there.
pub open spec fn with_point(points: Seq<ControlPoint>, value: int, color: [i64; 4]) -> Seq<
    ControlPoint,
> {
    let v = clamp_int(value, 0, ONE as int);
    points.insert(count_at_most(points, v), ControlPoint { value: v as i64, color })
}

/// Among sorted points, those counted by `count_at_most` are the first
/// ones: every point before that place has a value at most `v`, every point
/// from that place on a larger one.
pub proof fn lemma_count_splits(points: Seq<ControlPoint>, v: int)
    requires
        sorted_by_value(points),
    ensures
        0 <= count_at_most(points, v) <= points.len(),
        forall|i: int| 0 <= i < count_at_most(points, v) ==> (#[trigger] points[i]).value <= v,
        forall|i: int|
            count_at_most(points, v) <= i < points.len() ==> (#[trigger] points[i]).value > v,
    decreases points.len(),
{
    if points.len() > 0 {
        let front = points.drop_last();
        assert(sorted_by_value(front)) by {
            assert forall|i: int, j: int| 0 <= i <= j < front.len() implies front[i].value
                <= front[j].value by {
                assert(points[i].value <= points[j].value);
            }
        }
        lemma_count_splits(front, v);
        let k = count_at_most(front, v);
        if points.last().value <= v {
            if k < front.len() {
                assert(front[k].value <= points.last().value);
            }
        }
        assert forall|i: int| 0 <= i < count_at_most(points, v) implies (
            #[trigger] points[i]
        ).value <= v by {
            if i < front.len() {
                assert(front[i] == points[i]);
            }
        }
        assert forall|i: int| count_at_most(points, v) <= i < points.len() implies (
            #[trigger] points[i]
        ).value > v by {
            if i < front.len() {
                assert(front[i] == points[i]);
            }
        }
    }
}

/// A place that splits sorted points into those at most `v` and those above
/// is the place that `count_at_most` names.
pub proof fn lemma_split_is_count(points: Seq<ControlPoint>, v: int, k: int)
    requires
        sorted_by_value(points),
        0 <= k <= points.len(),
        forall|i: int| 0 <= i < k ==> (#[trigger] points[i]).value <= v,
        forall|i: int| k <= i < points.len() ==> (#[trigger] points[i]).value > v,
    ensures
        count_at_most(points, v) == k,
{
    lemma_count_splits(points, v);
    let c = count_at_most(points, v);
    if c < k {
        assert(points[c].value > v);
    } else if c > k {
        assert(points[k].value > v);
    }
}

/// A channel interpolated between two channels in range is in range.
pub proof fn lemma_lerp_in_range(c1: int, c2: int, v1: int, v2: int, v: int)
    requires
        0 <= c1 <= ONE,
        0 <= c2 <= ONE,
        v1 <= v < v2,
    ensures
        0 <= lerp(c1, c2, v1, v2, v) <= ONE,
        0 <= c1 * (v2 - v) + c2 * (v - v1) <= ONE * (v2 - v1),
{
    let a = v2 - v;
    let b = v - v1;
    let n = c1 * a + c2 * b;
    let d = v2 - v1;
    assert(0 <= n <= ONE * d) by (nonlinear_arith)
        requires
            n == c1 * a + c2 * b,
            d == a + b,
            0 <= c1 <= ONE,
            0 <= c2 <= ONE,
            a > 0,
            b >= 0,
    ;
    assert(0 <= n / d <= ONE) by (nonlinear_arith)
        requires
            0 <= n <= ONE * d,
            d > 0,
    ;
}

/// Putting a point in at its place keeps valid points valid.
pub proof fn lemma_with_point_valid(points: Seq<ControlPoint>, value: int, color: [i64; 4])
    requires
        valid_points(points),
        color_in_range(color),
    ensures
        valid_points(with_point(points, value, color)),
{
    lemma_insert_valid(points, value, color);
}

/// Putting a point in at its place among sorted points in range leaves
/// them sorted and in range, and makes them one more.
proof fn lemma_insert_valid(points: Seq<ControlPoint>, value: int, color: [i64; 4])
    requires
        points.len() >= 1,
        forall|i: int|
            0 <= i < points.len() ==> 0 <= (#[trigger] points[i]).value <= ONE && color_in_range(
                points[i].color,
            ),
        sorted_by_value(points),
        color_in_range(color),
    ensures
        valid_points(with_point(points, value, color)),
{
    let v = clamp_int(value, 0, ONE as int);
    let k = count_at_most(points, v);
    let next = with_point(points, value, color);
    lemma_count_splits(points, v);
    assert forall|i: int| 0 <= i < next.len() implies 0 <= (#[trigger] next[i]).value <= ONE
        && color_in_range(next[i].color) by {
        if i < k {
            assert(next[i] == points[i]);
        } else if i > k {
            assert(next[i] == points[i - 1]);
        }
    }
    assert forall|i: int, j: int| 0 <= i <= j < next.len() implies next[i].value
        <= next[j].value by {
        if i < k {
            assert(next[i] == points[i]);
        } else if i > k {
            assert(next[i] == points[i - 1]);
        }
        if j < k {
            assert(next[j] == points[j]);
        } else if j > k {
            assert(next[j] == points[j - 1]);
        }
    }
}

/// Taking one point out of more than two keeps valid points valid.
pub proof fn lemma_remove_valid(points: Seq<ControlPoint>, index: int)
    requires
        valid_points(points),
        points.len() > 2,
        0 <= index < points.len(),
    ensures
        valid_points(points.remove(index)),
{
    let next = points.remove(index);
    lemma_remove_sorted(points, index);
    assert forall|i: int| 0 <= i < next.len() implies 0 <= (#[trigger] next[i]).value <= ONE
        && color_in_range(next[i].color) by {
        if i < index {
            assert(next[i] == points[i]);
        } else {
            assert(next[i] == points[i + 1]);
        }
    }
}

/// Every channel of every table entry lies between 0 and `ONE`.
pub open spec fn table_in_range(points: Seq<ControlPoint>) -> bool {
    forall|bucket: int, j: int|
        0 <= bucket < BUCKETS && 0 <= j < 4 ==> 0 <= #[trigger] bucket_channel(points, bucket, j)
            <= ONE
}

/// The table of a curve that begins at the value 0 lies in the unit range:
/// no entry stands before its first point.
pub proof fn lemma_table_in_range(points: Seq<ControlPoint>)
    requires
        valid_points(points),
        points[0].value == 0,
    ensures
        table_in_range(points),
{
    assert forall|bucket: int, j: int| 0 <= bucket < BUCKETS && 0 <= j < 4 implies 0
        <= #[trigger] bucket_channel(points, bucket, j) <= ONE by {
        assert(bucket * BUCKET_WIDTH >= 0) by (nonlinear_arith)
            requires
                bucket >= 0,
                BUCKET_WIDTH > 0,
        ;
        lemma_bucket_channel_in_range(points, bucket, j);
    }
}

/// A channel of a table entry that stands at or after the first control
/// point lies between 0 and `ONE`.
pub proof fn lemma_bucket_channel_in_range(points: Seq<ControlPoint>, bucket: int, j: int)
    requires
        valid_points(points),
        points[0].value <= bucket * BUCKET_WIDTH,
        0 <= j < 4,
    ensures
        0 <= bucket_channel(points, bucket, j) <= ONE,
{
    let v = bucket * BUCKET_WIDTH;
    let k = count_at_most(points, v);
    lemma_count_splits(points, v);
    if 0 < k < points.len() {
        assert(points[k - 1].value <= v < points[k].value);
        lemma_lerp_in_range(
            points[k - 1].color[j] as int,
            points[k].color[j] as int,
            points[k - 1].value as int,
            points[k].value as int,
            v,
        );
    } else if k == 0 {
        assert(points[0].value > v);
    } else {
        assert(color_in_range(points[points.len() - 1].color));
    }
}

/// The default curve is the identity: every channel of table entry
/// `bucket` is the value that the entry stands for, so that a sample of 0 is
/// transparent black and one of the full range opaque white.
pub proof fn lemma_default_curve_is_a_ramp(bucket: int, j: int)
    requires
        0 <= bucket < BUCKETS,
        0 <= j < 4,
    ensures
        bucket_channel(TransferFunction::default_points(), bucket, j) == bucket * BUCKET_WIDTH,
{
    let points = TransferFunction::default_points();
    let v = bucket * BUCKET_WIDTH;
    let one = ONE as int;
    reveal_with_fuel(count_at_most, 3);
    assert(points.drop_last() =~= seq![points[0]]);
    assert(points.drop_last().drop_last() =~= Seq::<ControlPoint>::empty());
    if bucket < 255 {
        assert(count_at_most(points, v) == 1);
        assert((0 * (one - v) + one * v) / one == v) by (nonlinear_arith)
            requires
                one > 0,
        ;
    } else {
        assert(count_at_most(points, v) == 2);
    }
}

/// The number of the sorted points whose value is at most `v`, by binary
/// search.
fn partition_point(points: &Vec<ControlPoint>, v: i64) -> (k: usize)
    requires
        sorted_by_value(points@),
    ensures
        k == count_at_most(points@, v as int),
        k <= points@.len(),
{
    let mut lo: usize = 0;
    let mut hi: usize = points.len();
    while lo < hi
        invariant
            lo <= hi <= points@.len(),
            sorted_by_value(points@),
            forall|i: int| 0 <= i < lo ==> (#[trigger] points@[i]).value <= v,
            forall|i: int| hi <= i < points@.len() ==> (#[trigger] points@[i]).value > v,
        decreases hi - lo,
    {
        let mid: usize = lo + (hi - lo) / 2;
        if points[mid].value <= v {
            assert forall|i: int| 0 <= i < mid + 1 implies (#[trigger] points@[i]).value <= v by {
                assert(points@[i].value <= points@[mid as int].value);
            }
            lo = mid + 1;
        } else {
            assert forall|i: int| mid <= i < points@.len() implies (#[trigger] points@[i]).value
                > v by {
                assert(points@[mid as int].value <= points@[i].value);
            }
            hi = mid;
        }
    }
    proof {
        lemma_split_is_count(points@, v as int, lo as int);
    }
    lo
}

/// The channel at `v` on the line from one point to the other, also
/// where `v` lies before both.
fn line_channel(below: &ControlPoint, above: &ControlPoint, j: usize, v: i64) -> (c: i64)
    requires
        j < 4,
        0 <= v <= ONE,
        0 <= below.value < above.value <= ONE,
        color_in_range(below.color),
        color_in_range(above.color),
    ensures
        c == lerp(
            below.color[j as int] as int,
            above.color[j as int] as int,
            below.value as int,
            above.value as int,
            v as int,
        ),
{
    let ghost one: int = ONE as int;
    proof {
        lemma_mul_bound(below.color[j as int] as int, above.value - v, one, one);
        lemma_mul_bound(above.color[j as int] as int, v - below.value, one, one);
    }
    let num: i128 = wide_mul(below.color[j], above.value - v) + wide_mul(
        above.color[j],
        v - below.value,
    );
    let den: i128 = (above.value - below.value) as i128;
    proof {
        lemma_floor_ratio_bound(num as int, den as int, 2 * (one * one));
        assert(one * one == 4_294_836_225_000_000) by (nonlinear_arith)
            requires
                one == 65_535_000,
        ;
    }
    floor_div(num, den) as i64
}

/// The colour of one table entry, computed from the control points.
fn bucket_color(points: &Vec<ControlPoint>, bucket: usize) -> (color: [i64; 4])
    requires
        valid_points(points@),
        bucket < BUCKETS,
    ensures
        forall|j: int|
            0 <= j < 4 ==> #[trigger] color[j] == bucket_channel(points@, bucket as int, j),
{
    let v: i64 = (bucket as i64) * BUCKET_WIDTH;
    let k: usize = partition_point(points, v);
    proof {
        lemma_count_splits(points@, v as int);
    }
    if k >= points.len() {
        return points[points.len() - 1].color;
    }
    let first: usize = if k == 0 {
        0
    } else {
        k - 1
    };
    let below: ControlPoint = points[first];
    let above: ControlPoint = points[first + 1];
    if below.value == above.value {
        return below.color;
    }
    let mut color: [i64; 4] = [0, 0, 0, 0];
    let mut j: usize = 0;
    while j < 4
        invariant
            j <= 4,
            k < points@.len(),
            first == if k == 0 {
                0
            } else {
                k - 1
            },
            below == points@[first as int],
            above == points@[first + 1],
            0 <= v <= ONE,
            0 <= below.value < above.value <= ONE,
            color_in_range(below.color),
            color_in_range(above.color),
            k == count_at_most(points@, v as int),
            v == bucket * BUCKET_WIDTH,
            forall|i: int|
                0 <= i < j ==> #[trigger] color[i] == bucket_channel(points@, bucket as int, i),
        decreases 4 - j,
    {
        color[j] = line_channel(&below, &above, j, v);
        j += 1;
    }
    color
}

/// The colour table of the given control points.
fn build_cache(points: &Vec<ControlPoint>) -> (cache: Vec<[i64; 4]>)
    requires
        valid_points(points@),
    ensures
        cache_matches(cache@, points@),
{
    let mut cache: Vec<[i64; 4]> = Vec::new();
    let mut b: usize = 0;
    while b < BUCKETS
        invariant
            b <= BUCKETS,
            valid_points(points@),
            cache@.len() == b,
            forall|i: int, j: int|
                0 <= i < b && 0 <= j < 4 ==> (#[trigger] cache@[i][j]) == bucket_channel(
                    points@,
                    i,
                    j,
                ),
        decreases BUCKETS - b,
    {
        let color: [i64; 4] = bucket_color(points, b);
        cache.push(color);
        b += 1;
    }
    cache
}

/// The table holds, entry by entry and channel by channel, the colour that
/// the control points give.
pub open spec fn cache_matches(cache: Seq<[i64; 4]>, points: Seq<ControlPoint>) -> bool {
    &&& cache.len() == BUCKETS
    &&& forall|i: int, j: int|
        0 <= i < BUCKETS && 0 <= j < 4 ==> (#[trigger] cache[i][j]) == bucket_channel(points, i, j)
}

/// A curve of control points with its colour table.
pub struct TransferFunction {
    control_points: Vec<ControlPoint>,
    cached_colors: Vec<[i64; 4]>,
}

impl View for TransferFunction {
    type V = Seq<ControlPoint>;

    /// The control points, in order.
    closed spec fn view(&self) -> Seq<ControlPoint> {
        self.control_points@
    }
}

impl Default for TransferFunction {
    /// The ramp from transparent black at 0 to opaque white at 1.
    fn default() -> (tf: Self)
        ensures
            tf.wf(),
            tf@ == TransferFunction::default_points(),
            table_in_range(tf@),
    {
        let mut points: Vec<ControlPoint> = Vec::new();
        points.push(ControlPoint { value: 0, color: [0, 0, 0, 0] });
        points.push(ControlPoint { value: ONE, color: [ONE, ONE, ONE, ONE] });
        assert(points@ =~= seq![
            ControlPoint { value: 0, color: [0, 0, 0, 0] },
            ControlPoint { value: ONE, color: [ONE, ONE, ONE, ONE] },
        ]);
        TransferFunction::from_points(points)
    }
}

impl TransferFunction {
    /// The control points of the default curve: transparent black at 0,
    /// opaque white at 1.
    pub open spec fn default_points() -> Seq<ControlPoint> {
        seq![
            ControlPoint { value: 0, color: [0, 0, 0, 0] },
            ControlPoint { value: ONE, color: [ONE, ONE, ONE, ONE] },
        ]
    }

    /// The control points are valid and the table is the one they give.
    pub closed spec fn wf(&self) -> bool {
        &&& valid_points(self.control_points@)
        &&& cache_matches(self.cached_colors@, self.control_points@)
    }

    /// The colour table, as it is stored.
    pub closed spec fn cache(&self) -> Seq<[i64; 4]> {
        self.cached_colors@
    }

    /// The stored table of a well-formed transfer function is the table that
    /// its control points give, and its points are valid.
    pub proof fn lemma_wf(&self)
        requires
            self.wf(),
        ensures
            valid_points(self@),
            cache_matches(self.cache(), self@),
    {
    }

    /// The curve of the given control points, with its table.
    fn from_points(points: Vec<ControlPoint>) -> (tf: Self)
        requires
            valid_points(points@),
        ensures
            tf.wf(),
            tf@ == points@,
            points@[0].value == 0 ==> table_in_range(tf@),
    {
        proof {
            if points@[0].value == 0 {
                lemma_table_in_range(points@);
            }
        }
        let cache: Vec<[i64; 4]> = build_cache(&points);
        TransferFunction { control_points: points, cached_colors: cache }
    }

    /// Computes the colour table anew from the control points.
    fn update_cache(&mut self)
        requires
            valid_points(old(self)@),
        ensures
            final(self)@ == old(self)@,
            final(self).wf(),
    {
        self.cached_colors = build_cache(&self.control_points);
    }

    /// The grey of a single slice: the value, limited to the unit range, in
    /// the three colour channels, and full alpha. The control points play no
    /// part.
    pub fn get_color(&self, value: i64) -> (color: [i64; 4])
        ensures
            color[0] == clamp_int(value as int, 0, ONE as int),
            color[1] == color[0],
            color[2] == color[0],
            color[3] == ONE,
    {
        let v: i64 = clamp(value, 0, ONE);
        [v, v, v, ONE]
    }

    /// The colour of a sample of a volume: the table entry that the value
    /// falls into.
    pub fn get_color_3d(&self, value: i64) -> (color: [i64; 4])
        requires
            self.wf(),
        ensures
            color == self.cache()[bucket_of(value as int)],
            forall|j: int|
                0 <= j < 4 ==> #[trigger] color[j] == bucket_channel(
                    self@,
                    bucket_of(value as int),
                    j,
                ),
            table_in_range(self@) ==> color_in_range(color),
    {
        let v: i64 = clamp(value, 0, ONE);
        let scaled: i64 = v * 255 / ONE;
        let index: usize = if scaled > 255 {
            255
        } else {
            scaled as usize
        };
        let color: [i64; 4] = self.cached_colors[index];
        proof {
            if table_in_range(self@) {
                assert forall|j: int| 0 <= j < 4 implies 0 <= #[trigger] color[j] <= ONE by {
                    assert(color[j] == bucket_channel(self@, index as int, j));
                }
            }
        }
        color
    }

    /// Whether every channel of every table entry lies between 0 and `ONE`.
    /// It does for every curve that begins at the value 0; the entries
    /// before a later first point can lie outside.
    pub fn check_in_range(&self) -> (r: bool)
        requires
            self.wf(),
        ensures
            r == table_in_range(self@),
    {
        let mut b: usize = 0;
        while b < BUCKETS
            invariant
                b <= BUCKETS,
                self.wf(),
                forall|i: int, j: int|
                    0 <= i < b && 0 <= j < 4 ==> 0 <= #[trigger] bucket_channel(self@, i, j)
                        <= ONE,
            decreases BUCKETS - b,
        {
            let color: [i64; 4] = self.cached_colors[b];
            let mut j: usize = 0;
            while j < 4
                invariant
                    j <= 4,
                    b < BUCKETS,
                    self.wf(),
                    color == self.cached_colors@[b as int],
                    forall|i: int|
                        0 <= i < j ==> 0 <= #[trigger] bucket_channel(self@, b as int, i) <= ONE,
                decreases 4 - j,
            {
                assert(color[j as int] == bucket_channel(self@, b as int, j as int));
                if color[j] < 0 || color[j] > ONE {
                    return false;
                }
                j += 1;
            }
            b += 1;
        }
        true
    }

    /// Adds a control point. The value is limited to the unit range and the
    /// point is put behind every point of the same or a smaller value.
    pub fn add_point(&mut self, value: i64, color: [i64; 4])
        requires
            old(self).wf(),
            color_in_range(color),
        ensures
            final(self).wf(),
            final(self)@ == with_point(old(self)@, value as int, color),
            final(self)@.len() == old(self)@.len() + 1,
    {
        let v: i64 = clamp(value, 0, ONE);
        let index: usize = partition_point(&self.control_points, v);
        proof {
            lemma_with_point_valid(self@, value as int, color);
        }
        self.control_points.insert(index, ControlPoint { value: v, color });
        self.update_cache();
    }

    /// Removes the control point at `index`, unless fewer than two points
    /// would remain or there is no such point; the curve is then left as it
    /// is.
    pub fn remove_point(&mut self, index: usize)
        requires
            old(self).wf(),
        ensures
            final(self).wf(),
            final(self)@ == if old(self)@.len() > 2 && index < old(self)@.len() {
                old(self)@.remove(index as int)
            } else {
                old(self)@
            },
    {
        if self.control_points.len() > 2 && index < self.control_points.len() {
            proof {
                lemma_remove_valid(self@, index as int);
            }
            self.control_points.remove(index);
            self.update_cache();
        }
    }

    /// Moves the control point at `index` to a new value and colour: the
    /// point is taken out and put in again at the place of its new value.
    /// Without such a point the curve is left as it is.
    pub fn set_point(&mut self, index: usize, value: i64, color: [i64; 4])
        requires
            old(self).wf(),
            color_in_range(color),
        ensures
            final(self).wf(),
            final(self)@ == if index < old(self)@.len() {
                with_point(old(self)@.remove(index as int), value as int, color)
            } else {
                old(self)@
            },
            final(self)@.len() == old(self)@.len(),
    {
        if index < self.control_points.len() {
            let v: i64 = clamp(value, 0, ONE);
            let ghost rest = self@.remove(index as int);
            proof {
                lemma_remove_sorted(self@, index as int);
            }
            self.control_points.remove(index);
            let place: usize = partition_point(&self.control_points, v);
            self.control_points.insert(place, ControlPoint { value: v, color });
            proof {
                lemma_set_point_valid(old(self)@, index as int, value as int, color);
            }
            self.update_cache();
        }
    }

    /// The grey ramp: the same curve as the default.
    pub fn grayscale() -> (tf: Self)
        ensures
            tf.wf(),
            tf@ == TransferFunction::default_points(),
            table_in_range(tf@),
    {
        let mut points: Vec<ControlPoint> = Vec::new();
        points.push(ControlPoint { value: 0, color: [0, 0, 0, 0] });
        points.push(ControlPoint { value: ONE, color: [ONE, ONE, ONE, ONE] });
        assert(points@ =~= seq![
            ControlPoint { value: 0, color: [0, 0, 0, 0] },
            ControlPoint { value: ONE, color: [ONE, ONE, ONE, ONE] },
        ]);
        TransferFunction::from_points(points)
    }

    /// Blue, cyan, green, yellow, red at the quarters of the unit range,
    /// with alpha rising from 0 to 1.
    pub fn rainbow() -> (tf: Self)
        ensures
            tf.wf(),
            table_in_range(tf@),
            tf@ == seq![
                ControlPoint { value: 0, color: [0, 0, ONE, 0] },
                ControlPoint { value: QUARTER, color: [0, ONE, ONE, QUARTER] },
                ControlPoint { value: HALF, color: [0, ONE, 0, HALF] },
                ControlPoint { value: THREE_QUARTERS, color: [ONE, ONE, 0, THREE_QUARTERS] },
                ControlPoint { value: ONE, color: [ONE, 0, 0, ONE] },
            ],
    {
        let mut points: Vec<ControlPoint> = Vec::new();
        points.push(ControlPoint { value: 0, color: [0, 0, ONE, 0] });
        points.push(ControlPoint { value: QUARTER, color: [0, ONE, ONE, QUARTER] });
        points.push(ControlPoint { value: HALF, color: [0, ONE, 0, HALF] });
        points.push(ControlPoint { value: THREE_QUARTERS, color: [ONE, ONE, 0, THREE_QUARTERS] });
        points.push(ControlPoint { value: ONE, color: [ONE, 0, 0, ONE] });
        assert(points@ =~= seq![
            ControlPoint { value: 0, color: [0, 0, ONE, 0] },
            ControlPoint { value: QUARTER, color: [0, ONE, ONE, QUARTER] },
            ControlPoint { value: HALF, color: [0, ONE, 0, HALF] },
            ControlPoint { value: THREE_QUARTERS, color: [ONE, ONE, 0, THREE_QUARTERS] },
            ControlPoint { value: ONE, color: [ONE, 0, 0, ONE] },
        ]);
        TransferFunction::from_points(points)
    }

    /// Black, red, yellow, white at 0, 0.33, 0.66 and 1, with alpha equal
    /// to the value.
    pub fn hot() -> (tf: Self)
        ensures
            tf.wf(),
            table_in_range(tf@),
            tf@ == seq![
                ControlPoint { value: 0, color: [0, 0, 0, 0] },
                ControlPoint { value: THIRD, color: [ONE, 0, 0, THIRD] },
                ControlPoint { value: TWO_THIRDS, color: [ONE, ONE, 0, TWO_THIRDS] },
                ControlPoint { value: ONE, color: [ONE, ONE, ONE, ONE] },
            ],
    {
        let mut points: Vec<ControlPoint> = Vec::new();
        points.push(ControlPoint { value: 0, color: [0, 0, 0, 0] });
        points.push(ControlPoint { value: THIRD, color: [ONE, 0, 0, THIRD] });
        points.push(ControlPoint { value: TWO_THIRDS, color: [ONE, ONE, 0, TWO_THIRDS] });
        points.push(ControlPoint { value: ONE, color: [ONE, ONE, ONE, ONE] });
        assert(points@ =~= seq![
            ControlPoint { value: 0, color: [0, 0, 0, 0] },
            ControlPoint { value: THIRD, color: [ONE, 0, 0, THIRD] },
            ControlPoint { value: TWO_THIRDS, color: [ONE, ONE, 0, TWO_THIRDS] },
            ControlPoint { value: ONE, color: [ONE, ONE, ONE, ONE] },
        ]);
        TransferFunction::from_points(points)
    }

    /// Cyan, blue, magenta at 0, 0.5 and 1, with alpha equal to the value.
    pub fn cool() -> (tf: Self)
        ensures
            tf.wf(),
            table_in_range(tf@),
            tf@ == seq![
                ControlPoint { value: 0, color: [0, ONE, ONE, 0] },
                ControlPoint { value: HALF, color: [0, 0, ONE, HALF] },
                ControlPoint { value: ONE, color: [ONE, 0, ONE, ONE] },
            ],
    {
        let mut points: Vec<ControlPoint> = Vec::new();
        points.push(ControlPoint { value: 0, color: [0, ONE, ONE, 0] });
        points.push(ControlPoint { value: HALF, color: [0, 0, ONE, HALF] });
        points.push(ControlPoint { value: ONE, color: [ONE, 0, ONE, ONE] });
        assert(points@ =~= seq![
            ControlPoint { value: 0, color: [0, ONE, ONE, 0] },
            ControlPoint { value: HALF, color: [0, 0, ONE, HALF] },
            ControlPoint { value: ONE, color: [ONE, 0, ONE, ONE] },
        ]);
        TransferFunction::from_points(points)
    }

    /// The control points as pairs of value and colour, in order.
    pub fn get_points(&self) -> (points: Vec<(i64, [i64; 4])>)
        ensures
            points@.len() == self@.len(),
            forall|i: int|
                0 <= i < self@.len() ==> (#[trigger] points@[i]) == (
                    self@[i].value,
                    self@[i].color,
                ),
    {
        let mut points: Vec<(i64, [i64; 4])> = Vec::new();
        let mut i: usize = 0;
        while i < self.control_points.len()
            invariant
                i <= self.control_points@.len(),
                points@.len() == i,
                forall|k: int|
                    0 <= k < i ==> (#[trigger] points@[k]) == (
                        self.control_points@[k].value,
                        self.control_points@[k].color,
                    ),
            decreases self.control_points@.len() - i,
        {
            let p: ControlPoint = self.control_points[i];
            points.push((p.value, p.color));
            i += 1;
        }
        points
    }
}

/// Taking a point out of sorted points leaves them sorted.
pub proof fn lemma_remove_sorted(points: Seq<ControlPoint>, index: int)
    requires
        sorted_by_value(points),
        0 <= index < points.len(),
    ensures
        sorted_by_value(points.remove(index)),
{
    let next = points.remove(index);
    assert forall|i: int, j: int| 0 <= i <= j < next.len() implies next[i].value
        <= next[j].value by {
        let a = if i < index {
            i
        } else {
            i + 1
        };
        let b = if j < index {
            j
        } else {
            j + 1
        };
        assert(next[i] == points[a] && next[j] == points[b]);
    }
}

/// Moving a point of valid points to a new value and colour leaves them
/// valid.
pub proof fn lemma_set_point_valid(
    points: Seq<ControlPoint>,
    index: int,
    value: int,
    color: [i64; 4],
)
    requires
        valid_points(points),
        color_in_range(color),
        0 <= index < points.len(),
    ensures
        valid_points(with_point(points.remove(index), value, color)),
{
    let rest = points.remove(index);
    lemma_remove_sorted(points, index);
    assert forall|i: int| 0 <= i < rest.len() implies 0 <= (#[trigger] rest[i]).value <= ONE
        && color_in_range(rest[i].color) by {
        if i < index {
            assert(rest[i] == points[i]);
        } else {
            assert(rest[i] == points[i + 1]);
        }
    }
    lemma_insert_valid(rest, value, color);
}

} // verus!
