//! A series of values over time with prefix sums, giving the integral of
//! the step function it describes over any range.
use crate::error::PerpError;
use crate::number::{in_range, lemma_mul_whole, Number};
use vstd::prelude::*;

verus! {

/// A value set at a time, with the integral of the series up to that time.
#[derive(Clone, Copy, Debug, PartialEq, Eq, Structural)]
pub struct DataPoint {
    /// Time in nanoseconds.
    pub time: u64,
    /// Integral of the series from its first point up to `time`.
    pub prefix_sum: Number,
    /// Value from `time` until the next point.
    pub value: Number,
}

/// Index of the last point at or before `x` among the first `n`, or -1.
pub open spec fn last_at_or_before(points: Seq<DataPoint>, x: int, n: int) -> int
    decreases n,
{
    if n <= 0 {
        -1
    } else if points[n - 1].time <= x {
        n - 1
    } else {
        last_at_or_before(points, x, n - 1)
    }
}

/// Index of the last point strictly before `x` among the first `n`, or -1.
pub open spec fn last_before(points: Seq<DataPoint>, x: int, n: int) -> int
    decreases n,
{
    if n <= 0 {
        -1
    } else if points[n - 1].time < x {
        n - 1
    } else {
        last_before(points, x, n - 1)
    }
}

/// The integral up to `x`, extrapolated from point `i`.
pub open spec fn integral_from(points: Seq<DataPoint>, i: int, x: int) -> int {
    points[i].prefix_sum@ + points[i].value@ * (x - points[i].time)
}

/// Points are in strictly increasing time order, the first prefix sum is
/// zero, and each prefix sum adds the previous value over the elapsed time.
pub open spec fn series_wf(points: Seq<DataPoint>) -> bool {
    &&& forall|i: int, j: int| 0 <= i < j < points.len() ==> points[i].time < points[j].time
    &&& points.len() > 0 ==> points[0].prefix_sum@ == 0
    &&& forall|i: int| 0 <= i < points.len() - 1 ==> #[trigger] points[i + 1].prefix_sum@ == integral_from(
        points,
        i,
        points[i + 1].time as int,
    )
}

/// The integral from `start` to `end`: the extrapolated prefix sum at `end`
/// from the last point before it, minus the one at `start` from the last
/// point at or before it; `None` when either point is missing or a step
/// overflows.
pub open spec fn spec_sum(points: Seq<DataPoint>, start: int, end: int) -> Option<int> {
    let p = last_at_or_before(points, start, points.len() as int);
    let q = last_before(points, end, points.len() as int);
    if p < 0 || q < 0 {
        None
    } else {
        let es = points[p].value@ * (start - points[p].time);
        let ee = points[q].value@ * (end - points[q].time);
        if in_range(es) && in_range(points[p].prefix_sum@ + es) && in_range(ee) && in_range(
            points[q].prefix_sum@ + ee,
        ) && in_range(integral_from(points, q, end) - integral_from(points, p, start)) {
            Some(integral_from(points, q, end) - integral_from(points, p, start))
        } else {
            None
        }
    }
}

/// A value series over time.
pub struct DataSeries {
    points: Vec<DataPoint>,
}

proof fn lemma_last_at_or_before(points: Seq<DataPoint>, x: int, n: int)
    requires
        0 <= n <= points.len(),
    ensures
        -1 <= last_at_or_before(points, x, n) < n,
        last_at_or_before(points, x, n) >= 0 ==> points[last_at_or_before(points, x, n)].time <= x,
        forall|k: int| last_at_or_before(points, x, n) < k < n ==> points[k].time > x,
    decreases n,
{
    if n > 0 {
        lemma_last_at_or_before(points, x, n - 1);
    }
}

proof fn lemma_last_before(points: Seq<DataPoint>, x: int, n: int)
    requires
        0 <= n <= points.len(),
    ensures
        -1 <= last_before(points, x, n) < n,
        last_before(points, x, n) >= 0 ==> points[last_before(points, x, n)].time < x,
        forall|k: int| last_before(points, x, n) < k < n ==> points[k].time >= x,
    decreases n,
{
    if n > 0 {
        lemma_last_before(points, x, n - 1);
    }
}

impl View for DataSeries {
    type V = Seq<DataPoint>;

    closed spec fn view(&self) -> Seq<DataPoint> {
        self.points@
    }
}

impl DataSeries {
    pub closed spec fn wf(&self) -> bool {
        series_wf(self.points@)
    }

    /// An empty series.
    pub fn new() -> (r: DataSeries)
        ensures
            r@.len() == 0,
            r.wf(),
    {
        DataSeries { points: Vec::new() }
    }

    /// The last point, if any.
    pub fn try_load_last(&self) -> (r: Option<DataPoint>)
        ensures
            self@.len() == 0 ==> r is None,
            self@.len() > 0 ==> r == Some(self@.last()),
    {
        if self.points.len() == 0 {
            None
        } else {
            Some(self.points[self.points.len() - 1])
        }
    }

    /// Appends `value` at `time`. A point already at `time` has its value
    /// replaced; a time before the last point is refused.
    pub fn append(&mut self, time: u64, value: Number) -> (r: Result<(), PerpError>)
        requires
            old(self).wf(),
        ensures
            final(self).wf(),
            old(self)@.len() == 0 ==> r is Ok && final(self)@ == seq![
                DataPoint { time, prefix_sum: final(self)@[0].prefix_sum, value },
            ] && final(self)@[0].prefix_sum@ == 0,
            old(self)@.len() > 0 && time < old(self)@.last().time ==> r == Err::<(), PerpError>(
                PerpError::TimeWentBackwards,
            ),
            old(self)@.len() > 0 && time >= old(self)@.last().time ==> ({
                let last = old(self)@.last();
                let prefix = integral_from(old(self)@, old(self)@.len() - 1, time as int);
                if !in_range(last.value@ * (time - last.time)) || !in_range(prefix) {
                    r == Err::<(), PerpError>(PerpError::Arithmetic)
                } else if time == last.time {
                    r is Ok && final(self)@ == old(self)@.update(
                        old(self)@.len() - 1,
                        DataPoint { time, prefix_sum: last.prefix_sum, value },
                    )
                } else {
                    r is Ok && final(self)@.len() == old(self)@.len() + 1 && final(self)@.take(
                        old(self)@.len() as int,
                    ) == old(self)@ && final(self)@.last().time == time && final(self)@.last().value == value
                        && final(self)@.last().prefix_sum@ == prefix
                }
            }),
            r is Err ==> final(self)@ == old(self)@,
    {
        let n = self.points.len();
        if n == 0 {
            self.points.push(DataPoint { time, prefix_sum: Number::zero(), value });
            return Ok(());
        }
        let last = self.points[n - 1];
        if time < last.time {
            return Err(PerpError::TimeWentBackwards);
        }
        let elapsed: u64 = time - last.time;
        proof {
            lemma_mul_whole(last.value@, elapsed as int);
        }
        let elapsed_sum = match last.value.checked_mul(&Number::from_u64(elapsed)) {
            Some(v) => v,
            None => return Err(PerpError::Arithmetic),
        };
        let prefix_sum = match last.prefix_sum.checked_add(&elapsed_sum) {
            Some(v) => v,
            None => return Err(PerpError::Arithmetic),
        };
        let point = DataPoint { time, prefix_sum, value };
        if elapsed == 0 {
            let point = DataPoint { time, prefix_sum: last.prefix_sum, value };
            self.points.set(n - 1, point);
            proof {
                let s = self.points@;
                assert forall|i: int| 0 <= i < s.len() - 1 implies #[trigger] s[i + 1].prefix_sum@ == integral_from(
                    s,
                    i,
                    s[i + 1].time as int,
                ) by {
                    assert(old(self)@[i + 1].prefix_sum@ == integral_from(old(self)@, i, old(self)@[i + 1].time as int));
                }
            }
        } else {
            self.points.push(point);
            proof {
                let s = self.points@;
                let o = old(self)@;
                assert forall|i: int| 0 <= i < s.len() - 1 implies #[trigger] s[i + 1].prefix_sum@ == integral_from(
                    s,
                    i,
                    s[i + 1].time as int,
                ) by {
                    if i < o.len() - 1 {
                        assert(o[i + 1].prefix_sum@ == integral_from(o, i, o[i + 1].time as int));
                    }
                }
                assert(s.take(o.len() as int) =~= o);
            }
        }
        Ok(())
    }

    /// The integral of the series from `start` to `end` (see [`spec_sum`]).
    pub fn sum(&self, start: u64, end: u64) -> (r: Result<Number, PerpError>)
        requires
            self.wf(),
        ensures
            match spec_sum(self@, start as int, end as int) {
                Some(v) => r matches Ok(x) && x@ == v,
                None => r is Err,
            },
    {
        let n = self.points.len();
        let mut i = n;
        while i > 0 && self.points[i - 1].time > start
            invariant
                i <= n == self@.len(),
                last_at_or_before(self@, start as int, n as int) == last_at_or_before(self@, start as int, i as int),
            decreases i,
        {
            i -= 1;
        }
        if i == 0 {
            return Err(PerpError::MissingDataPoint);
        }
        let p = self.points[i - 1];
        let mut j = n;
        while j > 0 && self.points[j - 1].time >= end
            invariant
                j <= n == self@.len(),
                last_before(self@, end as int, n as int) == last_before(self@, end as int, j as int),
            decreases j,
        {
            j -= 1;
        }
        if j == 0 {
            return Err(PerpError::MissingDataPoint);
        }
        let q = self.points[j - 1];
        proof {
            lemma_mul_whole(p.value@, start - p.time);
            lemma_mul_whole(q.value@, end - q.time);
        }
        let es = match p.value.checked_mul(&Number::from_u64(start - p.time)) {
            Some(v) => v,
            None => return Err(PerpError::Arithmetic),
        };
        let start_prefix = match p.prefix_sum.checked_add(&es) {
            Some(v) => v,
            None => return Err(PerpError::Arithmetic),
        };
        let ee = match q.value.checked_mul(&Number::from_u64(end - q.time)) {
            Some(v) => v,
            None => return Err(PerpError::Arithmetic),
        };
        let end_prefix = match q.prefix_sum.checked_add(&ee) {
            Some(v) => v,
            None => return Err(PerpError::Arithmetic),
        };
        match end_prefix.checked_sub(&start_prefix) {
            Some(v) => Ok(v),
            None => Err(PerpError::Arithmetic),
        }
    }
}

/// The extrapolated integral at `x` is the same from any point at or
/// before `x` that has no later point at or before `x` in between, whether
/// the last point strictly before `x` or the last at or before it is used.
proof fn lemma_integral_exclusive_inclusive(points: Seq<DataPoint>, x: int)
    requires
        series_wf(points),
        last_before(points, x, points.len() as int) >= 0,
    ensures
        last_at_or_before(points, x, points.len() as int) >= 0,
        integral_from(points, last_before(points, x, points.len() as int), x) == integral_from(
            points,
            last_at_or_before(points, x, points.len() as int),
            x,
        ),
{
    let n = points.len() as int;
    let q = last_before(points, x, n);
    let p = last_at_or_before(points, x, n);
    lemma_last_before(points, x, n);
    lemma_last_at_or_before(points, x, n);
    if p < q {
        assert(points[q].time <= x);
    }
    if p > q + 1 {
        assert(points[q + 1].time < points[p].time);
        assert(points[q + 1].time >= x);
    }
    if p == q + 1 {
        assert(points[p].time >= x);
        assert(points[q + 1].prefix_sum@ == integral_from(points, q, points[q + 1].time as int));
        assert(points[p].value@ * (x - points[p].time) == 0) by (nonlinear_arith)
            requires
                x - points[p].time == 0,
        ;
    }
}

/// Integrals over consecutive ranges add up: the integral from `a` to `b`
/// plus the one from `b` to `c` is the one from `a` to `c`.
pub proof fn lemma_sum_additive(points: Seq<DataPoint>, a: int, b: int, c: int)
    requires
        series_wf(points),
        spec_sum(points, a, b) is Some,
        spec_sum(points, b, c) is Some,
        spec_sum(points, a, c) is Some,
    ensures
        spec_sum(points, a, b)->Some_0 + spec_sum(points, b, c)->Some_0 == spec_sum(points, a, c)->Some_0,
{
    lemma_integral_exclusive_inclusive(points, b);
}

/// Over a range on which one value is in force (the last point at or before
/// `a` sets it, and no point falls strictly between `a` and `c`), the
/// integral is that value times the length of the range.
pub proof fn lemma_sum_constant(points: Seq<DataPoint>, a: int, c: int)
    requires
        series_wf(points),
        a < c,
        forall|k: int| 0 <= k < points.len() ==> !(a < #[trigger] points[k].time < c),
        spec_sum(points, a, c) is Some,
    ensures
        spec_sum(points, a, c)->Some_0 == points[last_at_or_before(points, a, points.len() as int)].value@ * (c - a),
{
    let n = points.len() as int;
    let p = last_at_or_before(points, a, n);
    let q = last_before(points, c, n);
    lemma_last_at_or_before(points, a, n);
    lemma_last_before(points, c, n);
    if p > q {
        assert(points[p].time >= c);
    }
    if q > p {
        assert(points[q].time > a);
        assert(!(a < points[q].time < c));
    }
    assert(q == p);
    let v = points[p].value@;
    let t = points[p].time as int;
    assert(v * (c - t) - v * (a - t) == v * (c - a)) by (nonlinear_arith);
}

impl DataSeries {
    /// A series is well formed exactly when its points are, so the laws
    /// stated over its points ([`lemma_sum_additive`], [`lemma_sum_constant`])
    /// apply to it.
    pub proof fn lemma_wf_points(&self)
        ensures
            self.wf() <==> series_wf(self@),
    {
    }
}

} // verus!
