//! Pareto fronts over pairs of progress and quality, and the builder that merges,
//! shifts and stores them.
use vstd::prelude::*;

verus! {

/// A point of a front.
#[derive(Clone, Copy, Debug, Default, PartialEq, Eq, Hash, Structural)]
pub struct ParetoValue {
    pub first: u16,
    pub second: u16,
}

impl ParetoValue {
    pub fn new(first: u16, second: u16) -> (r: ParetoValue)
        ensures
            r.first == first,
            r.second == second,
    {
        ParetoValue { first, second }
    }
}

/// The first point is at least the second in both coordinates.
pub open spec fn covers(p: ParetoValue, q: ParetoValue) -> bool {
    p.first >= q.first && p.second >= q.second
}

/// Some point of the sequence covers the point.
pub open spec fn covered_by(q: ParetoValue, s: Seq<ParetoValue>) -> bool {
    exists|k: int| 0 <= k < s.len() && covers(#[trigger] s[k], q)
}

/// A front: the first coordinate strictly increases along the sequence and the
/// second strictly decreases.
pub open spec fn is_front(s: Seq<ParetoValue>) -> bool {
    forall|i: int, j: int|
        0 <= i < j < s.len() ==> (#[trigger] s[i]).first < (#[trigger] s[j]).first && s[i].second
            > s[j].second
}

/// `u` is the Pareto union of `a` and `b`: a front made of points of the two, which
/// covers every point of both.
pub open spec fn is_union(a: Seq<ParetoValue>, b: Seq<ParetoValue>, u: Seq<ParetoValue>) -> bool {
    &&& is_front(u)
    &&& forall|k: int| 0 <= k < u.len() ==> a.contains(#[trigger] u[k]) || b.contains(u[k])
    &&& forall|i: int| 0 <= i < a.len() ==> covered_by(#[trigger] a[i], u)
    &&& forall|i: int| 0 <= i < b.len() ==> covered_by(#[trigger] b[i], u)
}

/// The Pareto union of two fronts. There is one, and only one: see
/// [`lemma_union_unique`].
pub open spec fn union(a: Seq<ParetoValue>, b: Seq<ParetoValue>) -> Seq<ParetoValue> {
    choose|u: Seq<ParetoValue>| is_union(a, b, u)
}

/// Leading points are dropped while the point after them reaches the cap of the
/// second coordinate.
pub open spec fn trim_front(s: Seq<ParetoValue>, max_second: u16) -> Seq<ParetoValue>
    decreases s.len(),
{
    if s.len() >= 2 && s[1].second >= max_second {
        trim_front(s.skip(1), max_second)
    } else {
        s
    }
}

/// Trailing points are dropped while the point before them reaches the cap of the
/// first coordinate.
pub open spec fn trim_back(s: Seq<ParetoValue>, max_first: u16) -> Seq<ParetoValue>
    decreases s.len(),
{
    if s.len() >= 2 && s[s.len() - 2].first >= max_first {
        trim_back(s.drop_last(), max_first)
    } else {
        s
    }
}

/// A sequence cut at both caps: of the points that reach the cap of the second
/// coordinate only the last stays, of those that reach the cap of the first only the
/// first.
pub open spec fn capped(s: Seq<ParetoValue>, max_first: u16, max_second: u16) -> Seq<ParetoValue> {
    trim_back(trim_front(s, max_second), max_first)
}

/// What a merge of two fronts leaves: their Pareto union, cut at both caps.
pub open spec fn merged(
    a: Seq<ParetoValue>,
    b: Seq<ParetoValue>,
    max_first: u16,
    max_second: u16,
) -> Seq<ParetoValue> {
    capped(union(a, b), max_first, max_second)
}

/// A coordinate moved up by an offset, held at the largest value that fits.
pub open spec fn saturating_sum(value: u16, offset: u16) -> u16 {
    if value + offset > u16::MAX {
        u16::MAX
    } else {
        (value + offset) as u16
    }
}

/// Every point moved by the same offsets.
pub open spec fn moved(s: Seq<ParetoValue>, first: u16, second: u16) -> Seq<ParetoValue> {
    Seq::new(
        s.len(),
        |i: int|
            ParetoValue {
                first: saturating_sum(s[i].first, first),
                second: saturating_sum(s[i].second, second),
            },
    )
}

/// What a shift of a front leaves: every point moved, and the result cut at both caps.
pub open spec fn shifted(
    s: Seq<ParetoValue>,
    first: u16,
    second: u16,
    max_first: u16,
    max_second: u16,
) -> Seq<ParetoValue> {
    capped(moved(s, first, second), max_first, max_second)
}

/// Monotone as a front is, but two neighbours may agree in a coordinate where both
/// hold the largest value: what moving a front can leave.
pub open spec fn is_near_front(s: Seq<ParetoValue>) -> bool {
    forall|i: int, j: int|
        0 <= i < j < s.len() ==> {
            &&& (#[trigger] s[i]).first < (#[trigger] s[j]).first || (s[i].first == s[j].first
                && s[j].first == u16::MAX)
            &&& s[i].second > s[j].second || (s[i].second == s[j].second && s[i].second
                == u16::MAX)
        }
}

/// Two points of a front cover one another only where they are the same point.
pub proof fn lemma_front_antichain(s: Seq<ParetoValue>, i: int, j: int)
    requires
        is_front(s),
        0 <= i < s.len(),
        0 <= j < s.len(),
        covers(s[i], s[j]),
    ensures
        i == j,
{
    if i < j {
        assert(s[i].first < s[j].first);
    } else if j < i {
        assert(s[j].second > s[i].second);
    }
}

/// Every point of one union is a point of any other union of the same fronts.
proof fn lemma_union_subset(
    a: Seq<ParetoValue>,
    b: Seq<ParetoValue>,
    u: Seq<ParetoValue>,
    v: Seq<ParetoValue>,
    k: int,
)
    requires
        is_union(a, b, u),
        is_union(a, b, v),
        0 <= k < u.len(),
    ensures
        v.contains(u[k]),
{
    let x = u[k];
    assert(a.contains(x) || b.contains(x));
    assert(covered_by(x, v)) by {
        if a.contains(x) {
            let i = choose|i: int| 0 <= i < a.len() && a[i] == x;
            assert(covered_by(a[i], v));
        } else {
            let i = choose|i: int| 0 <= i < b.len() && b[i] == x;
            assert(covered_by(b[i], v));
        }
    }
    let m = choose|m: int| 0 <= m < v.len() && covers(#[trigger] v[m], x);
    let y = v[m];
    assert(a.contains(y) || b.contains(y));
    assert(covered_by(y, u)) by {
        if a.contains(y) {
            let i = choose|i: int| 0 <= i < a.len() && a[i] == y;
            assert(covered_by(a[i], u));
        } else {
            let i = choose|i: int| 0 <= i < b.len() && b[i] == y;
            assert(covered_by(b[i], u));
        }
    }
    let n = choose|n: int| 0 <= n < u.len() && covers(#[trigger] u[n], y);
    assert(covers(u[n], u[k]));
    lemma_front_antichain(u, n, k);
    assert(y == x);
    assert(v[m] == x);
}

/// Two fronts with the same points are the same sequence.
proof fn lemma_front_by_points(u: Seq<ParetoValue>, v: Seq<ParetoValue>)
    requires
        is_front(u),
        is_front(v),
        forall|k: int| 0 <= k < u.len() ==> v.contains(#[trigger] u[k]),
        forall|k: int| 0 <= k < v.len() ==> u.contains(#[trigger] v[k]),
    ensures
        u == v,
    decreases u.len(),
{
    if u.len() == 0 {
        if v.len() > 0 {
            assert(u.contains(v[0]));
        }
        assert(u =~= v);
    } else if v.len() == 0 {
        assert(v.contains(u[0]));
    } else {
        // The first point of each is the one with the smallest first coordinate.
        assert(v.contains(u[0]));
        assert(u.contains(v[0]));
        let i = choose|i: int| 0 <= i < v.len() && v[i] == u[0];
        let j = choose|j: int| 0 <= j < u.len() && u[j] == v[0];
        if i > 0 {
            assert(v[0].first < v[i].first);
            if j > 0 {
                assert(u[0].first < u[j].first);
            }
            assert(false);
        }
        assert(u[0] == v[0]);
        let u1 = u.skip(1);
        let v1 = v.skip(1);
        assert forall|k: int| 0 <= k < u1.len() implies v1.contains(#[trigger] u1[k]) by {
            assert(u1[k] == u[k + 1]);
            assert(v.contains(u[k + 1]));
            let m = choose|m: int| 0 <= m < v.len() && v[m] == u[k + 1];
            if m == 0 {
                assert(u[0].first < u[k + 1].first);
                assert(false);
            }
            assert(v1[m - 1] == v[m]);
        }
        assert forall|k: int| 0 <= k < v1.len() implies u1.contains(#[trigger] v1[k]) by {
            assert(v1[k] == v[k + 1]);
            assert(u.contains(v[k + 1]));
            let m = choose|m: int| 0 <= m < u.len() && u[m] == v[k + 1];
            if m == 0 {
                assert(v[0].first < v[k + 1].first);
                assert(false);
            }
            assert(u1[m - 1] == u[m]);
        }
        assert(is_front(u1)) by {
            assert forall|p: int, q: int| 0 <= p < q < u1.len() implies (#[trigger] u1[p]).first
                < (#[trigger] u1[q]).first && u1[p].second > u1[q].second by {
                assert(u1[p] == u[p + 1] && u1[q] == u[q + 1]);
            }
        }
        assert(is_front(v1)) by {
            assert forall|p: int, q: int| 0 <= p < q < v1.len() implies (#[trigger] v1[p]).first
                < (#[trigger] v1[q]).first && v1[p].second > v1[q].second by {
                assert(v1[p] == v[p + 1] && v1[q] == v[q + 1]);
            }
        }
        lemma_front_by_points(u1, v1);
        assert(u =~= seq![u[0]] + u1);
        assert(v =~= seq![v[0]] + v1);
    }
}

/// Two fronts have one Pareto union: whatever meets [`is_union`] is [`union`].
pub proof fn lemma_union_unique(a: Seq<ParetoValue>, b: Seq<ParetoValue>, u: Seq<ParetoValue>)
    requires
        is_union(a, b, u),
    ensures
        u == union(a, b),
{
    let v = union(a, b);
    assert(is_union(a, b, v));
    assert forall|k: int| 0 <= k < u.len() implies v.contains(#[trigger] u[k]) by {
        lemma_union_subset(a, b, u, v, k);
    }
    assert forall|k: int| 0 <= k < v.len() implies u.contains(#[trigger] v[k]) by {
        lemma_union_subset(a, b, v, u, k);
    }
    lemma_front_by_points(u, v);
}

/// A front is its own union with itself, so that merging a front with itself leaves
/// the front, cut at the caps.
pub proof fn lemma_union_idempotent(a: Seq<ParetoValue>)
    requires
        is_front(a),
    ensures
        union(a, a) == a,
{
    assert forall|i: int| 0 <= i < a.len() implies covered_by(#[trigger] a[i], a) by {
        assert(covers(a[i], a[i]));
    }
    assert forall|k: int| 0 <= k < a.len() implies a.contains(#[trigger] a[k]) by {
    }
    assert(is_union(a, a, a));
    lemma_union_unique(a, a, a);
}

/// Moving a front leaves it monotone, with ties only at the largest value.
pub proof fn lemma_moved_near_front(s: Seq<ParetoValue>, first: u16, second: u16)
    requires
        is_front(s),
    ensures
        is_near_front(moved(s, first, second)),
{
    let m = moved(s, first, second);
    assert forall|i: int, j: int| 0 <= i < j < m.len() implies {
        &&& (#[trigger] m[i]).first < (#[trigger] m[j]).first || (m[i].first == m[j].first
            && m[j].first == u16::MAX)
        &&& m[i].second > m[j].second || (m[i].second == m[j].second && m[i].second == u16::MAX)
    } by {
        assert(s[i].first < s[j].first && s[i].second > s[j].second);
    }
}

/// The name of a front that the builder has stored.
#[derive(Clone, Copy, Debug)]
pub struct ParetoFrontId {
    offset: usize,
    length: usize,
}

/// A stack of fronts with a store beside it.
///
/// The fronts of the stack are the segments; the last is the top. A merge replaces the
/// two on top by their union, a shift moves the top, and both cut the result at the
/// two caps. A saved front stays in the store as it was for as long as the builder
/// lives.
pub struct ParetoFrontBuilder {
    storage: Vec<ParetoValue>,
    buffer: Vec<ParetoValue>,
    merge_buffer: Vec<ParetoValue>,
    segments: Vec<usize>,
    max_first: u16,
    max_second: u16,
}

/// Appends `source[from..to]` to `target`.
fn append_range(target: &mut Vec<ParetoValue>, source: &Vec<ParetoValue>, from: usize, to: usize)
    requires
        from <= to <= source.len(),
    ensures
        final(target)@ == old(target)@ + source@.subrange(from as int, to as int),
{
    let mut i = from;
    while i < to
        invariant
            from <= i <= to <= source.len(),
            target@ == old(target)@ + source@.subrange(from as int, i as int),
        decreases to - i,
    {
        target.push(source[i]);
        i = i + 1;
        assert(target@ =~= old(target)@ + source@.subrange(from as int, i as int));
    }
    assert(target@ =~= old(target)@ + source@.subrange(from as int, to as int));
}

/// Whether the point after the walk's output so far is to be kept: kept where it lies
/// further in the first coordinate than all that was kept before.
fn keep(out: &mut Vec<ParetoValue>, x: ParetoValue)
    requires
        is_front(old(out)@),
        old(out)@.len() > 0 ==> x.second < old(out)@.last().second,
    ensures
        is_front(final(out)@),
        covered_by(x, final(out)@),
        final(out)@ == old(out)@ || final(out)@ == old(out)@.push(x),
        final(out)@.len() > 0,
        final(out)@.last().second <= x.second || final(out)@ == old(out)@,
        final(out)@.last().second >= x.second,
{
    let n = out.len();
    if n == 0 || out[n - 1].first < x.first {
        out.push(x);
        proof {
            let o = out@;
            assert(covers(o[n as int], x));
            assert forall|i: int, j: int| 0 <= i < j < o.len() implies (#[trigger] o[i]).first < (
            #[trigger] o[j]).first && o[i].second > o[j].second by {
                if j == n {
                    if i < n - 1 {
                        assert(old(out)@[i].first < old(out)@[n - 1].first);
                        assert(old(out)@[i].second > old(out)@[n - 1].second);
                    }
                    assert(o[i] == old(out)@[i]);
                } else {
                    assert(o[i] == old(out)@[i] && o[j] == old(out)@[j]);
                }
            }
        }
    } else {
        proof {
            assert(covers(out@[n - 1], x));
        }
    }
}

/// A point that was covered stays covered when the sequence grows at its end.
proof fn lemma_covered_grows(q: ParetoValue, s: Seq<ParetoValue>, t: Seq<ParetoValue>)
    requires
        covered_by(q, s),
        t == s || exists|x: ParetoValue| t == s.push(x),
    ensures
        covered_by(q, t),
{
    let k = choose|k: int| 0 <= k < s.len() && covers(#[trigger] s[k], q);
    assert(t[k] == s[k]);
}

/// The two fronts `buffer[begin_a..begin_b]` and `buffer[begin_b..end_b]` are walked
/// from their heads, the point with the larger second coordinate first, and a point is
/// kept where it lies further in the first coordinate than all kept before it.
fn merge_mixed(
    buffer: &Vec<ParetoValue>,
    begin_a: usize,
    begin_b: usize,
    end_b: usize,
    out: &mut Vec<ParetoValue>,
)
    requires
        begin_a <= begin_b <= end_b <= buffer.len(),
        is_front(buffer@.subrange(begin_a as int, begin_b as int)),
        is_front(buffer@.subrange(begin_b as int, end_b as int)),
        old(out)@.len() == 0,
    ensures
        is_union(
            buffer@.subrange(begin_a as int, begin_b as int),
            buffer@.subrange(begin_b as int, end_b as int),
            final(out)@,
        ),
{
    let ghost a = buffer@.subrange(begin_a as int, begin_b as int);
    let ghost b = buffer@.subrange(begin_b as int, end_b as int);
    let mut idx_a = begin_a;
    let mut idx_b = begin_b;
    while idx_a < begin_b || idx_b < end_b
        invariant
            begin_a <= idx_a <= begin_b <= idx_b <= end_b <= buffer.len(),
            a == buffer@.subrange(begin_a as int, begin_b as int),
            b == buffer@.subrange(begin_b as int, end_b as int),
            is_front(a),
            is_front(b),
            is_front(out@),
            forall|k: int| 0 <= k < out@.len() ==> a.contains(#[trigger] out@[k]) || b.contains(out@[k]),
            forall|i: int| 0 <= i < idx_a - begin_a ==> covered_by(#[trigger] a[i], out@),
            forall|i: int| 0 <= i < idx_b - begin_b ==> covered_by(#[trigger] b[i], out@),
            out@.len() > 0 ==> forall|i: int|
                idx_a - begin_a <= i < a.len() ==> (#[trigger] a[i]).second < out@.last().second,
            out@.len() > 0 ==> forall|i: int|
                idx_b - begin_b <= i < b.len() ==> (#[trigger] b[i]).second < out@.last().second,
        decreases (begin_b - idx_a) + (end_b - idx_b),
    {
        let ghost before = out@;
        let ghost ia = idx_a - begin_a;
        let ghost ib = idx_b - begin_b;
        let ghost skipped: Option<ParetoValue> = None;
        let x;
        if idx_a < begin_b && idx_b < end_b {
            let pa = buffer[idx_a];
            let pb = buffer[idx_b];
            assert(pa == a[ia] && pb == b[ib]);
            if pa.second > pb.second {
                x = pa;
                idx_a = idx_a + 1;
            } else if pa.second == pb.second {
                if pa.first > pb.first {
                    x = pa;
                    proof {
                        skipped = Some(pb);
                    }
                } else {
                    x = pb;
                    proof {
                        skipped = Some(pa);
                    }
                }
                idx_a = idx_a + 1;
                idx_b = idx_b + 1;
            } else {
                x = pb;
                idx_b = idx_b + 1;
            }
        } else if idx_a < begin_b {
            x = buffer[idx_a];
            assert(x == a[ia]);
            idx_a = idx_a + 1;
        } else {
            x = buffer[idx_b];
            assert(x == b[ib]);
            idx_b = idx_b + 1;
        }
        assert(a.contains(x) || b.contains(x));
        assert(before.len() > 0 ==> x.second < before.last().second);
        keep(out, x);
        proof {
            let o = out@;
            assert(o == before || exists|y: ParetoValue| o == before.push(y)) by {
                if o != before {
                    assert(o == before.push(x));
                }
            }
            assert forall|k: int| 0 <= k < o.len() implies a.contains(#[trigger] o[k])
                || b.contains(o[k]) by {
                if k < before.len() {
                    assert(o[k] == before[k]);
                }
            }
            assert forall|i: int| 0 <= i < idx_a - begin_a implies covered_by(
                #[trigger] a[i],
                o,
            ) by {
                if i < ia {
                    lemma_covered_grows(a[i], before, o);
                } else if a[i] != x {
                    let k = choose|k: int| 0 <= k < o.len() && covers(#[trigger] o[k], x);
                    assert(covers(o[k], a[i]));
                }
            }
            assert forall|i: int| 0 <= i < idx_b - begin_b implies covered_by(
                #[trigger] b[i],
                o,
            ) by {
                if i < ib {
                    lemma_covered_grows(b[i], before, o);
                } else if b[i] != x {
                    let k = choose|k: int| 0 <= k < o.len() && covers(#[trigger] o[k], x);
                    assert(covers(o[k], b[i]));
                }
            }
            assert forall|i: int| idx_a - begin_a <= i < a.len() implies (#[trigger] a[i]).second
                < o.last().second by {
                if ia < a.len() && i > ia {
                    assert(a[ia].second > a[i].second);
                }
            }
            assert forall|i: int| idx_b - begin_b <= i < b.len() implies (#[trigger] b[i]).second
                < o.last().second by {
                if ib < b.len() && i > ib {
                    assert(b[ib].second > b[i].second);
                }
            }
        }
    }
}

impl ParetoFrontBuilder {
    /// Where segment `i` ends in the buffer.
    spec fn segment_end(&self, i: int) -> int {
        if i + 1 < self.segments@.len() {
            self.segments@[i + 1] as int
        } else {
            self.buffer@.len() as int
        }
    }

    /// The stack is in order in the buffer, and each of its segments is a front.
    pub closed spec fn wf(&self) -> bool {
        &&& forall|i: int|
            0 <= i < self.segments@.len() ==> self.segments@[i] <= (#[trigger] self.segment_end(i))
                <= self.buffer@.len()
        &&& forall|i: int| 0 <= i < self.segments@.len() ==> is_front(#[trigger] self.segments()[i])
    }

    /// The fronts of the stack, the top last.
    pub closed spec fn segments(&self) -> Seq<Seq<ParetoValue>> {
        Seq::new(
            self.segments@.len(),
            |i: int| self.buffer@.subrange(self.segments@[i] as int, self.segment_end(i)),
        )
    }

    /// The caps on the two coordinates, the first coordinate's first.
    pub closed spec fn caps(&self) -> (u16, u16) {
        (self.max_first, self.max_second)
    }

    /// The name stands for a front in the store.
    pub closed spec fn holds(&self, id: ParetoFrontId) -> bool {
        &&& id.offset + id.length <= self.storage@.len()
        &&& is_front(self.storage@.subrange(id.offset as int, id.offset + id.length))
    }

    /// The front in the store that the name stands for.
    pub closed spec fn stored(&self, id: ParetoFrontId) -> Seq<ParetoValue> {
        self.storage@.subrange(id.offset as int, id.offset + id.length)
    }

    /// Every front that `before` had stored is stored in `self` as it was.
    pub open spec fn keeps_store_of(&self, before: &ParetoFrontBuilder) -> bool {
        &&& self.caps() == before.caps()
        &&& forall|id: ParetoFrontId| #[trigger]
            before.holds(id) ==> self.holds(id) && self.stored(id) == before.stored(id)
    }

    /// A builder with an empty stack and an empty store.
    pub fn new(max_first: u16, max_second: u16) -> (r: ParetoFrontBuilder)
        ensures
            r.wf(),
            r.segments().len() == 0,
            r.caps() == (max_first, max_second),
    {
        ParetoFrontBuilder {
            storage: Vec::new(),
            buffer: Vec::new(),
            merge_buffer: Vec::new(),
            segments: Vec::new(),
            max_first,
            max_second,
        }
    }

    /// Empties the stack. The store stays.
    pub fn clear(&mut self)
        ensures
            final(self).wf(),
            final(self).segments().len() == 0,
            final(self).keeps_store_of(old(self)),
    {
        self.segments.clear();
        self.buffer.clear();
    }

    proof fn lemma_push_segment(
        before: &ParetoFrontBuilder,
        after: &ParetoFrontBuilder,
        top: Seq<ParetoValue>,
        position: usize,
    )
        requires
            before.wf(),
            is_front(top),
            position == before.buffer@.len(),
            after.segments@ == before.segments@.push(position),
            after.buffer@ == before.buffer@ + top,
        ensures
            after.wf(),
            after.segments() == before.segments().push(top),
    {
        let n = before.segments@.len() as int;
        assert forall|i: int| 0 <= i < n + 1 implies after.segments()[i] == before.segments().push(
            top,
        )[i] by {
            if i < n {
                assert(after.segments@[i] == before.segments@[i]);
                assert(before.segments@[i] <= before.segment_end(i) <= before.buffer@.len());
                assert(after.segment_end(i) == before.segment_end(i));
                assert(after.segments()[i] =~= before.segments()[i]);
            } else {
                assert(after.segments()[i] =~= top);
            }
        }
        assert(after.segments() =~= before.segments().push(top));
        assert forall|i: int| 0 <= i < after.segments@.len() implies after.segments@[i] <= (
        #[trigger] after.segment_end(i)) <= after.buffer@.len() by {
            if i < n {
                assert(after.segments@[i] == before.segments@[i]);
                assert(before.segments@[i] <= before.segment_end(i) <= before.buffer@.len());
            }
        }
        assert forall|i: int| 0 <= i < after.segments@.len() implies is_front(
            #[trigger] after.segments()[i],
        ) by {
            if i < n {
                assert(is_front(before.segments()[i]));
            }
        }
    }

    /// A builder with the same buffer and the same segment bounds has the same stack.
    proof fn lemma_same_stack(before: &ParetoFrontBuilder, after: &ParetoFrontBuilder)
        requires
            before.wf(),
            after.segments@ == before.segments@,
            after.buffer@ == before.buffer@,
        ensures
            after.wf(),
            after.segments() == before.segments(),
    {
        assert forall|i: int| 0 <= i < after.segments@.len() implies after.segments@[i] <= (
        #[trigger] after.segment_end(i)) <= after.buffer@.len() && after.segments()[i]
            == before.segments()[i] by {
            assert(after.segment_end(i) == before.segment_end(i));
        }
        assert(after.segments() =~= before.segments());
    }

    /// Pushes an empty front.
    pub fn push_empty(&mut self)
        requires
            old(self).wf(),
        ensures
            final(self).wf(),
            final(self).segments() == old(self).segments().push(Seq::empty()),
            final(self).keeps_store_of(old(self)),
    {
        let position = self.buffer.len();
        self.segments.push(position);
        proof {
            assert(self.buffer@ =~= old(self).buffer@ + Seq::<ParetoValue>::empty());
            Self::lemma_push_segment(old(self), self, Seq::empty(), position);
        }
    }

    /// Pushes a front.
    pub fn push_slice(&mut self, values: &[ParetoValue])
        requires
            old(self).wf(),
            is_front(values@),
        ensures
            final(self).wf(),
            final(self).segments() == old(self).segments().push(values@),
            final(self).keeps_store_of(old(self)),
    {
        let position = self.buffer.len();
        self.segments.push(position);
        let mut i: usize = 0;
        assert(self.buffer@ =~= old(self).buffer@ + values@.subrange(0, 0));
        while i < values.len()
            invariant
                i <= values.len(),
                self.buffer@ == old(self).buffer@ + values@.subrange(0, i as int),
                self.segments@ == old(self).segments@.push(position),
                self.storage == old(self).storage,
                self.max_first == old(self).max_first,
                self.max_second == old(self).max_second,
            decreases values.len() - i,
        {
            self.buffer.push(values[i]);
            i = i + 1;
            assert(self.buffer@ =~= old(self).buffer@ + values@.subrange(0, i as int));
        }
        proof {
            assert(values@.subrange(0, values@.len() as int) =~= values@);
            Self::lemma_push_segment(old(self), self, values@, position);
        }
    }

    /// Pushes a front of one point.
    pub fn push_value(&mut self, value: ParetoValue)
        requires
            old(self).wf(),
        ensures
            final(self).wf(),
            final(self).segments() == old(self).segments().push(seq![value]),
            final(self).keeps_store_of(old(self)),
    {
        let position = self.buffer.len();
        self.segments.push(position);
        self.buffer.push(value);
        proof {
            assert(self.buffer@ =~= old(self).buffer@ + seq![value]);
            Self::lemma_push_segment(old(self), self, seq![value], position);
        }
    }

    /// Pushes a copy of a stored front.
    pub fn push_id(&mut self, id: ParetoFrontId)
        requires
            old(self).wf(),
            old(self).holds(id),
        ensures
            final(self).wf(),
            final(self).segments() == old(self).segments().push(old(self).stored(id)),
            final(self).keeps_store_of(old(self)),
    {
        let position = self.buffer.len();
        let stored = self.storage.len();
        self.segments.push(position);
        append_range(&mut self.buffer, &self.storage, id.offset, id.offset + id.length);
        proof {
            Self::lemma_push_segment(old(self), self, old(self).stored(id), position);
        }
    }

    /// Stores a copy of the top front and returns its name; `None` where the stack is
    /// empty. The stack stays as it is.
    pub fn save(&mut self) -> (r: Option<ParetoFrontId>)
        requires
            old(self).wf(),
        ensures
            final(self).wf(),
            final(self).segments() == old(self).segments(),
            final(self).keeps_store_of(old(self)),
            r is Some <==> old(self).segments().len() > 0,
            r is Some ==> final(self).holds(r->Some_0) && final(self).stored(r->Some_0) == old(
                self,
            ).segments().last(),
    {
        let n = self.segments.len();
        if n == 0 {
            return None;
        }
        let begin = self.segments[n - 1];
        let ghost top = self.segments().last();
        assert(top == self.buffer@.subrange(begin as int, self.buffer@.len() as int));
        assert(is_front(self.segments()[n - 1]));
        let id = ParetoFrontId { offset: self.storage.len(), length: self.buffer.len() - begin };
        append_range(&mut self.storage, &self.buffer, begin, self.buffer.len());
        proof {
            Self::lemma_same_stack(old(self), self);
            assert(self.storage@.subrange(id.offset as int, id.offset + id.length) =~= top);
            assert forall|old_id: ParetoFrontId| #[trigger]
                old(self).holds(old_id) implies self.holds(old_id) && self.stored(old_id) == old(
                self,
            ).stored(old_id) by {
                assert(self.storage@.subrange(
                    old_id.offset as int,
                    old_id.offset + old_id.length,
                ) =~= old(self).storage@.subrange(
                    old_id.offset as int,
                    old_id.offset + old_id.length,
                ));
            }
        }
        Some(id)
    }

    /// The top front; `None` where the stack is empty.
    pub fn peek(&self) -> (r: Option<&[ParetoValue]>)
        requires
            self.wf(),
        ensures
            r is Some <==> self.segments().len() > 0,
            r is Some ==> r->Some_0@ == self.segments().last(),
    {
        let n = self.segments.len();
        if n == 0 {
            return None;
        }
        let begin = self.segments[n - 1];
        assert(self.segments@[n - 1] <= self.segment_end(n - 1));
        Some(vstd::slice::slice_subrange(self.buffer.as_slice(), begin, self.buffer.len()))
    }

    /// The stored front that the name stands for.
    pub fn retrieve(&self, id: ParetoFrontId) -> (r: &[ParetoValue])
        requires
            self.holds(id),
        ensures
            r@ == self.stored(id),
            is_front(r@),
    {
        let stored = self.storage.len();
        vstd::slice::slice_subrange(self.storage.as_slice(), id.offset, id.offset + id.length)
    }

    /// Whether the top front is a single point that reaches both caps.
    pub fn is_max(&self) -> (r: bool)
        requires
            self.wf(),
        ensures
            r == (self.segments().len() > 0 && self.segments().last().len() == 1
                && self.segments().last()[0].first >= self.caps().0
                && self.segments().last()[0].second >= self.caps().1),
    {
        let n = self.segments.len();
        if n == 0 {
            return false;
        }
        let begin = self.segments[n - 1];
        assert(self.segments@[n - 1] <= self.segment_end(n - 1));
        if self.buffer.len() - begin != 1 {
            return false;
        }
        let element = self.buffer[begin];
        assert(self.segments().last()[0] == element);
        element.first >= self.max_first && element.second >= self.max_second
    }
}

/// Where the cut of a sequence at both caps begins and ends.
fn cut(w: &Vec<ParetoValue>, max_first: u16, max_second: u16) -> (r: (usize, usize))
    requires
        is_near_front(w@),
    ensures
        r.0 <= r.1 <= w@.len(),
        w@.subrange(r.0 as int, r.1 as int) == capped(w@, max_first, max_second),
        is_front(capped(w@, max_first, max_second)),
{
    let length = w.len();
    let mut begin_c: usize = 0;
    let mut end_c: usize = length;
    assert(w@.skip(0) =~= w@);
    while begin_c + 1 < end_c && w[begin_c + 1].second >= max_second
        invariant
            end_c == length,
            length == w@.len(),
            begin_c <= length,
            length > 0 ==> begin_c < length,
            trim_front(w@, max_second) == trim_front(w@.skip(begin_c as int), max_second),
        decreases length - begin_c,
    {
        proof {
            let t = w@.skip(begin_c as int);
            assert(t[1] == w@[begin_c + 1]);
            assert(t.skip(1) =~= w@.skip(begin_c + 1));
        }
        begin_c = begin_c + 1;
    }
    let ghost t = w@.skip(begin_c as int);
    proof {
        if t.len() >= 2 {
            assert(t[1] == w@[begin_c + 1]);
        }
        assert(trim_front(w@, max_second) == t);
        assert(t.subrange(0, end_c - begin_c) =~= t);
    }
    while begin_c + 1 < end_c && w[end_c - 2].first >= max_first
        invariant
            length == w@.len(),
            t == w@.skip(begin_c as int),
            begin_c <= end_c <= length,
            length > 0 ==> begin_c < end_c,
            trim_back(t, max_first) == trim_back(t.subrange(0, end_c - begin_c), max_first),
        decreases end_c,
    {
        proof {
            let u = t.subrange(0, end_c - begin_c);
            assert(u[u.len() - 2] == w@[end_c - 2]);
            assert(u.drop_last() =~= t.subrange(0, end_c - 1 - begin_c));
        }
        end_c = end_c - 1;
    }
    proof {
        let r = w@.subrange(begin_c as int, end_c as int);
        let u = t.subrange(0, end_c - begin_c);
        assert(u =~= r);
        if u.len() >= 2 {
            assert(u[u.len() - 2] == w@[end_c - 2]);
        }
        assert(trim_back(t, max_first) == r);
        assert(capped(w@, max_first, max_second) == r);
        lemma_cut_is_front(w@, begin_c as int, end_c as int, max_first, max_second);
    }
    (begin_c, end_c)
}

/// A piece of a moved front is a front where all but its first point lie below the
/// cap of the second coordinate and all but its last below the cap of the first.
proof fn lemma_cut_is_front(
    w: Seq<ParetoValue>,
    begin: int,
    end: int,
    max_first: u16,
    max_second: u16,
)
    requires
        is_near_front(w),
        0 <= begin <= end <= w.len(),
        begin + 1 < end ==> w[begin + 1].second < max_second,
        begin + 1 < end ==> w[end - 2].first < max_first,
    ensures
        is_front(w.subrange(begin, end)),
{
    let r = w.subrange(begin, end);
    assert forall|i: int, j: int| 0 <= i < j < r.len() implies (#[trigger] r[i]).first < (
    #[trigger] r[j]).first && r[i].second > r[j].second by {
        let p = begin + i;
        let q = begin + j;
        assert(r[i] == w[p] && r[j] == w[q]);
        assert(w[p].first < w[q].first || (w[p].first == w[q].first && w[q].first == u16::MAX));
        assert(w[p].second > w[q].second || (w[p].second == w[q].second && w[p].second
            == u16::MAX));
        if p < end - 2 {
            assert(w[p].first < w[end - 2].first || w[p].first == w[end - 2].first);
        }
        if begin + 1 < q {
            assert(w[begin + 1].second > w[q].second || w[begin + 1].second == w[q].second);
        }
    }
}

/// A front is monotone in the weaker sense too.
proof fn lemma_front_is_near_front(s: Seq<ParetoValue>)
    requires
        is_front(s),
    ensures
        is_near_front(s),
{
}

impl ParetoFrontBuilder {
    /// The segments begin in the order of the stack.
    proof fn lemma_segments_ordered(&self, i: int, j: int)
        requires
            self.wf(),
            0 <= i <= j < self.segments@.len(),
        ensures
            self.segments@[i] <= self.segments@[j] <= self.buffer@.len(),
            i < j ==> self.segment_end(i) <= self.segments@[j],
        decreases j - i,
    {
        assert(self.segments@[j] <= self.segment_end(j) <= self.buffer@.len());
        if i < j {
            assert(self.segments@[i] <= self.segment_end(i));
            assert(self.segment_end(i) == self.segments@[i + 1]);
            self.lemma_segments_ordered(i + 1, j);
        }
    }

    /// Replacing the segments from `m` on by one front `r` leaves the stack below
    /// them as it was, with `r` on top of it.
    proof fn lemma_replace_segments(
        before: &ParetoFrontBuilder,
        after: &ParetoFrontBuilder,
        m: int,
        r: Seq<ParetoValue>,
    )
        requires
            before.wf(),
            is_front(r),
            0 <= m < before.segments@.len(),
            after.segments@ == before.segments@.subrange(0, m + 1),
            after.buffer@ == before.buffer@.subrange(0, before.segments@[m] as int) + r,
        ensures
            after.wf(),
            after.segments() == before.segments().subrange(0, m).push(r),
    {
        let lower = before.segments().subrange(0, m);
        let cut_at = before.segments@[m] as int;
        before.lemma_segments_ordered(m, m);
        assert(after.buffer@.len() == cut_at + r.len());
        assert forall|i: int| 0 <= i < m implies after.segments()[i] == before.segments()[i]
            && after.segments@[i] <= (#[trigger] after.segment_end(i)) <= cut_at by {
            before.lemma_segments_ordered(i, m);
            if i + 1 < m {
                before.lemma_segments_ordered(i + 1, m);
            }
            assert(after.segments@[i] == before.segments@[i]);
            assert(after.segments@[i + 1] == before.segments@[i + 1]);
            assert(after.segment_end(i) == before.segment_end(i));
            let from = before.segments@[i] as int;
            let to = before.segment_end(i);
            assert(after.buffer@.subrange(from, to) =~= before.buffer@.subrange(from, to));
        }
        assert(after.segments@[m] == cut_at);
        assert(after.segment_end(m) == after.buffer@.len());
        assert(after.segments()[m] =~= r);
        assert(after.segments() =~= lower.push(r));
    }

    /// Replaces the `count` fronts on top of the stack by the merge buffer, cut at
    /// both caps.
    fn replace_top(&mut self, count: usize)
        requires
            old(self).wf(),
            1 <= count <= old(self).segments().len(),
            is_near_front(old(self).merge_buffer@),
        ensures
            final(self).wf(),
            final(self).segments() == old(self).segments().subrange(
                0,
                old(self).segments().len() - count,
            ).push(capped(old(self).merge_buffer@, old(self).caps().0, old(self).caps().1)),
            final(self).keeps_store_of(old(self)),
    {
        let n = self.segments.len();
        let begin_a = self.segments[n - count];
        let (begin_c, end_c) = cut(&self.merge_buffer, self.max_first, self.max_second);
        let ghost r = self.merge_buffer@.subrange(begin_c as int, end_c as int);
        proof {
            self.lemma_segments_ordered(n - count, n - count);
        }
        self.segments.truncate(n - count + 1);
        self.buffer.truncate(begin_a);
        append_range(&mut self.buffer, &self.merge_buffer, begin_c, end_c);
        proof {
            assert(self.segments@ =~= old(self).segments@.subrange(0, n - count + 1));
            assert(self.buffer@ =~= old(self).buffer@.subrange(0, begin_a as int) + r);
            Self::lemma_replace_segments(old(self), self, n - count, r);
        }
    }

    /// Merges the two fronts on top of the stack into one: their Pareto union, cut at
    /// both caps. The two fronts have a Pareto union: it is what the merge computes.
    pub fn merge(&mut self)
        requires
            old(self).wf(),
            old(self).segments().len() >= 2,
        ensures
            final(self).wf(),
            is_union(
                old(self).segments()[old(self).segments().len() - 2],
                old(self).segments().last(),
                union(
                    old(self).segments()[old(self).segments().len() - 2],
                    old(self).segments().last(),
                ),
            ),
            final(self).segments() == old(self).segments().subrange(
                0,
                old(self).segments().len() - 2,
            ).push(
                merged(
                    old(self).segments()[old(self).segments().len() - 2],
                    old(self).segments().last(),
                    old(self).caps().0,
                    old(self).caps().1,
                ),
            ),
            final(self).keeps_store_of(old(self)),
    {
        let n = self.segments.len();
        let begin_b = self.segments[n - 1];
        let begin_a = self.segments[n - 2];
        let end_b = self.buffer.len();
        let ghost a = self.segments()[n - 2];
        let ghost b = self.segments()[n - 1];
        proof {
            self.lemma_segments_ordered(n - 2, n - 1);
            assert(is_front(a) && is_front(b));
            assert(a == self.buffer@.subrange(begin_a as int, begin_b as int));
            assert(b == self.buffer@.subrange(begin_b as int, end_b as int));
        }
        self.merge_buffer.clear();
        merge_mixed(&self.buffer, begin_a, begin_b, end_b, &mut self.merge_buffer);
        proof {
            lemma_union_unique(a, b, self.merge_buffer@);
            lemma_front_is_near_front(self.merge_buffer@);
            Self::lemma_same_stack(old(self), self);
            assert(self.keeps_store_of(old(self)));
        }
        self.replace_top(2);
    }

    /// Moves every point of the top front by the offsets, holding a coordinate at the
    /// largest value that fits, and cuts the moved front at both caps.
    pub fn shift(&mut self, first: u16, second: u16)
        requires
            old(self).wf(),
            old(self).segments().len() >= 1,
        ensures
            final(self).wf(),
            final(self).segments() == old(self).segments().drop_last().push(
                shifted(
                    old(self).segments().last(),
                    first,
                    second,
                    old(self).caps().0,
                    old(self).caps().1,
                ),
            ),
            final(self).keeps_store_of(old(self)),
    {
        let n = self.segments.len();
        let begin = self.segments[n - 1];
        let end = self.buffer.len();
        let ghost top = self.segments()[n - 1];
        proof {
            self.lemma_segments_ordered(n - 1, n - 1);
            assert(is_front(top));
        }
        self.merge_buffer.clear();
        let mut i = begin;
        while i < end
            invariant
                begin <= i <= end,
                end == self.buffer@.len(),
                self.buffer == old(self).buffer,
                self.segments == old(self).segments,
                self.storage == old(self).storage,
                self.max_first == old(self).max_first,
                self.max_second == old(self).max_second,
                top == self.buffer@.subrange(begin as int, end as int),
                self.merge_buffer@ == moved(top, first, second).subrange(0, i - begin),
            decreases end - i,
        {
            let value = self.buffer[i];
            assert(value == top[i - begin]);
            let moved_first = if value.first > u16::MAX - first {
                u16::MAX
            } else {
                value.first + first
            };
            let moved_second = if value.second > u16::MAX - second {
                u16::MAX
            } else {
                value.second + second
            };
            self.merge_buffer.push(ParetoValue { first: moved_first, second: moved_second });
            i = i + 1;
            assert(self.merge_buffer@ =~= moved(top, first, second).subrange(0, i - begin));
        }
        proof {
            assert(self.merge_buffer@ =~= moved(top, first, second));
            lemma_moved_near_front(top, first, second);
            Self::lemma_same_stack(old(self), self);
            assert(old(self).segments().subrange(0, n - 1) =~= old(self).segments().drop_last());
            assert(self.keeps_store_of(old(self)));
        }
        self.replace_top(1);
    }
}

/// What the first trim leaves is a tail of the sequence, in which no point after the
/// first reaches the cap.
pub proof fn lemma_trim_front(s: Seq<ParetoValue>, max_second: u16)
    ensures
        exists|k: int| 0 <= k <= s.len() && trim_front(s, max_second) == s.skip(k),
        trim_front(s, max_second).len() >= 2 ==> trim_front(s, max_second)[1].second < max_second,
        trim_front(trim_front(s, max_second), max_second) == trim_front(s, max_second),
        s.len() > 0 ==> trim_front(s, max_second).len() > 0,
    decreases s.len(),
{
    if s.len() >= 2 && s[1].second >= max_second {
        lemma_trim_front(s.skip(1), max_second);
        let k = choose|k: int|
            0 <= k <= s.skip(1).len() && trim_front(s.skip(1), max_second) == s.skip(1).skip(k);
        assert(s.skip(1).skip(k) =~= s.skip(k + 1));
    } else {
        assert(s.skip(0) =~= s);
    }
}

/// What the second trim leaves is a head of the sequence, in which no point before
/// the last reaches the cap.
pub proof fn lemma_trim_back(s: Seq<ParetoValue>, max_first: u16)
    ensures
        exists|k: int| 0 <= k <= s.len() && trim_back(s, max_first) == s.take(k),
        trim_back(s, max_first).len() >= 2 ==> trim_back(s, max_first)[trim_back(
            s,
            max_first,
        ).len() - 2].first < max_first,
        trim_back(trim_back(s, max_first), max_first) == trim_back(s, max_first),
        s.len() > 0 ==> trim_back(s, max_first).len() > 0,
    decreases s.len(),
{
    if s.len() >= 2 && s[s.len() - 2].first >= max_first {
        lemma_trim_back(s.drop_last(), max_first);
        let k = choose|k: int|
            0 <= k <= s.drop_last().len() && trim_back(s.drop_last(), max_first)
                == s.drop_last().take(k);
        assert(s.drop_last().take(k) =~= s.take(k));
    } else {
        assert(s.take(s.len() as int) =~= s);
    }
}

/// A sequence that was cut at the caps is not changed by a second cut.
pub proof fn lemma_capped_idempotent(s: Seq<ParetoValue>, max_first: u16, max_second: u16)
    ensures
        capped(capped(s, max_first, max_second), max_first, max_second) == capped(
            s,
            max_first,
            max_second,
        ),
{
    let t = trim_front(s, max_second);
    let r = trim_back(t, max_first);
    lemma_trim_front(s, max_second);
    lemma_trim_back(t, max_first);
    let k = choose|k: int| 0 <= k <= t.len() && r == t.take(k);
    if r.len() >= 2 {
        assert(r[1] == t[1]);
    }
    assert(trim_front(r, max_second) == r);
}

/// Merging a front with itself leaves the front, cut at the caps; a front that the
/// builder has cut before is left as it is.
pub proof fn lemma_merge_idempotent(a: Seq<ParetoValue>, max_first: u16, max_second: u16)
    requires
        is_front(a),
    ensures
        merged(a, a, max_first, max_second) == capped(a, max_first, max_second),
        capped(a, max_first, max_second) == a ==> merged(a, a, max_first, max_second) == a,
{
    lemma_union_idempotent(a);
}

impl ParetoFrontBuilder {
    /// Every front of the stack and every stored front is strictly increasing in the
    /// first coordinate and strictly decreasing in the second.
    pub proof fn lemma_fronts(&self)
        requires
            self.wf(),
        ensures
            forall|i: int| 0 <= i < self.segments().len() ==> is_front(#[trigger] self.segments()[i]),
            forall|id: ParetoFrontId| #[trigger] self.holds(id) ==> is_front(self.stored(id)),
    {
    }
}

impl ParetoFrontBuilder {
    /// Walks the stack and tests what [`wf`](Self::wf) states: that the segments lie in
    /// order in the buffer and that each of them is a front.
    pub fn check_invariants(&self) -> (r: bool)
        requires
            self.wf(),
        ensures
            r,
    {
        let n = self.segments.len();
        let mut ok = true;
        let mut s: usize = 0;
        while s < n
            invariant
                s <= n,
                n == self.segments@.len(),
                self.wf(),
                ok,
            decreases n - s,
        {
            let begin = self.segments[s];
            let end = if s + 1 < n {
                self.segments[s + 1]
            } else {
                self.buffer.len()
            };
            assert(end == self.segment_end(s as int));
            assert(begin <= self.segment_end(s as int) <= self.buffer@.len());
            if begin > end {
                ok = false;
            }
            let ghost front = self.segments()[s as int];
            assert(is_front(front));
            let mut i = begin;
            while i < end && end - i > 1
                invariant
                    begin <= i,
                    end <= self.buffer@.len(),
                    front == self.buffer@.subrange(begin as int, end as int),
                    is_front(front),
                    ok,
                decreases end - i,
            {
                assert(front[i - begin] == self.buffer@[i as int]);
                assert(front[i + 1 - begin] == self.buffer@[i + 1]);
                if self.buffer[i].first >= self.buffer[i + 1].first || self.buffer[i].second
                    <= self.buffer[i + 1].second {
                    ok = false;
                }
                i = i + 1;
            }
            s = s + 1;
        }
        ok
    }
}

impl ParetoFrontBuilder {
    /// Pushes a copy of a stored front with every point moved by the offsets and the
    /// moved front cut at both caps: what [`push_id`](Self::push_id) and then
    /// [`shift`](Self::shift) leave.
    pub fn push_id_shifted(&mut self, id: ParetoFrontId, first: u16, second: u16)
        requires
            old(self).wf(),
            old(self).holds(id),
        ensures
            final(self).wf(),
            final(self).segments() == old(self).segments().push(
                shifted(
                    old(self).stored(id),
                    first,
                    second,
                    old(self).caps().0,
                    old(self).caps().1,
                ),
            ),
            final(self).keeps_store_of(old(self)),
    {
        let begin = id.offset;
        let stored = self.storage.len();
        let end = id.offset + id.length;
        let ghost front = self.stored(id);
        self.merge_buffer.clear();
        let mut i = begin;
        while i < end
            invariant
                begin <= i <= end <= self.storage@.len(),
                self.buffer == old(self).buffer,
                self.segments == old(self).segments,
                self.storage == old(self).storage,
                self.max_first == old(self).max_first,
                self.max_second == old(self).max_second,
                front == self.storage@.subrange(begin as int, end as int),
                self.merge_buffer@ == moved(front, first, second).subrange(0, i - begin),
            decreases end - i,
        {
            let value = self.storage[i];
            assert(value == front[i - begin]);
            let moved_first = if value.first > u16::MAX - first {
                u16::MAX
            } else {
                value.first + first
            };
            let moved_second = if value.second > u16::MAX - second {
                u16::MAX
            } else {
                value.second + second
            };
            self.merge_buffer.push(ParetoValue { first: moved_first, second: moved_second });
            i = i + 1;
            assert(self.merge_buffer@ =~= moved(front, first, second).subrange(0, i - begin));
        }
        proof {
            assert(self.merge_buffer@ =~= moved(front, first, second));
            lemma_moved_near_front(front, first, second);
        }
        let (begin_c, end_c) = cut(&self.merge_buffer, self.max_first, self.max_second);
        let position = self.buffer.len();
        self.segments.push(position);
        append_range(&mut self.buffer, &self.merge_buffer, begin_c, end_c);
        proof {
            Self::lemma_push_segment(
                old(self),
                self,
                shifted(front, first, second, self.max_first, self.max_second),
                position,
            );
        }
    }
}

} // verus!
