//! Shapes half-way between two others, for animation.
use crate::airfoil::points::flat_pairs;
use crate::elementary::{countable, Elementary};
use crate::number::{arithmetic, count, whole, Formula, Real};
use crate::station::copied;
use vstd::prelude::*;

verus! {

/// The number `t` of the way from `a` to `b`.
#[verifier::allow_in_spec]
pub fn lerp<S: Real>(a: S, b: S, t: S) -> S
    requires
        arithmetic::<S>(),
    returns
        a * (whole::<S>(1) - t) + b * t,
{
    a * (whole::<S>(1) - t) + b * t
}

/// A place among `n` entries: two neighbours, and how far between them.
#[derive(Clone, Copy, Debug)]
pub struct Between<S> {
    pub low: usize,
    pub high: usize,
    pub t: S,
}

/// The place among `from` entries that the entry `i` of `to` corresponds to: a single entry
/// corresponds to the first.
pub open spec fn counterpart<S: Real, E: Elementary<S>>(
    elementary: &E,
    i: int,
    from: int,
    to: int,
) -> Between<S> {
    if to == 1 {
        Between { low: 0, high: 0, t: whole::<S>(0) }
    } else {
        stretched_place(elementary, i, from, to)
    }
}

/// The place among `from` entries at which the entry `i` of `to` lies, where both lists span
/// the same stretch.
pub open spec fn stretched_place<S: Real, E: Elementary<S>>(
    elementary: &E,
    i: int,
    from: int,
    to: int,
) -> Between<S> {
    let scale = count::<S>((from - 1) as usize) / count::<S>((to - 1) as usize);
    let at = count::<S>(i as usize) * scale;
    let whole_part = elementary.integer_part(at);
    let low = if whole_part < from {
        whole_part as int
    } else {
        from - 1
    };
    let high = if low + 1 < from {
        low + 1
    } else {
        from - 1
    };
    Between { low: low as usize, high: high as usize, t: at - count::<S>(low as usize) }
}

/// The place among `from` entries that the entry `i` of `to` corresponds to.
fn find_counterpart<S: Real, E: Elementary<S>>(
    elementary: &E,
    i: usize,
    from: usize,
    to: usize,
) -> (r: Between<S>)
    requires
        arithmetic::<S>(),
        elementary.lawful(),
        i < to,
        from > 0,
    ensures
        r == counterpart::<S, E>(elementary, i as int, from as int, to as int),
        r.low < from,
        r.high < from,
{
    if to == 1 {
        return Between { low: 0, high: 0, t: whole(0) };
    }
    let scale: S = count::<S>(from - 1) / count(to - 1);
    let at: S = count::<S>(i) * scale;
    let whole_part: usize = elementary.truncated(at);
    let low: usize = if whole_part < from {
        whole_part
    } else {
        from - 1
    };
    let high: usize = if low + 1 < from {
        low + 1
    } else {
        from - 1
    };
    Between { low, high, t: at - count(low) }
}

/// The entries of a list of numbers between `from` and `to`, one for each of `to` where the
/// lengths differ.
pub open spec fn numbers_between<S: Real, E: Elementary<S>>(
    elementary: &E,
    from: Seq<S>,
    to: Seq<S>,
    t: S,
) -> Seq<S> {
    if from.len() == 0 {
        to
    } else if to.len() == 0 {
        from
    } else {
        Seq::new(
            to.len(),
            |i: int|
                if from.len() == to.len() {
                    lerp(from[i], to[i], t)
                } else {
                    let b = counterpart::<S, E>(elementary, i, from.len() as int, to.len() as int);
                    lerp(lerp(from[b.low as int], from[b.high as int], b.t), to[i], t)
                },
        )
    }
}

/// Numbers `t` of the way from one list to another.
pub fn lerp_array<S: Real, E: Elementary<S>>(from: &[S], to: &[S], t: S, elementary: &E) -> (r: Vec<
    S,
>)
    requires
        arithmetic::<S>(),
        elementary.lawful(),
    ensures
        r@ == numbers_between(elementary, from@, to@, t),
{
    if from.len() == 0 {
        return copied(to);
    }
    if to.len() == 0 {
        return copied(from);
    }
    let n: usize = to.len();
    let ghost shape = numbers_between(elementary, from@, to@, t);
    let mut r: Vec<S> = Vec::with_capacity(n);
    let mut i: usize = 0;
    while i < n
        invariant
            arithmetic::<S>(),
            elementary.lawful(),
            i <= n == to@.len(),
            from@.len() > 0,
            n > 0,
            shape == numbers_between(elementary, from@, to@, t),
            r@ == shape.subrange(0, i as int),
        decreases n - i,
    {
        let source: S = if from.len() == n {
            from[i]
        } else {
            let b: Between<S> = find_counterpart(elementary, i, from.len(), n);
            lerp(from[b.low], from[b.high], b.t)
        };
        r.push(lerp(source, to[i], t));
        i = i + 1;
        assert(r@ =~= shape.subrange(0, i as int));
    }
    assert(r@ =~= shape);
    r
}

/// The coordinates between those of two lists of points. Where the lengths differ there is
/// one point for each point of `to`.
pub open spec fn points_between<S: Real, E: Elementary<S>>(
    elementary: &E,
    from: Seq<S>,
    to: Seq<S>,
    t: S,
) -> Seq<S> {
    let from_pts = from.len() as int / 2;
    let to_pts = to.len() as int / 2;
    if from.len() == 0 {
        to
    } else if to.len() == 0 {
        from
    } else if from.len() == to.len() {
        Seq::new(to.len(), |i: int| lerp(from[i], to[i], t))
    } else if to_pts == 0 {
        from
    } else if from_pts == 0 {
        to
    } else {
        Seq::new(
            (2 * to_pts) as nat,
            |k: int|
                {
                    let b = counterpart::<S, E>(elementary, k / 2, from_pts, to_pts);
                    lerp(lerp(from[b.low * 2 + k % 2], from[b.high * 2 + k % 2], b.t), to[k], t)
                },
        )
    }
}

/// Coordinates of points `t` of the way from one list to another.
pub fn lerp_points<S: Real, E: Elementary<S>>(from: &[S], to: &[S], t: S, elementary: &E) -> (r:
    Vec<S>)
    requires
        arithmetic::<S>(),
        elementary.lawful(),
    ensures
        r@ == points_between(elementary, from@, to@, t),
{
    if from.len() == 0 {
        return copied(to);
    }
    if to.len() == 0 {
        return copied(from);
    }
    if from.len() == to.len() {
        let r: Vec<S> = lerp_array(from, to, t, elementary);
        assert(r@ =~= points_between(elementary, from@, to@, t));
        r
    } else {
        lerp_points_diff_length(from, to, t, elementary)
    }
}

/// Coordinates of points between two lists of different lengths.
fn lerp_points_diff_length<S: Real, E: Elementary<S>>(
    from: &[S],
    to: &[S],
    t: S,
    elementary: &E,
) -> (r: Vec<S>)
    requires
        arithmetic::<S>(),
        elementary.lawful(),
        from@.len() > 0,
        to@.len() > 0,
        from@.len() != to@.len(),
    ensures
        r@ == points_between(elementary, from@, to@, t),
{
    let from_len: usize = from.len();
    let to_len: usize = to.len();
    let from_pts: usize = from_len / 2;
    let to_pts: usize = to_len / 2;
    if to_pts == 0 {
        return copied(from);
    }
    if from_pts == 0 {
        return copied(to);
    }
    let ghost shape = points_between(elementary, from@, to@, t);
    let mut r: Vec<S> = Vec::with_capacity(to.len());
    let mut i: usize = 0;
    while i < to_pts
        invariant
            arithmetic::<S>(),
            elementary.lawful(),
            i <= to_pts,
            from_len == from@.len(),
            to_len == to@.len(),
            from_pts == from_len / 2,
            to_pts == to_len / 2,
            from_pts > 0,
            to_pts > 0,
            from@.len() != to@.len(),
            shape == points_between(elementary, from@, to@, t),
            r@ == shape.subrange(0, 2 * i),
        decreases to_pts - i,
    {
        let b: Between<S> = find_counterpart(elementary, i, from_pts, to_pts);
        let x: S = lerp(from[b.low * 2], from[b.high * 2], b.t);
        let y: S = lerp(from[b.low * 2 + 1], from[b.high * 2 + 1], b.t);
        r.push(lerp(x, to[i * 2], t));
        r.push(lerp(y, to[i * 2 + 1], t));
        i = i + 1;
        proof {
            assert((2 * i - 2) / 2 == i - 1 && (2 * i - 1) / 2 == i - 1);
            assert((2 * i - 2) % 2 == 0 && (2 * i - 1) % 2 == 1);
            assert(shape[2 * i - 2] == lerp(x, to@[2 * i - 2], t));
            assert(shape[2 * i - 1] == lerp(y, to@[2 * i - 1], t));
            assert(r@ =~= shape.subrange(0, 2 * i));
        }
    }
    assert(r@ =~= shape);
    r
}

/// The points of a streamline.
pub type Line<S> = Vec<(S, S)>;

/// The points of streamlines.
pub open spec fn lines_view<S>(lines: Seq<Line<S>>) -> Seq<Seq<(S, S)>> {
    Seq::new(lines.len(), |i: int| lines[i]@)
}

/// The points of a line that stand in `data` from `idx` on: `n` of them, or as many as are
/// there in whole.
pub open spec fn line_at<S>(data: Seq<S>, idx: int, n: int) -> Seq<(S, S)>
    decreases n,
{
    if n <= 0 || idx + 1 >= data.len() {
        Seq::empty()
    } else {
        seq![(data[idx], data[idx + 1])] + line_at(data, idx + 2, n - 1)
    }
}

/// The lines that stand in `data` from `idx` on: `n` of them, or as many as are begun. Each
/// has its number of points before it.
pub open spec fn lines_at<S: Real, E: Elementary<S>>(
    elementary: &E,
    data: Seq<S>,
    idx: int,
    n: int,
) -> Seq<Seq<(S, S)>>
    decreases n,
{
    if n <= 0 || idx >= data.len() {
        Seq::empty()
    } else {
        let line = line_at(data, idx + 1, elementary.integer_part(data[idx]) as int);
        seq![line] + lines_at(elementary, data, idx + 1 + 2 * line.len(), n - 1)
    }
}

/// The lines of an encoded list: their number stands first.
pub open spec fn decoded<S: Real, E: Elementary<S>>(elementary: &E, data: Seq<S>) -> Seq<
    Seq<(S, S)>,
> {
    if data.len() == 0 {
        Seq::empty()
    } else {
        lines_at(elementary, data, 1, elementary.integer_part(data[0]) as int)
    }
}

/// The encoding of a line: the number of its points, and their coordinates.
pub open spec fn line_code<S: Real>(line: Seq<(S, S)>) -> Seq<S> {
    seq![count::<S>(line.len() as usize)] + flat_pairs(line)
}

/// The encoding of lines, one behind the other.
pub open spec fn lines_code<S: Real>(lines: Seq<Seq<(S, S)>>) -> Seq<S>
    decreases lines.len(),
{
    if lines.len() == 0 {
        Seq::empty()
    } else {
        line_code(lines[0]) + lines_code(lines.subrange(1, lines.len() as int))
    }
}

/// The encoding of lines, behind their number.
pub open spec fn encoded<S: Real>(lines: Seq<Seq<(S, S)>>) -> Seq<S> {
    seq![count::<S>(lines.len() as usize)] + lines_code(lines)
}

/// The lines of an encoded list.
pub fn decode_streamlines<S: Real, E: Elementary<S>>(data: &[S], elementary: &E) -> (r: Vec<
    Line<S>,
>)
    requires
        elementary.lawful(),
    ensures
        lines_view(r@) == decoded(elementary, data@),
{
    let mut r: Vec<Line<S>> = Vec::new();
    if data.len() == 0 {
        assert(lines_view(r@) =~= decoded(elementary, data@));
        return r;
    }
    let n: usize = elementary.truncated(data[0]);
    let mut idx: usize = 1;
    let mut k: usize = 0;
    while k < n && idx < data.len()
        invariant
            elementary.lawful(),
            1 <= idx <= data@.len(),
            k <= n,
            decoded(elementary, data@) == lines_view(r@) + lines_at(
                elementary,
                data@,
                idx as int,
                n - k,
            ),
        decreases n - k,
    {
        let ghost before = r@;
        let n_pts: usize = elementary.truncated(data[idx]);
        let ghost begin = idx as int;
        idx = idx + 1;
        let mut line: Line<S> = Vec::new();
        let mut j: usize = 0;
        while j < n_pts && idx < data.len() - 1
            invariant
                data@.len() >= 1,
                begin + 1 <= idx <= data@.len(),
                j <= n_pts,
                idx == begin + 1 + 2 * line@.len(),
                line_at(data@, begin + 1, n_pts as int) == line@ + line_at(
                    data@,
                    idx as int,
                    n_pts - j,
                ),
            decreases n_pts - j,
        {
            let ghost so_far = line@;
            line.push((data[idx], data[idx + 1]));
            proof {
                let head = (data@[idx as int], data@[idx + 1]);
                let rest = line_at(data@, idx + 2, n_pts - j - 1);
                assert(line_at(data@, idx as int, n_pts - j) == seq![head] + rest);
                assert(so_far + (seq![head] + rest) =~= line@ + rest);
            }
            idx = idx + 2;
            j = j + 1;
        }
        assert(line_at(data@, idx as int, n_pts - j) =~= Seq::<(S, S)>::empty());
        assert(line@ =~= line_at(data@, begin + 1, n_pts as int));
        r.push(line);
        proof {
            let rest = lines_at(elementary, data@, idx as int, n - k - 1);
            assert(lines_at(elementary, data@, begin, n - k) == seq![line@] + rest);
            assert(lines_view(before) + (seq![line@] + rest) =~= lines_view(r@) + rest);
        }
        k = k + 1;
    }
    assert(lines_at(elementary, data@, idx as int, n - k) =~= Seq::<Seq<(S, S)>>::empty());
    assert(lines_view(r@) =~= decoded(elementary, data@));
    r
}

/// The encoding of lines.
pub fn encode_streamlines<S: Real>(lines: &[Line<S>]) -> (r: Vec<S>)
    requires
        arithmetic::<S>(),
    ensures
        r@ == encoded(lines_view(lines@)),
{
    let ghost all = lines_view(lines@);
    let mut r: Vec<S> = Vec::new();
    r.push(count(lines.len()));
    let mut i: usize = 0;
    proof {
        assert(all.subrange(0, all.len() as int) =~= all);
        assert(encoded(all) =~= r@ + lines_code(all));
    }
    while i < lines.len()
        invariant
            arithmetic::<S>(),
            all == lines_view(lines@),
            i <= lines@.len(),
            encoded(all) == r@ + lines_code(all.subrange(i as int, all.len() as int)),
        decreases lines@.len() - i,
    {
        let line: &Line<S> = &lines[i];
        let ghost before = r@;
        let size: S = count(line.len());
        r.push(size);
        let mut j: usize = 0;
        assert(r@ =~= before + (seq![size] + flat_pairs(line@.subrange(0, 0))));
        while j < line.len()
            invariant
                j <= line@.len(),
                r@ == before + (seq![size] + flat_pairs(line@.subrange(0, j as int))),
            decreases line@.len() - j,
        {
            let ghost so_far = flat_pairs(line@.subrange(0, j as int));
            let (x, y): (S, S) = line[j];
            r.push(x);
            r.push(y);
            j = j + 1;
            proof {
                let now = line@.subrange(0, j as int);
                assert forall|k: int| 0 <= k < 2 * j implies #[trigger] flat_pairs(now)[k]
                    == so_far.push(x).push(y)[k] by {
                    if k < 2 * j - 2 {
                        assert(now[k / 2] == line@.subrange(0, j - 1)[k / 2]);
                    } else {
                        assert(k / 2 == j - 1);
                    }
                }
                assert(flat_pairs(now) =~= so_far.push(x).push(y));
                assert(r@ =~= before + (seq![size] + flat_pairs(now)));
            }
        }
        proof {
            assert(line@.subrange(0, line@.len() as int) =~= line@);
            let left = all.subrange(i as int, all.len() as int);
            assert(left[0] == line@);
            assert(left.subrange(1, left.len() as int) =~= all.subrange(i + 1, all.len() as int));
            assert(before + (line_code(line@) + lines_code(
                all.subrange(i + 1, all.len() as int),
            )) =~= r@ + lines_code(all.subrange(i + 1, all.len() as int)));
        }
        i = i + 1;
    }
    assert(r@ =~= encoded(all));
    r
}

/// Where a line stands in whole, its points are read off the coordinates.
proof fn lemma_line_at<S>(data: Seq<S>, idx: int, n: int)
    requires
        0 <= idx,
        0 <= n,
        idx + 2 * n <= data.len(),
    ensures
        line_at(data, idx, n) == Seq::new(
            n as nat,
            |i: int| (data[idx + 2 * i], data[idx + 2 * i + 1]),
        ),
    decreases n,
{
    if n > 0 {
        lemma_line_at(data, idx + 2, n - 1);
    }
    assert(line_at(data, idx, n) =~= Seq::new(
        n as nat,
        |i: int| (data[idx + 2 * i], data[idx + 2 * i + 1]),
    ));
}

/// Lines are read back from their encoding, wherever it stands.
proof fn lemma_lines_at<S: Real, E: Elementary<S>>(
    elementary: &E,
    before: Seq<S>,
    lines: Seq<Seq<(S, S)>>,
)
    requires
        forall|i: int|
            0 <= i < lines.len() ==> elementary.integer_part(
                count::<S>((#[trigger] lines[i]).len() as usize),
            ) == lines[i].len(),
    ensures
        lines_at(
            elementary,
            before + lines_code(lines),
            before.len() as int,
            lines.len() as int,
        ) == lines,
    decreases lines.len(),
{
    let data = before + lines_code(lines);
    let idx = before.len() as int;
    if lines.len() > 0 {
        let first = lines[0];
        let rest = lines.subrange(1, lines.len() as int);
        let next = before + line_code(first);
        assert(data =~= next + lines_code(rest));
        assert(data[idx] == count::<S>(first.len() as usize));
        lemma_line_at(data, idx + 1, first.len() as int);
        assert forall|i: int| 0 <= i < first.len() implies #[trigger] line_at(
            data,
            idx + 1,
            first.len() as int,
        )[i] == first[i] by {
            assert((2 * i) / 2 == i && (2 * i + 1) / 2 == i);
            assert(data[idx + 1 + 2 * i] == flat_pairs(first)[2 * i]);
            assert(data[idx + 1 + 2 * i + 1] == flat_pairs(first)[2 * i + 1]);
        }
        assert(line_at(data, idx + 1, first.len() as int) =~= first);
        lemma_lines_at(elementary, next, rest);
        assert(seq![first] + rest =~= lines);
    } else {
        assert(lines_at(elementary, data, idx, 0) =~= lines);
    }
}

/// The number of points of all lines.
pub open spec fn points_in<S>(lines: Seq<Seq<(S, S)>>) -> nat
    decreases lines.len(),
{
    if lines.len() == 0 {
        0
    } else {
        lines[0].len() + points_in(lines.subrange(1, lines.len() as int))
    }
}

/// The encoding of lines has a number for each line, and two for each point.
proof fn lemma_code_length<S: Real>(lines: Seq<Seq<(S, S)>>)
    ensures
        lines_code(lines).len() == lines.len() + 2 * points_in(lines),
    decreases lines.len(),
{
    if lines.len() > 0 {
        lemma_code_length(lines.subrange(1, lines.len() as int));
    }
}

/// Decoding gives back what was encoded, for as many lines and points as numbers count without
/// rounding. The encoding has one number, one more for each line, and two for each point; and
/// nothing is decoded from no numbers.
pub proof fn law_streamlines_survive<S: Real, E: Elementary<S>>(
    elementary: &E,
    lines: Seq<Seq<(S, S)>>,
)
    requires
        elementary.lawful(),
        countable(lines.len()),
        forall|i: int| 0 <= i < lines.len() ==> countable((#[trigger] lines[i]).len()),
    ensures
        decoded(elementary, encoded(lines)) == lines,
        encoded(lines).len() == 1 + lines.len() + 2 * points_in(lines),
        decoded(elementary, Seq::<S>::empty()).len() == 0,
{
    let head = seq![count::<S>(lines.len() as usize)];
    elementary.lemma_counts_are_read_back(lines.len());
    assert forall|i: int| 0 <= i < lines.len() implies elementary.integer_part(
        count::<S>((#[trigger] lines[i]).len() as usize),
    ) == lines[i].len() by {
        elementary.lemma_counts_are_read_back(lines[i].len());
    }
    lemma_lines_at(elementary, head, lines);
    lemma_code_length(lines);
}

/// A morph has the shape of its end: as many numbers, and as many points, as that has, where
/// neither end is empty.
pub proof fn law_morph_has_the_shape_of_its_end<S: Real, E: Elementary<S>>(
    elementary: &E,
    from: Seq<S>,
    to: Seq<S>,
    t: S,
)
    requires
        from.len() > 0,
        to.len() > 0,
    ensures
        numbers_between(elementary, from, to, t).len() == to.len(),
        from.len() % 2 == 0 && to.len() % 2 == 0 ==> points_between(
            elementary,
            from,
            to,
            t,
        ).len() == to.len(),
{
}

/// The line between two lines: one of them where the other is empty, and else with a point
/// for each point of `to`.
pub open spec fn line_between<S: Real, E: Elementary<S>>(
    elementary: &E,
    from: Seq<(S, S)>,
    to: Seq<(S, S)>,
    t: S,
) -> Seq<(S, S)> {
    if from.len() == 0 {
        to
    } else if to.len() == 0 {
        from
    } else {
        Seq::new(
            to.len(),
            |j: int|
                if from.len() == to.len() {
                    (lerp(from[j].0, to[j].0, t), lerp(from[j].1, to[j].1, t))
                } else {
                    let b = counterpart::<S, E>(elementary, j, from.len() as int, to.len() as int);
                    let l = from[b.low as int];
                    let h = from[b.high as int];
                    (lerp(lerp(l.0, h.0, b.t), to[j].0, t), lerp(lerp(l.1, h.1, b.t), to[j].1, t))
                },
        )
    }
}

/// The larger of two numbers of lines.
pub open spec fn most(a: nat, b: nat) -> nat {
    if a < b {
        b
    } else {
        a
    }
}

/// The lines between two sets of lines: as many as the larger has, the smaller one used over
/// and over.
pub open spec fn lines_between<S: Real, E: Elementary<S>>(
    elementary: &E,
    from: Seq<Seq<(S, S)>>,
    to: Seq<Seq<(S, S)>>,
    t: S,
) -> Seq<Seq<(S, S)>> {
    Seq::new(
        most(from.len(), to.len()),
        |i: int|
            line_between(elementary, from[i % from.len() as int], to[i % to.len() as int], t),
    )
}

/// The line between two lines.
fn lerp_line<S: Real, E: Elementary<S>>(from: &Line<S>, to: &Line<S>, t: S, elementary: &E) -> (r:
    Line<S>)
    requires
        arithmetic::<S>(),
        elementary.lawful(),
    ensures
        r@ == line_between(elementary, from@, to@, t),
{
    if from.len() == 0 {
        return copied(to);
    }
    if to.len() == 0 {
        return copied(from);
    }
    let n: usize = to.len();
    let ghost shape = line_between(elementary, from@, to@, t);
    let mut r: Line<S> = Vec::with_capacity(n);
    let mut j: usize = 0;
    while j < n
        invariant
            arithmetic::<S>(),
            elementary.lawful(),
            j <= n == to@.len(),
            from@.len() > 0,
            n > 0,
            shape == line_between(elementary, from@, to@, t),
            r@ == shape.subrange(0, j as int),
        decreases n - j,
    {
        let source: (S, S) = if from.len() == n {
            from[j]
        } else {
            let b: Between<S> = find_counterpart(elementary, j, from.len(), n);
            let l: (S, S) = from[b.low];
            let h: (S, S) = from[b.high];
            (lerp(l.0, h.0, b.t), lerp(l.1, h.1, b.t))
        };
        r.push((lerp(source.0, to[j].0, t), lerp(source.1, to[j].1, t)));
        j = j + 1;
        assert(r@ =~= shape.subrange(0, j as int));
    }
    assert(r@ =~= shape);
    r
}

/// Encoded streamlines `t` of the way from one list to another.
pub fn lerp_streamlines<S: Real, E: Elementary<S>>(from: &[S], to: &[S], t: S, elementary: &E) -> (r:
    Vec<S>)
    requires
        arithmetic::<S>(),
        elementary.lawful(),
    ensures
        r@ == (if decoded(elementary, from@).len() == 0 {
            to@
        } else if decoded(elementary, to@).len() == 0 {
            from@
        } else {
            encoded(
                lines_between(
                    elementary,
                    decoded(elementary, from@),
                    decoded(elementary, to@),
                    t,
                ),
            )
        }),
{
    let from_lines: Vec<Line<S>> = decode_streamlines(from, elementary);
    let to_lines: Vec<Line<S>> = decode_streamlines(to, elementary);
    let ghost a = lines_view(from_lines@);
    let ghost b = lines_view(to_lines@);
    if from_lines.len() == 0 {
        return copied(to);
    }
    if to_lines.len() == 0 {
        return copied(from);
    }
    let n: usize = if from_lines.len() < to_lines.len() {
        to_lines.len()
    } else {
        from_lines.len()
    };
    let ghost shape = lines_between(elementary, a, b, t);
    let mut r: Vec<Line<S>> = Vec::with_capacity(n);
    let mut i: usize = 0;
    while i < n
        invariant
            arithmetic::<S>(),
            elementary.lawful(),
            i <= n,
            a == lines_view(from_lines@),
            b == lines_view(to_lines@),
            from_lines@.len() > 0,
            to_lines@.len() > 0,
            n == most(a.len(), b.len()),
            shape == lines_between(elementary, a, b, t),
            r@.len() == i,
            forall|k: int| 0 <= k < i ==> (#[trigger] r@[k])@ == shape[k],
        decreases n - i,
    {
        let from_line: &Line<S> = &from_lines[i % from_lines.len()];
        let to_line: &Line<S> = &to_lines[i % to_lines.len()];
        assert(a[i as int % a.len() as int] == from_line@);
        assert(b[i as int % b.len() as int] == to_line@);
        r.push(lerp_line(from_line, to_line, t, elementary));
        i = i + 1;
    }
    assert(lines_view(r@) =~= shape);
    encode_streamlines(&r)
}

/// What a morph shows: coordinates, panels, pressures, and where they are taken.
#[derive(Clone, Debug)]
pub struct MorphResult<S> {
    pub coordinates: Vec<S>,
    pub panels: Vec<S>,
    pub cp: Vec<S>,
    pub cp_x: Vec<S>,
}

/// Everything that a morph shows, `t` of the way.
pub fn lerp_morph_state<S: Real, E: Elementary<S>>(
    from_coords: &[S],
    to_coords: &[S],
    from_panels: &[S],
    to_panels: &[S],
    from_cp: &[S],
    to_cp: &[S],
    from_cpx: &[S],
    to_cpx: &[S],
    t: S,
    elementary: &E,
) -> (r: MorphResult<S>)
    requires
        arithmetic::<S>(),
        elementary.lawful(),
    ensures
        r.coordinates@ == points_between(elementary, from_coords@, to_coords@, t),
        r.panels@ == points_between(elementary, from_panels@, to_panels@, t),
        r.cp@ == numbers_between(elementary, from_cp@, to_cp@, t),
        r.cp_x@ == numbers_between(elementary, from_cpx@, to_cpx@, t),
{
    MorphResult {
        coordinates: lerp_points(from_coords, to_coords, t, elementary),
        panels: lerp_points(from_panels, to_panels, t, elementary),
        cp: lerp_array(from_cp, to_cp, t, elementary),
        cp_x: lerp_array(from_cpx, to_cpx, t, elementary),
    }
}

} // verus!
