//! Files of coordinates: one point on a line, as two numbers.
//!
//! A file names the airfoil first. In the format of Selig its points follow, in one list
//! around the outline. In that of Lednicer the numbers of points of the two surfaces stand
//! on a line of their own, above the points of each surface.
use crate::callable::{list_function, list_value};
use crate::elementary::Elementary;
use crate::number::{arithmetic, count, same, whole, Formula, Real};
use vstd::prelude::*;

verus! {

/// Whether a character is white space.
pub open spec fn blank(c: char) -> bool {
    ||| '\u{9}' <= c <= '\u{d}'
    ||| c == ' '
    ||| c == '\u{85}'
    ||| c == '\u{a0}'
    ||| c == '\u{1680}'
    ||| '\u{2000}' <= c <= '\u{200a}'
    ||| c == '\u{2028}'
    ||| c == '\u{2029}'
    ||| c == '\u{202f}'
    ||| c == '\u{205f}'
    ||| c == '\u{3000}'
}

/// Whether a character is white space.
fn is_blank(c: char) -> (r: bool)
    ensures
        r == blank(c),
{
    ('\u{9}' <= c && c <= '\u{d}') || c == ' ' || c == '\u{85}' || c == '\u{a0}' || c == '\u{1680}'
        || ('\u{2000}' <= c && c <= '\u{200a}') || c == '\u{2028}' || c == '\u{2029}' || c
        == '\u{202f}' || c == '\u{205f}' || c == '\u{3000}'
}

/// The pieces of the first `n` characters between those that separate.
pub open spec fn pieces(s: Seq<char>, separates: spec_fn(char) -> bool, n: nat) -> Seq<Seq<char>>
    decreases n,
{
    if n == 0 {
        seq![Seq::empty()]
    } else {
        let before = pieces(s, separates, (n - 1) as nat);
        if separates(s[n - 1]) {
            before.push(Seq::empty())
        } else {
            before.drop_last().push(before.last().push(s[n - 1]))
        }
    }
}

/// Those of the first `n` pieces that are not empty.
pub open spec fn filled_pieces(p: Seq<Seq<char>>, n: nat) -> Seq<Seq<char>>
    decreases n,
{
    if n == 0 {
        Seq::empty()
    } else {
        let before = filled_pieces(p, (n - 1) as nat);
        if p[n - 1].len() > 0 {
            before.push(p[n - 1])
        } else {
            before
        }
    }
}

/// The lines of a text.
pub open spec fn lines(text: Seq<char>) -> Seq<Seq<char>> {
    pieces(text, |c: char| c == '\n', text.len())
}

/// The words of a line: what stands between white space.
pub open spec fn words(line: Seq<char>) -> Seq<Seq<char>> {
    let p = pieces(line, |c: char| blank(c), line.len());
    filled_pieces(p, p.len())
}

/// The point on a line, where its first two words are numbers.
pub open spec fn point_on<S, F: Fn(&Vec<char>, ()) -> Option<S>>(
    parse: F,
    line: Seq<char>,
) -> Option<(S, S)> {
    let w = words(line);
    if w.len() < 2 {
        None
    } else {
        match (list_value(parse, w[0], ()), list_value(parse, w[1], ())) {
            (Some(x), Some(y)) => Some((x, y)),
            _ => None,
        }
    }
}

/// The points on the first `n` lines, in order.
pub open spec fn points_on<S, F: Fn(&Vec<char>, ()) -> Option<S>>(
    parse: F,
    l: Seq<Seq<char>>,
    n: nat,
) -> Seq<(S, S)>
    decreases n,
{
    if n == 0 {
        Seq::empty()
    } else {
        let before = points_on(parse, l, (n - 1) as nat);
        match point_on(parse, l[n - 1]) {
            Some(p) => before.push(p),
            None => before,
        }
    }
}

/// Whether a number can be a number of points: a whole number above one.
pub open spec fn counts_points<S: Real, E: Elementary<S>>(elementary: &E, x: S) -> bool {
    x > whole::<S>(1) && same(count::<S>(elementary.integer_part(x)), x)
}

/// Whether the first pair of numbers of a file is the numbers of points of its two surfaces:
/// as many points follow as it says.
pub open spec fn has_counts<S: Real, E: Elementary<S>, F: Fn(&Vec<char>, ()) -> Option<S>>(
    elementary: &E,
    parse: F,
    l: Seq<Seq<char>>,
) -> bool {
    let all = points_on(parse, l, l.len());
    &&& all.len() > 0
    &&& counts_points(elementary, all[0].0)
    &&& counts_points(elementary, all[0].1)
    &&& same(all[0].0 + all[0].1, count::<S>((all.len() - 1) as usize))
}

/// The points of a file, without the numbers of points that may stand above them.
pub open spec fn file_points<S: Real, E: Elementary<S>, F: Fn(&Vec<char>, ()) -> Option<S>>(
    elementary: &E,
    parse: F,
    l: Seq<Seq<char>>,
) -> Seq<(S, S)> {
    let all = points_on(parse, l, l.len());
    if has_counts(elementary, parse, l) {
        all.subrange(1, all.len() as int)
    } else {
        all
    }
}

/// The characters of the pieces.
pub open spec fn texts(v: Seq<Vec<char>>) -> Seq<Seq<char>> {
    Seq::new(v.len(), |i: int| v[i]@)
}

/// The pieces of a text between the characters that separate.
fn split<F: Fn(char) -> bool>(
    s: &[char],
    separates: &F,
    Ghost(is): Ghost<spec_fn(char) -> bool>,
) -> (r: Vec<Vec<char>>)
    requires
        forall|c: char| #[trigger] call_requires(*separates, (c,)),
        forall|c: char, b: bool| #[trigger] call_ensures(*separates, (c,), b) ==> b == is(c),
    ensures
        texts(r@) == pieces(s@, is, s@.len()),
{
    let mut r: Vec<Vec<char>> = Vec::new();
    let mut piece: Vec<char> = Vec::new();
    let mut i: usize = 0;
    assert(texts(r@).push(piece@) =~= pieces(s@, is, 0));
    while i < s.len()
        invariant
            forall|c: char| #[trigger] call_requires(*separates, (c,)),
            forall|c: char, b: bool| #[trigger] call_ensures(*separates, (c,), b) ==> b == is(c),
            i <= s@.len(),
            texts(r@).push(piece@) == pieces(s@, is, i as nat),
        decreases s@.len() - i,
    {
        let c: char = s[i];
        let ghost before = texts(r@);
        let ghost so_far = piece@;
        assert(before.push(so_far).drop_last() =~= before);
        if separates(c) {
            r.push(piece);
            piece = Vec::new();
            assert(texts(r@) =~= before.push(so_far));
            assert(texts(r@).push(piece@) =~= before.push(so_far).push(Seq::empty()));
        } else {
            piece.push(c);
        }
        i = i + 1;
    }
    let ghost before = texts(r@);
    r.push(piece);
    assert(texts(r@) =~= before.push(piece@));
    r
}

/// The words of a line.
fn split_words(line: &[char]) -> (r: Vec<Vec<char>>)
    ensures
        texts(r@) == words(line@),
{
    let all: Vec<Vec<char>> = split(
        line,
        &is_blank,
        Ghost(|c: char| blank(c)),
    );
    let ghost p = texts(all@);
    let mut r: Vec<Vec<char>> = Vec::new();
    let mut i: usize = 0;
    assert(texts(r@) =~= filled_pieces(p, 0));
    while i < all.len()
        invariant
            i <= all@.len(),
            p == texts(all@),
            texts(r@) == filled_pieces(p, i as nat),
        decreases all@.len() - i,
    {
        let ghost before = texts(r@);
        if all[i].len() > 0 {
            let word: Vec<char> = crate::station::copied(&all[i]);
            r.push(word);
            assert(texts(r@) =~= before.push(word@));
        }
        i = i + 1;
    }
    r
}

/// Whether a number can be a number of points.
fn is_count<S: Real, E: Elementary<S>>(elementary: &E, x: S) -> (r: bool)
    requires
        arithmetic::<S>(),
        elementary.lawful(),
    ensures
        r == counts_points(elementary, x),
{
    x > whole(1) && same(count(elementary.truncated(x)), x)
}

/// The points of a file: of every line whose first two words are numbers, those two. Other
/// lines are passed over, and so is a line with the numbers of points of the two surfaces.
/// `parse` reads a number.
pub fn parse_dat<S: Real, E: Elementary<S>, F: Fn(&Vec<char>, ()) -> Option<S>>(
    text: &[char],
    parse: &F,
    elementary: &E,
) -> (r: Vec<(S, S)>)
    requires
        arithmetic::<S>(),
        list_function(*parse),
        elementary.lawful(),
    ensures
        r@ == file_points(elementary, *parse, lines(text@)),
{
    let newline = |c: char| -> (b: bool)
        ensures
            b == (c == '\n'),
        {
            c == '\n'
        };
    let all: Vec<Vec<char>> = split(text, &newline, Ghost(|c: char| c == '\n'));
    let ghost l = lines(text@);
    let mut r: Vec<(S, S)> = Vec::new();
    let mut i: usize = 0;
    while i < all.len()
        invariant
            arithmetic::<S>(),
            list_function(*parse),
            i <= all@.len(),
            texts(all@) == l,
            r@ == points_on(*parse, l, i as nat),
            r@.len() <= i,
        decreases all@.len() - i,
    {
        let w: Vec<Vec<char>> = split_words(&all[i]);
        assert(texts(all@)[i as int] == all@[i as int]@);
        if w.len() >= 2 {
            assert(texts(w@)[0] == w@[0]@ && texts(w@)[1] == w@[1]@);
            match (parse(&w[0], ()), parse(&w[1], ())) {
                (Some(x), Some(y)) => {
                    r.push((x, y));
                },
                _ => {},
            }
        }
        i = i + 1;
    }
    if r.len() == 0 {
        return r;
    }
    let (x, y): (S, S) = r[0];
    if !(is_count(elementary, x) && is_count(elementary, y)) {
        return r;
    }
    if same(x + y, count(r.len() - 1)) {
        let mut points: Vec<(S, S)> = Vec::with_capacity(r.len() - 1);
        let mut k: usize = 1;
        while k < r.len()
            invariant
                1 <= k <= r@.len(),
                points@ == r@.subrange(1, k as int),
            decreases r@.len() - k,
        {
            points.push(r[k]);
            k = k + 1;
            assert(points@ =~= r@.subrange(1, k as int));
        }
        points
    } else {
        r
    }
}

} // verus!
