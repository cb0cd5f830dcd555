//! Orders over a window of the (image, command) grid, used to choose which
//! combination is processed next.

use vstd::prelude::*;
use vstd::seq_lib::{lemma_no_dup_in_concat, lemma_seq_concat_contains_all_elements, to_multiset_contains};

verus! {

/// The distance between two integers.
pub open spec fn distance(a: int, b: int) -> int {
    if a > b {
        a - b
    } else {
        b - a
    }
}

/// Returns the distance between unsigned integers a and b.
fn u_distance(a: usize, b: usize) -> (r: usize)
    ensures
        r == distance(a as int, b as int),
{
    if a > b {
        a - b
    } else {
        b - a
    }
}

/// A window `[i_min, i_max] x [j_min, j_max]` that holds the focus `(i, j)`,
/// small enough that its bounds and its distances fit in `usize`.
pub open spec fn window_ok(i: int, i_min: int, i_max: int, j: int, j_min: int, j_max: int) -> bool {
    &&& 0 <= i_min <= i <= i_max < usize::MAX
    &&& 0 <= j_min <= j <= j_max < usize::MAX
    &&& (i_max - i_min) + (j_max - j_min) <= usize::MAX
}

/// Whether `c` is a cell `(row, col, distance)` of the window, with its
/// Manhattan distance to the focus `(i, j)`.
pub open spec fn in_window(
    c: (usize, usize, usize),
    i: int,
    i_min: int,
    i_max: int,
    j: int,
    j_min: int,
    j_max: int,
) -> bool {
    &&& i_min <= c.0 <= i_max
    &&& j_min <= c.1 <= j_max
    &&& c.2 == distance(c.0 as int, i) + distance(c.1 as int, j)
}

/// Row `k` of the window, column after column, each cell with its distance
/// to `(i, j)`.
pub open spec fn window_row(k: int, j_min: int, j_max: int, i: int, j: int) -> Seq<(usize, usize, usize)> {
    Seq::new(
        (j_max + 1 - j_min) as nat,
        |t: int| (k as usize, (j_min + t) as usize, (distance(k, i) + distance(j_min + t, j)) as usize),
    )
}

/// Rows `i_min` up to, but not including, `k_end` of the window.
pub open spec fn window_rows(i_min: int, k_end: int, j_min: int, j_max: int, i: int, j: int) -> Seq<
    (usize, usize, usize),
>
    decreases k_end - i_min,
{
    if k_end <= i_min {
        seq![]
    } else {
        window_rows(i_min, k_end - 1, j_min, j_max, i, j) + window_row(k_end - 1, j_min, j_max, i, j)
    }
}

/// The whole window, row after row.
pub open spec fn window(i: int, i_min: int, i_max: int, j: int, j_min: int, j_max: int) -> Seq<
    (usize, usize, usize),
> {
    window_rows(i_min, i_max + 1, j_min, j_max, i, j)
}

proof fn lemma_window_rows(i_min: int, k_end: int, i: int, i_max: int, j: int, j_min: int, j_max: int)
    requires
        window_ok(i, i_min, i_max, j, j_min, j_max),
        i_min <= k_end <= i_max + 1,
    ensures
        window_rows(i_min, k_end, j_min, j_max, i, j).no_duplicates(),
        forall|c: (usize, usize, usize)|
            #[trigger] window_rows(i_min, k_end, j_min, j_max, i, j).contains(c) <==> (in_window(
                c,
                i,
                i_min,
                i_max,
                j,
                j_min,
                j_max,
            ) && c.0 < k_end),
    decreases k_end - i_min,
{
    if k_end > i_min {
        let k = k_end - 1;
        lemma_window_rows(i_min, k, i, i_max, j, j_min, j_max);
        let a = window_rows(i_min, k, j_min, j_max, i, j);
        let b = window_row(k, j_min, j_max, i, j);
        assert forall|c: (usize, usize, usize)| #[trigger] b.contains(c) <==> (in_window(
            c,
            i,
            i_min,
            i_max,
            j,
            j_min,
            j_max,
        ) && c.0 == k) by {
            if in_window(c, i, i_min, i_max, j, j_min, j_max) && c.0 == k {
                assert(b[c.1 - j_min] == c);
            }
        }
        assert forall|x: int, y: int| 0 <= x < a.len() && 0 <= y < b.len() implies a[x] != b[y] by {
            assert(a.contains(a[x]));
        }
        lemma_no_dup_in_concat(a, b);
        assert forall|c: (usize, usize, usize)| #[trigger]
            window_rows(i_min, k_end, j_min, j_max, i, j).contains(c) <==> (in_window(
                c,
                i,
                i_min,
                i_max,
                j,
                j_min,
                j_max,
            ) && c.0 < k_end) by {
            lemma_seq_concat_contains_all_elements(a, b, c);
        }
    }
}

/// Each cell of the window occurs exactly once in `window`, and nothing
/// else occurs there.
pub proof fn lemma_window_exactly_once(
    i: int,
    i_min: int,
    i_max: int,
    j: int,
    j_min: int,
    j_max: int,
    c: (usize, usize, usize),
)
    requires
        window_ok(i, i_min, i_max, j, j_min, j_max),
    ensures
        window(i, i_min, i_max, j, j_min, j_max).to_multiset().count(c) == if in_window(
            c,
            i,
            i_min,
            i_max,
            j,
            j_min,
            j_max,
        ) {
            1nat
        } else {
            0nat
        },
{
    let w = window(i, i_min, i_max, j, j_min, j_max);
    lemma_window_rows(i_min, i_max + 1, i, i_max, j, j_min, j_max);
    w.lemma_multiset_has_no_duplicates();
    to_multiset_contains(w, c);
}

/// Relies on `slice::sort_unstable_by_key`: the elements are reordered so
/// that their third components ascend.
#[verifier::external_body]
fn sort_by_distance(v: &mut Vec<(usize, usize, usize)>)
    ensures
        final(v)@.to_multiset() == old(v)@.to_multiset(),
        forall|a: int, b: int| 0 <= a < b < final(v)@.len() ==> final(v)@[a].2 <= final(v)@[b].2,
{
    v.sort_unstable_by_key(|e| e.2);
}

/// The cells of a window of the grid, closest to a focus cell first.
///
/// Given `i, i_min, i_max, j, j_min, j_max`, yields every `(row, col)` of the
/// window `[i_min, i_max] x [j_min, j_max]` once, by ascending Manhattan
/// distance to `(i, j)`. The order among cells at the same distance is left
/// to the sort and is not part of the contract.
#[derive(Debug)]
pub struct Closest2D {
    elements: Vec<(usize, usize, usize)>,
    pos: usize,
}

impl View for Closest2D {
    /// The cells still to come, each with its distance.
    type V = Seq<(usize, usize, usize)>;

    closed spec fn view(&self) -> Seq<(usize, usize, usize)> {
        self.elements@.subrange(self.pos as int, self.elements@.len() as int)
    }
}

impl Closest2D {
    #[verifier::type_invariant]
    spec fn inv(self) -> bool {
        self.pos <= self.elements@.len()
    }

    pub fn new(i: usize, i_min: usize, i_max: usize, j: usize, j_min: usize, j_max: usize) -> (r:
        Closest2D)
        requires
            window_ok(i as int, i_min as int, i_max as int, j as int, j_min as int, j_max as int),
        ensures
            r@.to_multiset() == window(
                i as int,
                i_min as int,
                i_max as int,
                j as int,
                j_min as int,
                j_max as int,
            ).to_multiset(),
            forall|a: int, b: int| 0 <= a < b < r@.len() ==> r@[a].2 <= r@[b].2,
    {
        let ghost (ii, imin, imax, jj, jmin, jmax) = (
            i as int,
            i_min as int,
            i_max as int,
            j as int,
            j_min as int,
            j_max as int,
        );
        let mut elements: Vec<(usize, usize, usize)> = Vec::new();
        let mut k = i_min;
        while k <= i_max
            invariant
                window_ok(ii, imin, imax, jj, jmin, jmax),
                ii == i && imin == i_min && imax == i_max && jj == j && jmin == j_min && jmax
                    == j_max,
                i_min <= k <= i_max + 1,
                elements@ == window_rows(imin, k as int, jmin, jmax, ii, jj),
            decreases i_max + 1 - k,
        {
            let mut l = j_min;
            while l <= j_max
                invariant
                    window_ok(ii, imin, imax, jj, jmin, jmax),
                    ii == i && imin == i_min && imax == i_max && jj == j && jmin == j_min && jmax
                        == j_max,
                    i_min <= k <= i_max,
                    j_min <= l <= j_max + 1,
                    elements@ == window_rows(imin, k as int, jmin, jmax, ii, jj) + window_row(
                        k as int,
                        jmin,
                        jmax,
                        ii,
                        jj,
                    ).take(l - j_min),
                decreases j_max + 1 - l,
            {
                let d = u_distance(i, k) + u_distance(j, l);
                let ghost before = elements@;
                elements.push((k, l, d));
                assert(window_row(k as int, jmin, jmax, ii, jj).take(l + 1 - j_min) =~= window_row(
                    k as int,
                    jmin,
                    jmax,
                    ii,
                    jj,
                ).take(l - j_min).push((k, l, d)));
                assert(elements@ =~= window_rows(imin, k as int, jmin, jmax, ii, jj) + window_row(
                    k as int,
                    jmin,
                    jmax,
                    ii,
                    jj,
                ).take(l + 1 - j_min));
                l = l + 1;
            }
            assert(window_row(k as int, jmin, jmax, ii, jj).take(l - j_min) =~= window_row(
                k as int,
                jmin,
                jmax,
                ii,
                jj,
            ));
            k = k + 1;
        }
        sort_by_distance(&mut elements);
        let r = Closest2D { elements, pos: 0 };
        assert(r@ =~= r.elements@);
        r
    }

    /// Whether every cell was given.
    pub fn is_empty(&self) -> (r: bool)
        ensures
            r == (self@.len() == 0),
    {
        proof {
            use_type_invariant(self);
        }
        self.pos >= self.elements.len()
    }

    /// The next closest cell, or `None` once every cell was given.
    pub fn next(&mut self) -> (r: Option<(usize, usize)>)
        ensures
            old(self)@.len() == 0 ==> r is None && final(self)@ == old(self)@,
            old(self)@.len() > 0 ==> r == Some((old(self)@[0].0, old(self)@[0].1)) && final(self)@
                == old(self)@.drop_first(),
    {
        proof {
            use_type_invariant(&*self);
        }
        if self.pos < self.elements.len() {
            let e = self.elements[self.pos];
            self.pos = self.pos + 1;
            assert(self@ =~= old(self)@.drop_first());
            Some((e.0, e.1))
        } else {
            None
        }
    }
}

/// `x` brought back into `[0, n)`, for `x` in `[0, 2n)`.
pub open spec fn wrap(x: int, n: int) -> int {
    if x < n {
        x
    } else {
        x - n
    }
}

/// The cell at flat index `t` of a window whose rows are `j_len` long.
pub open spec fn flat_cell(i_min: int, j_min: int, j_len: int, t: int) -> (usize, usize) {
    ((i_min + t / j_len) as usize, (j_min + t % j_len) as usize)
}

/// Every cell of the window, row after row, starting at `(i, j)` and going
/// round to the cells before it.
pub open spec fn row_first_order(i: int, i_min: int, i_max: int, j: int, j_min: int, j_max: int) -> Seq<
    (usize, usize),
> {
    let j_len = j_max + 1 - j_min;
    let n = (i_max + 1 - i_min) * j_len;
    let start = (i - i_min) * j_len + (j - j_min);
    Seq::new(n as nat, |t: int| flat_cell(i_min, j_min, j_len, wrap(start + t, n)))
}

/// The cells of a window of the grid, row by row.
///
/// Given `i, i_min, i_max, j, j_min, j_max`, yields every `(row, col)` of the
/// window `[i_min, i_max] x [j_min, j_max]` once, starting at `(i, j)`, going
/// through each row before the next (the columns vary first), and wrapping
/// round from the last cell to the first.
pub struct VFirst2D {
    i_min: usize,
    j_min: usize,
    j_len: usize,
    flat: usize,
    flat_len: usize,
    flat_start: usize,
    init: bool,
    i_len: Ghost<int>,
}

impl View for VFirst2D {
    /// The cells still to come.
    type V = Seq<(usize, usize)>;

    closed spec fn view(&self) -> Seq<(usize, usize)> {
        Seq::new(
            self.remaining(),
            |t: int|
                flat_cell(
                    self.i_min as int,
                    self.j_min as int,
                    self.j_len as int,
                    wrap(self.flat + t, self.flat_len as int),
                ),
        )
    }
}

impl VFirst2D {
    #[verifier::type_invariant]
    spec fn inv(self) -> bool {
        &&& self.j_len > 0
        &&& self.i_len@ > 0
        &&& self.flat_len == self.i_len@ * self.j_len
        &&& self.i_min + self.i_len@ <= usize::MAX + 1
        &&& self.j_min + self.j_len <= usize::MAX + 1
        &&& self.flat < self.flat_len
        &&& self.flat_start < self.flat_len
        &&& self.init ==> self.flat == self.flat_start
    }

    /// How many cells are still to come.
    closed spec fn remaining(self) -> nat {
        if self.init {
            self.flat_len as nat
        } else if self.flat_start >= self.flat {
            (self.flat_start - self.flat) as nat
        } else {
            (self.flat_start + self.flat_len - self.flat) as nat
        }
    }

    pub fn new(i: usize, i_min: usize, i_max: usize, j: usize, j_min: usize, j_max: usize) -> (r:
        VFirst2D)
        requires
            i_min <= i <= i_max < usize::MAX,
            j_min <= j <= j_max < usize::MAX,
            (i_max + 1 - i_min) * (j_max + 1 - j_min) <= usize::MAX,
        ensures
            r@ == row_first_order(
                i as int,
                i_min as int,
                i_max as int,
                j as int,
                j_min as int,
                j_max as int,
            ),
    {
        let i_len = i_max + 1 - i_min;
        let j_len = j_max + 1 - j_min;
        let flat_len = i_len * j_len;
        assert((i - i_min) * j_len + (j - j_min) < i_len * j_len) by (nonlinear_arith)
            requires
                i - i_min < i_len,
                j - j_min < j_len,
        ;
        let flat = (i - i_min) * j_len + (j - j_min);
        let r = Self {
            i_min,
            j_min,
            j_len,
            flat,
            flat_len,
            flat_start: flat,
            init: true,
            i_len: Ghost(i_len as int),
        };
        assert(r@ =~= row_first_order(
            i as int,
            i_min as int,
            i_max as int,
            j as int,
            j_min as int,
            j_max as int,
        ));
        r
    }

    fn index(&self) -> (r: (usize, usize))
        ensures
            r == flat_cell(self.i_min as int, self.j_min as int, self.j_len as int, self.flat as int),
    {
        proof {
            use_type_invariant(self);
        }
        let ghost i_len = self.i_len@;
        let i = self.flat / self.j_len;
        assert(i < i_len) by (nonlinear_arith)
            requires
                i == self.flat / self.j_len,
                self.flat < i_len * self.j_len,
                self.j_len > 0,
        ;
        assert(self.flat - i * self.j_len == self.flat % self.j_len) by (nonlinear_arith)
            requires
                i == self.flat / self.j_len,
                self.j_len > 0,
        ;
        assert(self.flat % self.j_len < self.j_len) by (nonlinear_arith)
            requires
                self.j_len > 0,
        ;
        let j = self.flat - i * self.j_len;
        (i + self.i_min, j + self.j_min)
    }

    fn increment_wrap(&mut self)
        requires
            !old(self).init,
        ensures
            final(self).flat == wrap(old(self).flat + 1, old(self).flat_len as int),
            final(self).i_min == old(self).i_min && final(self).j_min == old(self).j_min
                && final(self).j_len == old(self).j_len && final(self).flat_len
                == old(self).flat_len && final(self).flat_start == old(self).flat_start
                && final(self).init == old(self).init && final(self).i_len == old(self).i_len,
    {
        proof {
            use_type_invariant(&*self);
        }
        let next = self.flat + 1;
        if next >= self.flat_len {
            self.flat = 0;
        } else {
            self.flat = next;
        }
    }

    /// The next cell, or `None` once every cell was given.
    pub fn next(&mut self) -> (r: Option<(usize, usize)>)
        ensures
            old(self)@.len() == 0 ==> r is None && final(self)@ == old(self)@,
            old(self)@.len() > 0 ==> r == Some(old(self)@[0]) && final(self)@
                == old(self)@.drop_first(),
    {
        proof {
            use_type_invariant(&*self);
        }
        if self.flat != self.flat_start || self.init {
            let res = self.index();
            let ghost before = *self;
            self.init = false;
            self.increment_wrap();
            proof {
                use_type_invariant(&*self);
            }
            assert(self.remaining() == before.remaining() - 1);
            assert(self@ =~= before@.drop_first());
            Some(res)
        } else {
            None
        }
    }
}

} // verus!
