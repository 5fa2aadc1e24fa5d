//! Vectors and matrices of fixed-point scalars.
//!
//! A vector is a `Vec<Fx>`; a matrix is a `Vec<Vec<Fx>>` whose rows all
//! have the same length. Every operation mirrors, entry by entry, a spec
//! function over the raw integer sequences, so callers reason about
//! exact saturating fixed-point arithmetic.

use vstd::prelude::*;

use crate::fixed::{add_raw, div_count_raw, mul_raw, sub_raw, Fx};

verus! {

/// The raw integer values of a scalar sequence.
pub open spec fn raws(s: Seq<Fx>) -> Seq<int> {
    s.map_values(|f: Fx| f.raw as int)
}

/// The raw integer rows of a matrix.
pub open spec fn mat_raws(m: Seq<Vec<Fx>>) -> Seq<Seq<int>> {
    m.map_values(|r: Vec<Fx>| raws(r@))
}

/// A raw matrix with `rows` rows, each of length `cols`.
pub open spec fn is_matrix_raw(m: Seq<Seq<int>>, rows: int, cols: int) -> bool {
    &&& m.len() == rows
    &&& forall|i: int| 0 <= i < rows ==> #[trigger] m[i].len() == cols
}

/// All-zero raw vector of length `n`.
pub open spec fn zero_raws(n: int) -> Seq<int> {
    Seq::new(n as nat, |i: int| 0int)
}

/// Pointwise saturating addition.
pub open spec fn add_vec_raw(a: Seq<int>, b: Seq<int>) -> Seq<int>
    recommends
        a.len() == b.len(),
{
    Seq::new(a.len(), |i: int| add_raw(a[i], b[i]))
}

/// Pointwise saturating subtraction.
pub open spec fn sub_vec_raw(a: Seq<int>, b: Seq<int>) -> Seq<int>
    recommends
        a.len() == b.len(),
{
    Seq::new(a.len(), |i: int| sub_raw(a[i], b[i]))
}

/// Pointwise fixed-point multiplication.
pub open spec fn comp_mul_raw(a: Seq<int>, b: Seq<int>) -> Seq<int>
    recommends
        a.len() == b.len(),
{
    Seq::new(a.len(), |i: int| mul_raw(a[i], b[i]))
}

/// Every entry multiplied by the scalar `k`.
pub open spec fn scale_raw(v: Seq<int>, k: int) -> Seq<int> {
    Seq::new(v.len(), |i: int| mul_raw(v[i], k))
}

/// Every entry divided by the count `n`, truncating toward zero.
pub open spec fn div_count_vec_raw(v: Seq<int>, n: int) -> Seq<int>
    recommends
        n > 0,
{
    Seq::new(v.len(), |i: int| div_count_raw(v[i], n))
}

/// Saturating dot product of the first `k` entries, accumulated left to
/// right exactly as the executable loop does.
pub open spec fn dot_prefix(a: Seq<int>, b: Seq<int>, k: int) -> int
    recommends
        a.len() == b.len(),
        k <= a.len(),
    decreases k,
{
    if k <= 0 {
        0
    } else {
        add_raw(dot_prefix(a, b, k - 1), mul_raw(a[k - 1], b[k - 1]))
    }
}

/// Saturating dot product of two equal-length raw vectors.
pub open spec fn dot_raw(a: Seq<int>, b: Seq<int>) -> int
    recommends
        a.len() == b.len(),
{
    dot_prefix(a, b, a.len() as int)
}

/// Matrix-vector product: row `i` of the result is `dot_raw(m[i], v)`.
pub open spec fn matvec_raw(m: Seq<Seq<int>>, v: Seq<int>) -> Seq<int> {
    Seq::new(m.len(), |i: int| dot_raw(m[i], v))
}

/// Outer product: entry `(i, j)` is `mul_raw(g[i], x[j])`.
pub open spec fn outer_raw(g: Seq<int>, x: Seq<int>) -> Seq<Seq<int>> {
    Seq::new(g.len(), |i: int| Seq::new(x.len(), |j: int| mul_raw(g[i], x[j])))
}

/// Pointwise saturating matrix addition.
pub open spec fn mat_add_raw(m: Seq<Seq<int>>, d: Seq<Seq<int>>) -> Seq<Seq<int>> {
    Seq::new(m.len(), |i: int| add_vec_raw(m[i], d[i]))
}

/// Transpose of a raw matrix with `cols` columns.
pub open spec fn transpose_raw(m: Seq<Seq<int>>, cols: int) -> Seq<Seq<int>> {
    Seq::new(cols as nat, |j: int| Seq::new(m.len(), |i: int| m[i][j]))
}

/// An exact copy of a scalar vector.
pub fn copy_vec(v: &Vec<Fx>) -> (r: Vec<Fx>)
    ensures
        r@ == v@,
{
    let mut out: Vec<Fx> = Vec::new();
    let mut i: usize = 0;
    while i < v.len()
        invariant
            i <= v@.len(),
            out@ == v@.take(i as int),
        decreases v@.len() - i,
    {
        out.push(v[i]);
        proof {
            assert(out@ =~= v@.take(i as int + 1));
        }
        i += 1;
    }
    proof {
        assert(out@ =~= v@);
    }
    out
}

/// The all-zero vector of length `n`.
pub fn zeros(n: usize) -> (r: Vec<Fx>)
    ensures
        r@.len() == n,
        raws(r@) == zero_raws(n as int),
{
    let mut out: Vec<Fx> = Vec::new();
    let mut i: usize = 0;
    while i < n
        invariant
            i <= n,
            out@.len() == i,
            forall|k: int| 0 <= k < i ==> #[trigger] out@[k].raw == 0,
        decreases n - i,
    {
        out.push(Fx::zero());
        i += 1;
    }
    proof {
        assert(raws(out@) =~= zero_raws(n as int));
    }
    out
}

/// Pointwise saturating addition of two equal-length vectors.
pub fn vec_add(a: &Vec<Fx>, b: &Vec<Fx>) -> (r: Vec<Fx>)
    requires
        a@.len() == b@.len(),
    ensures
        r@.len() == a@.len(),
        raws(r@) == add_vec_raw(raws(a@), raws(b@)),
{
    let mut out: Vec<Fx> = Vec::new();
    let mut i: usize = 0;
    while i < a.len()
        invariant
            a@.len() == b@.len(),
            i <= a@.len(),
            out@.len() == i,
            forall|k: int| 0 <= k < i ==> #[trigger] out@[k].raw as int == add_raw(
                a@[k].raw as int,
                b@[k].raw as int,
            ),
        decreases a@.len() - i,
    {
        out.push(a[i].add(b[i]));
        i += 1;
    }
    proof {
        assert(raws(out@) =~= add_vec_raw(raws(a@), raws(b@)));
    }
    out
}

/// Pointwise saturating subtraction of two equal-length vectors.
pub fn vec_sub(a: &Vec<Fx>, b: &Vec<Fx>) -> (r: Vec<Fx>)
    requires
        a@.len() == b@.len(),
    ensures
        r@.len() == a@.len(),
        raws(r@) == sub_vec_raw(raws(a@), raws(b@)),
{
    let mut out: Vec<Fx> = Vec::new();
    let mut i: usize = 0;
    while i < a.len()
        invariant
            a@.len() == b@.len(),
            i <= a@.len(),
            out@.len() == i,
            forall|k: int| 0 <= k < i ==> #[trigger] out@[k].raw as int == sub_raw(
                a@[k].raw as int,
                b@[k].raw as int,
            ),
        decreases a@.len() - i,
    {
        out.push(a[i].sub(b[i]));
        i += 1;
    }
    proof {
        assert(raws(out@) =~= sub_vec_raw(raws(a@), raws(b@)));
    }
    out
}

/// Pointwise fixed-point multiplication of two equal-length vectors.
pub fn vec_comp_mul(a: &Vec<Fx>, b: &Vec<Fx>) -> (r: Vec<Fx>)
    requires
        a@.len() == b@.len(),
    ensures
        r@.len() == a@.len(),
        raws(r@) == comp_mul_raw(raws(a@), raws(b@)),
{
    let mut out: Vec<Fx> = Vec::new();
    let mut i: usize = 0;
    while i < a.len()
        invariant
            a@.len() == b@.len(),
            i <= a@.len(),
            out@.len() == i,
            forall|k: int| 0 <= k < i ==> #[trigger] out@[k].raw as int == mul_raw(
                a@[k].raw as int,
                b@[k].raw as int,
            ),
        decreases a@.len() - i,
    {
        out.push(a[i].mul(b[i]));
        i += 1;
    }
    proof {
        assert(raws(out@) =~= comp_mul_raw(raws(a@), raws(b@)));
    }
    out
}

/// Every entry multiplied by the scalar `k`.
pub fn vec_scale(v: &Vec<Fx>, k: Fx) -> (r: Vec<Fx>)
    ensures
        r@.len() == v@.len(),
        raws(r@) == scale_raw(raws(v@), k.raw as int),
{
    let mut out: Vec<Fx> = Vec::new();
    let mut i: usize = 0;
    while i < v.len()
        invariant
            i <= v@.len(),
            out@.len() == i,
            forall|j: int| 0 <= j < i ==> #[trigger] out@[j].raw as int == mul_raw(
                v@[j].raw as int,
                k.raw as int,
            ),
        decreases v@.len() - i,
    {
        out.push(v[i].mul(k));
        i += 1;
    }
    proof {
        assert(raws(out@) =~= scale_raw(raws(v@), k.raw as int));
    }
    out
}

/// Saturating dot product, accumulated left to right.
pub fn dot(a: &Vec<Fx>, b: &Vec<Fx>) -> (r: Fx)
    requires
        a@.len() == b@.len(),
    ensures
        r.raw as int == dot_raw(raws(a@), raws(b@)),
{
    let mut acc = Fx::zero();
    let mut i: usize = 0;
    while i < a.len()
        invariant
            a@.len() == b@.len(),
            i <= a@.len(),
            acc.raw as int == dot_prefix(raws(a@), raws(b@), i as int),
        decreases a@.len() - i,
    {
        acc = acc.add(a[i].mul(b[i]));
        i += 1;
    }
    acc
}

/// Matrix-vector product.
pub fn mat_vec_mul(m: &Vec<Vec<Fx>>, v: &Vec<Fx>) -> (r: Vec<Fx>)
    requires
        forall|i: int| 0 <= i < m@.len() ==> #[trigger] m@[i]@.len() == v@.len(),
    ensures
        r@.len() == m@.len(),
        raws(r@) == matvec_raw(mat_raws(m@), raws(v@)),
{
    let mut out: Vec<Fx> = Vec::new();
    let mut i: usize = 0;
    while i < m.len()
        invariant
            forall|k: int| 0 <= k < m@.len() ==> #[trigger] m@[k]@.len() == v@.len(),
            i <= m@.len(),
            out@.len() == i,
            forall|k: int| 0 <= k < i ==> #[trigger] out@[k].raw as int == dot_raw(
                raws(m@[k]@),
                raws(v@),
            ),
        decreases m@.len() - i,
    {
        out.push(dot(&m[i], v));
        i += 1;
    }
    proof {
        assert(raws(out@) =~= matvec_raw(mat_raws(m@), raws(v@)));
    }
    out
}

/// Outer product of a column vector and a row vector.
pub fn outer(g: &Vec<Fx>, x: &Vec<Fx>) -> (r: Vec<Vec<Fx>>)
    ensures
        r@.len() == g@.len(),
        forall|i: int| 0 <= i < r@.len() ==> #[trigger] r@[i]@.len() == x@.len(),
        mat_raws(r@) == outer_raw(raws(g@), raws(x@)),
{
    let mut out: Vec<Vec<Fx>> = Vec::new();
    let mut i: usize = 0;
    while i < g.len()
        invariant
            i <= g@.len(),
            out@.len() == i,
            forall|k: int| 0 <= k < i ==> #[trigger] raws(out@[k]@) == outer_raw(
                raws(g@),
                raws(x@),
            )[k],
            forall|k: int| 0 <= k < i ==> #[trigger] out@[k]@.len() == x@.len(),
        decreases g@.len() - i,
    {
        let row = vec_scale(x, g[i]);
        proof {
            assert(raws(row@) =~= outer_raw(raws(g@), raws(x@))[i as int]);
        }
        out.push(row);
        i += 1;
    }
    proof {
        assert(mat_raws(out@) =~= outer_raw(raws(g@), raws(x@)));
    }
    out
}

/// Pointwise saturating addition of two matrices of the same shape.
pub fn mat_add(m: &Vec<Vec<Fx>>, d: &Vec<Vec<Fx>>) -> (r: Vec<Vec<Fx>>)
    requires
        m@.len() == d@.len(),
        forall|i: int| 0 <= i < m@.len() ==> #[trigger] m@[i]@.len() == d@[i]@.len(),
    ensures
        r@.len() == m@.len(),
        forall|i: int| 0 <= i < r@.len() ==> #[trigger] r@[i]@.len() == m@[i]@.len(),
        mat_raws(r@) == mat_add_raw(mat_raws(m@), mat_raws(d@)),
{
    let mut out: Vec<Vec<Fx>> = Vec::new();
    let mut i: usize = 0;
    while i < m.len()
        invariant
            m@.len() == d@.len(),
            forall|k: int| 0 <= k < m@.len() ==> #[trigger] m@[k]@.len() == d@[k]@.len(),
            i <= m@.len(),
            out@.len() == i,
            forall|k: int| 0 <= k < i ==> #[trigger] raws(out@[k]@) == mat_add_raw(
                mat_raws(m@),
                mat_raws(d@),
            )[k],
            forall|k: int| 0 <= k < i ==> #[trigger] out@[k]@.len() == m@[k]@.len(),
        decreases m@.len() - i,
    {
        let row = vec_add(&m[i], &d[i]);
        proof {
            assert(raws(row@) =~= mat_add_raw(mat_raws(m@), mat_raws(d@))[i as int]);
        }
        out.push(row);
        i += 1;
    }
    proof {
        assert(mat_raws(out@) =~= mat_add_raw(mat_raws(m@), mat_raws(d@)));
    }
    out
}

/// Transpose of a rectangular matrix with at least one row.
pub fn transpose(m: &Vec<Vec<Fx>>) -> (r: Vec<Vec<Fx>>)
    requires
        m@.len() >= 1,
        forall|i: int| 0 <= i < m@.len() ==> #[trigger] m@[i]@.len() == m@[0]@.len(),
    ensures
        r@.len() == m@[0]@.len(),
        forall|j: int| 0 <= j < r@.len() ==> #[trigger] r@[j]@.len() == m@.len(),
        mat_raws(r@) == transpose_raw(mat_raws(m@), m@[0]@.len() as int),
{
    let cols = m[0].len();
    let rows = m.len();
    let mut out: Vec<Vec<Fx>> = Vec::new();
    let mut j: usize = 0;
    while j < cols
        invariant
            m@.len() == rows,
            rows >= 1,
            cols == m@[0]@.len(),
            forall|i: int| 0 <= i < m@.len() ==> #[trigger] m@[i]@.len() == cols,
            j <= cols,
            out@.len() == j,
            forall|k: int| 0 <= k < j ==> #[trigger] raws(out@[k]@) == transpose_raw(
                mat_raws(m@),
                cols as int,
            )[k],
            forall|k: int| 0 <= k < j ==> #[trigger] out@[k]@.len() == rows,
        decreases cols - j,
    {
        let mut row: Vec<Fx> = Vec::new();
        let mut i: usize = 0;
        while i < rows
            invariant
                m@.len() == rows,
                cols == m@[0]@.len(),
                forall|k: int| 0 <= k < m@.len() ==> #[trigger] m@[k]@.len() == cols,
                j < cols,
                i <= rows,
                row@.len() == i,
                forall|k: int| 0 <= k < i ==> #[trigger] row@[k] == m@[k]@[j as int],
            decreases rows - i,
        {
            row.push(m[i][j]);
            i += 1;
        }
        proof {
            assert(raws(row@) =~= transpose_raw(mat_raws(m@), cols as int)[j as int]);
        }
        out.push(row);
        j += 1;
    }
    proof {
        assert(mat_raws(out@) =~= transpose_raw(mat_raws(m@), cols as int));
    }
    out
}

} // verus!
