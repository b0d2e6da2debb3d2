//! Vectors and matrices of fixed-point scalars.
//!
//! A vector is a `Vec<i64>`; a matrix is a `Vec<Vec<i64>>` whose rows
//! all have the same length. Every operation is elementwise saturating
//! fixed-point arithmetic, specified exactly over sequences.

use vstd::prelude::*;

use crate::fixed::{
    fx_add, fx_add_s, fx_div_int, fx_div_int_s, fx_mul, fx_mul_s, fx_sub, fx_sub_s,
};

verus! {

/// The mathematical view of a matrix: the sequence of its row
/// sequences.
pub open spec fn mat_view(m: Vec<Vec<i64>>) -> Seq<Seq<i64>> {
    m@.map_values(|r: Vec<i64>| r@)
}

/// A sequence of rows forms a `rows` by `cols` matrix.
pub open spec fn is_matrix(m: Seq<Seq<i64>>, rows: nat, cols: nat) -> bool {
    m.len() == rows && forall|j: int| 0 <= j < rows ==> (#[trigger] m[j]).len() == cols
}

/// Elementwise saturating sum of two equally long vectors.
pub open spec fn vec_add_s(a: Seq<i64>, b: Seq<i64>) -> Seq<i64> {
    Seq::new(a.len(), |i: int| fx_add_s(a[i], b[i]))
}

/// Elementwise saturating difference of two equally long vectors.
pub open spec fn vec_sub_s(a: Seq<i64>, b: Seq<i64>) -> Seq<i64> {
    Seq::new(a.len(), |i: int| fx_sub_s(a[i], b[i]))
}

/// Elementwise (Hadamard) saturating product of two equally long
/// vectors.
pub open spec fn vec_hadamard_s(a: Seq<i64>, b: Seq<i64>) -> Seq<i64> {
    Seq::new(a.len(), |i: int| fx_mul_s(a[i], b[i]))
}

/// A vector scaled by a fixed-point factor.
pub open spec fn vec_scale_s(a: Seq<i64>, c: i64) -> Seq<i64> {
    Seq::new(a.len(), |i: int| fx_mul_s(c, a[i]))
}

/// A vector divided elementwise by a positive integer count.
pub open spec fn vec_div_int_s(a: Seq<i64>, n: i64) -> Seq<i64> {
    Seq::new(a.len(), |i: int| fx_div_int_s(a[i], n))
}

/// Saturating dot product of the first `n` entries.
pub open spec fn dot_prefix_s(a: Seq<i64>, b: Seq<i64>, n: nat) -> i64
    decreases n,
{
    if n == 0 {
        0
    } else {
        fx_add_s(
            dot_prefix_s(a, b, (n - 1) as nat),
            fx_mul_s(a[n - 1], b[n - 1]),
        )
    }
}

/// Saturating dot product of two equally long vectors, accumulated
/// left to right.
pub open spec fn dot_s(a: Seq<i64>, b: Seq<i64>) -> i64 {
    dot_prefix_s(a, b, a.len())
}

/// Matrix-vector product: row dot products.
pub open spec fn matvec_s(w: Seq<Seq<i64>>, x: Seq<i64>) -> Seq<i64> {
    Seq::new(w.len(), |j: int| dot_s(w[j], x))
}

/// Column `k` of a matrix.
pub open spec fn col_s(w: Seq<Seq<i64>>, k: int) -> Seq<i64> {
    Seq::new(w.len(), |j: int| w[j][k])
}

/// Vector-matrix product: the dot product of `u` with each of the
/// `cols` columns of `w`.
pub open spec fn vecmat_s(u: Seq<i64>, w: Seq<Seq<i64>>, cols: nat) -> Seq<i64> {
    Seq::new(cols, |k: int| dot_s(u, col_s(w, k)))
}

/// Outer product: entry `(j, k)` is `u[j] * v[k]`.
pub open spec fn outer_s(u: Seq<i64>, v: Seq<i64>) -> Seq<Seq<i64>> {
    Seq::new(u.len(), |j: int| vec_scale_s(v, u[j]))
}

/// Rowwise saturating sum of two equally shaped matrices.
pub open spec fn mat_add_s(a: Seq<Seq<i64>>, b: Seq<Seq<i64>>) -> Seq<Seq<i64>> {
    Seq::new(a.len(), |j: int| vec_add_s(a[j], b[j]))
}

/// Rowwise saturating difference of two equally shaped matrices.
pub open spec fn mat_sub_s(a: Seq<Seq<i64>>, b: Seq<Seq<i64>>) -> Seq<Seq<i64>> {
    Seq::new(a.len(), |j: int| vec_sub_s(a[j], b[j]))
}

/// A matrix scaled by a fixed-point factor.
pub open spec fn mat_scale_s(a: Seq<Seq<i64>>, c: i64) -> Seq<Seq<i64>> {
    Seq::new(a.len(), |j: int| vec_scale_s(a[j], c))
}

/// A matrix divided elementwise by a positive integer count.
pub open spec fn mat_div_int_s(a: Seq<Seq<i64>>, n: i64) -> Seq<Seq<i64>> {
    Seq::new(a.len(), |j: int| vec_div_int_s(a[j], n))
}

/// Largest of the first `n` entries.
pub open spec fn max_prefix_s(a: Seq<i64>, n: nat) -> i64
    decreases n,
{
    if n <= 1 {
        a[0]
    } else if a[n - 1] > max_prefix_s(a, (n - 1) as nat) {
        a[n - 1]
    } else {
        max_prefix_s(a, (n - 1) as nat)
    }
}

/// Largest entry of a non-empty vector.
pub open spec fn vec_max_s(a: Seq<i64>) -> i64 {
    max_prefix_s(a, a.len())
}

/// Saturating sum of the first `n` entries.
pub open spec fn sum_prefix_s(a: Seq<i64>, n: nat) -> i64
    decreases n,
{
    if n == 0 {
        0
    } else {
        fx_add_s(sum_prefix_s(a, (n - 1) as nat), a[n - 1])
    }
}

/// Saturating sum of a vector, accumulated left to right.
pub open spec fn vec_sum_s(a: Seq<i64>) -> i64 {
    sum_prefix_s(a, a.len())
}

/// An elementwise copy of a vector.
pub fn vec_copy(a: &Vec<i64>) -> (r: Vec<i64>)
    ensures
        r@ == a@,
{
    let mut r: Vec<i64> = Vec::new();
    let n = a.len();
    for i in 0..n
        invariant
            n == a@.len(),
            r@.len() == i,
            forall|j: int| 0 <= j < i ==> r@[j] == a@[j],
    {
        r.push(a[i]);
    }
    assert(r@ =~= a@);
    r
}

/// A rowwise copy of a matrix.
pub fn mat_copy(a: &Vec<Vec<i64>>) -> (r: Vec<Vec<i64>>)
    ensures
        mat_view(r) == mat_view(*a),
{
    let mut r: Vec<Vec<i64>> = Vec::new();
    let rows = a.len();
    for j in 0..rows
        invariant
            rows == a@.len(),
            r@.len() == j,
            forall|jj: int| 0 <= jj < j ==> (#[trigger] r@[jj])@ == a@[jj]@,
    {
        r.push(vec_copy(&a[j]));
    }
    assert(mat_view(r) =~= mat_view(*a));
    r
}

/// Elementwise saturating vector sum.
pub fn vec_add(a: &Vec<i64>, b: &Vec<i64>) -> (r: Vec<i64>)
    requires
        a@.len() == b@.len(),
    ensures
        r@ == vec_add_s(a@, b@),
{
    let mut r: Vec<i64> = Vec::new();
    let n = a.len();
    for i in 0..n
        invariant
            n == a@.len() == b@.len(),
            r@.len() == i,
            forall|j: int| 0 <= j < i ==> r@[j] == fx_add_s(a@[j], b@[j]),
    {
        r.push(fx_add(a[i], b[i]));
    }
    assert(r@ =~= vec_add_s(a@, b@));
    r
}

/// Elementwise saturating vector difference.
pub fn vec_sub(a: &Vec<i64>, b: &Vec<i64>) -> (r: Vec<i64>)
    requires
        a@.len() == b@.len(),
    ensures
        r@ == vec_sub_s(a@, b@),
{
    let mut r: Vec<i64> = Vec::new();
    let n = a.len();
    for i in 0..n
        invariant
            n == a@.len() == b@.len(),
            r@.len() == i,
            forall|j: int| 0 <= j < i ==> r@[j] == fx_sub_s(a@[j], b@[j]),
    {
        r.push(fx_sub(a[i], b[i]));
    }
    assert(r@ =~= vec_sub_s(a@, b@));
    r
}

/// Elementwise saturating vector product.
pub fn vec_hadamard(a: &Vec<i64>, b: &Vec<i64>) -> (r: Vec<i64>)
    requires
        a@.len() == b@.len(),
    ensures
        r@ == vec_hadamard_s(a@, b@),
{
    let mut r: Vec<i64> = Vec::new();
    let n = a.len();
    for i in 0..n
        invariant
            n == a@.len() == b@.len(),
            r@.len() == i,
            forall|j: int| 0 <= j < i ==> r@[j] == fx_mul_s(a@[j], b@[j]),
    {
        r.push(fx_mul(a[i], b[i]));
    }
    assert(r@ =~= vec_hadamard_s(a@, b@));
    r
}

/// A vector scaled by a fixed-point factor.
pub fn vec_scale(a: &Vec<i64>, c: i64) -> (r: Vec<i64>)
    ensures
        r@ == vec_scale_s(a@, c),
{
    let mut r: Vec<i64> = Vec::new();
    let n = a.len();
    for i in 0..n
        invariant
            n == a@.len(),
            r@.len() == i,
            forall|j: int| 0 <= j < i ==> r@[j] == fx_mul_s(c, a@[j]),
    {
        r.push(fx_mul(c, a[i]));
    }
    assert(r@ =~= vec_scale_s(a@, c));
    r
}

/// A vector divided elementwise by a positive integer count.
pub fn vec_div_int(a: &Vec<i64>, n: i64) -> (r: Vec<i64>)
    requires
        n > 0,
    ensures
        r@ == vec_div_int_s(a@, n),
{
    let mut r: Vec<i64> = Vec::new();
    let len = a.len();
    for i in 0..len
        invariant
            len == a@.len(),
            n > 0,
            r@.len() == i,
            forall|j: int| 0 <= j < i ==> r@[j] == fx_div_int_s(a@[j], n),
    {
        r.push(fx_div_int(a[i], n));
    }
    assert(r@ =~= vec_div_int_s(a@, n));
    r
}

/// Saturating dot product.
pub fn dot(a: &Vec<i64>, b: &Vec<i64>) -> (r: i64)
    requires
        a@.len() == b@.len(),
    ensures
        r == dot_s(a@, b@),
{
    let mut acc: i64 = 0;
    let n = a.len();
    for i in 0..n
        invariant
            n == a@.len() == b@.len(),
            acc == dot_prefix_s(a@, b@, i as nat),
    {
        acc = fx_add(acc, fx_mul(a[i], b[i]));
    }
    acc
}

/// Matrix-vector product.
pub fn matvec(w: &Vec<Vec<i64>>, x: &Vec<i64>) -> (r: Vec<i64>)
    requires
        is_matrix(mat_view(*w), w@.len() as nat, x@.len() as nat),
    ensures
        r@ == matvec_s(mat_view(*w), x@),
        r@.len() == w@.len(),
{
    let mut r: Vec<i64> = Vec::new();
    let rows = w.len();
    assert forall|jj: int| 0 <= jj < w@.len() implies (#[trigger] w@[jj])@.len() == x@.len() by {
        assert(mat_view(*w)[jj] == w@[jj]@);
    }
    for j in 0..rows
        invariant
            rows == w@.len(),
            forall|jj: int| 0 <= jj < w@.len() ==> (#[trigger] w@[jj])@.len() == x@.len(),
            r@.len() == j,
            forall|jj: int| 0 <= jj < j ==> r@[jj] == dot_s(mat_view(*w)[jj], x@),
    {
        r.push(dot(&w[j], x));
    }
    assert(r@ =~= matvec_s(mat_view(*w), x@));
    r
}

/// Vector-matrix product over the columns of a matrix with `u.len()`
/// rows and `cols` columns.
pub fn vecmat(u: &Vec<i64>, w: &Vec<Vec<i64>>, cols: usize) -> (r: Vec<i64>)
    requires
        is_matrix(mat_view(*w), u@.len(), cols as nat),
    ensures
        r@ == vecmat_s(u@, mat_view(*w), cols as nat),
{
    let mut r: Vec<i64> = Vec::new();
    let rows = u.len();
    for k in 0..cols
        invariant
            rows == u@.len(),
            is_matrix(mat_view(*w), u@.len(), cols as nat),
            r@.len() == k,
            forall|kk: int| 0 <= kk < k ==> r@[kk] == dot_s(u@, col_s(mat_view(*w), kk)),
    {
        let mut acc: i64 = 0;
        for j in 0..rows
            invariant
                rows == u@.len(),
                is_matrix(mat_view(*w), u@.len(), cols as nat),
                k < cols,
                acc == dot_prefix_s(u@, col_s(mat_view(*w), k as int), j as nat),
        {
            assert(mat_view(*w)[j as int][k as int] == w@[j as int]@[k as int]);
            acc = fx_add(acc, fx_mul(u[j], w[j][k]));
            assert(col_s(mat_view(*w), k as int)[j as int] == w@[j as int]@[k as int]);
        }
        r.push(acc);
    }
    assert(r@ =~= vecmat_s(u@, mat_view(*w), cols as nat));
    r
}

/// Outer product of two vectors.
pub fn outer(u: &Vec<i64>, v: &Vec<i64>) -> (r: Vec<Vec<i64>>)
    ensures
        mat_view(r) == outer_s(u@, v@),
{
    let mut r: Vec<Vec<i64>> = Vec::new();
    let rows = u.len();
    for j in 0..rows
        invariant
            rows == u@.len(),
            r@.len() == j,
            forall|jj: int| 0 <= jj < j ==> (#[trigger] r@[jj])@ == vec_scale_s(v@, u@[jj]),
    {
        r.push(vec_scale(v, u[j]));
    }
    assert(mat_view(r) =~= outer_s(u@, v@));
    r
}

/// Rowwise saturating matrix sum.
pub fn mat_add(a: &Vec<Vec<i64>>, b: &Vec<Vec<i64>>) -> (r: Vec<Vec<i64>>)
    requires
        mat_view(*a).len() == mat_view(*b).len(),
        forall|j: int|
            0 <= j < mat_view(*a).len() ==> (#[trigger] mat_view(*a)[j]).len() == mat_view(
                *b,
            )[j].len(),
    ensures
        mat_view(r) == mat_add_s(mat_view(*a), mat_view(*b)),
{
    let mut r: Vec<Vec<i64>> = Vec::new();
    let rows = a.len();
    assert forall|jj: int| 0 <= jj < a@.len() implies (#[trigger] a@[jj])@.len()
        == b@[jj]@.len() by {
        assert(mat_view(*a)[jj] == a@[jj]@);
        assert(mat_view(*b)[jj] == b@[jj]@);
    }
    for j in 0..rows
        invariant
            rows == a@.len() == b@.len(),
            forall|jj: int| 0 <= jj < a@.len() ==> (#[trigger] a@[jj])@.len() == b@[jj]@.len(),
            r@.len() == j,
            forall|jj: int| 0 <= jj < j ==> (#[trigger] r@[jj])@ == vec_add_s(a@[jj]@, b@[jj]@),
    {
        r.push(vec_add(&a[j], &b[j]));
    }
    assert(mat_view(r) =~= mat_add_s(mat_view(*a), mat_view(*b)));
    r
}

/// Rowwise saturating matrix difference.
pub fn mat_sub(a: &Vec<Vec<i64>>, b: &Vec<Vec<i64>>) -> (r: Vec<Vec<i64>>)
    requires
        mat_view(*a).len() == mat_view(*b).len(),
        forall|j: int|
            0 <= j < mat_view(*a).len() ==> (#[trigger] mat_view(*a)[j]).len() == mat_view(
                *b,
            )[j].len(),
    ensures
        mat_view(r) == mat_sub_s(mat_view(*a), mat_view(*b)),
{
    let mut r: Vec<Vec<i64>> = Vec::new();
    let rows = a.len();
    assert forall|jj: int| 0 <= jj < a@.len() implies (#[trigger] a@[jj])@.len()
        == b@[jj]@.len() by {
        assert(mat_view(*a)[jj] == a@[jj]@);
        assert(mat_view(*b)[jj] == b@[jj]@);
    }
    for j in 0..rows
        invariant
            rows == a@.len() == b@.len(),
            forall|jj: int| 0 <= jj < a@.len() ==> (#[trigger] a@[jj])@.len() == b@[jj]@.len(),
            r@.len() == j,
            forall|jj: int| 0 <= jj < j ==> (#[trigger] r@[jj])@ == vec_sub_s(a@[jj]@, b@[jj]@),
    {
        r.push(vec_sub(&a[j], &b[j]));
    }
    assert(mat_view(r) =~= mat_sub_s(mat_view(*a), mat_view(*b)));
    r
}

/// A matrix scaled by a fixed-point factor.
pub fn mat_scale(a: &Vec<Vec<i64>>, c: i64) -> (r: Vec<Vec<i64>>)
    ensures
        mat_view(r) == mat_scale_s(mat_view(*a), c),
{
    let mut r: Vec<Vec<i64>> = Vec::new();
    let rows = a.len();
    for j in 0..rows
        invariant
            rows == a@.len(),
            r@.len() == j,
            forall|jj: int| 0 <= jj < j ==> (#[trigger] r@[jj])@ == vec_scale_s(a@[jj]@, c),
    {
        r.push(vec_scale(&a[j], c));
    }
    assert(mat_view(r) =~= mat_scale_s(mat_view(*a), c));
    r
}

/// A matrix divided elementwise by a positive integer count.
pub fn mat_div_int(a: &Vec<Vec<i64>>, n: i64) -> (r: Vec<Vec<i64>>)
    requires
        n > 0,
    ensures
        mat_view(r) == mat_div_int_s(mat_view(*a), n),
{
    let mut r: Vec<Vec<i64>> = Vec::new();
    let rows = a.len();
    for j in 0..rows
        invariant
            rows == a@.len(),
            n > 0,
            r@.len() == j,
            forall|jj: int| 0 <= jj < j ==> (#[trigger] r@[jj])@ == vec_div_int_s(a@[jj]@, n),
    {
        r.push(vec_div_int(&a[j], n));
    }
    assert(mat_view(r) =~= mat_div_int_s(mat_view(*a), n));
    r
}

/// Largest entry of a non-empty vector.
pub fn vec_max(a: &Vec<i64>) -> (r: i64)
    requires
        a@.len() >= 1,
    ensures
        r == vec_max_s(a@),
{
    let mut best: i64 = a[0];
    let n = a.len();
    for i in 1..n
        invariant
            n == a@.len(),
            1 <= i <= n,
            best == max_prefix_s(a@, i as nat),
    {
        if a[i] > best {
            best = a[i];
        }
    }
    best
}

/// Saturating sum of a vector.
pub fn vec_sum(a: &Vec<i64>) -> (r: i64)
    ensures
        r == vec_sum_s(a@),
{
    let mut acc: i64 = 0;
    let n = a.len();
    for i in 0..n
        invariant
            n == a@.len(),
            acc == sum_prefix_s(a@, i as nat),
    {
        acc = fx_add(acc, a[i]);
    }
    acc
}

} // verus!
