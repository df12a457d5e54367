//! Dense vectors and square matrices over a [`Scalar`]: the few operations
//! that the solvers are built from, each with the order of its arithmetic
//! fixed by a spec function.

use vstd::prelude::*;
use crate::scalar::Scalar;
use crate::scalar::zero;

verus! {

/// The rows of a matrix as sequences.
pub open spec fn rows_of<T>(m: &Vec<Vec<T>>) -> Seq<Seq<T>> {
    Seq::new(m.len() as nat, |i: int| m[i]@)
}

/// `m` has `n` rows of `n` entries each.
pub open spec fn is_square<T>(m: Seq<Seq<T>>, n: nat) -> bool {
    &&& m.len() == n
    &&& forall|i: int| 0 <= i < n ==> (#[trigger] m[i]).len() == n
}

/// The vector of `n` zeros.
pub open spec fn zeros_spec<T: Scalar>(n: nat) -> Seq<T> {
    Seq::new(n, |i: int| zero::<T>())
}

/// `a[lo]*b[lo] + ... + a[hi-1]*b[hi-1]`, accumulated from zero in
/// ascending order of the index.
pub open spec fn range_dot<T: Scalar>(a: Seq<T>, b: Seq<T>, lo: int, hi: int) -> T
    decreases hi - lo,
{
    if hi <= lo {
        zero::<T>()
    } else {
        range_dot(a, b, lo, hi - 1).plus_spec(a[hi - 1].times_spec(b[hi - 1]))
    }
}

/// The inner product of `a` and `b`, over the indices of `a`.
pub open spec fn dot_spec<T: Scalar>(a: Seq<T>, b: Seq<T>) -> T {
    range_dot(a, b, 0, a.len() as int)
}

/// The Euclidean norm: the square root of the inner product of `v` with itself.
pub open spec fn norm_spec<T: Scalar>(v: Seq<T>) -> T {
    dot_spec(v, v).sqrt_spec()
}

/// Entry by entry, `a[i] + b[i]`.
pub open spec fn vec_plus<T: Scalar>(a: Seq<T>, b: Seq<T>) -> Seq<T> {
    Seq::new(a.len(), |i: int| a[i].plus_spec(b[i]))
}

/// Entry by entry, `a[i] - b[i]`.
pub open spec fn vec_minus<T: Scalar>(a: Seq<T>, b: Seq<T>) -> Seq<T> {
    Seq::new(a.len(), |i: int| a[i].minus_spec(b[i]))
}

/// Entry by entry, `c * v[i]`.
pub open spec fn scaled<T: Scalar>(c: T, v: Seq<T>) -> Seq<T> {
    Seq::new(v.len(), |i: int| c.times_spec(v[i]))
}

/// The product of a matrix and a vector: entry `i` is the inner product of
/// row `i` with `x`.
pub open spec fn mat_vec_spec<T: Scalar>(m: Seq<Seq<T>>, x: Seq<T>) -> Seq<T> {
    Seq::new(m.len(), |i: int| dot_spec(m[i], x))
}

/// `m[0][j]*r[0] + ... + m[k-1][j]*r[k-1]`, accumulated from zero in
/// ascending order of the row.
pub open spec fn column_dot<T: Scalar>(m: Seq<Seq<T>>, j: int, r: Seq<T>, k: int) -> T
    decreases k,
{
    if k <= 0 {
        zero::<T>()
    } else {
        column_dot(m, j, r, k - 1).plus_spec(m[k - 1][j].times_spec(r[k - 1]))
    }
}

/// The product of the transpose of a square matrix and a vector.
pub open spec fn transposed_mat_vec_spec<T: Scalar>(m: Seq<Seq<T>>, r: Seq<T>) -> Seq<T> {
    Seq::new(m.len(), |j: int| column_dot(m, j, r, m.len() as int))
}

/// The residual `f - m x`.
pub open spec fn residual_spec<T: Scalar>(m: Seq<Seq<T>>, x: Seq<T>, f: Seq<T>) -> Seq<T> {
    vec_minus(f, mat_vec_spec(m, x))
}

/// A vector of `n` copies of `value`.
pub fn filled<T: Scalar>(value: T, n: usize) -> (v: Vec<T>)
    ensures
        v@ == Seq::new(n as nat, |i: int| value),
{
    let mut v: Vec<T> = Vec::new();
    let mut i: usize = 0;
    while i < n
        invariant
            i <= n,
            v.len() == i,
            forall|j: int| 0 <= j < i ==> v[j] == value,
        decreases n - i,
    {
        v.push(value);
        i += 1;
    }
    v
}

/// The vector of `n` zeros.
pub fn zeros<T: Scalar>(n: usize) -> (v: Vec<T>)
    ensures
        v@ == zeros_spec::<T>(n as nat),
{
    let v = filled(T::from_int(0), n);
    v
}

/// A copy of `a`.
pub fn copy_of<T: Scalar>(a: &Vec<T>) -> (v: Vec<T>)
    ensures
        v@ == a@,
{
    let mut v: Vec<T> = Vec::new();
    let mut i: usize = 0;
    while i < a.len()
        invariant
            i <= a.len(),
            v.len() == i,
            forall|j: int| 0 <= j < i ==> v[j] == a[j],
        decreases a.len() - i,
    {
        v.push(a[i]);
        i += 1;
    }
    v
}

/// The inner product of `a[lo..hi]` and `b[lo..hi]`.
pub fn dot_range<T: Scalar>(a: &Vec<T>, b: &Vec<T>, lo: usize, hi: usize) -> (r: T)
    requires
        hi <= a.len(),
        hi <= b.len(),
    ensures
        r == range_dot(a@, b@, lo as int, hi as int),
{
    let mut acc = T::from_int(0);
    let mut j: usize = lo;
    while j < hi
        invariant
            lo <= j,
            j <= hi || hi <= lo,
            hi <= a.len(),
            hi <= b.len(),
            acc == range_dot(a@, b@, lo as int, if hi <= lo { lo as int } else { j as int }),
        decreases hi - j,
    {
        acc = acc.plus(a[j].times(b[j]));
        j += 1;
    }
    acc
}

/// The inner product of `a` and `b`.
pub fn dot<T: Scalar>(a: &Vec<T>, b: &Vec<T>) -> (r: T)
    requires
        a.len() <= b.len(),
    ensures
        r == dot_spec(a@, b@),
{
    dot_range(a, b, 0, a.len())
}

/// The Euclidean norm of `v`.
pub fn norm<T: Scalar>(v: &Vec<T>) -> (r: T)
    ensures
        r == norm_spec(v@),
{
    dot(v, v).sqrt()
}

/// `a + b`, entry by entry.
pub fn plus_vec<T: Scalar>(a: &Vec<T>, b: &Vec<T>) -> (v: Vec<T>)
    requires
        a.len() <= b.len(),
    ensures
        v@ == vec_plus(a@, b@),
{
    let mut v: Vec<T> = Vec::new();
    let mut i: usize = 0;
    while i < a.len()
        invariant
            i <= a.len(),
            a.len() <= b.len(),
            v.len() == i,
            forall|j: int| 0 <= j < i ==> v[j] == a[j].plus_spec(b[j]),
        decreases a.len() - i,
    {
        v.push(a[i].plus(b[i]));
        i += 1;
    }
    v
}

/// `a - b`, entry by entry.
pub fn minus_vec<T: Scalar>(a: &Vec<T>, b: &Vec<T>) -> (v: Vec<T>)
    requires
        a.len() <= b.len(),
    ensures
        v@ == vec_minus(a@, b@),
{
    let mut v: Vec<T> = Vec::new();
    let mut i: usize = 0;
    while i < a.len()
        invariant
            i <= a.len(),
            a.len() <= b.len(),
            v.len() == i,
            forall|j: int| 0 <= j < i ==> v[j] == a[j].minus_spec(b[j]),
        decreases a.len() - i,
    {
        v.push(a[i].minus(b[i]));
        i += 1;
    }
    v
}

/// `c * v`, entry by entry.
pub fn scale<T: Scalar>(c: T, a: &Vec<T>) -> (v: Vec<T>)
    ensures
        v@ == scaled(c, a@),
{
    let mut v: Vec<T> = Vec::new();
    let mut i: usize = 0;
    while i < a.len()
        invariant
            i <= a.len(),
            v.len() == i,
            forall|j: int| 0 <= j < i ==> v[j] == c.times_spec(a[j]),
        decreases a.len() - i,
    {
        v.push(c.times(a[i]));
        i += 1;
    }
    v
}

/// The product `m x`.
pub fn mat_vec<T: Scalar>(m: &Vec<Vec<T>>, x: &Vec<T>) -> (v: Vec<T>)
    requires
        forall|i: int| 0 <= i < m.len() ==> (#[trigger] rows_of(m)[i]).len() <= x.len(),
    ensures
        v@ == mat_vec_spec(rows_of(m), x@),
{
    let mut v: Vec<T> = Vec::new();
    let mut i: usize = 0;
    while i < m.len()
        invariant
            i <= m.len(),
            v.len() == i,
            forall|i: int| 0 <= i < m.len() ==> (#[trigger] rows_of(m)[i]).len() <= x.len(),
            forall|j: int| 0 <= j < i ==> v[j] == dot_spec(rows_of(m)[j], x@),
        decreases m.len() - i,
    {
        assert(rows_of(m)[i as int] == m[i as int]@);
        v.push(dot(&m[i], x));
        i += 1;
    }
    v
}

/// The product of the transpose of `m` with `r`.
pub fn transposed_mat_vec<T: Scalar>(m: &Vec<Vec<T>>, r: &Vec<T>) -> (v: Vec<T>)
    requires
        is_square(rows_of(m), m.len() as nat),
        r.len() == m.len(),
    ensures
        v@ == transposed_mat_vec_spec(rows_of(m), r@),
{
    let n = m.len();
    let mut v: Vec<T> = Vec::new();
    let mut j: usize = 0;
    while j < n
        invariant
            j <= n,
            n == m.len(),
            r.len() == n,
            is_square(rows_of(m), n as nat),
            v.len() == j,
            forall|c: int| 0 <= c < j ==> v[c] == column_dot(rows_of(m), c, r@, n as int),
        decreases n - j,
    {
        let mut acc = T::from_int(0);
        let mut k: usize = 0;
        while k < n
            invariant
                k <= n,
                j < n,
                n == m.len(),
                r.len() == n,
                is_square(rows_of(m), n as nat),
                acc == column_dot(rows_of(m), j as int, r@, k as int),
            decreases n - k,
        {
            assert(rows_of(m)[k as int].len() == n);
            acc = acc.plus(m[k][j].times(r[k]));
            k += 1;
        }
        v.push(acc);
        j += 1;
    }
    v
}

/// The residual `f - m x`.
pub fn residual<T: Scalar>(m: &Vec<Vec<T>>, x: &Vec<T>, f: &Vec<T>) -> (v: Vec<T>)
    requires
        forall|i: int| 0 <= i < m.len() ==> (#[trigger] rows_of(m)[i]).len() <= x.len(),
        f.len() <= m.len(),
    ensures
        v@ == residual_spec(rows_of(m), x@, f@),
{
    let mx = mat_vec(m, x);
    minus_vec(f, &mx)
}

/// Tests whether `m` has as many entries in every row as it has rows.
pub fn has_square_shape<T>(m: &Vec<Vec<T>>) -> (r: bool)
    ensures
        r == is_square(rows_of(m), m.len() as nat),
{
    let n = m.len();
    let mut i: usize = 0;
    while i < n
        invariant
            i <= n,
            n == m.len(),
            forall|k: int| 0 <= k < i ==> (#[trigger] rows_of(m)[k]).len() == n,
        decreases n - i,
    {
        if m[i].len() != n {
            assert(rows_of(m)[i as int].len() != n);
            return false;
        }
        i += 1;
    }
    true
}

} // verus!
