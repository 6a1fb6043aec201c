//! Tensor shapes: element counts and how the layers of a network transform a shape.
//!
//! A shape is the list of a tensor's dimensions, outermost first. Nothing here
//! touches the numbers a tensor holds; these functions decide, from dimensions
//! alone, whether an operation is defined and what shape its result has.

use vstd::prelude::*;

verus! {

/// The number of elements of a tensor with the given dimensions: their product,
/// and 1 for a tensor without dimensions.
pub open spec fn element_count(shape: Seq<i64>) -> int
    decreases shape.len(),
{
    if shape.len() == 0 {
        1
    } else {
        element_count(shape.drop_last()) * (shape.last() as int)
    }
}

/// Every dimension is non-negative.
pub open spec fn is_shape(shape: Seq<i64>) -> bool {
    forall|i: int| 0 <= i < shape.len() ==> shape[i] >= 0
}

/// The length of the flat buffer that holds a tensor of this shape, where the
/// shape is valid and that length is representable.
pub open spec fn storage_size(shape: Seq<i64>) -> Option<usize> {
    if is_shape(shape) && element_count(shape) <= usize::MAX {
        Some(element_count(shape) as usize)
    } else {
        None
    }
}

/// The element count of the first `n + 1` dimensions is that of the first `n`
/// times dimension `n`.
pub proof fn lemma_element_count_step(shape: Seq<i64>, n: int)
    requires
        0 <= n < shape.len(),
    ensures
        element_count(shape.take(n + 1)) == element_count(shape.take(n)) * (shape[n] as int),
{
    assert(shape.take(n + 1).drop_last() =~= shape.take(n));
}

/// A valid shape has a non-negative element count.
pub proof fn lemma_element_count_nonnegative(shape: Seq<i64>)
    requires
        is_shape(shape),
    ensures
        element_count(shape) >= 0,
    decreases shape.len(),
{
    if shape.len() > 0 {
        lemma_element_count_nonnegative(shape.drop_last());
        assert(element_count(shape.drop_last()) * (shape.last() as int) >= 0) by (nonlinear_arith)
            requires
                element_count(shape.drop_last()) >= 0,
                shape.last() as int >= 0,
        ;
    }
}

/// A valid shape with a zero dimension has no elements.
pub proof fn lemma_element_count_zero(shape: Seq<i64>, k: int)
    requires
        is_shape(shape),
        0 <= k < shape.len(),
        shape[k] == 0,
    ensures
        element_count(shape) == 0,
    decreases shape.len(),
{
    if k == shape.len() - 1 {
        assert(element_count(shape.drop_last()) * 0 == 0);
    } else {
        lemma_element_count_zero(shape.drop_last(), k);
        assert(0 * (shape.last() as int) == 0);
    }
}

/// Where every dimension is positive, a prefix of the shape has at least one
/// element and no more elements than the whole.
pub proof fn lemma_element_count_prefix(shape: Seq<i64>, n: int)
    requires
        0 <= n <= shape.len(),
        forall|i: int| 0 <= i < shape.len() ==> shape[i] >= 1,
    ensures
        1 <= element_count(shape.take(n)) <= element_count(shape),
    decreases shape.len() - n,
{
    if n == shape.len() {
        assert(shape.take(n) =~= shape);
        lemma_positive_count(shape);
    } else {
        lemma_element_count_prefix(shape, n + 1);
        lemma_element_count_step(shape, n);
        lemma_positive_count(shape.take(n));
        assert(element_count(shape.take(n)) <= element_count(shape.take(n)) * (shape[n] as int))
            by (nonlinear_arith)
            requires
                element_count(shape.take(n)) >= 1,
                shape[n] as int >= 1,
        ;
    }
}

proof fn lemma_positive_count(shape: Seq<i64>)
    requires
        forall|i: int| 0 <= i < shape.len() ==> shape[i] >= 1,
    ensures
        element_count(shape) >= 1,
    decreases shape.len(),
{
    if shape.len() > 0 {
        lemma_positive_count(shape.drop_last());
        assert(element_count(shape.drop_last()) * (shape.last() as int) >= 1) by (nonlinear_arith)
            requires
                element_count(shape.drop_last()) >= 1,
                shape.last() as int >= 1,
        ;
    }
}

/// The number of elements of a tensor of shape `shape`, as the length of the
/// buffer that holds them. `None` where a dimension is negative or the count
/// does not fit in `usize`.
pub fn checked_element_count(shape: &Vec<i64>) -> (r: Option<usize>)
    ensures
        r == storage_size(shape@),
{
    let n: usize = shape.len();
    let mut has_zero: bool = false;
    let mut i: usize = 0;
    while i < n
        invariant
            n == shape@.len(),
            0 <= i <= n,
            forall|j: int| 0 <= j < i ==> shape@[j] >= 0,
            has_zero <==> exists|j: int| 0 <= j < i && shape@[j] == 0,
        decreases n - i,
    {
        if shape[i] < 0 {
            return None;
        }
        if shape[i] == 0 {
            has_zero = true;
        }
        i += 1;
    }
    if has_zero {
        proof {
            let k = choose|j: int| 0 <= j < n && shape@[j] == 0;
            lemma_element_count_zero(shape@, k);
        }
        return Some(0);
    }
    let mut count: usize = 1;
    let mut k: usize = 0;
    assert(shape@.take(0) =~= Seq::<i64>::empty());
    while k < n
        invariant
            n == shape@.len(),
            0 <= k <= n,
            forall|j: int| 0 <= j < n ==> shape@[j] >= 1,
            count == element_count(shape@.take(k as int)),
        decreases n - k,
    {
        let d: i64 = shape[k];
        proof {
            lemma_element_count_step(shape@, k as int);
            lemma_element_count_prefix(shape@, k as int);
            lemma_element_count_prefix(shape@, k + 1);
            assert(element_count(shape@.take(k as int)) * (d as int) >= d) by (nonlinear_arith)
                requires
                    element_count(shape@.take(k as int)) >= 1,
                    d as int >= 1,
            ;
        }
        if d as u64 > usize::MAX as u64 {
            return None;
        }
        match count.checked_mul(d as usize) {
            None => {
                return None;
            },
            Some(next) => {
                count = next;
            },
        }
        k += 1;
    }
    assert(shape@.take(n as int) =~= shape@);
    Some(count)
}

/// Whether two shapes have the same dimensions.
pub fn same_shape(a: &Vec<i64>, b: &Vec<i64>) -> (r: bool)
    ensures
        r == (a@ == b@),
{
    if a.len() != b.len() {
        return false;
    }
    let n: usize = a.len();
    let mut i: usize = 0;
    while i < n
        invariant
            0 <= i <= n,
            n == a@.len(),
            n == b@.len(),
            forall|j: int| 0 <= j < i ==> a@[j] == b@[j],
        decreases n - i,
    {
        if a[i] != b[i] {
            return false;
        }
        i += 1;
    }
    assert(a@ =~= b@);
    true
}

/// Whether a shape is that of a matrix of `rows` rows and `columns` columns.
pub fn is_matrix(shape: &Vec<i64>, rows: i64, columns: i64) -> (r: bool)
    ensures
        r == (shape@ == seq![rows, columns]),
{
    if shape.len() == 2 && shape[0] == rows && shape[1] == columns {
        assert(shape@ =~= seq![rows, columns]);
        true
    } else {
        false
    }
}

/// Whether a shape is that of a vector of `len` components.
pub fn is_vector(shape: &Vec<i64>, len: i64) -> (r: bool)
    ensures
        r == (shape@ == seq![len]),
{
    if shape.len() == 1 && shape[0] == len {
        assert(shape@ =~= seq![len]);
        true
    } else {
        false
    }
}

/// The shape that a linear layer from `in_dim` to `out_dim` inputs gives for
/// an input of shape `xs`: the last dimension, which must be `in_dim`, becomes
/// `out_dim`. `None` where the input has no dimension or its last is not
/// `in_dim`.
pub open spec fn linear_output(xs: Seq<i64>, in_dim: i64, out_dim: i64) -> Option<Seq<i64>> {
    if xs.len() >= 1 && xs.last() == in_dim {
        Some(xs.drop_last().push(out_dim))
    } else {
        None
    }
}

/// The shape of two tensors joined along dimension 1, their columns: both
/// have at least two dimensions and agree in all but dimension 1, and the
/// widths add up without overflow. `None` otherwise.
pub open spec fn joined_columns(a: Seq<i64>, b: Seq<i64>) -> Option<Seq<i64>> {
    if a.len() >= 2 && a.len() == b.len() && a[1] + b[1] <= i64::MAX && a[1] + b[1] >= i64::MIN
        && (forall|i: int| 0 <= i < a.len() && i != 1 ==> a[i] == b[i]) {
        Some(a.update(1, (a[1] + b[1]) as i64))
    } else {
        None
    }
}

/// The shape that a linear layer gives for an input of shape `xs`.
pub fn apply_linear(xs: &Vec<i64>, in_dim: i64, out_dim: i64) -> (r: Option<Vec<i64>>)
    ensures
        match r {
            Some(ys) => linear_output(xs@, in_dim, out_dim) == Some(ys@),
            None => linear_output(xs@, in_dim, out_dim) is None,
        },
{
    let n: usize = xs.len();
    if n == 0 || xs[n - 1] != in_dim {
        return None;
    }
    let mut ys: Vec<i64> = Vec::new();
    let mut i: usize = 0;
    while i < n - 1
        invariant
            1 <= n == xs@.len(),
            0 <= i <= n - 1,
            ys@ == xs@.take(i as int),
        decreases n - i,
    {
        ys.push(xs[i]);
        assert(ys@ =~= xs@.take(i + 1));
        i += 1;
    }
    ys.push(out_dim);
    assert(ys@ =~= xs@.drop_last().push(out_dim));
    Some(ys)
}

/// The shape of two tensors joined along dimension 1.
pub fn join_columns(a: &Vec<i64>, b: &Vec<i64>) -> (r: Option<Vec<i64>>)
    ensures
        match r {
            Some(c) => joined_columns(a@, b@) == Some(c@),
            None => joined_columns(a@, b@) is None,
        },
{
    let n: usize = a.len();
    if n < 2 || b.len() != n {
        return None;
    }
    let width: i64 = match a[1].checked_add(b[1]) {
        Some(w) => w,
        None => {
            return None;
        },
    };
    let mut c: Vec<i64> = Vec::new();
    let mut i: usize = 0;
    while i < n
        invariant
            2 <= n == a@.len(),
            n == b@.len(),
            0 <= i <= n,
            width == a@[1] + b@[1],
            forall|j: int| 0 <= j < i && j != 1 ==> a@[j] == b@[j],
            c@ == a@.update(1, width).take(i as int),
        decreases n - i,
    {
        if i == 1 {
            c.push(width);
        } else {
            if a[i] != b[i] {
                return None;
            }
            c.push(a[i]);
        }
        assert(c@ =~= a@.update(1, width).take(i + 1));
        i += 1;
    }
    assert(c@ =~= a@.update(1, width));
    Some(c)
}

} // verus!
