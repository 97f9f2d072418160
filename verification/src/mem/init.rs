//! Flattening of nested array initializers.
//!
//! An array of dimensions `d1, .., dk` is initialized from a list whose
//! elements are expressions and nested lists. Expressions fill the array in
//! row-major order. A nested list fills one aligned sub-array: the largest one
//! that starts where the filling stands, after padding to the next row. What
//! a list leaves open is zero.

use vstd::prelude::*;
use crate::mem::emit::Error;

verus! {

/// An initializer whose expressions have been worked out to values of type `T`.
#[derive(Debug, PartialEq, Eq)]
pub enum Init<T> {
    Item(T),
    List(Vec<Init<T>>),
}

/// The number of elements of an array with the given dimensions.
pub open spec fn product(dims: Seq<usize>) -> nat
    decreases dims.len(),
{
    if dims.len() == 0 {
        1
    } else {
        (dims[0] as nat) * product(dims.drop_first())
    }
}

/// No dimension is zero, and the number of elements fits a machine word.
pub open spec fn dims_ok(dims: Seq<usize>) -> bool {
    &&& forall|i: int| 0 <= i < dims.len() ==> #[trigger] dims[i] > 0
    &&& product(dims) <= usize::MAX
}

/// `n` times `zero`.
pub open spec fn zeros<T>(n: nat, zero: T) -> Seq<T> {
    Seq::new(n, |i: int| zero)
}

/// `acc`, filled up with `zero` to the next multiple of `unit`.
pub open spec fn padded<T>(acc: Seq<T>, unit: nat, zero: T) -> Seq<T> {
    if unit == 0 || acc.len() % unit == 0 {
        acc
    } else {
        acc + zeros((unit - acc.len() % unit) as nat, zero)
    }
}

/// Where the sub-array of a nested list begins among the dimensions, for a
/// list that starts at element `count`: the least index from 1 up to `begin`
/// such that the size of every sub-array from there to `begin` divides
/// `count`. The sub-array is never the whole array.
pub open spec fn widen(dims: Seq<usize>, count: nat, begin: int) -> int
    decreases begin,
{
    if begin > 1 && product(dims.skip(begin - 1)) != 0 && count % product(dims.skip(begin - 1))
        == 0 {
        widen(dims, count, begin - 1)
    } else {
        begin
    }
}

/// The elements after the items from `k` on have been taken into `acc`;
/// None when the items do not fit the dimensions.
pub open spec fn fill<T>(items: Vec<Init<T>>, k: nat, dims: Seq<usize>, zero: T, acc: Seq<T>)
    -> Option<Seq<T>>
    decreases items, items.len() - k,
{
    if acc.len() > product(dims) {
        None
    } else if k >= items.len() {
        Some(acc + zeros((product(dims) - acc.len()) as nat, zero))
    } else {
        match items[k as int] {
            Init::Item(x) => fill(items, k + 1, dims, zero, acc.push(x)),
            Init::List(sub) => {
                if dims.len() < 2 {
                    None
                } else {
                    let start = padded(acc, dims.last() as nat, zero);
                    let begin = widen(dims, start.len(), dims.len() - 1);
                    match fill(sub, 0, dims.skip(begin), zero, Seq::empty()) {
                        Some(part) => fill(items, k + 1, dims, zero, start + part),
                        None => None,
                    }
                }
            },
        }
    }
}

/// The flat, row-major contents of an array of dimensions `dims` initialized
/// by `init`; None when `init` is no list or does not fit.
pub open spec fn flat<T>(init: Init<T>, dims: Seq<usize>, zero: T) -> Option<Seq<T>> {
    match init {
        Init::Item(_) => None,
        Init::List(items) => if dims.len() == 0 {
            None
        } else {
            fill(items, 0, dims, zero, Seq::empty())
        },
    }
}

/// Two initializers have one outline: they are nested alike, whatever
/// their items are.
pub open spec fn same_outline<T, U>(a: Init<T>, b: Init<U>) -> bool
    decreases a,
{
    match (a, b) {
        (Init::Item(_), Init::Item(_)) => true,
        (Init::List(x), Init::List(y)) => x.len() == y.len() && forall|i: int|
            0 <= i < x.len() ==> same_outline(#[trigger] x[i], y[i]),
        _ => false,
    }
}

/// Whether items fit the dimensions depends on their outline alone.
pub proof fn fill_outline<T, U>(
    i1: Vec<Init<T>>,
    i2: Vec<Init<U>>,
    k: nat,
    dims: Seq<usize>,
    z1: T,
    z2: U,
    acc1: Seq<T>,
    acc2: Seq<U>,
)
    requires
        i1.len() == i2.len(),
        forall|i: int| 0 <= i < i1.len() ==> same_outline(#[trigger] i1[i], i2[i]),
        acc1.len() == acc2.len(),
    ensures
        fill(i1, k, dims, z1, acc1) is Some <==> fill(i2, k, dims, z2, acc2) is Some,
    decreases i1, i1.len() - k,
{
    if acc1.len() > product(dims) {
    } else if k >= i1.len() {
    } else {
        assert(same_outline(i1[k as int], i2[k as int]));
        match (i1[k as int], i2[k as int]) {
            (Init::Item(x), Init::Item(y)) => {
                fill_outline(i1, i2, k + 1, dims, z1, z2, acc1.push(x), acc2.push(y));
            },
            (Init::List(s1), Init::List(s2)) => {
                if dims.len() >= 2 {
                    let st1 = padded(acc1, dims.last() as nat, z1);
                    let st2 = padded(acc2, dims.last() as nat, z2);
                    assert(st1.len() == st2.len());
                    let begin = widen(dims, st1.len(), dims.len() - 1);
                    fill_outline(
                        s1,
                        s2,
                        0,
                        dims.skip(begin),
                        z1,
                        z2,
                        Seq::<T>::empty(),
                        Seq::<U>::empty(),
                    );
                    fill_len(s1, 0, dims.skip(begin), z1, Seq::empty());
                    fill_len(s2, 0, dims.skip(begin), z2, Seq::empty());
                    match (
                        fill(s1, 0, dims.skip(begin), z1, Seq::empty()),
                        fill(s2, 0, dims.skip(begin), z2, Seq::empty()),
                    ) {
                        (Some(p1), Some(p2)) => {
                            fill_outline(i1, i2, k + 1, dims, z1, z2, st1 + p1, st2 + p2);
                        },
                        _ => {},
                    }
                }
            },
            _ => {},
        }
    }
}

/// Whether an initializer fits the dimensions depends on its outline alone.
pub proof fn flat_outline<T, U>(a: Init<T>, b: Init<U>, dims: Seq<usize>, z1: T, z2: U)
    requires
        same_outline(a, b),
    ensures
        flat(a, dims, z1) is Some <==> flat(b, dims, z2) is Some,
{
    match (a, b) {
        (Init::List(x), Init::List(y)) => {
            if dims.len() > 0 {
                fill_outline(x, y, 0, dims, z1, z2, Seq::<T>::empty(), Seq::<U>::empty());
            }
        },
        _ => {},
    }
}

/// Every item of the initializer has the property `p`.
pub open spec fn leaves_all<T>(tree: Init<T>, p: spec_fn(T) -> bool) -> bool
    decreases tree,
{
    match tree {
        Init::Item(x) => p(x),
        Init::List(items) => forall|i: int|
            0 <= i < items.len() ==> leaves_all(#[trigger] items[i], p),
    }
}

/// What holds of every item under `p` holds under any `q` that `p` implies.
pub proof fn leaves_mono<T>(tree: Init<T>, p: spec_fn(T) -> bool, q: spec_fn(T) -> bool)
    requires
        leaves_all(tree, p),
        forall|x: T| #[trigger] p(x) ==> q(x),
    ensures
        leaves_all(tree, q),
    decreases tree,
{
    match tree {
        Init::Item(x) => {},
        Init::List(items) => {
            assert forall|i: int| 0 <= i < items.len() implies leaves_all(#[trigger] items[i], q) by {
                leaves_mono(items[i], p, q);
            }
        },
    }
}

/// What holds of the zero and of every item holds of every element of the
/// flat contents.
pub proof fn fill_all<T>(
    items: Vec<Init<T>>,
    k: nat,
    dims: Seq<usize>,
    zero: T,
    acc: Seq<T>,
    p: spec_fn(T) -> bool,
)
    requires
        p(zero),
        forall|i: int| 0 <= i < acc.len() ==> p(#[trigger] acc[i]),
        forall|i: int| 0 <= i < items.len() ==> leaves_all(#[trigger] items[i], p),
    ensures
        fill(items, k, dims, zero, acc) matches Some(r) ==> forall|i: int|
            0 <= i < r.len() ==> p(#[trigger] r[i]),
    decreases items, items.len() - k,
{
    if acc.len() > product(dims) {
    } else if k >= items.len() {
    } else {
        assert(leaves_all(items[k as int], p));
        match items[k as int] {
            Init::Item(x) => {
                fill_all(items, k + 1, dims, zero, acc.push(x), p);
            },
            Init::List(sub) => {
                if dims.len() >= 2 {
                    let start = padded(acc, dims.last() as nat, zero);
                    let begin = widen(dims, start.len(), dims.len() - 1);
                    fill_all(sub, 0, dims.skip(begin), zero, Seq::empty(), p);
                    match fill(sub, 0, dims.skip(begin), zero, Seq::empty()) {
                        Some(part) => {
                            fill_all(items, k + 1, dims, zero, start + part, p);
                        },
                        None => {},
                    }
                }
            },
        }
    }
}

/// A flattened initializer has exactly as many elements as the array.
pub proof fn fill_len<T>(items: Vec<Init<T>>, k: nat, dims: Seq<usize>, zero: T, acc: Seq<T>)
    ensures
        fill(items, k, dims, zero, acc) matches Some(r) ==> r.len() == product(dims),
    decreases items, items.len() - k,
{
    if acc.len() > product(dims) {
    } else if k >= items.len() {
    } else {
        match items[k as int] {
            Init::Item(x) => {
                fill_len(items, k + 1, dims, zero, acc.push(x));
            },
            Init::List(sub) => {
                if dims.len() >= 2 {
                    let start = padded(acc, dims.last() as nat, zero);
                    let begin = widen(dims, start.len(), dims.len() - 1);
                    match fill(sub, 0, dims.skip(begin), zero, Seq::empty()) {
                        Some(part) => {
                            fill_len(items, k + 1, dims, zero, start + part);
                        },
                        None => {},
                    }
                }
            },
        }
    }
}

/// For every initializer that fits, the flat contents have the length that
/// is the product of the dimensions.
pub proof fn flat_len<T>(init: Init<T>, dims: Seq<usize>, zero: T)
    ensures
        flat(init, dims, zero) matches Some(r) ==> r.len() == product(dims),
{
    match init {
        Init::Item(_) => {},
        Init::List(items) => {
            fill_len(items, 0, dims, zero, Seq::empty());
        },
    }
}

proof fn product_step(dims: Seq<usize>, k: int)
    requires
        0 <= k < dims.len(),
    ensures
        product(dims.skip(k)) == (dims[k] as nat) * product(dims.skip(k + 1)),
{
    assert(dims.skip(k).drop_first() =~= dims.skip(k + 1));
}

/// With no zero among the dimensions, a sub-array has at least one element
/// and no more than the array.
proof fn product_bounds(dims: Seq<usize>, k: int)
    requires
        0 <= k <= dims.len(),
        forall|i: int| 0 <= i < dims.len() ==> #[trigger] dims[i] > 0,
    ensures
        1 <= product(dims.skip(k)) <= product(dims),
    decreases dims.len() - k,
{
    if k == dims.len() {
        assert(dims.skip(k).len() == 0);
        product_bounds_whole(dims);
    } else {
        product_step(dims, k);
        product_bounds(dims, k + 1);
        let rest = product(dims.skip(k + 1));
        assert(rest <= (dims[k] as nat) * rest) by (nonlinear_arith)
            requires
                dims[k] >= 1,
        ;
        if k > 0 {
            product_upto(dims, k);
        } else {
            assert(dims.skip(0) =~= dims);
        }
    }
}

proof fn product_bounds_whole(dims: Seq<usize>)
    requires
        forall|i: int| 0 <= i < dims.len() ==> #[trigger] dims[i] > 0,
    ensures
        1 <= product(dims),
    decreases dims.len(),
{
    if dims.len() > 0 {
        let rest = dims.drop_first();
        assert forall|i: int| 0 <= i < rest.len() implies #[trigger] rest[i] > 0 by {
            assert(dims[i + 1] > 0);
        }
        product_bounds_whole(rest);
        assert(1 <= (dims[0] as nat) * product(rest)) by (nonlinear_arith)
            requires
                dims[0] >= 1,
                product(rest) >= 1,
        ;
    }
}

proof fn product_upto(dims: Seq<usize>, k: int)
    requires
        0 <= k <= dims.len(),
        forall|i: int| 0 <= i < dims.len() ==> #[trigger] dims[i] > 0,
    ensures
        product(dims.skip(k)) <= product(dims),
    decreases k,
{
    if k == 0 {
        assert(dims.skip(0) =~= dims);
    } else {
        product_upto(dims, k - 1);
        product_step(dims, k - 1);
        let rest = product(dims.skip(k));
        assert(rest <= (dims[k - 1] as nat) * rest) by (nonlinear_arith)
            requires
                dims[k - 1] >= 1,
        ;
    }
}

/// The sizes of the sub-arrays: entry `k` is the number of elements under
/// the dimensions from `k` on, and the last entry is 1. None when a dimension
/// is zero or the array is too large.
pub fn suffix_products(dims: &Vec<usize>) -> (r: Option<Vec<usize>>)
    ensures
        r is Some <==> dims_ok(dims@),
        r matches Some(sizes) ==> {
            &&& sizes.len() == dims.len() + 1
            &&& forall|k: int|
                0 <= k <= dims.len() ==> #[trigger] sizes[k] == product(dims@.skip(k)) && sizes[k]
                    > 0
        },
{
    let n = dims.len();
    let mut back: Vec<usize> = Vec::new();
    back.push(1);
    let mut k: usize = n;
    proof {
        assert(dims@.skip(n as int).len() == 0);
    }
    while k > 0
        invariant
            k <= n,
            n == dims.len(),
            back.len() == n - k + 1,
            forall|j: int| k <= j <= n ==> #[trigger] back[n - j] == product(dims@.skip(j)),
            forall|j: int| k <= j < n ==> #[trigger] dims[j] > 0,
        decreases k,
    {
        let d = dims[k - 1];
        let rest = back[n - k];
        proof {
            product_step(dims@, k - 1);
        }
        if d == 0 {
            return None;
        }
        match d.checked_mul(rest) {
            Some(p) => {
                back.push(p);
            },
            None => {
                proof {
                    if dims_ok(dims@) {
                        product_upto(dims@, k - 1);
                    }
                }
                return None;
            },
        }
        k -= 1;
    }
    let mut sizes: Vec<usize> = Vec::new();
    let mut j: usize = 0;
    while j <= n
        invariant
            j <= n + 1,
            n == dims.len(),
            back.len() == n + 1,
            sizes.len() == j,
            forall|i: int| 0 <= i <= n ==> #[trigger] back[n - i] == product(dims@.skip(i)),
            forall|i: int| 0 <= i < j ==> #[trigger] sizes[i] == product(dims@.skip(i)),
        decreases n + 1 - j,
    {
        sizes.push(back[n - j]);
        j += 1;
    }
    proof {
        assert(dims@.skip(0) =~= dims@);
        assert(back[n - 0] == product(dims@.skip(0)));
        assert forall|k: int| 0 <= k <= dims.len() implies #[trigger] sizes[k] > 0 by {
            product_bounds(dims@, k);
        }
    }
    Some(sizes)
}

fn push_zeros<T: Copy>(acc: &mut Vec<T>, n: usize, zero: T)
    ensures
        final(acc)@ == old(acc)@ + zeros(n as nat, zero),
{
    let mut i: usize = 0;
    while i < n
        invariant
            i <= n,
            acc@ == old(acc)@ + zeros(i as nat, zero),
        decreases n - i,
    {
        acc.push(zero);
        assert(acc@ =~= old(acc)@ + zeros((i + 1) as nat, zero));
        i += 1;
    }
}

fn fill_from<T: Copy>(
    items: &Vec<Init<T>>,
    dims: &Vec<usize>,
    sizes: &Vec<usize>,
    from: usize,
    zero: T,
) -> (r: Result<Vec<T>, Error>)
    requires
        dims_ok(dims@),
        from < dims.len(),
        sizes.len() == dims.len() + 1,
        forall|k: int|
            0 <= k <= dims.len() ==> #[trigger] sizes[k] == product(dims@.skip(k)) && sizes[k] > 0,
    ensures
        match r {
            Ok(v) => fill(*items, 0, dims@.skip(from as int), zero, Seq::empty()) == Some(v@),
            Err(e) => e == Error::BadInitializer && fill(
                *items,
                0,
                dims@.skip(from as int),
                zero,
                Seq::empty(),
            ) is None,
        },
    decreases items,
{
    let n = dims.len();
    let total = sizes[from];
    let base = dims[n - 1];
    let ghost d = dims@.skip(from as int);
    let mut acc: Vec<T> = Vec::new();
    let mut k: usize = 0;
    proof {
        assert(d.last() == dims@.last());
        assert(dims@[n - 1] > 0);
    }
    while k < items.len()
        invariant
            k <= items.len(),
            n == dims.len(),
            from < n,
            dims_ok(dims@),
            sizes.len() == n + 1,
            forall|j: int|
                0 <= j <= n ==> #[trigger] sizes[j] == product(dims@.skip(j)) && sizes[j] > 0,
            d == dims@.skip(from as int),
            total == product(d),
            base == d.last(),
            base > 0,
            acc.len() <= total,
            fill(*items, 0, d, zero, Seq::empty()) == fill(*items, k as nat, d, zero, acc@),
        decreases items.len() - k,
    {
        match &items[k] {
            Init::Item(x) => {
                if acc.len() >= total {
                    assert(fill(*items, (k + 1) as nat, d, zero, acc@.push(*x)) is None);
                    return Err(Error::BadInitializer);
                }
                acc.push(*x);
            },
            Init::List(sub) => {
                if n - from < 2 {
                    return Err(Error::BadInitializer);
                }
                let ghost before = acc@;
                let rem = acc.len() % base;
                if rem != 0 {
                    let need = base - rem;
                    if need > total - acc.len() {
                        proof {
                            let start = padded(before, d.last() as nat, zero);
                            let begin = widen(d, start.len(), d.len() - 1);
                            assert(start.len() > product(d));
                            match fill(*sub, 0, d.skip(begin), zero, Seq::empty()) {
                                Some(part) => {
                                    assert(fill(*items, (k + 1) as nat, d, zero, start + part)
                                        is None);
                                },
                                None => {},
                            }
                        }
                        return Err(Error::BadInitializer);
                    }
                    push_zeros(&mut acc, need, zero);
                }
                assert(acc@ == padded(before, d.last() as nat, zero));
                let ghost start = acc@;
                let mut begin: usize = n - 1;
                proof {
                    assert(d.len() - 1 + from == begin);
                }
                while begin > from + 1 && acc.len() % sizes[begin - 1] == 0
                    invariant
                        from + 1 <= begin <= n - 1,
                        n == dims.len(),
                        dims_ok(dims@),
                        sizes.len() == n + 1,
                        forall|j: int|
                            0 <= j <= n ==> #[trigger] sizes[j] == product(dims@.skip(j))
                                && sizes[j] > 0,
                        d == dims@.skip(from as int),
                        acc@ == start,
                        widen(d, start.len(), d.len() - 1) == widen(d, start.len(), begin - from),
                    decreases begin,
                {
                    proof {
                        assert(d.skip(begin - from - 1) =~= dims@.skip(begin - 1));
                    }
                    begin -= 1;
                }
                proof {
                    if begin > from + 1 {
                        assert(d.skip(begin - from - 1) =~= dims@.skip(begin - 1));
                        product_bounds(dims@, begin - 1);
                    }
                    assert(widen(d, start.len(), d.len() - 1) == begin - from);
                    assert(d.skip(begin - from) =~= dims@.skip(begin as int));
                }
                let part = match fill_from(sub, dims, sizes, begin, zero) {
                    Ok(part) => part,
                    Err(e) => {
                        return Err(e);
                    },
                };
                if part.len() > total - acc.len() {
                    assert(fill(*items, (k + 1) as nat, d, zero, start + part@) is None);
                    return Err(Error::BadInitializer);
                }
                let mut part = part;
                let ghost got = part@;
                acc.append(&mut part);
                assert(acc@ == start + got);
            },
        }
        k += 1;
    }
    let rest = total - acc.len();
    push_zeros(&mut acc, rest, zero);
    Ok(acc)
}

/// Flattens an initializer for an array of the given dimensions, with `zero`
/// for what it leaves open.
pub fn flatten<T: Copy>(init: &Init<T>, dims: &Vec<usize>, zero: T) -> (r: Result<Vec<T>, Error>)
    ensures
        match r {
            Ok(v) => {
                &&& dims_ok(dims@)
                &&& flat(*init, dims@, zero) == Some(v@)
                &&& v.len() == product(dims@)
            },
            Err(e) => {
                &&& e == if dims_ok(dims@) {
                    Error::BadInitializer
                } else {
                    Error::BadDimension
                }
                &&& !dims_ok(dims@) || flat(*init, dims@, zero) is None
            },
        },
{
    let sizes = match suffix_products(dims) {
        Some(sizes) => sizes,
        None => {
            return Err(Error::BadDimension);
        },
    };
    match init {
        Init::Item(_) => Err(Error::BadInitializer),
        Init::List(items) => {
            if dims.len() == 0 {
                return Err(Error::BadInitializer);
            }
            proof {
                assert(dims@.skip(0) =~= dims@);
                flat_len(*init, dims@, zero);
            }
            fill_from(items, dims, &sizes, 0, zero)
        },
    }
}

} // verus!
