//! Ordered-slice utilities: keyed ordering, sorted insertion, re-sorting a
//! single disturbed element, index remapping after a move, strided traversal,
//! and checked element access.

use vstd::prelude::*;

verus! {

/// A type with a natural order given by an integer key.
pub trait Keyed: Sized {
    /// The key that orders values of the type.
    spec fn key(self) -> int;

    /// Compares two values by their keys.
    fn le_key(&self, other: &Self) -> (r: bool)
        ensures
            r == (self.key() <= other.key()),
    ;
}

impl Keyed for i64 {
    open spec fn key(self) -> int {
        self as int
    }

    fn le_key(&self, other: &Self) -> (r: bool) {
        *self <= *other
    }
}

/// A lexicographic pair collapses into a single key by scaling the major
/// component: comparing the keys is comparing the pairs.
pub proof fn lemma_pair_key_le(a1: int, b1: int, a2: int, b2: int, c: int)
    requires
        0 < c,
        0 <= b1 < c,
        0 <= b2 < c,
    ensures
        (a1 * c + b1 <= a2 * c + b2) <==> (a1 < a2 || (a1 == a2 && b1 <= b2)),
{
    if a1 < a2 {
        vstd::arithmetic::mul::lemma_mul_inequality(a1 + 1, a2, c);
        assert((a1 + 1) * c == a1 * c + c) by (nonlinear_arith);
    } else if a1 > a2 {
        vstd::arithmetic::mul::lemma_mul_inequality(a2 + 1, a1, c);
        assert((a2 + 1) * c == a2 * c + c) by (nonlinear_arith);
    }
}

/// The sequence is sorted by its elements' keys.
pub open spec fn sorted_by_key<T: Keyed>(s: Seq<T>) -> bool {
    forall|i: int, j: int| 0 <= i < j < s.len() ==> #[trigger] s[i].key() <= #[trigger] s[j].key()
}

/// The sequence is sorted by keys once the element at `except` is ignored.
pub open spec fn sorted_but_one<T: Keyed>(s: Seq<T>, except: int) -> bool {
    forall|i: int, j: int|
        0 <= i < j < s.len() && i != except && j != except
            ==> #[trigger] s[i].key() <= #[trigger] s[j].key()
}

/// An index that is out of bounds for a removal.
#[derive(Debug, Clone, Copy, PartialEq, Eq, Structural)]
pub struct RemoveError {
    pub index: usize,
    pub len: usize,
}

/// An index that is out of bounds for an insertion.
#[derive(Debug, Clone, Copy, PartialEq, Eq, Structural)]
pub enum InsertError {
    Index { index: usize, len: usize },
}

/// An index that is out of bounds for a re-sort.
#[derive(Debug, Clone, Copy, PartialEq, Eq, Structural)]
pub struct ReorderError {
    pub index: usize,
    pub len: usize,
}

/// An index that is out of bounds for a sorted overwrite.
#[derive(Debug, Clone, Copy, PartialEq, Eq, Structural)]
pub struct SetSortedError {
    pub index: usize,
    pub len: usize,
}

/// Removes the element at `index`; `Err` exactly when the index is out of bounds,
/// and then the vector is unchanged.
pub fn try_remove<T>(v: &mut Vec<T>, index: usize) -> (r: Result<T, RemoveError>)
    ensures
        r is Ok <==> index < old(v)@.len(),
        r is Ok ==> final(v)@ == old(v)@.remove(index as int) && r->Ok_0 == old(v)@[index as int],
        r is Err ==> final(v)@ == old(v)@ && r->Err_0 == (RemoveError {
            index,
            len: old(v)@.len() as usize,
        }),
{
    let len = v.len();
    if index >= len {
        return Err(RemoveError { index, len });
    }
    Ok(v.remove(index))
}

/// Removes the element at `index` by swapping the last element into its place;
/// `Err` exactly when the index is out of bounds, and then the vector is unchanged.
pub fn try_swap_remove<T>(v: &mut Vec<T>, index: usize) -> (r: Result<T, RemoveError>)
    ensures
        r is Ok <==> index < old(v)@.len(),
        r is Ok ==> final(v)@ == old(v)@.update(index as int, old(v)@.last()).drop_last()
            && r->Ok_0 == old(v)@[index as int],
        r is Err ==> final(v)@ == old(v)@ && r->Err_0 == (RemoveError {
            index,
            len: old(v)@.len() as usize,
        }),
{
    let len = v.len();
    if index >= len {
        return Err(RemoveError { index, len });
    }
    let r = v.swap_remove(index);
    proof {
        assert(final(v)@ =~= old(v)@.update(index as int, old(v)@.last()).drop_last());
    }
    Ok(r)
}

/// Inserts `element` at `index`; `Err` exactly when the index is past the end,
/// and then the vector is unchanged.
pub fn try_insert<T>(v: &mut Vec<T>, index: usize, element: T) -> (r: Result<(), InsertError>)
    ensures
        r is Ok <==> index <= old(v)@.len(),
        r is Ok ==> final(v)@ == old(v)@.insert(index as int, element),
        r is Err ==> final(v)@ == old(v)@ && r->Err_0 == (InsertError::Index {
            index,
            len: old(v)@.len() as usize,
        }),
{
    let len = v.len();
    if index > len {
        return Err(InsertError::Index { index, len });
    }
    v.insert(index, element);
    Ok(())
}

/// The position where a key belongs in a sorted sequence: the number of
/// elements whose key does not exceed it.
pub open spec fn insert_pos<T: Keyed>(s: Seq<T>, k: int) -> int
    decreases s.len(),
{
    if s.len() == 0 {
        0
    } else if s[0].key() <= k {
        1 + insert_pos(s.drop_first(), k)
    } else {
        0
    }
}

/// `insert_pos` marks the boundary: keys before it do not exceed `k`,
/// keys from it on are greater.
pub proof fn lemma_insert_pos_bounds<T: Keyed>(s: Seq<T>, k: int)
    ensures
        0 <= insert_pos(s, k) <= s.len(),
        forall|i: int| 0 <= i < insert_pos(s, k) ==> #[trigger] s[i].key() <= k,
        sorted_by_key(s) ==> forall|i: int|
            insert_pos(s, k) <= i < s.len() ==> #[trigger] s[i].key() > k,
    decreases s.len(),
{
    if s.len() > 0 {
        lemma_insert_pos_bounds(s.drop_first(), k);
        if s[0].key() <= k {
            assert forall|i: int| 0 <= i < insert_pos(s, k) implies #[trigger] s[i].key()
                <= k by {
                if i > 0 {
                    assert(s.drop_first()[i - 1] == s[i]);
                }
            }
            if sorted_by_key(s) {
                assert(sorted_by_key(s.drop_first())) by {
                    assert(forall|i: int, j: int|
                        0 <= i < j < s.drop_first().len()
                            ==> #[trigger] s.drop_first()[i].key()
                            <= #[trigger] s.drop_first()[j].key());
                }
                assert forall|i: int| insert_pos(s, k) <= i < s.len() implies #[trigger] s[i].key()
                    > k by {
                    assert(s.drop_first()[i - 1] == s[i]);
                }
            }
        } else {
            if sorted_by_key(s) {
                assert forall|i: int| 0 <= i < s.len() implies #[trigger] s[i].key() > k by {
                    if i > 0 {
                        assert(s[0].key() <= s[i].key());
                    }
                }
            }
        }
    }
}

/// Inserting an element at its boundary position keeps the sequence sorted.
pub proof fn lemma_sorted_insert<T: Keyed>(s: Seq<T>, x: T, p: int)
    requires
        sorted_by_key(s),
        p == insert_pos(s, x.key()),
    ensures
        sorted_by_key(s.insert(p, x)),
{
    lemma_insert_pos_bounds(s, x.key());
    let t = s.insert(p, x);
    assert forall|i: int, j: int| 0 <= i < j < t.len() implies #[trigger] t[i].key()
        <= #[trigger] t[j].key() by {
        if i < p && j > p {
            assert(t[i] == s[i] && t[j] == s[j - 1]);
        } else if i < p && j == p {
            assert(t[i] == s[i]);
        } else if i == p && j > p {
            assert(t[j] == s[j - 1]);
        } else if i > p && j > p {
            assert(t[i] == s[i - 1] && t[j] == s[j - 1]);
        }
    }
}

/// Removing any element from a sequence sorted but for that element leaves a
/// sorted sequence.
pub proof fn lemma_sorted_but_one_remove<T: Keyed>(s: Seq<T>, except: int)
    requires
        sorted_but_one(s, except),
        0 <= except < s.len(),
    ensures
        sorted_by_key(s.remove(except)),
{
    let t = s.remove(except);
    assert forall|i: int, j: int| 0 <= i < j < t.len() implies #[trigger] t[i].key()
        <= #[trigger] t[j].key() by {
        let si = if i < except { i } else { i + 1 };
        let sj = if j < except { j } else { j + 1 };
        assert(t[i] == s[si] && t[j] == s[sj]);
    }
}

/// In a sorted sequence the boundary position is determined: any `p` whose
/// prefix keys do not exceed `k` and whose suffix starts above `k` is
/// `insert_pos(s, k)`.
pub proof fn lemma_insert_pos_unique<T: Keyed>(s: Seq<T>, k: int, p: int)
    requires
        sorted_by_key(s),
        0 <= p <= s.len(),
        forall|i: int| 0 <= i < p ==> #[trigger] s[i].key() <= k,
        p < s.len() ==> s[p].key() > k,
    ensures
        p == insert_pos(s, k),
{
    lemma_insert_pos_bounds(s, k);
    let ip = insert_pos(s, k);
    if p < ip {
        assert(s[p].key() <= k);
    } else if p > ip {
        assert(s[ip].key() > k);
        assert(s[ip].key() <= k);
    }
}

/// Finds where `probe` belongs in the sorted vector: the first index whose key
/// exceeds the probe's (equal keys stay in front of the newcomer).
fn find_insert_pos<T: Keyed>(v: &Vec<T>, probe: &T) -> (r: usize)
    requires
        sorted_by_key(v@),
    ensures
        r == insert_pos(v@, probe.key()),
{
    let mut i: usize = 0;
    while i < v.len()
        invariant
            0 <= i <= v@.len(),
            sorted_by_key(v@),
            forall|j: int| 0 <= j < i ==> #[trigger] v@[j].key() <= probe.key(),
        decreases v@.len() - i,
    {
        if !v[i].le_key(probe) {
            proof {
                lemma_insert_pos_unique(v@, probe.key(), i as int);
            }
            return i;
        }
        i += 1;
    }
    proof {
        lemma_insert_pos_unique(v@, probe.key(), i as int);
    }
    i
}

/// Inserts `value` into the sorted vector at its ordered position and returns
/// that position; equal keys keep their order, the newcomer going last.
pub fn push_sorted<T: Keyed>(v: &mut Vec<T>, value: T) -> (r: usize)
    requires
        sorted_by_key(old(v)@),
    ensures
        r == insert_pos(old(v)@, value.key()),
        final(v)@ == old(v)@.insert(r as int, value),
        sorted_by_key(final(v)@),
{
    let ghost k = value.key();
    let pos = find_insert_pos(v, &value);
    proof {
        lemma_insert_pos_bounds(old(v)@, k);
        lemma_sorted_insert(old(v)@, value, pos as int);
    }
    v.insert(pos, value);
    pos
}

/// Restores sortedness after the element at `index` changed: the element is
/// moved to its ordered position, everything between shifting one place over.
/// `Err` exactly when the index is out of bounds, and then the vector is
/// unchanged.
pub fn reorder<T: Keyed>(v: &mut Vec<T>, index: usize) -> (r: Result<SliceMove, ReorderError>)
    requires
        (index as int) < old(v)@.len() ==> sorted_but_one(old(v)@, index as int),
    ensures
        r is Ok <==> index < old(v)@.len(),
        r is Err ==> final(v)@ == old(v)@ && r->Err_0 == (ReorderError {
            index,
            len: old(v)@.len() as usize,
        }),
        r is Ok ==> {
            let m = r->Ok_0;
            &&& m.from == index
            &&& m.to == insert_pos(
                old(v)@.remove(index as int),
                old(v)@[index as int].key(),
            )
            &&& final(v)@ == old(v)@.remove(index as int).insert(
                m.to as int,
                old(v)@[index as int],
            )
            &&& sorted_by_key(final(v)@)
        },
{
    let len = v.len();
    if index >= len {
        return Err(ReorderError { index, len });
    }
    let x = v.remove(index);
    proof {
        lemma_sorted_but_one_remove(old(v)@, index as int);
    }
    let to = find_insert_pos(v, &x);
    proof {
        lemma_insert_pos_bounds(v@, x.key());
        lemma_sorted_insert(v@, x, to as int);
    }
    v.insert(to, x);
    Ok(SliceMove { from: index, to })
}

/// Overwrites the element at `index` with `value` and restores sortedness.
/// `Err` exactly when the index is out of bounds, and then the vector is
/// unchanged.
pub fn set_sorted<T: Keyed>(v: &mut Vec<T>, index: usize, value: T) -> (r: Result<
    SliceMove,
    SetSortedError,
>)
    requires
        (index as int) < old(v)@.len() ==> sorted_by_key(old(v)@),
    ensures
        r is Ok <==> index < old(v)@.len(),
        r is Err ==> final(v)@ == old(v)@ && r->Err_0 == (SetSortedError {
            index,
            len: old(v)@.len() as usize,
        }),
        r is Ok ==> {
            let m = r->Ok_0;
            &&& m.from == index
            &&& m.to == insert_pos(old(v)@.remove(index as int), value.key())
            &&& final(v)@ == old(v)@.remove(index as int).insert(m.to as int, value)
            &&& sorted_by_key(final(v)@)
        },
{
    let len = v.len();
    if index >= len {
        return Err(SetSortedError { index, len });
    }
    let _ = v.remove(index);
    proof {
        assert(sorted_but_one(old(v)@, index as int));
        lemma_sorted_but_one_remove(old(v)@, index as int);
    }
    let to = find_insert_pos(v, &value);
    proof {
        lemma_insert_pos_bounds(v@, value.key());
        lemma_sorted_insert(v@, value, to as int);
    }
    v.insert(to, value);
    Ok(SliceMove { from: index, to })
}

/// The record of one element having moved `from` one index `to` another
/// within a slice, with everything between shifted one place over.
#[derive(Debug, Clone, Copy, PartialEq, Eq, Structural)]
pub struct SliceMove {
    pub from: usize,
    pub to: usize,
}

impl SliceMove {
    /// Where an index into the old arrangement points after the move: the
    /// moved element's index follows it, everything strictly between the two
    /// places — the landing place included — shifts one towards the source.
    pub open spec fn remap(self, id: int) -> int {
        if id == self.from {
            self.to as int
        } else if self.to < self.from && self.to <= id < self.from {
            id + 1
        } else if self.to > self.from && self.from < id <= self.to {
            id - 1
        } else {
            id
        }
    }

    /// Remaps every index in `ids` through the move, so stored indices keep
    /// pointing at the same logical elements.
    pub fn apply(&self, ids: &mut Vec<usize>)
        requires
            forall|i: int| 0 <= i < old(ids)@.len() ==> #[trigger] old(ids)@[i] < usize::MAX,
        ensures
            final(ids)@.len() == old(ids)@.len(),
            forall|i: int|
                0 <= i < old(ids)@.len()
                    ==> #[trigger] final(ids)@[i] == self.remap(old(ids)@[i] as int),
    {
        let n = ids.len();
        let mut i: usize = 0;
        while i < n
            invariant
                n == old(ids)@.len(),
                0 <= i <= n,
                ids@.len() == n,
                forall|j: int| 0 <= j < old(ids)@.len() ==> #[trigger] old(ids)@[j] < usize::MAX,
                forall|j: int| i <= j < n ==> #[trigger] ids@[j] == old(ids)@[j],
                forall|j: int|
                    0 <= j < i ==> #[trigger] ids@[j] == self.remap(old(ids)@[j] as int),
            decreases n - i,
        {
            let id = ids[i];
            if id == self.from {
                ids.set(i, self.to);
            } else if self.to < self.from && self.to <= id && id < self.from {
                ids.set(i, id + 1);
            } else if self.to > self.from && self.from < id && id <= self.to {
                ids.set(i, id - 1);
            }
            i += 1;
        }
    }
}

/// Whether the half-open ranges `[a_start, a_end)` and `[b_start, b_end)`
/// overlap, in the sense of either containing an endpoint of the other.
pub fn range_overlap(a_start: i64, a_end: i64, b_start: i64, b_end: i64) -> (r: bool)
    ensures
        r == range_overlap_spec(a_start as int, a_end as int, b_start as int, b_end as int),
{
    (a_start <= b_start && b_start < a_end) || (a_start <= b_end && b_end < a_end) || (b_start
        <= a_start && a_start < b_end)
}

/// What [`range_overlap`] returns.
pub open spec fn range_overlap_spec(a_start: int, a_end: int, b_start: int, b_end: int) -> bool {
    ||| a_start <= b_start < a_end
    ||| a_start <= b_end < a_end
    ||| b_start <= a_start < b_end
}

/// Whether the closed ranges `[a_start, a_end]` and `[b_start, b_end]`
/// overlap, in the same endpoint sense.
pub fn range_overlap_incl(a_start: i64, a_end: i64, b_start: i64, b_end: i64) -> (r: bool)
    ensures
        r == ((a_start <= b_start <= a_end) || (a_start <= b_end <= a_end) || (b_start <= a_start
            <= b_end)),
{
    (a_start <= b_start && b_start <= a_end) || (a_start <= b_end && b_end <= a_end) || (b_start
        <= a_start && a_start <= b_end)
}

/// The element at `id`, or the last element when `id` runs past the end.
pub fn get_saturating<T: Copy>(v: &Vec<T>, id: usize) -> (r: T)
    requires
        v@.len() > 0,
    ensures
        r == v@[if id < v@.len() {
            id as int
        } else {
            v@.len() - 1
        }],
{
    if id < v.len() {
        v[id]
    } else {
        v[v.len() - 1]
    }
}

/// The element at `id` taken modulo the length.
pub fn get_wrapping<T: Copy>(v: &Vec<T>, id: usize) -> (r: T)
    requires
        v@.len() > 0,
    ensures
        r == v@[id as int % v@.len() as int],
{
    v[id % v.len()]
}

/// Rounding to a multiple of a positive step.
pub trait RoundTo: Sized {
    /// The value as a plain integer (of the type's own unit).
    spec fn round_val(self) -> int;

    /// The largest multiple of `step` not above the value.
    fn floor_to(self, step: Self) -> (r: Self)
        requires
            0 <= self.round_val(),
            0 < step.round_val(),
        ensures
            r.round_val() == self.round_val() - self.round_val() % step.round_val(),
    ;

    /// The smallest multiple of `step` not below the value.
    fn ceil_to(self, step: Self) -> (r: Self)
        requires
            0 <= self.round_val(),
            0 < step.round_val(),
            self.round_val() + step.round_val() <= i64::MAX as int,
        ensures
            r.round_val() == self.round_val() + (step.round_val() - self.round_val()
                % step.round_val()) % step.round_val(),
    ;
}

/// The elements of `s` taken with stride `n`, starting at index `i`.
pub open spec fn stride_seq<T>(s: Seq<T>, n: int, i: int) -> Seq<T>
    decreases s.len() + n - i,
        when 1 <= n && 0 <= i
{
    if n < 1 || i < 0 || i >= s.len() {
        Seq::empty()
    } else {
        seq![s[i]] + stride_seq(s, n, i + n)
    }
}

/// The strided columns `off`, `off + 1`, ..., `n - 1` of `s`, concatenated.
pub open spec fn transposed_from<T>(s: Seq<T>, n: int, off: int) -> Seq<T>
    decreases n - off,
        when 0 <= off
{
    if off < 0 || off >= n {
        Seq::empty()
    } else {
        stride_seq(s, n, off) + transposed_from(s, n, off + 1)
    }
}

/// The transposition of `s` read with stride `n`: first every `n`-th element
/// starting at 0, then every `n`-th starting at 1, and so on.
pub open spec fn transposed<T>(s: Seq<T>, n: int) -> Seq<T> {
    transposed_from(s, n, 0)
}

/// Collects every `n`-th element of `data`, column by column: indices
/// `0, n, 2n, ...`, then `1, n + 1, ...`, through column `n - 1`.
pub fn every_nth<T: Copy>(data: &Vec<T>, n: usize) -> (r: Vec<T>)
    requires
        1 <= n,
        data@.len() + n <= usize::MAX,
    ensures
        r@ == transposed(data@, n as int),
{
    let ghost total = transposed(data@, n as int);
    let mut r: Vec<T> = Vec::new();
    let mut off: usize = 0;
    while off < n
        invariant
            1 <= n,
            0 <= off <= n,
            data@.len() + n <= usize::MAX,
            r@ + transposed_from(data@, n as int, off as int) == total,
            total == transposed(data@, n as int),
        decreases n - off,
    {
        let mut i: usize = off;
        proof {
            assert(transposed_from(data@, n as int, off as int) == stride_seq(
                data@,
                n as int,
                off as int,
            ) + transposed_from(data@, n as int, off as int + 1));
        }
        while i < data.len()
            invariant
                1 <= n,
                0 <= off < n,
                off <= i,
                data@.len() + n <= usize::MAX,
                r@ + stride_seq(data@, n as int, i as int) + transposed_from(
                    data@,
                    n as int,
                    off as int + 1,
                ) == total,
            decreases data@.len() + n - i,
        {
            let ghost r_before = r@;
            r.push(data[i]);
            proof {
                assert(stride_seq(data@, n as int, i as int) == seq![data@[i as int]]
                    + stride_seq(data@, n as int, i as int + n as int));
                assert(r@ + stride_seq(data@, n as int, i as int + n as int) =~= r_before
                    + stride_seq(data@, n as int, i as int));
                assert(r@ + stride_seq(data@, n as int, i as int + n as int) + transposed_from(
                    data@,
                    n as int,
                    off as int + 1,
                ) =~= r_before + stride_seq(data@, n as int, i as int) + transposed_from(
                    data@,
                    n as int,
                    off as int + 1,
                ));
            }
            i += n;
        }
        proof {
            assert(stride_seq(data@, n as int, i as int) == Seq::<T>::empty());
            assert(r@ + transposed_from(data@, n as int, off as int + 1) =~= r@ + stride_seq(
                data@,
                n as int,
                i as int,
            ) + transposed_from(data@, n as int, off as int + 1));
        }
        off += 1;
    }
    proof {
        assert(transposed_from(data@, n as int, off as int) == Seq::<T>::empty());
        assert(r@ =~= r@ + transposed_from(data@, n as int, off as int));
    }
    r
}

/// A strided traversal of a snapshot of a slice: yields the element at
/// `state`, then steps by `n`; at the end of a column it starts the next one,
/// and it stops after column `n - 1`.
pub struct EveryNth<T> {
    pub data: Vec<T>,
    pub n: usize,
    pub state: usize,
    pub off: usize,
}

impl<T: Copy> EveryNth<T> {
    /// Bounds every traversal keeps: the column index never passes `n`, and
    /// the cursor stays within one stride of the data.
    pub open spec fn wf(self) -> bool {
        &&& 1 <= self.n
        &&& self.off <= self.n
        &&& self.state <= self.data@.len() + 2 * self.n
        &&& self.data@.len() + 2 * self.n <= usize::MAX
    }

    /// Starts a traversal of `data` with stride `n`.
    pub fn new(data: Vec<T>, n: usize) -> (r: Self)
        requires
            1 <= n,
            data@.len() + 2 * n <= usize::MAX,
        ensures
            r.wf(),
            r.data == data,
            r.n == n,
            r.state == 0,
            r.off == 0,
    {
        EveryNth { data, n, state: 0, off: 0 }
    }

    /// Yields the next element of the traversal, or `None` once every column
    /// has been walked.
    pub fn next(&mut self) -> (r: Option<T>)
        requires
            old(self).wf(),
        ensures
            final(self).wf(),
            final(self).data == old(self).data,
            final(self).n == old(self).n,
            old(self).state < old(self).data@.len() ==> {
                &&& r == Some(old(self).data@[old(self).state as int])
                &&& final(self).state == old(self).state + old(self).n
                &&& final(self).off == old(self).off
            },
            old(self).state >= old(self).data@.len() && old(self).off + 1 >= old(self).n ==> {
                &&& r is None
                &&& final(self).off == old(self).n
            },
            old(self).state >= old(self).data@.len() && old(self).off + 1 < old(self).n ==> {
                &&& final(self).off == old(self).off + 1
                &&& final(self).state == old(self).off + 1 + old(self).n
                &&& r == if old(self).off + 1 < old(self).data@.len() {
                    Some(old(self).data@[old(self).off + 1])
                } else {
                    Option::<T>::None
                }
            },
    {
        if self.state < self.data.len() {
            let res = self.data[self.state];
            self.state = self.state + self.n;
            Some(res)
        } else if self.off + 1 >= self.n {
            self.off = self.n;
            None
        } else {
            self.off = self.off + 1;
            self.state = self.off + self.n;
            if self.off < self.data.len() {
                Some(self.data[self.off])
            } else {
                None
            }
        }
    }
}

/// A collection whose elements can be read out column by column with a
/// stride.
pub trait ToEveryNth<T>: Sized {
    /// The elements as a sequence.
    spec fn items(&self) -> Seq<T>;

    /// Collects every `n`-th element, column by column, like [`every_nth`].
    fn every_nth_items(&self, n: usize) -> (r: Vec<T>)
        requires
            1 <= n,
            self.items().len() + n <= usize::MAX,
        ensures
            r@ == transposed(self.items(), n as int),
    ;
}

impl<T: Copy> ToEveryNth<T> for Vec<T> {
    open spec fn items(&self) -> Seq<T> {
        self@
    }

    fn every_nth_items(&self, n: usize) -> (r: Vec<T>) {
        every_nth(self, n)
    }
}

/// The strided traversal's writing counterpart: it walks the same column
/// order as [`EveryNth`] but yields positions, so the caller writes through
/// them into its own storage.
pub struct EveryNthMut {
    pub len: usize,
    pub n: usize,
    pub state: usize,
    pub off: usize,
}

impl EveryNthMut {
    /// Bounds every traversal keeps.
    pub open spec fn wf(self) -> bool {
        &&& 1 <= self.n
        &&& self.off <= self.n
        &&& self.state <= self.len + 2 * self.n
        &&& self.len + 2 * self.n <= usize::MAX
    }

    /// Starts a strided walk over `len` positions with stride `n`.
    pub fn new(len: usize, n: usize) -> (r: Self)
        requires
            1 <= n,
            len + 2 * n <= usize::MAX,
        ensures
            r.wf(),
            r.len == len,
            r.n == n,
            r.state == 0,
            r.off == 0,
    {
        EveryNthMut { len, n, state: 0, off: 0 }
    }

    /// Yields the next position of the traversal, or `None` once every
    /// column has been walked.
    pub fn next_index(&mut self) -> (r: Option<usize>)
        requires
            old(self).wf(),
        ensures
            final(self).wf(),
            final(self).len == old(self).len,
            final(self).n == old(self).n,
            r is Some ==> r->0 < old(self).len,
            old(self).state < old(self).len ==> {
                &&& r == Some(old(self).state)
                &&& final(self).state == old(self).state + old(self).n
                &&& final(self).off == old(self).off
            },
            old(self).state >= old(self).len && old(self).off + 1 >= old(self).n ==> {
                &&& r is None
                &&& final(self).off == old(self).n
            },
            old(self).state >= old(self).len && old(self).off + 1 < old(self).n ==> {
                &&& final(self).off == old(self).off + 1
                &&& final(self).state == old(self).off + 1 + old(self).n
                &&& r == if old(self).off + 1 < old(self).len {
                    Some((old(self).off + 1) as usize)
                } else {
                    Option::<usize>::None
                }
            },
    {
        if self.state < self.len {
            let res = self.state;
            self.state = self.state + self.n;
            Some(res)
        } else if self.off + 1 >= self.n {
            self.off = self.n;
            None
        } else {
            self.off = self.off + 1;
            self.state = self.off + self.n;
            if self.off < self.len {
                Some(self.off)
            } else {
                None
            }
        }
    }
}

impl RoundTo for i64 {
    open spec fn round_val(self) -> int {
        self as int
    }

    fn floor_to(self, step: Self) -> (r: Self) {
        self - self % step
    }

    fn ceil_to(self, step: Self) -> (r: Self) {
        let m = self % step;
        proof {
            vstd::arithmetic::div_mod::lemma_mod_bound(self as int, step as int);
            if m != 0 {
                vstd::arithmetic::div_mod::lemma_small_mod(
                    (step - m) as nat,
                    step as nat,
                );
            } else {
                vstd::arithmetic::div_mod::lemma_mod_self_0(step as int);
            }
        }
        if m == 0 {
            self
        } else {
            self + (step - m)
        }
    }
}

} // verus!
