use std::ops::Range;
use vstd::prelude::*;
use vstd::slice::slice_subrange;

verus! {

/// Why a ragged buffer could not be built or read.
#[derive(Debug, Clone, Copy, PartialEq, Eq, Structural)]
pub enum RaggedError {
    /// The row asked for was never recorded.
    IndexOutOfRange,
    /// A row length is negative.
    NegativeLength,
    /// The row lengths do not add up to the number of items in the data.
    LengthMismatch,
    /// The data does not hold a whole number of items.
    PartialItem,
}

/// A batch of rows of different lengths in one flat array. An item is
/// `features` consecutive elements; a row is a run of items, recorded as a
/// half-open range of item indices. Rows lie end to end in the order in which
/// they were appended, from item 0 on.
#[derive(Debug)]
pub struct RaggedBuffer<T> {
    data: Vec<T>,
    subarrays: Vec<Range<usize>>,
    features: usize,
    items: usize,
}

/// The sum of the first `k` row lengths.
pub open spec fn prefix_sum(lengths: Seq<i64>, k: int) -> int
    decreases k,
{
    if k <= 0 {
        0
    } else {
        prefix_sum(lengths, k - 1) + lengths[k - 1]
    }
}

/// With no negative length, the partial sums never decrease.
pub proof fn lemma_prefix_sum_monotone(lengths: Seq<i64>, j: int, k: int)
    requires
        forall|i: int| 0 <= i < lengths.len() ==> lengths[i] >= 0,
        0 <= j <= k <= lengths.len(),
    ensures
        0 <= prefix_sum(lengths, j) <= prefix_sum(lengths, k),
    decreases k,
{
    if j < k {
        lemma_prefix_sum_monotone(lengths, j, k - 1);
    } else if k > 0 {
        lemma_prefix_sum_monotone(lengths, j - 1, k - 1);
    }
}

/// The rows of a buffer after the rows of `appended` were appended to it one
/// after another.
pub open spec fn rows_after<T>(rows: Seq<Seq<T>>, appended: Seq<Seq<T>>) -> Seq<Seq<T>>
    decreases appended.len(),
{
    if appended.len() == 0 {
        rows
    } else {
        rows_after(rows, appended.drop_last()).push(appended.last())
    }
}

/// Slicing returns what was appended: after any number of rows were appended
/// to a buffer, the row at the place of the `i`-th of them is that row, and
/// the rows that the buffer held before are where and what they were.
pub proof fn lemma_appended_rows_come_back<T>(rows: Seq<Seq<T>>, appended: Seq<Seq<T>>)
    ensures
        rows_after(rows, appended).len() == rows.len() + appended.len(),
        forall|i: int| 0 <= i < rows.len() ==> #[trigger] rows_after(rows, appended)[i] == rows[i],
        forall|i: int|
            0 <= i < appended.len() ==> #[trigger] rows_after(rows, appended)[rows.len() + i]
                == appended[i],
    decreases appended.len(),
{
    if appended.len() > 0 {
        lemma_appended_rows_come_back(rows, appended.drop_last());
        assert forall|i: int| 0 <= i < appended.len() implies #[trigger] rows_after(
            rows,
            appended,
        )[rows.len() + i] == appended[i] by {
            if i < appended.len() - 1 {
                assert(rows_after(rows, appended.drop_last())[rows.len() + i]
                    == appended.drop_last()[i]);
            }
        }
    }
}

impl<T> RaggedBuffer<T> {
    /// Holds of every buffer that exists at run time.
    #[verifier::type_invariant]
    pub closed spec fn well_formed(&self) -> bool {
        &&& self.items * self.features == self.data@.len()
        &&& forall|i: int|
            0 <= i < self.subarrays@.len() ==> (#[trigger] self.subarrays@[i]).start
                <= self.subarrays@[i].end <= self.items
        &&& forall|i: int, j: int|
            0 <= i && j == i + 1 && j < self.subarrays@.len() ==> (
            #[trigger] self.subarrays@[i]).end == (#[trigger] self.subarrays@[j]).start
        &&& self.subarrays@.len() > 0 ==> self.subarrays@[0].start == 0
            && self.subarrays@.last().end == self.items
        &&& self.subarrays@.len() == 0 ==> self.items == 0
    }

    /// The flat array: every row's elements, end to end.
    pub closed spec fn flat(&self) -> Seq<T> {
        self.data@
    }

    /// The width of an item.
    pub closed spec fn width(&self) -> nat {
        self.features as nat
    }

    /// The number of items held.
    pub closed spec fn item_count(&self) -> nat {
        self.items as nat
    }

    /// The recorded ranges of item indices, one per row: start and end.
    pub closed spec fn ranges(&self) -> Seq<(int, int)> {
        Seq::new(
            self.subarrays@.len(),
            |i: int| (self.subarrays@[i].start as int, self.subarrays@[i].end as int),
        )
    }

    /// The rows: for each range, the elements of its items.
    pub open spec fn rows(&self) -> Seq<Seq<T>> {
        Seq::new(
            self.ranges().len(),
            |i: int|
                self.flat().subrange(
                    self.ranges()[i].0 * self.width(),
                    self.ranges()[i].1 * self.width(),
                ),
        )
    }

    /// The ranges lie end to end from item 0 up to the number of items, and
    /// the flat array holds exactly those items.
    pub proof fn lemma_layout(&self)
        requires
            self.well_formed(),
        ensures
            self.item_count() * self.width() == self.flat().len(),
            forall|i: int|
                0 <= i < self.ranges().len() ==> 0 <= (#[trigger] self.ranges()[i]).0
                    <= self.ranges()[i].1 <= self.item_count(),
            forall|i: int, j: int|
                0 <= i && j == i + 1 && j < self.ranges().len() ==> (#[trigger] self.ranges()[i]).1
                    == (#[trigger] self.ranges()[j]).0,
            self.ranges().len() > 0 ==> self.ranges()[0].0 == 0 && self.ranges().last().1
                == self.item_count(),
            self.ranges().len() == 0 ==> self.item_count() == 0,
    {
        assert forall|i: int| 0 <= i < self.ranges().len() implies 0 <= (
        #[trigger] self.ranges()[i]).0 <= self.ranges()[i].1 <= self.item_count() by {
            let r = self.subarrays@[i];
            assert(r.start <= r.end <= self.items);
        }
        assert forall|i: int, j: int|
            0 <= i && j == i + 1 && j < self.ranges().len() implies (
        #[trigger] self.ranges()[i]).1 == (#[trigger] self.ranges()[j]).0 by {
            assert(self.subarrays@[i].end == self.subarrays@[j].start);
        }
    }

    /// What was packed comes out again: the flat array is the rows end to end
    /// in the order in which they were appended, with nothing between them,
    /// so each range cuts out of it exactly the row that was appended.
    pub proof fn lemma_rows_end_to_end(&self)
        requires
            self.well_formed(),
        ensures
            self.rows().flatten() == self.flat(),
    {
        self.lemma_packed_prefix(self.ranges().len() as int);
        assert(self.rows().take(self.rows().len() as int) =~= self.rows());
        self.lemma_layout();
        if self.ranges().len() > 0 {
            assert(self.flat().subrange(0, self.flat().len() as int) =~= self.flat());
        } else {
            assert(self.flat() =~= Seq::<T>::empty());
        }
    }

    proof fn lemma_packed_prefix(&self, k: int)
        requires
            self.well_formed(),
            0 <= k <= self.ranges().len(),
        ensures
            k == 0 ==> self.rows().take(k).flatten() == Seq::<T>::empty(),
            k > 0 ==> self.rows().take(k).flatten() == self.flat().subrange(
                0,
                self.ranges()[k - 1].1 * self.width(),
            ),
        decreases k,
    {
        if k == 0 {
            assert(self.rows().take(0) =~= Seq::<Seq<T>>::empty());
        } else {
            self.lemma_packed_prefix(k - 1);
            self.lemma_layout();
            self.lemma_row_bounds(k - 1);
            let front = self.rows().take(k - 1);
            let row = self.rows()[k - 1];
            assert(self.rows().take(k) =~= front.push(row));
            front.lemma_flatten_push(row);
            let lo = self.ranges()[k - 1].0 * self.width();
            let hi = self.ranges()[k - 1].1 * self.width();
            if k == 1 {
                assert(lo == 0) by (nonlinear_arith)
                    requires
                        lo == self.ranges()[k - 1].0 * self.width(),
                        self.ranges()[k - 1].0 == 0,
                ;
                assert(Seq::<T>::empty() + row =~= self.flat().subrange(0, hi));
            } else {
                assert(self.ranges()[k - 2].1 == self.ranges()[k - 1].0);
                assert(self.flat().subrange(0, lo) + row =~= self.flat().subrange(0, hi));
            }
        }
    }

    /// Row `i` lies inside the flat array.
    pub proof fn lemma_row_bounds(&self, i: int)
        requires
            self.well_formed(),
            0 <= i < self.ranges().len(),
        ensures
            0 <= self.ranges()[i].0 * self.width() <= self.ranges()[i].1 * self.width()
                <= self.flat().len(),
            self.rows()[i].len() == (self.ranges()[i].1 - self.ranges()[i].0) * self.width(),
    {
        let r = self.subarrays@[i];
        let f = self.features as int;
        let n = self.items as int;
        assert(r.start <= r.end <= self.items);
        assert(0 <= r.start * f <= r.end * f <= n * f) by (nonlinear_arith)
            requires
                0 <= r.start <= r.end <= n,
                f >= 0,
        ;
        assert((r.end - r.start) * f == r.end * f - r.start * f) by (nonlinear_arith);
    }
}

impl<T: Copy> RaggedBuffer<T> {
    /// An empty buffer for items of the given width.
    pub fn new(features: usize) -> (buffer: Self)
        ensures
            buffer.width() == features,
            buffer.flat() == Seq::<T>::empty(),
            buffer.ranges() == Seq::<(int, int)>::empty(),
            buffer.item_count() == 0,
            buffer.rows() == Seq::<Seq<T>>::empty(),
    {
        let buffer = RaggedBuffer { data: Vec::new(), subarrays: Vec::new(), features, items: 0 };
        assert(buffer.ranges() =~= Seq::<(int, int)>::empty());
        assert(buffer.rows() =~= Seq::<Seq<T>>::empty());
        buffer
    }

    /// Rebuilds the rows from a flat array and one length per row, counted in
    /// items: row `i` starts where row `i - 1` ends, the first at item 0.
    pub fn from_lengths(data: Vec<T>, lengths: &[i64], features: usize) -> (buffer: Result<
        Self,
        RaggedError,
    >)
        ensures
            match buffer {
                Ok(b) => {
                    &&& forall|i: int| 0 <= i < lengths@.len() ==> lengths@[i] >= 0
                    &&& prefix_sum(lengths@, lengths@.len() as int) * features == data@.len()
                    &&& b.flat() == data@
                    &&& b.width() == features
                    &&& b.item_count() == prefix_sum(lengths@, lengths@.len() as int)
                    &&& b.ranges().len() == lengths@.len()
                    &&& forall|i: int|
                        0 <= i < lengths@.len() ==> #[trigger] b.ranges()[i] == (
                            prefix_sum(lengths@, i),
                            prefix_sum(lengths@, i + 1),
                        )
                },
                Err(RaggedError::NegativeLength) => exists|i: int|
                    0 <= i < lengths@.len() && lengths@[i] < 0,
                Err(RaggedError::LengthMismatch) => {
                    &&& forall|i: int| 0 <= i < lengths@.len() ==> lengths@[i] >= 0
                    &&& (prefix_sum(lengths@, lengths@.len() as int) * features != data@.len()
                        || prefix_sum(lengths@, lengths@.len() as int) > usize::MAX)
                },
                Err(_) => false,
            },
    {
        let n = lengths.len();
        let mut j: usize = 0;
        while j < n
            invariant
                j <= n,
                n == lengths@.len(),
                forall|i: int| 0 <= i < j ==> lengths@[i] >= 0,
            decreases n - j,
        {
            if lengths[j] < 0 {
                return Err(RaggedError::NegativeLength);
            }
            j += 1;
        }
        let mut subarrays: Vec<Range<usize>> = Vec::new();
        let mut items: usize = 0;
        let mut k: usize = 0;
        while k < n
            invariant
                k <= n,
                n == lengths@.len(),
                forall|i: int| 0 <= i < n ==> lengths@[i] >= 0,
                items == prefix_sum(lengths@, k as int),
                subarrays@.len() == k,
                forall|i: int|
                    0 <= i < k ==> (#[trigger] subarrays@[i]).start == prefix_sum(lengths@, i)
                        && subarrays@[i].end == prefix_sum(lengths@, i + 1),
            decreases n - k,
        {
            let len = lengths[k];
            proof {
                lemma_prefix_sum_monotone(lengths@, k as int + 1, n as int);
            }
            if len as u64 > usize::MAX as u64 {
                return Err(RaggedError::LengthMismatch);
            }
            let end = match items.checked_add(len as usize) {
                Some(e) => e,
                None => {
                    return Err(RaggedError::LengthMismatch);
                },
            };
            subarrays.push(items..end);
            items = end;
            k += 1;
        }
        let total = data.len();
        let fits = match items.checked_mul(features) {
            Some(elements) => elements == total,
            None => false,
        };
        if !fits {
            return Err(RaggedError::LengthMismatch);
        }
        proof {
            assert forall|i: int| 0 <= i < subarrays@.len() implies (
            #[trigger] subarrays@[i]).start <= subarrays@[i].end <= items by {
                lemma_prefix_sum_monotone(lengths@, i, i + 1);
                lemma_prefix_sum_monotone(lengths@, i + 1, n as int);
            }
        }
        let buffer = RaggedBuffer { data, subarrays, features, items };
        proof {
            assert forall|i: int| 0 <= i < lengths@.len() implies #[trigger] buffer.ranges()[i]
                == (prefix_sum(lengths@, i), prefix_sum(lengths@, i + 1)) by {
                assert(buffer.subarrays@[i].start == prefix_sum(lengths@, i));
            }
        }
        Ok(buffer)
    }

    /// The width of an item.
    pub fn features(&self) -> (features: usize)
        ensures
            features == self.width(),
    {
        self.features
    }

    /// The number of items held.
    pub fn items(&self) -> (items: usize)
        ensures
            items == self.item_count(),
    {
        self.items
    }

    /// The number of rows.
    pub fn len(&self) -> (rows: usize)
        ensures
            rows == self.ranges().len(),
            rows == self.rows().len(),
    {
        self.subarrays.len()
    }

    /// The flat array.
    pub fn data(&self) -> (data: &Vec<T>)
        ensures
            data@ == self.flat(),
    {
        &self.data
    }

    /// The range of item indices of row `i`, as start and end.
    pub fn subarray(&self, i: usize) -> (range: Result<(usize, usize), RaggedError>)
        ensures
            match range {
                Ok(r) => i < self.ranges().len() && (r.0 as int, r.1 as int) == self.ranges()[i as int],
                Err(e) => i >= self.ranges().len() && e == RaggedError::IndexOutOfRange,
            },
    {
        if i < self.subarrays.len() {
            Ok((self.subarrays[i].start, self.subarrays[i].end))
        } else {
            Err(RaggedError::IndexOutOfRange)
        }
    }

    /// Appends a row: its elements go to the end of the flat array, and the
    /// range from the old number of items to the new one is recorded.
    pub fn push(&mut self, row: &[T])
        requires
            old(self).width() > 0,
            row@.len() % old(self).width() == 0,
        ensures
            final(self).width() == old(self).width(),
            final(self).flat() == old(self).flat() + row@,
            final(self).ranges() == old(self).ranges().push(
                (
                    old(self).item_count() as int,
                    (old(self).item_count() + row@.len() / old(self).width()) as int,
                ),
            ),
            final(self).item_count() == old(self).item_count() + row@.len() / old(self).width(),
            final(self).rows() == old(self).rows().push(row@),
    {
        proof {
            use_type_invariant(&*self);
        }
        let ghost before = *self;
        let mut taken = RaggedBuffer {
            data: Vec::new(),
            subarrays: Vec::new(),
            features: self.features,
            items: 0,
        };
        std::mem::swap(self, &mut taken);
        let features = taken.features;
        let items = taken.items;
        let mut data = taken.data;
        let mut subarrays = taken.subarrays;
        let mut k: usize = 0;
        while k < row.len()
            invariant
                k <= row@.len(),
                data@ == before.data@ + row@.take(k as int),
            decreases row.len() - k,
        {
            data.push(row[k]);
            assert(row@.take(k as int + 1) =~= row@.take(k as int).push(row@[k as int]));
            k += 1;
        }
        assert(row@.take(row@.len() as int) =~= row@);
        let added = row.len() / features;
        proof {
            Self::lemma_items_after_push(
                items as int,
                features as int,
                row@.len() as int,
                data@.len() as int,
            );
        }
        let total = data.len();
        assert(items + added <= total);
        let end = items + added;
        subarrays.push(items..end);
        *self = RaggedBuffer { data, subarrays, features, items: end };
        proof {
            assert(self.ranges() =~= before.ranges().push((items as int, end as int)));
            Self::lemma_rows_after_push(before, *self, row@);
        }
    }

    proof fn lemma_items_after_push(items: int, features: int, row_len: int, new_len: int)
        requires
            items >= 0,
            features > 0,
            row_len >= 0,
            row_len % features == 0,
            new_len == items * features + row_len,
        ensures
            (items + row_len / features) * features == new_len,
            0 <= items + row_len / features <= new_len,
            row_len / features >= 0,
    {
        let added = row_len / features;
        vstd::arithmetic::div_mod::lemma_fundamental_div_mod(row_len, features);
        vstd::arithmetic::div_mod::lemma_div_pos_is_pos(row_len, features);
        assert((items + added) * features == items * features + features * added)
            by (nonlinear_arith);
        assert(items + added <= (items + added) * features) by (nonlinear_arith)
            requires
                features >= 1,
                items + added >= 0,
        ;
    }

    proof fn lemma_rows_after_push(before: Self, after: Self, row: Seq<T>)
        requires
            before.well_formed(),
            after.flat() == before.flat() + row,
            after.width() == before.width(),
            after.ranges().len() == before.ranges().len() + 1,
            forall|i: int|
                0 <= i < before.ranges().len() ==> after.ranges()[i] == before.ranges()[i],
            after.ranges().last().0 == before.item_count(),
            after.ranges().last().1 * after.width() == after.flat().len(),
        ensures
            after.rows() == before.rows().push(row),
    {
        before.lemma_layout();
        assert forall|i: int| 0 <= i < after.rows().len() implies after.rows()[i]
            == before.rows().push(row)[i] by {
            if i < before.ranges().len() {
                before.lemma_row_bounds(i);
                assert(after.ranges()[i] == before.ranges()[i]);
                assert(after.rows()[i] =~= before.rows()[i]);
            } else {
                assert(after.ranges()[i] == after.ranges().last());
                assert(after.rows()[i] =~= row);
            }
        }
        assert(after.rows() =~= before.rows().push(row));
    }

    /// Row `i`, where it was recorded.
    pub fn slice(&self, i: usize) -> (row: Result<&[T], RaggedError>)
        ensures
            match row {
                Ok(r) => i < self.rows().len() && r@ == self.rows()[i as int],
                Err(e) => i >= self.rows().len() && e == RaggedError::IndexOutOfRange,
            },
    {
        proof {
            use_type_invariant(&*self);
        }
        if i >= self.subarrays.len() {
            return Err(RaggedError::IndexOutOfRange);
        }
        let start = self.subarrays[i].start;
        let end = self.subarrays[i].end;
        let total = self.data.len();
        proof {
            assert(self.ranges()[i as int] == (start as int, end as int));
            self.lemma_row_bounds(i as int);
            assert(start * self.features <= end * self.features <= total);
        }
        Ok(slice_subrange(self.data.as_slice(), start * self.features, end * self.features))
    }
}

} // verus!
