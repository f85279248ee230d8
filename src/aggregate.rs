//! The position-keyed dataset: one bin per distinct position, each holding
//! the exact running mean of the intensities merged under it.
use crate::voltage::{calc_range_width, mean_ticks_scaled, offset, sample_ticks, ticks_of};
use vstd::prelude::*;

verus! {

/// Largest magnitude of an `i32` sample.
pub open spec fn sample_bound() -> int {
    0x8000_0000
}

/// One bin of the dataset: a position key, the total of the intensities
/// merged under it and how many there were. The mean is `sum / len`,
/// held exactly.
#[derive(Clone, Copy, Debug, PartialEq, Eq)]
pub struct RawDataset {
    x: i32,
    sum: i128,
    len: u64,
}

impl RawDataset {
    pub closed spec fn key(self) -> int {
        self.x as int
    }

    pub closed spec fn total(self) -> int {
        self.sum as int
    }

    pub closed spec fn count(self) -> nat {
        self.len as nat
    }

    /// A bin is sound when it holds at least one sample and its total is
    /// one that `len` samples of `i32` can reach.
    pub open spec fn wf(self) -> bool {
        &&& self.count() >= 1
        &&& -sample_bound() * self.count() <= self.total() <= sample_bound() * self.count()
    }

    /// A bin with the given key, total and count.
    pub fn new(x: i32, sum: i128, len: u64) -> (r: RawDataset)
        ensures
            r.key() == x,
            r.total() == sum,
            r.count() == len,
    {
        RawDataset { x, sum, len }
    }

    pub fn x(&self) -> (r: i32)
        ensures
            r == self.key(),
    {
        self.x
    }

    pub fn sum(&self) -> (r: i128)
        ensures
            r == self.total(),
    {
        self.sum
    }

    pub fn len(&self) -> (r: u64)
        ensures
            r == self.count(),
    {
        self.len
    }
}

/// Statistics of one key: the total of its intensities and their number.
pub type Stat = (int, nat);

/// Adds one `(position, intensity)` sample to an aggregate.
pub open spec fn add_sample(m: Map<int, Stat>, x: int, y: int) -> Map<int, Stat> {
    if m.contains_key(x) {
        m.insert(x, (m[x].0 + y, m[x].1 + 1))
    } else {
        m.insert(x, (y, 1nat))
    }
}

/// The aggregate `m` after the samples `(xs[i], ys[i])`, in order.
pub open spec fn absorb(m: Map<int, Stat>, xs: Seq<int>, ys: Seq<int>) -> Map<int, Stat>
    decreases xs.len(),
{
    if xs.len() == 0 {
        m
    } else {
        add_sample(
            absorb(m, xs.drop_last(), ys.take(xs.len() - 1)),
            xs.last(),
            ys[xs.len() - 1],
        )
    }
}

/// The keys of `s` are strictly increasing.
pub open spec fn strictly_sorted(s: Seq<RawDataset>) -> bool {
    forall|i: int, j: int| 0 <= i < j < s.len() ==> s[i].key() < s[j].key()
}

/// `s` holds exactly the statistics of `m`, one bin per key.
pub open spec fn represents(s: Seq<RawDataset>, m: Map<int, Stat>) -> bool {
    &&& forall|i: int|
        0 <= i < s.len() ==> #[trigger] m.contains_key(s[i].key()) && m[s[i].key()] == (
            s[i].total(),
            s[i].count(),
        )
    &&& forall|k: int| #[trigger]
        m.contains_key(k) ==> exists|i: int| 0 <= i < s.len() && s[i].key() == k
}

/// The statistics that the bins `s` hold, by key.
pub open spec fn stats_of(s: Seq<RawDataset>) -> Map<int, Stat> {
    Map::new(
        |k: int| exists|i: int| 0 <= i < s.len() && s[i].key() == k,
        |k: int|
            {
                let i = choose|i: int| 0 <= i < s.len() && s[i].key() == k;
                (s[i].total(), s[i].count())
            },
    )
}

/// A sorted sequence of bins that represents `m` is exactly what
/// `stats_of` reads back from it.
proof fn lemma_stats_of_represented(s: Seq<RawDataset>, m: Map<int, Stat>)
    requires
        strictly_sorted(s),
        represents(s, m),
    ensures
        stats_of(s) == m,
{
    assert forall|k: int| #[trigger] stats_of(s).contains_key(k) <==> m.contains_key(k) by {
        if m.contains_key(k) {
            assert(stats_of(s).dom().contains(k));
        }
        if stats_of(s).contains_key(k) {
            let i = choose|i: int| 0 <= i < s.len() && s[i].key() == k;
            assert(m.contains_key(s[i].key()));
        }
    }
    assert forall|k: int| #[trigger] stats_of(s).contains_key(k) implies stats_of(s)[k]
        == m[k] by {
        let i = choose|i: int| 0 <= i < s.len() && s[i].key() == k;
        assert(m.contains_key(s[i].key()));
    }
    assert(stats_of(s) =~= m);
}

/// The dataset: bins sorted by key, unique by key.
pub struct Dataset {
    bins: Vec<RawDataset>,
    samples: u64,
}

/// Why a batch was not merged.
#[derive(Clone, Copy, Debug, PartialEq, Eq)]
pub enum MergeError {
    /// The batch claims more pairs than one of its channels holds.
    ShortBatch,
    /// The number of merged samples would no longer fit in a `u64`.
    Saturated,
    /// The bins handed to `from_bins` are not sorted, not unique or not sound.
    InvalidBins,
}

impl Dataset {
    pub closed spec fn bins(self) -> Seq<RawDataset> {
        self.bins@
    }

    /// The number of samples merged so far.
    pub closed spec fn merged(self) -> nat {
        self.samples as nat
    }

    /// The statistics of the dataset, by key.
    pub open spec fn view(self) -> Map<int, Stat> {
        stats_of(self.bins())
    }

    pub closed spec fn wf(self) -> bool {
        &&& strictly_sorted(self.bins@)
        &&& forall|i: int|
            0 <= i < self.bins@.len() ==> #[trigger] self.bins@[i].wf() && self.bins@[i].len
                <= self.samples
    }

    /// A sound dataset has sorted, unique keys and sound bins, and its
    /// statistics are those of its bins.
    pub proof fn lemma_wf_sorted(self)
        requires
            self.wf(),
        ensures
            strictly_sorted(self.bins()),
            forall|i: int| 0 <= i < self.bins().len() ==> #[trigger] self.bins()[i].wf(),
            represents(self.bins(), self@),
    {
        lemma_represents_stats(self.bins@);
    }

    /// An empty dataset.
    pub fn new() -> (r: Dataset)
        ensures
            r.wf(),
            r.bins().len() == 0,
            r.merged() == 0,
    {
        Dataset { bins: Vec::new(), samples: 0 }
    }
}

/// The first index whose key is not below `x`, in sorted bins.
fn find_slot(bins: &Vec<RawDataset>, x: i32) -> (p: usize)
    requires
        strictly_sorted(bins@),
    ensures
        p <= bins@.len(),
        forall|i: int| 0 <= i < p ==> bins@[i].key() < x,
        forall|i: int| p <= i < bins@.len() ==> bins@[i].key() >= x,
{
    let mut lo: usize = 0;
    let mut hi: usize = bins.len();
    while lo < hi
        invariant
            lo <= hi <= bins@.len(),
            strictly_sorted(bins@),
            forall|i: int| 0 <= i < lo ==> bins@[i].key() < x,
            forall|i: int| hi <= i < bins@.len() ==> bins@[i].key() >= x,
        decreases hi - lo,
    {
        let mid: usize = lo + (hi - lo) / 2;
        if bins[mid].x < x {
            lo = mid + 1;
        } else {
            hi = mid;
        }
    }
    lo
}

impl Dataset {
    /// Merges one sample into sound bins, keeping them sorted and unique.
    fn merge_one(&mut self, x: i32, y: i32, m: Ghost<Map<int, Stat>>)
        requires
            old(self).wf(),
            represents(old(self).bins@, m@),
            old(self).samples < u64::MAX,
        ensures
            final(self).wf(),
            represents(final(self).bins@, add_sample(m@, x as int, y as int)),
            final(self).samples == old(self).samples + 1,
    {
        let p = find_slot(&self.bins, x);
        let ghost s = self.bins@;
        let ghost m2 = add_sample(m@, x as int, y as int);
        assert(s == old(self).bins@);
        if p < self.bins.len() && self.bins[p].x == x {
            let old_bin = self.bins[p];
            assert(s[p as int].wf());
            assert(s[p as int].len <= old(self).samples);
            assert(old_bin == s[p as int]);
            assert(-0x8000_0000 * old_bin.len <= old_bin.sum <= 0x8000_0000 * old_bin.len);
            assert(0x8000_0000 * old_bin.len <= 0x8000_0000 * 0xFFFF_FFFF_FFFF_FFFFu64)
                by (nonlinear_arith)
                requires
                    old_bin.len <= 0xFFFF_FFFF_FFFF_FFFFu64,
            ;
            assert(m@.contains_key(x as int)) by {
                assert(m@.contains_key(s[p as int].key()));
            }
            let bin = RawDataset { x, sum: old_bin.sum + y as i128, len: old_bin.len + 1 };
            assert(bin.wf());
            self.bins.set(p, bin);
            self.samples = self.samples + 1;
            assert forall|i: int| 0 <= i < self.bins@.len() implies #[trigger] self.bins@[i].wf()
                && self.bins@[i].len <= self.samples by {
                if i != p {
                    assert(s[i] == self.bins@[i]);
                    assert(s[i].wf());
                } else {
                    assert(self.bins@[i] == bin);
                }
            }
            assert forall|i: int| 0 <= i < self.bins@.len() implies #[trigger] m2.contains_key(
                self.bins@[i].key(),
            ) && m2[self.bins@[i].key()] == (self.bins@[i].total(), self.bins@[i].count()) by {
                if i != p {
                    assert(s[i] == self.bins@[i]);
                    assert(m@.contains_key(s[i].key()));
                }
            }
            assert forall|k: int| #[trigger] m2.contains_key(k) implies exists|i: int|
                0 <= i < self.bins@.len() && self.bins@[i].key() == k by {
                if k != x {
                    assert(m@.contains_key(k));
                    let i = choose|i: int| 0 <= i < s.len() && s[i].key() == k;
                    assert(self.bins@[i].key() == k);
                } else {
                    assert(self.bins@[p as int].key() == k);
                }
            }
        } else {
            assert(!m@.contains_key(x as int)) by {
                if m@.contains_key(x as int) {
                    let i = choose|i: int| 0 <= i < s.len() && s[i].key() == x;
                    if i < p {
                    } else {
                        assert(s[i].key() >= x);
                        if i > p {
                            assert(s[p as int].key() < s[i].key());
                        }
                    }
                }
            }
            let bin = RawDataset { x, sum: y as i128, len: 1 };
            self.bins.insert(p, bin);
            self.samples = self.samples + 1;
            assert(self.bins@ == s.insert(p as int, bin));
            assert forall|i: int| 0 <= i < self.bins@.len() implies #[trigger] self.bins@[i].wf()
                && self.bins@[i].len <= self.samples by {
                if i < p {
                    assert(s[i] == self.bins@[i]);
                    assert(s[i].wf());
                } else if i > p {
                    assert(s[i - 1] == self.bins@[i]);
                    assert(s[i - 1].wf());
                } else {
                    assert(self.bins@[i] == bin);
                    assert(bin.wf());
                }
            }
            assert(strictly_sorted(self.bins@)) by {
                assert forall|i: int, j: int| 0 <= i < j < self.bins@.len() implies
                    self.bins@[i].key() < self.bins@[j].key() by {
                    if j < p {
                    } else if j == p {
                    } else if i < p {
                        assert(self.bins@[j] == s[j - 1]);
                    } else if i == p {
                        assert(self.bins@[j] == s[j - 1]);
                    } else {
                        assert(self.bins@[j] == s[j - 1]);
                        assert(self.bins@[i] == s[i - 1]);
                    }
                }
            }
            assert forall|i: int| 0 <= i < self.bins@.len() implies #[trigger] m2.contains_key(
                self.bins@[i].key(),
            ) && m2[self.bins@[i].key()] == (self.bins@[i].total(), self.bins@[i].count()) by {
                if i < p {
                    assert(self.bins@[i] == s[i]);
                    assert(m@.contains_key(s[i].key()));
                } else if i > p {
                    assert(self.bins@[i] == s[i - 1]);
                    assert(m@.contains_key(s[i - 1].key()));
                }
            }
            assert forall|k: int| #[trigger] m2.contains_key(k) implies exists|i: int|
                0 <= i < self.bins@.len() && self.bins@[i].key() == k by {
                if k != x {
                    assert(m@.contains_key(k));
                    let i = choose|i: int| 0 <= i < s.len() && s[i].key() == k;
                    if i < p {
                        assert(self.bins@[i].key() == k);
                    } else {
                        assert(self.bins@[i + 1].key() == k);
                    }
                } else {
                    assert(self.bins@[p as int].key() == k);
                }
            }
        }
    }
}

/// Sorted bins represent the statistics read back from them.
proof fn lemma_represents_stats(s: Seq<RawDataset>)
    requires
        strictly_sorted(s),
    ensures
        represents(s, stats_of(s)),
{
    assert forall|i: int| 0 <= i < s.len() implies #[trigger] stats_of(s).contains_key(
        s[i].key(),
    ) && stats_of(s)[s[i].key()] == (s[i].total(), s[i].count()) by {
        let k = s[i].key();
        assert(stats_of(s).dom().contains(k));
        let j = choose|j: int| 0 <= j < s.len() && s[j].key() == k;
        assert(j == i);
    }
}

/// The samples of a channel, as integers.
pub open spec fn ints(s: Seq<i32>) -> Seq<int> {
    s.map_values(|v: i32| v as int)
}

/// Merges the first `length` pairs `(x[i], y[i])` into `dataset`.
///
/// Each position is a key: a sample whose key is already present updates
/// that bin's total and count in place, one whose key is new opens a bin
/// with count 1. The bins stay sorted by key and unique by key. A batch
/// longer than one of its channels, or one that would take the number of
/// merged samples past `u64::MAX`, is refused and leaves `dataset` as it
/// was.
pub fn update_data(
    x: &Vec<i32>,
    y: &Vec<i32>,
    dataset: &mut Dataset,
    length: usize,
) -> (r: Result<(), MergeError>)
    requires
        old(dataset).wf(),
    ensures
        final(dataset).wf(),
        strictly_sorted(final(dataset).bins()),
        (r == Err::<(), MergeError>(MergeError::ShortBatch)) <==> (length > x@.len() || length
            > y@.len()),
        (r == Err::<(), MergeError>(MergeError::Saturated)) <==> (length <= x@.len() && length
            <= y@.len() && old(dataset).merged() + length > u64::MAX),
        r is Ok <==> (length <= x@.len() && length <= y@.len() && old(dataset).merged() + length
            <= u64::MAX),
        r is Ok ==> final(dataset)@ == absorb(
            old(dataset)@,
            ints(x@).take(length as int),
            ints(y@).take(length as int),
        ) && final(dataset).merged() == old(dataset).merged() + length,
        r is Err ==> *final(dataset) == *old(dataset),
        length == 0 ==> r is Ok && *final(dataset) == *old(dataset),
{
    if length > x.len() || length > y.len() {
        return Err(MergeError::ShortBatch);
    }
    if dataset.samples > u64::MAX - length as u64 {
        return Err(MergeError::Saturated);
    }
    if length == 0 {
        assert(ints(x@).take(0) =~= Seq::<int>::empty());
        assert(ints(y@).take(0) =~= Seq::<int>::empty());
        return Ok(());
    }
    let ghost m0 = dataset@;
    let ghost xs = ints(x@).take(length as int);
    let ghost ys = ints(y@).take(length as int);
    proof {
        lemma_represents_stats(dataset.bins@);
        assert(xs.take(0) =~= Seq::<int>::empty());
        assert(xs.len() == length);
        assert(ys.len() == length);
    }
    let ghost start = dataset.samples;
    let mut i: usize = 0;
    while i < length
        invariant
            i <= length <= x@.len(),
            length <= y@.len(),
            start + length <= u64::MAX,
            xs == ints(x@).take(length as int),
            ys == ints(y@).take(length as int),
            xs.len() == length,
            ys.len() == length,
            dataset.wf(),
            dataset.samples == start + i,
            represents(dataset.bins@, absorb(m0, xs.take(i as int), ys.take(i as int))),
        decreases length - i,
    {
        let ghost m = absorb(m0, xs.take(i as int), ys.take(i as int));
        dataset.merge_one(x[i], y[i], Ghost(m));
        proof {
            let xn = xs.take(i + 1);
            assert(xn.drop_last() =~= xs.take(i as int));
            assert(ys.take(i + 1).take(i as int) =~= ys.take(i as int));
            assert(xn.last() == x@[i as int] as int);
            assert(ys.take(i + 1)[i as int] == y@[i as int] as int);
        }
        i = i + 1;
    }
    proof {
        assert(xs.take(length as int) =~= xs);
        assert(ys.take(length as int) =~= ys);
        lemma_stats_of_represented(dataset.bins@, absorb(m0, xs, ys));
    }
    Ok(())
}

/// How many of the positions `xs` equal `k`.
pub open spec fn key_count(xs: Seq<int>, k: int) -> nat
    decreases xs.len(),
{
    if xs.len() == 0 {
        0
    } else {
        key_count(xs.drop_last(), k) + if xs.last() == k {
            1nat
        } else {
            0nat
        }
    }
}

/// The total of the intensities `ys[i]` whose position `xs[i]` equals `k`.
pub open spec fn key_total(xs: Seq<int>, ys: Seq<int>, k: int) -> int
    decreases xs.len(),
{
    if xs.len() == 0 {
        0
    } else {
        key_total(xs.drop_last(), ys.take(xs.len() - 1), k) + if xs.last() == k {
            ys[xs.len() - 1]
        } else {
            0
        }
    }
}

/// What a key held before a batch: its statistics, or nothing.
pub open spec fn base_stat(m: Map<int, Stat>, k: int) -> Stat {
    if m.contains_key(k) {
        m[k]
    } else {
        (0, 0nat)
    }
}

/// The running mean is the mean of every sample merged under a key: after a
/// batch, a key holds the total and the number of all intensities merged
/// under it, those it held before and those of the batch whose position is
/// that key. A key is present exactly when it was before or the batch
/// brings it, and its count never decreases.
pub proof fn lemma_running_mean(m: Map<int, Stat>, xs: Seq<int>, ys: Seq<int>, k: int)
    requires
        xs.len() <= ys.len(),
    ensures
        absorb(m, xs, ys).contains_key(k) <==> (m.contains_key(k) || key_count(xs, k) > 0),
        absorb(m, xs, ys).contains_key(k) ==> absorb(m, xs, ys)[k] == (
            base_stat(m, k).0 + key_total(xs, ys, k),
            base_stat(m, k).1 + key_count(xs, k),
        ),
        absorb(m, xs, ys).contains_key(k) ==> absorb(m, xs, ys)[k].1 >= base_stat(m, k).1,
        key_count(xs, k) == 0 ==> key_total(xs, ys, k) == 0,
    decreases xs.len(),
{
    if xs.len() > 0 {
        lemma_running_mean(m, xs.drop_last(), ys.take(xs.len() - 1), k);
    }
}

/// Merging an empty batch leaves the statistics as they were.
pub proof fn lemma_empty_batch(m: Map<int, Stat>)
    ensures
        absorb(m, Seq::empty(), Seq::empty()) == m,
{
}

impl Dataset {
    /// The bins, in order of their keys.
    pub fn entries(&self) -> (r: &Vec<RawDataset>)
        ensures
            r@ == self.bins(),
            self.wf() ==> strictly_sorted(r@) && forall|i: int|
                0 <= i < r@.len() ==> #[trigger] r@[i].wf(),
    {
        &self.bins
    }

    /// The number of samples merged so far.
    pub fn merged_samples(&self) -> (r: u64)
        ensures
            r == self.merged(),
    {
        self.samples
    }
}

/// The number of samples that the bins `s` hold together.
pub open spec fn total_count(s: Seq<RawDataset>) -> int
    decreases s.len(),
{
    if s.len() == 0 {
        0
    } else {
        total_count(s.drop_last()) + s.last().count()
    }
}

impl Dataset {
    /// A dataset made of the given bins, which must be sorted and unique by
    /// key, each sound, and hold no more than `u64::MAX` samples together.
    pub fn from_bins(bins: Vec<RawDataset>) -> (r: Result<Dataset, MergeError>)
        ensures
            r is Ok <==> (strictly_sorted(bins@) && (forall|i: int|
                0 <= i < bins@.len() ==> #[trigger] bins@[i].wf()) && total_count(bins@)
                <= u64::MAX),
            r is Err ==> r == Err::<Dataset, MergeError>(MergeError::InvalidBins),
            r matches Ok(d) ==> d.wf() && d.bins() == bins@ && d.merged() == total_count(bins@),
    {
        let mut acc: u64 = 0;
        let mut i: usize = 0;
        while i < bins.len()
            invariant
                i <= bins@.len(),
                acc == total_count(bins@.take(i as int)),
                forall|j: int| 0 <= j < i ==> #[trigger] bins@[j].wf() && bins@[j].len <= acc,
                forall|j: int, l: int| 0 <= j < l < i ==> bins@[j].key() < bins@[l].key(),
            decreases bins@.len() - i,
        {
            assert(bins@.take(i + 1).drop_last() =~= bins@.take(i as int));
            let b = bins[i];
            assert(0x8000_0000 * b.len <= 0x8000_0000 * 0xFFFF_FFFF_FFFF_FFFFu64) by (nonlinear_arith)
                requires
                    b.len <= 0xFFFF_FFFF_FFFF_FFFFu64,
            ;
            let bound: i128 = 0x8000_0000i128 * (b.len as i128);
            assert(b == bins@[i as int]);
            assert(bound == sample_bound() * b.count());
            if b.len < 1 || b.sum < -bound || b.sum > bound {
                assert(!bins@[i as int].wf());
                return Err(MergeError::InvalidBins);
            }
            if i > 0 && bins[i - 1].x >= b.x {
                return Err(MergeError::InvalidBins);
            }
            if b.len > u64::MAX - acc {
                proof {
                    lemma_total_count_prefix(bins@, i as int + 1);
                }
                return Err(MergeError::InvalidBins);
            }
            acc = acc + b.len;
            assert forall|j: int| 0 <= j < i + 1 implies #[trigger] bins@[j].wf() && bins@[j].len
                <= acc by {
                if j == i {
                    assert(bins@[j] == b);
                }
            }
            i = i + 1;
        }
        assert(bins@.take(bins@.len() as int) =~= bins@);
        Ok(Dataset { bins, samples: acc })
    }
}

/// A prefix of the bins holds no more samples than the whole.
proof fn lemma_total_count_prefix(s: Seq<RawDataset>, n: int)
    requires
        0 <= n <= s.len(),
    ensures
        total_count(s.take(n)) <= total_count(s),
    decreases s.len() - n,
{
    if n < s.len() {
        lemma_total_count_prefix(s, n + 1);
        assert(s.take(n + 1).drop_last() =~= s.take(n));
    } else {
        assert(s.take(n) =~= s);
    }
}

/// One bin as voltages: the position is `x / TICKS_PER_VOLT` volts and the
/// mean intensity `y / (per * TICKS_PER_VOLT)` volts.
#[derive(Clone, Copy, Debug, PartialEq, Eq)]
pub struct VoltagePoint {
    pub x: i64,
    pub y: i128,
    pub per: u64,
}

/// The mean of `count` samples totalling `total`, in ticks times `count`.
fn mean_ticks(range: u8, total: i128, count: u64) -> (r: i128)
    requires
        count >= 1,
        -sample_bound() * count <= total <= sample_bound() * count,
    ensures
        r == mean_ticks_scaled(range, total as int, count as int),
{
    let width = calc_range_width(range) as i128;
    assert(-0x8000_0000 * 0xFFFF_FFFF_FFFF_FFFFu64 * 80 <= total * width <= 0x8000_0000
        * 0xFFFF_FFFF_FFFF_FFFFu64 * 80) by (nonlinear_arith)
        requires
            0 <= width <= 80,
            -0x8000_0000 * count <= total <= 0x8000_0000 * count,
            count <= 0xFFFF_FFFF_FFFF_FFFFu64,
    ;
    assert(0 <= count * width * 32768 <= 0xFFFF_FFFF_FFFF_FFFFu64 * 80 * 32768) by (nonlinear_arith)
        requires
            0 <= width <= 80,
            0 <= count <= 0xFFFF_FFFF_FFFF_FFFFu64,
    ;
    if range > 3 {
        total * width
    } else {
        assert(offset(range) * count == count * width * 32768) by (nonlinear_arith)
            requires
                offset(range) == width * 32768,
        ;
        total * width - count as i128 * width * 32768
    }
}

impl Dataset {
    /// The bins as voltages: each key on `ranges.0`, the channel of the
    /// positions, and each mean on `ranges.1`, the channel of the
    /// intensities, in the order of the keys.
    pub fn snapshot(&self, ranges: (u8, u8)) -> (r: Vec<VoltagePoint>)
        requires
            self.wf(),
        ensures
            r@.len() == self.bins().len(),
            strictly_sorted(self.bins()),
            forall|i: int|
                0 <= i < r@.len() ==> #[trigger] r@[i].x == ticks_of(ranges.0, self.bins()[i].key())
                    && r@[i].y == mean_ticks_scaled(
                    ranges.1,
                    self.bins()[i].total(),
                    self.bins()[i].count() as int,
                ) && r@[i].per == self.bins()[i].count(),
    {
        let mut r: Vec<VoltagePoint> = Vec::new();
        let mut i: usize = 0;
        while i < self.bins.len()
            invariant
                self.wf(),
                i <= self.bins@.len(),
                r@.len() == i,
                forall|j: int|
                    0 <= j < i ==> #[trigger] r@[j].x == ticks_of(ranges.0, self.bins@[j].key())
                        && r@[j].y == mean_ticks_scaled(
                        ranges.1,
                        self.bins@[j].total(),
                        self.bins@[j].count() as int,
                    ) && r@[j].per == self.bins@[j].count(),
            decreases self.bins@.len() - i,
        {
            let b = self.bins[i];
            assert(self.bins@[i as int].wf());
            let p = VoltagePoint {
                x: sample_ticks(ranges.0, b.x),
                y: mean_ticks(ranges.1, b.sum, b.len),
                per: b.len,
            };
            r.push(p);
            i = i + 1;
        }
        r
    }
}

/// The positions that occur in a batch.
pub open spec fn batch_keys(xs: Seq<int>) -> Set<int> {
    Set::new(|k: int| exists|i: int| 0 <= i < xs.len() && xs[i] == k)
}

/// After a batch the keys are those held before together with every
/// position of the batch; since the bins are strictly sorted (see
/// `update_data`), each of them stands in exactly one bin.
pub proof fn lemma_merge_keys(m: Map<int, Stat>, xs: Seq<int>, ys: Seq<int>)
    requires
        xs.len() <= ys.len(),
    ensures
        absorb(m, xs, ys).dom() == m.dom().union(batch_keys(xs)),
    decreases xs.len(),
{
    if xs.len() > 0 {
        let xp = xs.drop_last();
        lemma_merge_keys(m, xp, ys.take(xs.len() - 1));
        assert forall|k: int| batch_keys(xs).contains(k) <==> (batch_keys(xp).contains(k) || k
            == xs.last()) by {
            if batch_keys(xs).contains(k) {
                let i = choose|i: int| 0 <= i < xs.len() && xs[i] == k;
                if i < xs.len() - 1 {
                    assert(xp[i] == k);
                }
            }
            if batch_keys(xp).contains(k) {
                let i = choose|i: int| 0 <= i < xp.len() && xp[i] == k;
                assert(xs[i] == k);
            }
            if k == xs.last() {
                assert(xs[xs.len() - 1] == k);
            }
        }
        assert(absorb(m, xs, ys).dom() =~= m.dom().union(batch_keys(xs)));
    } else {
        assert(batch_keys(xs) =~= Set::<int>::empty());
        assert(absorb(m, xs, ys).dom() =~= m.dom().union(batch_keys(xs)));
    }
}

/// One sample `s` merged under a key that holds total `t` over `c` samples
/// leaves total `t + s` over `c + 1`: the mean moves from `t / c` to
/// `(t + s) / (c + 1)`. Every other key keeps what it held.
pub proof fn lemma_single_sample(m: Map<int, Stat>, k: int, s: int)
    requires
        m.contains_key(k),
    ensures
        absorb(m, seq![k], seq![s]).contains_key(k),
        absorb(m, seq![k], seq![s])[k] == (m[k].0 + s, m[k].1 + 1),
        forall|j: int| j != k ==> #[trigger] absorb(m, seq![k], seq![s]).contains_key(j)
            == m.contains_key(j) && (m.contains_key(j) ==> absorb(m, seq![k], seq![s])[j]
            == m[j]),
{
    assert(seq![k].drop_last() =~= Seq::<int>::empty());
    assert(absorb(m, Seq::<int>::empty(), seq![s].take(0)) == m);
}

} // verus!
