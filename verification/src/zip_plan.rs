//! Decisions of ZIP extraction: how entries are ordered, grouped and handed
//! to worker threads, how much one entry may be read, and how the outcomes
//! of all entries add up.

use vstd::prelude::*;
use crate::ExtractionConfig;

verus! {

/// What the central directory of a ZIP archive says about one entry.
#[derive(Debug)]
pub struct ZipEntryInfo {
    /// The entry's position in the archive.
    pub index: usize,
    /// The entry's name.
    pub name: String,
    /// The entry is a directory (its name ends in `/`).
    pub is_dir: bool,
    /// Its size in the archive.
    pub compressed_size: u64,
    /// Its size once extracted.
    pub size: u64,
}

impl ZipEntryInfo {
    /// The facts about entry `index` named `name`; it is a directory when its
    /// name ends in `/`.
    pub fn new(index: usize, name: String, compressed_size: u64, size: u64) -> (r: Self)
        ensures
            r.index == index,
            r.name == name,
            r.is_dir == crate::text::has_suffix(name@, "/"@),
            r.compressed_size == compressed_size,
            r.size == size,
    {
        let is_dir = crate::text::str_ends_with(name.as_str(), "/");
        ZipEntryInfo { index, name, is_dir, compressed_size, size }
    }
}

/// Entry `a` comes before entry `b`: it is larger, or as large and earlier in
/// the list, which is the order a stable sort by decreasing size gives.
pub open spec fn precedes(entries: Seq<ZipEntryInfo>, a: int, b: int) -> bool {
    entries[a].size > entries[b].size || (entries[a].size == entries[b].size && a < b)
}

/// `order` lists every position of `entries` once, largest entry first,
/// entries of equal size in the order they came.
pub open spec fn is_size_order(entries: Seq<ZipEntryInfo>, order: Seq<usize>) -> bool {
    &&& order.len() == entries.len()
    &&& forall|i: int| 0 <= i < order.len() ==> #[trigger] order[i] < entries.len()
    &&& forall|i: int, j: int|
        0 <= i < j < order.len() ==> precedes(entries, #[trigger] order[i] as int, #[trigger] order[j] as int)
}

/// The positions of `entries`, largest entry first; ties keep their order.
pub fn size_order(entries: &Vec<ZipEntryInfo>) -> (order: Vec<usize>)
    ensures
        is_size_order(entries@, order@),
{
    let mut order: Vec<usize> = Vec::new();
    let mut p: usize = 0;
    while p < entries.len()
        invariant
            p <= entries.len(),
            order.len() == p,
            forall|i: int| 0 <= i < order.len() ==> #[trigger] order@[i] < p,
            forall|i: int, j: int|
                0 <= i < j < order.len() ==> precedes(entries@, #[trigger] order@[i] as int, #[trigger] order@[j] as int),
        decreases entries.len() - p,
    {
        let size = entries[p].size;
        let mut j: usize = 0;
        while j < order.len() && entries[order[j]].size >= size
            invariant
                p < entries.len(),
                size == entries@[p as int].size,
                order.len() == p,
                forall|i: int| 0 <= i < order.len() ==> #[trigger] order@[i] < p,
                j <= order.len(),
                forall|t: int| 0 <= t < j ==> entries@[#[trigger] order@[t] as int].size >= size,
            decreases order.len() - j,
        {
            j = j + 1;
        }
        let ghost old_order = order@;
        proof {
            assert forall|t: int| j <= t < old_order.len() implies entries@[#[trigger] old_order[t] as int].size < size by {
                if t > j {
                    assert(precedes(entries@, old_order[j as int] as int, old_order[t] as int));
                }
            }
        }
        order.insert(j, p);
        proof {
            assert forall|a: int, b: int|
                0 <= a < b < order.len() implies precedes(entries@, #[trigger] order@[a] as int, #[trigger] order@[b] as int) by {
                if b < j {
                    assert(order@[a] == old_order[a] && order@[b] == old_order[b]);
                } else if b == j {
                    assert(order@[a] == old_order[a]);
                } else if a < j {
                    assert(order@[a] == old_order[a] && order@[b] == old_order[b - 1]);
                    assert(precedes(entries@, old_order[a] as int, old_order[b - 1] as int));
                } else if a == j {
                    assert(order@[b] == old_order[b - 1]);
                } else {
                    assert(order@[a] == old_order[a - 1] && order@[b] == old_order[b - 1]);
                    assert(precedes(entries@, old_order[a - 1] as int, old_order[b - 1] as int));
                }
            }
        }
        p = p + 1;
    }
    order
}

/// The archive indices of the directory entries, in the given order.
pub open spec fn directory_indices(entries: Seq<ZipEntryInfo>, order: Seq<usize>) -> Seq<usize>
    decreases order.len(),
{
    if order.len() == 0 {
        Seq::empty()
    } else {
        let rest = directory_indices(entries, order.drop_last());
        let e = entries[order.last() as int];
        if e.is_dir { rest.push(e.index) } else { rest }
    }
}

/// The archive indices of the file (non-directory) entries, in the given
/// order.
pub open spec fn file_indices(entries: Seq<ZipEntryInfo>, order: Seq<usize>) -> Seq<usize>
    decreases order.len(),
{
    if order.len() == 0 {
        Seq::empty()
    } else {
        let rest = file_indices(entries, order.drop_last());
        let e = entries[order.last() as int];
        if e.is_dir { rest } else { rest.push(e.index) }
    }
}

/// `s` cut into consecutive pieces of `k` items, the last one possibly
/// shorter.
pub open spec fn chunk_seq(s: Seq<usize>, k: nat) -> Seq<Seq<usize>>
    decreases s.len(),
{
    if s.len() == 0 || k == 0 {
        Seq::empty()
    } else if s.len() <= k {
        seq![s]
    } else {
        seq![s.take(k as int)] + chunk_seq(s.skip(k as int), k)
    }
}

/// All pieces of `ss`, joined in order.
pub open spec fn concat_all(ss: Seq<Seq<usize>>) -> Seq<usize>
    decreases ss.len(),
{
    if ss.len() == 0 {
        Seq::empty()
    } else {
        ss[0] + concat_all(ss.drop_first())
    }
}

/// Cutting a list into pieces loses and reorders nothing, and every piece
/// holds between 1 and `k` items.
pub proof fn lemma_chunks_cover(s: Seq<usize>, k: nat)
    requires
        k > 0,
    ensures
        concat_all(chunk_seq(s, k)) == s,
        forall|c: int| 0 <= c < chunk_seq(s, k).len() ==> 1 <= #[trigger] chunk_seq(s, k)[c].len() <= k,
    decreases s.len(),
{
    if s.len() == 0 {
    } else if s.len() <= k {
        let ss = chunk_seq(s, k);
        assert(ss.drop_first() =~= Seq::<Seq<usize>>::empty());
        assert(concat_all(Seq::<Seq<usize>>::empty()) == Seq::<usize>::empty());
        assert(concat_all(ss) == s + Seq::<usize>::empty());
        assert(s + Seq::<usize>::empty() =~= s);
    } else {
        let rest = chunk_seq(s.skip(k as int), k);
        lemma_chunks_cover(s.skip(k as int), k);
        let ss = chunk_seq(s, k);
        assert(ss.drop_first() =~= rest);
        assert(s.take(k as int) + s.skip(k as int) =~= s);
        assert forall|c: int| 0 <= c < ss.len() implies 1 <= #[trigger] ss[c].len() <= k by {
            if c > 0 {
                assert(ss[c] == rest[c - 1]);
            }
        }
    }
}

/// The deep view of a list of lists.
pub open spec fn nested_view(v: Seq<Vec<usize>>) -> Seq<Seq<usize>> {
    v.map_values(|c: Vec<usize>| c@)
}

/// The items `s[start..end]` as a new vector.
fn copy_range(s: &Vec<usize>, start: usize, end: usize) -> (r: Vec<usize>)
    requires
        start <= end <= s.len(),
    ensures
        r@ == s@.subrange(start as int, end as int),
{
    let mut r: Vec<usize> = Vec::new();
    let mut i: usize = start;
    while i < end
        invariant
            start <= i <= end <= s.len(),
            r@ == s@.subrange(start as int, i as int),
        decreases end - i,
    {
        r.push(s[i]);
        i = i + 1;
        assert(r@ =~= s@.subrange(start as int, i as int));
    }
    r
}

/// `s` cut into consecutive pieces of `k` items.
pub fn chunks_of(s: &Vec<usize>, k: usize) -> (r: Vec<Vec<usize>>)
    requires
        k > 0,
    ensures
        nested_view(r@) == chunk_seq(s@, k as nat),
{
    let mut r: Vec<Vec<usize>> = Vec::new();
    let mut start: usize = 0;
    proof {
        assert(s@.skip(0) =~= s@);
        assert(nested_view(r@) =~= Seq::<Seq<usize>>::empty());
        assert(Seq::<Seq<usize>>::empty() + chunk_seq(s@, k as nat) =~= chunk_seq(s@, k as nat));
    }
    while start < s.len()
        invariant
            k > 0,
            start <= s.len(),
            nested_view(r@) + chunk_seq(s@.skip(start as int), k as nat) == chunk_seq(s@, k as nat),
        decreases s.len() - start,
    {
        let ghost rest = s@.skip(start as int);
        let end = if s.len() - start <= k { s.len() } else { start + k };
        let piece = copy_range(s, start, end);
        let ghost before = nested_view(r@);
        r.push(piece);
        proof {
            assert(nested_view(r@) =~= before.push(piece@));
            if rest.len() <= k {
                assert(piece@ =~= rest);
                assert(s@.skip(end as int) =~= Seq::<usize>::empty());
                assert(chunk_seq(rest, k as nat) == seq![rest]);
                assert(before + seq![rest] =~= before.push(piece@) + chunk_seq(s@.skip(end as int), k as nat));
            } else {
                assert(piece@ =~= rest.take(k as int));
                assert(rest.skip(k as int) =~= s@.skip(end as int));
                assert(before + (seq![rest.take(k as int)] + chunk_seq(rest.skip(k as int), k as nat))
                    =~= before.push(piece@) + chunk_seq(s@.skip(end as int), k as nat));
            }
        }
        start = end;
    }
    proof {
        assert(s@.skip(start as int) =~= Seq::<usize>::empty());
        assert(nested_view(r@) + Seq::<Seq<usize>>::empty() =~= nested_view(r@));
    }
    r
}

/// The most threads parallel ZIP extraction uses.
pub const MAX_PARALLEL_THREADS: usize = 8;

/// The most entries one worker takes at a time.
pub const MAX_CHUNK_SIZE: usize = 10;

/// The number of worker threads: the configuration's effective count, but
/// at most 8.
pub open spec fn parallel_threads(config: ExtractionConfig) -> usize {
    let t = crate::config::clamped_threads(config.thread_count);
    if t < MAX_PARALLEL_THREADS { t } else { MAX_PARALLEL_THREADS }
}

/// The worker count follows the configured thread count: a count from 1 to
/// 8 is used as it is, a larger one is cut to 8, and 0 gives 1. It never
/// exceeds the configuration's effective thread count, nor 8.
pub proof fn lemma_parallel_threads_follow_config(config: ExtractionConfig)
    ensures
        1 <= config.thread_count <= 8 ==> parallel_threads(config) == config.thread_count,
        config.thread_count >= 8 ==> parallel_threads(config) == 8,
        config.thread_count == 0 ==> parallel_threads(config) == 1,
        1 <= parallel_threads(config) <= 8,
        parallel_threads(config) <= crate::config::clamped_threads(config.thread_count),
{
}

/// How many files one worker takes at a time: the files shared out evenly
/// over the threads, but at least 1 and at most 10.
pub open spec fn chunk_size_for(file_count: nat, threads: nat) -> nat {
    let share = if threads == 0 { file_count } else { file_count / threads };
    let at_least_one = if share < 1 { 1 } else { share };
    if at_least_one > MAX_CHUNK_SIZE { MAX_CHUNK_SIZE as nat } else { at_least_one }
}

/// How a ZIP archive's entries are extracted in parallel.
#[derive(Debug)]
pub struct ParallelPlan {
    /// Number of worker threads.
    pub thread_count: usize,
    /// Positions of the entries, largest first.
    pub order: Vec<usize>,
    /// Archive indices of the directories, created first, in this order.
    pub directories: Vec<usize>,
    /// Archive indices of the files, largest first.
    pub files: Vec<usize>,
    /// How many files one worker takes at a time.
    pub chunk_size: usize,
    /// The files cut into pieces of `chunk_size`.
    pub chunks: Vec<Vec<usize>>,
}

/// Plans parallel extraction: entries sorted largest first (a stable sort),
/// directories to be created first, and the files cut into pieces that the
/// workers take one at a time.
pub fn plan_parallel_extraction(entries: &Vec<ZipEntryInfo>, config: &ExtractionConfig) -> (plan: ParallelPlan)
    ensures
        plan.thread_count == parallel_threads(*config),
        1 <= config.thread_count <= 8 ==> plan.thread_count == config.thread_count,
        config.thread_count >= 8 ==> plan.thread_count == 8,
        config.thread_count == 0 ==> plan.thread_count == 1,
        is_size_order(entries@, plan.order@),
        plan.directories@ == directory_indices(entries@, plan.order@),
        plan.files@ == file_indices(entries@, plan.order@),
        plan.chunk_size == chunk_size_for(plan.files@.len(), plan.thread_count as nat),
        nested_view(plan.chunks@) == chunk_seq(plan.files@, plan.chunk_size as nat),
{
    let effective = config.effective_thread_count();
    let thread_count = if effective < MAX_PARALLEL_THREADS { effective } else { MAX_PARALLEL_THREADS };
    let order = size_order(entries);
    let mut directories: Vec<usize> = Vec::new();
    let mut files: Vec<usize> = Vec::new();
    let mut i: usize = 0;
    while i < order.len()
        invariant
            is_size_order(entries@, order@),
            i <= order.len(),
            directories@ == directory_indices(entries@, order@.take(i as int)),
            files@ == file_indices(entries@, order@.take(i as int)),
        decreases order.len() - i,
    {
        let e = &entries[order[i]];
        proof {
            assert(order@.take(i + 1).drop_last() =~= order@.take(i as int));
        }
        if e.is_dir {
            directories.push(e.index);
        } else {
            files.push(e.index);
        }
        i = i + 1;
    }
    proof {
        assert(order@.take(order.len() as int) =~= order@);
    }
    let share = files.len() / thread_count;
    let at_least_one = if share < 1 { 1 } else { share };
    let chunk_size = if at_least_one > MAX_CHUNK_SIZE { MAX_CHUNK_SIZE } else { at_least_one };
    let chunks = chunks_of(&files, chunk_size);
    ParallelPlan { thread_count, order, directories, files, chunk_size, chunks }
}

/// Whether a ZIP archive is extracted one entry after another: when it has
/// at most 5 entries, or the configuration allows only one thread.
pub fn use_sequential_extraction(entry_count: usize, config: &ExtractionConfig) -> (r: bool)
    ensures
        r == (entry_count <= 5 || crate::config::clamped_threads(config.thread_count) == 1),
{
    entry_count <= 5 || config.effective_thread_count() == 1
}

/// Every entry of a sorted list goes either to the directories or to the
/// files, and the files are all handed out in the pieces.
pub proof fn lemma_plan_covers_entries(entries: Seq<ZipEntryInfo>, order: Seq<usize>, k: nat)
    requires
        k > 0,
    ensures
        directory_indices(entries, order).len() + file_indices(entries, order).len() == order.len(),
        concat_all(chunk_seq(file_indices(entries, order), k)) == file_indices(entries, order),
    decreases order.len(),
{
    if order.len() > 0 {
        lemma_plan_covers_entries(entries, order.drop_last(), k);
    }
    lemma_chunks_cover(file_indices(entries, order), k);
}

// ---------------------------------------------------------------------------
// Reading one entry
// ---------------------------------------------------------------------------

/// Largest buffer used to copy one entry (256 KiB).
pub const MAX_COPY_BUFFER: usize = 262144;

/// Smallest buffer used to copy one entry (4 KiB).
pub const MIN_COPY_BUFFER: usize = 4096;

/// Most reads allowed for one entry.
pub const MAX_READ_ITERATIONS: u32 = 100000;

/// Most bytes accepted from an entry whose size is unknown (10 MiB).
pub const UNKNOWN_SIZE_LIMIT: u64 = 10485760;

/// The buffer used to copy an entry of `file_size` bytes: the optimal buffer
/// size, kept between 4 KiB and 256 KiB.
pub open spec fn copy_buffer_size(file_size: u64, default_buffer_size: usize) -> usize {
    let b = crate::utils::optimal_buffer_size(file_size, default_buffer_size);
    let capped = if b < MAX_COPY_BUFFER { b } else { MAX_COPY_BUFFER };
    if capped > MIN_COPY_BUFFER { capped } else { MIN_COPY_BUFFER }
}

/// The buffer size to copy one ZIP entry with.
pub fn zip_copy_buffer_size(file_size: u64, default_buffer_size: usize) -> (r: usize)
    ensures
        r == copy_buffer_size(file_size, default_buffer_size),
        MIN_COPY_BUFFER <= r <= MAX_COPY_BUFFER,
{
    let b = crate::utils::get_optimal_buffer_size(file_size, default_buffer_size);
    let capped = if b < MAX_COPY_BUFFER { b } else { MAX_COPY_BUFFER };
    if capped > MIN_COPY_BUFFER { capped } else { MIN_COPY_BUFFER }
}

/// The most bytes an entry that claims `uncompressed_size` bytes may give:
/// twice its size (saturating), or 10 MiB when the size is 0.
pub open spec fn reasonable_size(uncompressed_size: u64) -> u64 {
    if uncompressed_size == 0 {
        UNKNOWN_SIZE_LIMIT
    } else if uncompressed_size * 2 > u64::MAX {
        u64::MAX
    } else {
        (uncompressed_size * 2) as u64
    }
}

/// Why reading a ZIP entry was stopped.
#[derive(Debug, Clone, Copy, PartialEq, Eq, Structural)]
pub enum ZipReadError {
    /// More than 100 000 reads were needed.
    TooManyReads,
    /// More bytes came out than the entry can reasonably hold:
    /// (bytes read so far, limit).
    TooLarge(u64, u64),
}

/// The state of the loop that copies one ZIP entry.
#[derive(Debug, Clone, Copy, PartialEq, Eq, Structural)]
pub struct ZipReadGuard {
    /// Reads begun so far.
    pub iterations: u32,
    /// Bytes read so far (saturating).
    pub total_read: u64,
    /// Most bytes this entry may give.
    pub max_reasonable_size: u64,
}

impl ZipReadGuard {
    /// The guard for an entry that claims `uncompressed_size` bytes.
    pub fn new(uncompressed_size: u64) -> (r: Self)
        ensures
            r.iterations == 0,
            r.total_read == 0,
            r.max_reasonable_size == reasonable_size(uncompressed_size),
    {
        let max = if uncompressed_size == 0 {
            UNKNOWN_SIZE_LIMIT
        } else if uncompressed_size > u64::MAX / 2 {
            u64::MAX
        } else {
            uncompressed_size * 2
        };
        ZipReadGuard { iterations: 0, total_read: 0, max_reasonable_size: max }
    }

    /// Counts a read about to begin; refuses the 100 001st.
    pub fn begin_read(&mut self) -> (r: Result<(), ZipReadError>)
        requires
            old(self).iterations <= MAX_READ_ITERATIONS,
        ensures
            final(self).iterations == old(self).iterations + 1,
            final(self).total_read == old(self).total_read,
            final(self).max_reasonable_size == old(self).max_reasonable_size,
            r is Ok <==> final(self).iterations <= MAX_READ_ITERATIONS,
            r is Err ==> r == Err::<(), ZipReadError>(ZipReadError::TooManyReads),
    {
        self.iterations = self.iterations + 1;
        if self.iterations > MAX_READ_ITERATIONS {
            return Err(ZipReadError::TooManyReads);
        }
        Ok(())
    }

    /// Records a read of `n` bytes. `Ok(false)`: the entry has ended;
    /// `Ok(true)`: write the bytes and read on; an error when the entry
    /// has given more than its limit.
    pub fn record_read(&mut self, n: usize) -> (r: Result<bool, ZipReadError>)
        ensures
            final(self).iterations == old(self).iterations,
            final(self).max_reasonable_size == old(self).max_reasonable_size,
            n == 0 ==> r == Ok::<bool, ZipReadError>(false) && *final(self) == *old(self),
            n > 0 ==> final(self).total_read == (if old(self).total_read + n > u64::MAX {
                u64::MAX
            } else {
                (old(self).total_read + n) as u64
            }),
            n > 0 && final(self).total_read > final(self).max_reasonable_size
                ==> r == Err::<bool, ZipReadError>(ZipReadError::TooLarge(final(self).total_read, final(self).max_reasonable_size)),
            n > 0 && final(self).total_read <= final(self).max_reasonable_size
                ==> r == Ok::<bool, ZipReadError>(true),
    {
        if n == 0 {
            return Ok(false);
        }
        let bytes = n as u64;
        self.total_read = if self.total_read > u64::MAX - bytes { u64::MAX } else { self.total_read + bytes };
        if self.total_read > self.max_reasonable_size {
            return Err(ZipReadError::TooLarge(self.total_read, self.max_reasonable_size));
        }
        Ok(true)
    }
}

/// The bytes read so far after `n` more, saturating.
pub open spec fn saturating_total(total: u64, n: usize) -> u64 {
    if total + n > u64::MAX {
        u64::MAX
    } else {
        (total + n) as u64
    }
}

/// The bytes that the copy loop of one entry writes, starting from the
/// guard `g`, when its reads give the sizes in `reads`: each read is first
/// counted (`begin_read`), and its bytes are written only when
/// `record_read` answers `Ok(true)`. The loop ends at a read of 0 bytes, at
/// a refusal, or when the reads run out.
pub open spec fn zip_copy_written(g: ZipReadGuard, reads: Seq<usize>) -> int
    decreases reads.len(),
{
    if reads.len() == 0 || g.iterations + 1 > MAX_READ_ITERATIONS || reads[0] == 0 {
        0
    } else {
        let t = saturating_total(g.total_read, reads[0]);
        if t > g.max_reasonable_size {
            0
        } else {
            reads[0] + zip_copy_written(
                ZipReadGuard {
                    iterations: (g.iterations + 1) as u32,
                    total_read: t,
                    max_reasonable_size: g.max_reasonable_size,
                },
                reads.drop_first(),
            )
        }
    }
}

/// The copy loop of one entry never writes more than the entry's limit,
/// counting what was read before. (When the limit is `u64::MAX` the count
/// saturates, and nothing is claimed.)
pub proof fn lemma_zip_copy_within_limit(g: ZipReadGuard, reads: Seq<usize>)
    requires
        g.total_read <= g.max_reasonable_size,
        g.max_reasonable_size < u64::MAX,
    ensures
        g.total_read + zip_copy_written(g, reads) <= g.max_reasonable_size,
    decreases reads.len(),
{
    if !(reads.len() == 0 || g.iterations + 1 > MAX_READ_ITERATIONS || reads[0] == 0) {
        let t = saturating_total(g.total_read, reads[0]);
        if t <= g.max_reasonable_size {
            let next = ZipReadGuard {
                iterations: (g.iterations + 1) as u32,
                total_read: t,
                max_reasonable_size: g.max_reasonable_size,
            };
            lemma_zip_copy_within_limit(next, reads.drop_first());
        }
    }
}

// ---------------------------------------------------------------------------
// Padding tolerance
// ---------------------------------------------------------------------------

/// How far an entry's extracted size may be from the size its header gives
/// (2 MiB): sector padding of disc images is accepted up to this much.
pub const MAX_PADDING_TOLERANCE: u64 = 2097152;

/// How an entry's extracted size compares with the size its header gives.
#[derive(Debug, Clone, Copy, PartialEq, Eq, Structural)]
pub enum SizeMatch {
    /// The sizes are equal.
    Exact,
    /// They differ by this many bytes, within the padding tolerance.
    Padded(u64),
    /// They differ by this many bytes, more than the padding tolerance.
    TooFar(u64),
}

/// The distance between two sizes.
pub open spec fn size_difference(expected: u64, actual: u64) -> int {
    if actual >= expected { actual - expected } else { expected - actual }
}

/// Compares the extracted size `actual` with the header's `expected`.
pub fn padding_verdict(expected: u64, actual: u64) -> (r: SizeMatch)
    ensures
        size_difference(expected, actual) == 0 ==> r == SizeMatch::Exact,
        0 < size_difference(expected, actual) <= MAX_PADDING_TOLERANCE
            ==> r == SizeMatch::Padded(size_difference(expected, actual) as u64),
        size_difference(expected, actual) > MAX_PADDING_TOLERANCE
            ==> r == SizeMatch::TooFar(size_difference(expected, actual) as u64),
{
    let diff = if actual >= expected { actual - expected } else { expected - actual };
    if diff == 0 {
        SizeMatch::Exact
    } else if diff <= MAX_PADDING_TOLERANCE {
        SizeMatch::Padded(diff)
    } else {
        SizeMatch::TooFar(diff)
    }
}

/// The most bytes read from an entry whose header gives `expected`: that
/// size plus the padding tolerance plus one (saturating), so that an entry
/// that runs past the tolerance is seen to do so (`padding_verdict` then
/// answers `TooFar`) rather than cut off at the tolerance.
pub fn padded_limit(expected: u64) -> (r: u64)
    ensures
        expected + MAX_PADDING_TOLERANCE + 1 <= u64::MAX ==> r == expected + MAX_PADDING_TOLERANCE + 1,
        expected + MAX_PADDING_TOLERANCE + 1 > u64::MAX ==> r == u64::MAX,
{
    if expected > u64::MAX - MAX_PADDING_TOLERANCE - 1 {
        u64::MAX
    } else {
        expected + MAX_PADDING_TOLERANCE + 1
    }
}

// ---------------------------------------------------------------------------
// Tallying a resilient extraction
// ---------------------------------------------------------------------------

/// Why a resilient ZIP extraction failed as a whole.
#[derive(Debug, Clone, Copy, PartialEq, Eq, Structural)]
pub enum ZipTallyError {
    /// The archive holds more entries than allowed: (entries, limit).
    TooManyFiles(usize, usize),
    /// Every entry failed.
    NoFilesExtracted,
}

/// The running count of a ZIP extraction that carries on past entries that
/// fail.
#[derive(Debug, Clone, Copy, PartialEq, Eq, Structural)]
pub struct ZipTally {
    /// Entries in the archive.
    pub total_files: usize,
    /// Entries extracted.
    pub successes: usize,
    /// Entries that failed.
    pub failures: usize,
    /// Bytes extracted so far (not advanced when the sum would overflow).
    pub total_extracted: u64,
}

impl ZipTally {
    /// Every entry has been accounted for at most once.
    pub open spec fn wf(self) -> bool {
        self.successes + self.failures <= self.total_files <= crate::security::MAX_FILES
    }

    /// Starts the count for an archive of `total_files` entries; refuses more
    /// than 1 000 000.
    pub fn start(total_files: usize) -> (r: Result<ZipTally, ZipTallyError>)
        ensures
            total_files > crate::security::MAX_FILES ==> r == Err::<ZipTally, ZipTallyError>(
                ZipTallyError::TooManyFiles(total_files, crate::security::MAX_FILES)),
            total_files <= crate::security::MAX_FILES ==> r == Ok::<ZipTally, ZipTallyError>(
                ZipTally { total_files, successes: 0, failures: 0, total_extracted: 0 }),
    {
        if total_files > crate::security::MAX_FILES {
            return Err(ZipTallyError::TooManyFiles(total_files, crate::security::MAX_FILES));
        }
        Ok(ZipTally { total_files, successes: 0, failures: 0, total_extracted: 0 })
    }

    /// Records an entry extracted to `size` bytes.
    pub fn record_success(&mut self, size: u64)
        requires
            old(self).wf(),
            old(self).successes + old(self).failures < old(self).total_files,
        ensures
            final(self).wf(),
            final(self).total_files == old(self).total_files,
            final(self).successes == old(self).successes + 1,
            final(self).failures == old(self).failures,
            final(self).total_extracted == (if old(self).total_extracted + size > u64::MAX {
                old(self).total_extracted
            } else {
                (old(self).total_extracted + size) as u64
            }),
    {
        self.successes = self.successes + 1;
        if let Some(t) = self.total_extracted.checked_add(size) {
            self.total_extracted = t;
        }
    }

    /// Records an entry that failed.
    pub fn record_failure(&mut self)
        requires
            old(self).wf(),
            old(self).successes + old(self).failures < old(self).total_files,
        ensures
            final(self).wf(),
            final(self).total_files == old(self).total_files,
            final(self).successes == old(self).successes,
            final(self).failures == old(self).failures + 1,
            final(self).total_extracted == old(self).total_extracted,
    {
        self.failures = self.failures + 1;
    }

    /// The outcome once every entry is counted: a failure only when some
    /// entries failed and none succeeded.
    pub fn finish(&self) -> (r: Result<(), ZipTallyError>)
        ensures
            (self.failures > 0 && self.successes == 0) ==> r == Err::<(), ZipTallyError>(ZipTallyError::NoFilesExtracted),
            !(self.failures > 0 && self.successes == 0) ==> r is Ok,
    {
        if self.failures > 0 && self.successes == 0 {
            return Err(ZipTallyError::NoFilesExtracted);
        }
        Ok(())
    }
}

} // verus!
