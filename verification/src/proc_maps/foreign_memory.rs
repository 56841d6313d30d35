//! A cache of the parts of another process's address space that are mapped
//! into this one: a list of segments, sorted by address, that do not
//! overlap. The cache decides what to map; the mapping itself is the
//! caller's.

use vstd::prelude::*;

verus! {

/// Why a range of addresses cannot be served.
#[derive(Clone, Copy, Debug, PartialEq, Eq, Structural)]
pub enum MemoryError {
    /// The range holds no byte.
    EmptyRange,
    /// The page of the last byte of the range ends past the address space.
    InvalidAddress,
}

/// A mapped part of the other address space: the addresses from `start` up
/// to, not including, `end`, and the mapping that backs them.
pub struct Segment<M> {
    pub start: u64,
    pub end: u64,
    pub mapping: M,
}

/// What to do for a range of addresses.
#[derive(Clone, Copy, Debug, PartialEq, Eq, Structural)]
pub enum Lookup {
    /// The segment at `index` holds the whole range.
    Hit { index: usize },
    /// No segment holds the whole range: `size` bytes from `address` on are
    /// to be mapped and handed to `insert`.
    Miss { address: u64, size: u64 },
}

/// The start of the page that holds `address`.
pub open spec fn trunc_page(address: u64, page_size: u64) -> u64 {
    (address - address % page_size) as u64
}

/// Whether the segments are whole pages, sorted by address, and apart from
/// each other.
pub open spec fn well_formed<M>(page_size: u64, segments: Seq<Segment<M>>) -> bool {
    &&& page_size > 0
    &&& forall|i: int|
        0 <= i < segments.len() ==> (#[trigger] segments[i]).start < segments[i].end
            && segments[i].start % page_size == 0 && segments[i].end % page_size == 0
    &&& forall|i: int, j: int|
        0 <= i < j < segments.len() ==> (#[trigger] segments[i]).end <= (
        #[trigger] segments[j]).start
}

/// The number of segments at the front that end at or before `address`.
pub open spec fn first_ending_after<M>(segments: Seq<Segment<M>>, address: u64) -> int
    decreases segments.len(),
{
    if segments.len() == 0 || segments[0].end > address {
        0
    } else {
        1 + first_ending_after(segments.drop_first(), address)
    }
}

/// Where `address` stands in the list: `Ok` with the index of the segment
/// that holds it, or `Err` with the index at which a segment that holds it
/// would stand.
pub open spec fn index_for_address<M>(segments: Seq<Segment<M>>, address: u64) -> Result<int, int> {
    let index = first_ending_after(segments, address);
    if index < segments.len() && segments[index].start <= address {
        Ok(index)
    } else {
        Err(index)
    }
}

/// What a miss on a range leads to: the pages to map, and the segments that
/// the new segment replaces, from `replace_from` up to, not including,
/// `replace_to`.
pub struct Plan {
    pub map_start: u64,
    pub map_end: int,
    pub replace_from: int,
    pub replace_to: int,
}

/// The plan for the bytes from `start` up to, not including, `end`: the
/// pages from that of the first byte to that of the last are mapped, and
/// replace every segment that holds one of the two or lies between them.
pub open spec fn plan<M>(page_size: u64, segments: Seq<Segment<M>>, start: u64, end: u64) -> Plan {
    let last = (end - 1) as u64;
    Plan {
        map_start: trunc_page(start, page_size),
        map_end: trunc_page(last, page_size) + page_size,
        replace_from: first_ending_after(segments, start),
        replace_to: match index_for_address(segments, last) {
            Ok(index) => index + 1,
            Err(index) => index,
        },
    }
}

/// What `lookup` answers for a range.
pub open spec fn lookup_result<M>(
    page_size: u64,
    segments: Seq<Segment<M>>,
    start: u64,
    end: u64,
) -> Result<Lookup, MemoryError> {
    if start >= end {
        Err(MemoryError::EmptyRange)
    } else {
        let first = index_for_address(segments, start);
        let last = index_for_address(segments, (end - 1) as u64);
        if first is Ok && first == last {
            Ok(Lookup::Hit { index: first->Ok_0 as usize })
        } else {
            let plan = plan(page_size, segments, start, end);
            if plan.map_end > u64::MAX {
                Err(MemoryError::InvalidAddress)
            } else {
                Ok(
                    Lookup::Miss {
                        address: plan.map_start,
                        size: (plan.map_end - plan.map_start) as u64,
                    },
                )
            }
        }
    }
}

/// The list after the segments of the plan are replaced by `segment`.
pub open spec fn spliced<M>(segments: Seq<Segment<M>>, plan: Plan, segment: Segment<M>) -> Seq<
    Segment<M>,
> {
    segments.subrange(0, plan.replace_from).push(segment) + segments.subrange(
        plan.replace_to,
        segments.len() as int,
    )
}

/// `first_ending_after` is the one index that has only segments that end at
/// or before the address in front of it and none such at it.
pub proof fn lemma_first_ending_after<M>(segments: Seq<Segment<M>>, address: u64, index: int)
    requires
        0 <= index <= segments.len(),
        forall|i: int| 0 <= i < index ==> (#[trigger] segments[i]).end <= address,
        index < segments.len() ==> segments[index].end > address,
    ensures
        first_ending_after(segments, address) == index,
    decreases index,
{
    if index > 0 {
        let rest = segments.drop_first();
        assert(segments[0].end <= address);
        assert forall|i: int| 0 <= i < index - 1 implies (#[trigger] rest[i]).end <= address by {
            assert(rest[i] == segments[i + 1]);
        }
        if index - 1 < rest.len() {
            assert(rest[index - 1] == segments[index]);
        }
        lemma_first_ending_after(rest, address, index - 1);
    }
}

/// In a well-formed list, the segments in front of `first_ending_after` end
/// at or before the address, and those from it on end after the address.
pub proof fn lemma_first_ending_after_splits<M>(
    page_size: u64,
    segments: Seq<Segment<M>>,
    address: u64,
)
    requires
        well_formed(page_size, segments),
    ensures
        0 <= first_ending_after(segments, address) <= segments.len(),
        forall|i: int|
            0 <= i < first_ending_after(segments, address) ==> (#[trigger] segments[i]).end
                <= address,
        forall|i: int|
            first_ending_after(segments, address) <= i < segments.len() ==> (
            #[trigger] segments[i]).end > address,
    decreases segments.len(),
{
    if segments.len() > 0 {
        let rest = segments.drop_first();
        assert forall|i: int| 0 <= i < rest.len() implies (#[trigger] rest[i]).start < rest[i].end
            && rest[i].start % page_size == 0 && rest[i].end % page_size == 0 by {
            assert(rest[i] == segments[i + 1]);
        }
        assert forall|i: int, j: int| 0 <= i < j < rest.len() implies (#[trigger] rest[i]).end <= (
        #[trigger] rest[j]).start by {
            assert(rest[i] == segments[i + 1]);
            assert(rest[j] == segments[j + 1]);
        }
        if segments[0].end > address {
            assert forall|i: int| 0 <= i < segments.len() implies (#[trigger] segments[i]).end
                > address by {
                if i > 0 {
                    assert(segments[0].end <= segments[i].start);
                }
            }
        } else {
            lemma_first_ending_after_splits(page_size, rest, address);
            let k = first_ending_after(rest, address);
            assert forall|i: int| 0 <= i < k + 1 implies (#[trigger] segments[i]).end
                <= address by {
                if i > 0 {
                    assert(rest[i - 1] == segments[i]);
                }
            }
            assert forall|i: int| k + 1 <= i < segments.len() implies (#[trigger] segments[i]).end
                > address by {
                assert(rest[i - 1] == segments[i]);
            }
        }
    }
}

/// An address that lies in a segment of a well-formed list is found there.
pub proof fn lemma_segment_holds_its_addresses<M>(
    page_size: u64,
    segments: Seq<Segment<M>>,
    index: int,
    address: u64,
)
    requires
        well_formed(page_size, segments),
        0 <= index < segments.len(),
        segments[index].holds(address),
    ensures
        index_for_address(segments, address) == Ok::<int, int>(index),
{
    assert forall|i: int| 0 <= i < index implies (#[trigger] segments[i]).end <= address by {
        assert(segments[i].end <= segments[index].start);
    }
    lemma_first_ending_after(segments, address, index);
}

/// A multiple of the page size that lies above an address lies at or above
/// the end of the page of the address, and one that lies at or below the
/// address lies at or below the start of its page.
pub proof fn lemma_page_bounds(address: u64, page_size: u64, boundary: u64)
    requires
        page_size > 0,
        boundary % page_size == 0,
    ensures
        address % page_size <= address,
        trunc_page(address, page_size) % page_size == 0,
        (trunc_page(address, page_size) + page_size) % (page_size as int) == 0,
        trunc_page(address, page_size) <= address < trunc_page(address, page_size) + page_size,
        boundary > address ==> boundary >= trunc_page(address, page_size) + page_size,
        boundary <= address ==> boundary <= trunc_page(address, page_size),
{
    let a = address as int;
    let p = page_size as int;
    let b = boundary as int;
    assert(a == p * (a / p) + a % p && 0 <= a % p < p) by (nonlinear_arith)
        requires
            p > 0,
    ;
    assert(b == p * (b / p) + b % p) by (nonlinear_arith)
        requires
            p > 0,
    ;
    assert((p * (a / p)) % p == 0 && (p * (a / p) + p) % p == 0) by (nonlinear_arith)
        requires
            p > 0,
    ;
    if b > a {
        assert(b / p > a / p) by (nonlinear_arith)
            requires
                p > 0,
                b == p * (b / p),
                a == p * (a / p) + a % p,
                0 <= a % p < p,
                b > a,
        ;
        assert(p * (b / p) >= p * (a / p) + p) by (nonlinear_arith)
            requires
                p > 0,
                b / p > a / p,
        ;
    }
    if b <= a {
        assert(b / p <= a / p) by (nonlinear_arith)
            requires
                p > 0,
                b == p * (b / p),
                a == p * (a / p) + a % p,
                0 <= a % p < p,
                b <= a,
        ;
        assert(p * (b / p) <= p * (a / p)) by (nonlinear_arith)
            requires
                p > 0,
                b / p <= a / p,
        ;
    }
}

/// The segments of a well-formed list stand in ascending order of their
/// addresses, and no address lies in two of them.
pub proof fn lemma_segments_are_sorted_and_apart<M>(
    page_size: u64,
    segments: Seq<Segment<M>>,
    i: int,
    j: int,
)
    requires
        well_formed(page_size, segments),
        0 <= i < j < segments.len(),
    ensures
        segments[i].start < segments[j].start,
        forall|address: u64|
            !(#[trigger] segments[i].holds(address) && segments[j].holds(address)),
{
}

/// Replacing the segments of a plan by the pages of the plan keeps the list
/// well-formed.
pub proof fn lemma_splice_keeps_well_formed<M>(
    page_size: u64,
    segments: Seq<Segment<M>>,
    start: u64,
    end: u64,
    mapping: M,
)
    requires
        well_formed(page_size, segments),
        start < end,
        plan(page_size, segments, start, end).map_end <= u64::MAX,
    ensures
        0 <= plan(page_size, segments, start, end).replace_from <= plan(
            page_size,
            segments,
            start,
            end,
        ).replace_to <= segments.len(),
        plan(page_size, segments, start, end).map_start <= start,
        end <= plan(page_size, segments, start, end).map_end,
        well_formed(
            page_size,
            spliced(
                segments,
                plan(page_size, segments, start, end),
                Segment {
                    start: plan(page_size, segments, start, end).map_start,
                    end: plan(page_size, segments, start, end).map_end as u64,
                    mapping,
                },
            ),
        ),
{
    let last = (end - 1) as u64;
    let plan = plan(page_size, segments, start, end);
    let from = plan.replace_from;
    let to = plan.replace_to;
    let k = first_ending_after(segments, last);
    lemma_first_ending_after_splits(page_size, segments, start);
    lemma_first_ending_after_splits(page_size, segments, last);
    lemma_page_bounds(start, page_size, 0);
    lemma_page_bounds(last, page_size, 0);
    // the segments in front of `from` end at or before `start`, so `from <= k`
    if from > k {
        assert(segments[k].end <= start);
        assert(segments[k].end > last);
    }
    let fresh = Segment { start: plan.map_start, end: plan.map_end as u64, mapping };
    let result = spliced(segments, plan, fresh);
    assert(result.len() == from + 1 + (segments.len() - to));
    assert forall|i: int| 0 <= i < result.len() implies (#[trigger] result[i]).start
        < result[i].end && result[i].start % page_size == 0 && result[i].end % page_size == 0 by {
        if i < from {
            assert(result[i] == segments[i]);
        } else if i == from {
            assert(result[i] == fresh);
            assert(fresh.start <= start <= last < fresh.end);
        } else {
            assert(result[i] == segments[to + (i - from - 1)]);
        }
    }
    assert forall|i: int, j: int| 0 <= i < j < result.len() implies (#[trigger] result[i]).end <= (
    #[trigger] result[j]).start by {
        if i < from {
            assert(result[i] == segments[i]);
            assert(segments[i].end <= start);
            lemma_page_bounds(start, page_size, segments[i].end);
        }
        if i == from {
            assert(result[i] == fresh);
        }
        if i > from {
            assert(result[i] == segments[to + (i - from - 1)]);
        }
        if j == from {
            assert(result[j] == fresh);
        }
        if j > from {
            let source = to + (j - from - 1);
            assert(result[j] == segments[source]);
            if i == from {
                // the segment at `source` starts after `last`
                if to == k {
                    assert(!(segments[k].start <= last));
                    if source > k {
                        assert(segments[k].end <= segments[source].start);
                    }
                } else {
                    assert(segments[k].end <= segments[source].start);
                    assert(segments[k].end > last);
                }
                lemma_page_bounds(last, page_size, segments[source].start);
            }
        }
    }
}

/// The start of the page that holds `address`.
pub fn page_start(address: u64, page_size: u64) -> (start: u64)
    requires
        page_size > 0,
    ensures
        start == trunc_page(address, page_size),
{
    proof {
        lemma_page_bounds(address, page_size, 0);
    }
    address - address % page_size
}

/// A cache of the mapped parts of the address space of one task.
pub struct ForeignMemory<M> {
    task: u32,
    page_size: u64,
    segments: Vec<Segment<M>>,
}

impl<M> Segment<M> {
    /// Whether `address` lies in the segment.
    pub open spec fn holds(self, address: u64) -> bool {
        self.start <= address < self.end
    }

    /// Where the bytes from `start` up to `end` lie in the mapping: their
    /// offset from its start and their number. `None` where the segment
    /// does not hold them all.
    pub fn locate(&self, start: u64, end: u64) -> (place: Option<(u64, u64)>)
        ensures
            place == if self.start <= start <= end <= self.end {
                Some(((start - self.start) as u64, (end - start) as u64))
            } else {
                None
            },
    {
        if self.start <= start && start <= end && end <= self.end {
            Some((start - self.start, end - start))
        } else {
            None
        }
    }
}

impl<M> ForeignMemory<M> {
    #[verifier::type_invariant]
    spec fn is_well_formed(&self) -> bool {
        well_formed(self.page_size, self.segments@)
    }

    /// The segments of the cache, in order.
    pub closed spec fn segments(&self) -> Seq<Segment<M>> {
        self.segments@
    }

    /// The size of a page.
    pub closed spec fn spec_page_size(&self) -> u64 {
        self.page_size
    }

    /// The task whose memory the cache maps.
    pub closed spec fn spec_task(&self) -> u32 {
        self.task
    }

    /// An empty cache for the memory of `task`, which is mapped in pages of
    /// `page_size` bytes. There is none for a page size of 0.
    pub fn new(task: u32, page_size: u64) -> (memory: Option<Self>)
        ensures
            memory is Some <==> page_size > 0,
            memory matches Some(memory) ==> memory.segments() == Seq::<Segment<M>>::empty()
                && memory.spec_page_size() == page_size && memory.spec_task() == task
                && well_formed(page_size, memory.segments()),
    {
        if page_size == 0 {
            None
        } else {
            Some(ForeignMemory { task, page_size, segments: Vec::new() })
        }
    }

    /// The task whose memory the cache maps.
    pub fn task(&self) -> (task: u32)
        ensures
            task == self.spec_task(),
    {
        self.task
    }

    /// The size of a page.
    pub fn page_size(&self) -> (page_size: u64)
        ensures
            page_size == self.spec_page_size(),
            page_size > 0,
    {
        proof {
            use_type_invariant(self);
        }
        self.page_size
    }

    /// The number of segments.
    pub fn len(&self) -> (len: usize)
        ensures
            len == self.segments().len(),
    {
        self.segments.len()
    }

    /// The segment at `index`.
    pub fn segment(&self, index: usize) -> (segment: Option<&Segment<M>>)
        ensures
            segment == if index < self.segments().len() {
                Some(&self.segments()[index as int])
            } else {
                None
            },
            well_formed(self.spec_page_size(), self.segments()),
    {
        proof {
            use_type_invariant(self);
        }
        if index < self.segments.len() {
            Some(&self.segments[index])
        } else {
            None
        }
    }

    /// Drops every segment.
    pub fn clear(&mut self)
        ensures
            final(self).segments() == Seq::<Segment<M>>::empty(),
            final(self).spec_page_size() == old(self).spec_page_size(),
            final(self).spec_task() == old(self).spec_task(),
            well_formed(final(self).spec_page_size(), final(self).segments()),
    {
        proof {
            use_type_invariant(&*self);
        }
        self.segments = Vec::new();
    }

    /// Where `address` stands in the list: `Ok` with the index of the
    /// segment that holds it, or `Err` with the index at which a segment
    /// that holds it would stand.
    pub fn data_index_for_address(&self, address: u64) -> (found: Result<usize, usize>)
        ensures
            match found {
                Ok(index) => index_for_address(self.segments(), address) == Ok::<int, int>(
                    index as int,
                ) && index < self.segments().len(),
                Err(index) => index_for_address(self.segments(), address) == Err::<int, int>(
                    index as int,
                ) && index <= self.segments().len(),
            },
    {
        proof {
            use_type_invariant(self);
        }
        let mut low: usize = 0;
        let mut high: usize = self.segments.len();
        while low < high
            invariant
                low <= high <= self.segments@.len(),
                well_formed(self.page_size, self.segments@),
                forall|i: int| 0 <= i < low ==> (#[trigger] self.segments@[i]).end <= address,
                forall|i: int|
                    high <= i < self.segments@.len() ==> (#[trigger] self.segments@[i]).start
                        > address,
            decreases high - low,
        {
            let middle = low + (high - low) / 2;
            let segment = &self.segments[middle];
            if segment.start > address {
                assert forall|i: int| middle <= i < self.segments@.len() implies (
                #[trigger] self.segments@[i]).start > address by {
                    if i > middle {
                        assert(self.segments@[middle as int].end <= self.segments@[i].start);
                    }
                }
                high = middle;
            } else if segment.end <= address {
                assert forall|i: int| 0 <= i < middle + 1 implies (#[trigger] self.segments@[i]).end
                    <= address by {
                    if i < middle {
                        assert(self.segments@[i].end <= self.segments@[middle as int].start);
                    }
                }
                low = middle + 1;
            } else {
                proof {
                    assert forall|i: int| 0 <= i < middle implies (#[trigger] self.segments@[i]).end
                        <= address by {
                        assert(self.segments@[i].end <= self.segments@[middle as int].start);
                    }
                    lemma_first_ending_after(self.segments@, address, middle as int);
                }
                return Ok(middle);
            }
        }
        proof {
            if low < self.segments@.len() {
                assert(self.segments@[low as int].start > address);
            }
            lemma_first_ending_after(self.segments@, address, low as int);
        }
        Err(low)
    }

    /// What to do for the bytes from `start` up to, not including, `end`: a
    /// hit where one segment holds the first and the last of them, else the
    /// pages to map, which reach from the page of the first byte to that of
    /// the last.
    pub fn lookup(&self, start: u64, end: u64) -> (result: Result<Lookup, MemoryError>)
        ensures
            result == lookup_result(self.spec_page_size(), self.segments(), start, end),
            well_formed(self.spec_page_size(), self.segments()),
    {
        proof {
            use_type_invariant(self);
        }
        if start >= end {
            return Err(MemoryError::EmptyRange);
        }
        let last = end - 1;
        let first_index = self.data_index_for_address(start);
        let last_index = self.data_index_for_address(last);
        match (first_index, last_index) {
            (Ok(i), Ok(j)) => {
                if i == j {
                    return Ok(Lookup::Hit { index: i });
                }
            },
            _ => {},
        }
        let map_start = page_start(start, self.page_size);
        let last_page = page_start(last, self.page_size);
        if last_page > u64::MAX - self.page_size {
            return Err(MemoryError::InvalidAddress);
        }
        proof {
            lemma_page_bounds(start, self.page_size, 0);
            lemma_page_bounds(last, self.page_size, 0);
        }
        Ok(Lookup::Miss { address: map_start, size: last_page + self.page_size - map_start })
    }

    /// Takes the mapping that was made for a miss on the bytes from `start`
    /// up to, not including, `end`. The new segment holds the pages that
    /// `lookup` asked for, and replaces every segment that overlaps them.
    /// Gives the index of the new segment. On an error the cache is as it
    /// was, and the mapping is dropped.
    pub fn insert(&mut self, start: u64, end: u64, mapping: M) -> (result: Result<
        usize,
        MemoryError,
    >)
        ensures
            final(self).spec_page_size() == old(self).spec_page_size(),
            final(self).spec_task() == old(self).spec_task(),
            well_formed(final(self).spec_page_size(), final(self).segments()),
            match result {
                Ok(index) => {
                    let plan = plan(old(self).spec_page_size(), old(self).segments(), start, end);
                    &&& start < end
                    &&& plan.map_end <= u64::MAX
                    &&& index == plan.replace_from
                    &&& final(self).segments() == spliced(
                        old(self).segments(),
                        plan,
                        Segment { start: plan.map_start, end: plan.map_end as u64, mapping },
                    )
                    &&& final(self).segments()[index as int].start <= start
                    &&& end <= final(self).segments()[index as int].end
                    &&& lookup_result(
                        final(self).spec_page_size(),
                        final(self).segments(),
                        start,
                        end,
                    ) == Ok::<Lookup, MemoryError>(Lookup::Hit { index })
                },
                Err(error) => {
                    &&& final(self).segments() == old(self).segments()
                    &&& error == if start >= end {
                        MemoryError::EmptyRange
                    } else {
                        MemoryError::InvalidAddress
                    }
                    &&& start < end ==> plan(
                        old(self).spec_page_size(),
                        old(self).segments(),
                        start,
                        end,
                    ).map_end > u64::MAX
                },
            },
    {
        proof {
            use_type_invariant(&*self);
        }
        if start >= end {
            return Err(MemoryError::EmptyRange);
        }
        let last = end - 1;
        let map_start = page_start(start, self.page_size);
        let last_page = page_start(last, self.page_size);
        if last_page > u64::MAX - self.page_size {
            return Err(MemoryError::InvalidAddress);
        }
        let map_end = last_page + self.page_size;
        let count = self.segments.len();
        let from = match self.data_index_for_address(start) {
            Ok(index) => index,
            Err(index) => index,
        };
        let to = match self.data_index_for_address(last) {
            Ok(index) => {
                assert(index < count);
                index + 1
            },
            Err(index) => index,
        };
        proof {
            lemma_splice_keeps_well_formed(self.page_size, self.segments@, start, end, mapping);
        }
        let ghost before = self.segments@;
        let mut segments: Vec<Segment<M>> = Vec::new();
        core::mem::swap(&mut self.segments, &mut segments);
        let mut tail = segments.split_off(to);
        segments.truncate(from);
        segments.push(Segment { start: map_start, end: map_end, mapping });
        segments.append(&mut tail);
        assert(segments@ =~= spliced(
            before,
            plan(self.page_size, before, start, end),
            Segment { start: map_start, end: map_end, mapping },
        ));
        self.segments = segments;
        proof {
            lemma_segment_holds_its_addresses(self.page_size, self.segments@, from as int, start);
            lemma_segment_holds_its_addresses(self.page_size, self.segments@, from as int, last);
        }
        Ok(from)
    }
}

/// The bytes of the word at `address`: its start and its end, or nothing
/// where the word reaches past the address space.
pub fn word_range(address: u64) -> (range: Option<(u64, u64)>)
    ensures
        range == if address + 8 <= u64::MAX {
            Some((address, (address + 8) as u64))
        } else {
            None
        },
{
    if address <= u64::MAX - 8 {
        Some((address, address + 8))
    } else {
        None
    }
}

} // verus!
