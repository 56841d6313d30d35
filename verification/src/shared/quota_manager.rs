//! Keeping a managed directory within its limits.
//!
//! An eviction pass brings the directory down to its limit on size, then to
//! its limit on age. The pass decides which file is to be deleted next and
//! keeps the inventory up to date; deleting the file is the caller's, and
//! the caller may let go of the inventory while it does so.

use super::file_inventory::{
    absolute_paths, aged_count, eviction_count, index_of_path, is_table,
    lemma_total_size_drop_first, lemma_total_size_not_negative, sorted_by_access, texts_view,
    total_size, FileInventory, FileRow, Inventory,
};
use super::paths::{absolute_path, lemma_relative_of_absolute};
use vstd::prelude::*;

verus! {

/// How the deletion of a file ended.
#[derive(Clone, Copy, Debug, PartialEq, Eq, Structural)]
pub enum DeleteOutcome {
    /// The file was deleted.
    Deleted,
    /// There was no such file.
    NotFound,
    /// The file could not be deleted; it stays in the inventory.
    Failed,
}

/// The limit that a pass is enforcing.
#[derive(Clone, Copy, Debug, PartialEq, Eq, Structural)]
pub enum PassPhase {
    /// The limit on the size of all files together.
    Size,
    /// The limit on the time since the last access of a file.
    Age,
    /// None: the pass has ended.
    Done,
}

/// A pass as a mathematical value.
pub struct Pass {
    pub phase: PassPhase,
    /// The files that the pass still deletes in this phase, in order.
    pub remaining: Seq<Seq<char>>,
    pub max_size_bytes: Option<u64>,
    pub max_age_seconds: Option<u64>,
    /// The time at which the limit on age was applied; meaningful from the
    /// phase `Age` on.
    pub age_checked_at: u64,
}

/// The inventory after the deletion of `path` ended with `outcome`.
pub open spec fn inventory_after(
    inventory: Inventory,
    path: Seq<char>,
    outcome: DeleteOutcome,
) -> Inventory {
    match outcome {
        DeleteOutcome::Failed => inventory,
        _ => inventory.deleted(path),
    }
}

impl Pass {
    /// The pass as it enters the phase `Age` at the time `now`, with the
    /// inventory `inventory`: done at once where no file is too old.
    pub open spec fn age_phase(self, inventory: Inventory, now: u64) -> Pass {
        let files = match self.max_age_seconds {
            Some(max_age_seconds) => inventory.files_to_delete_for_max_age(max_age_seconds, now),
            None => Seq::empty(),
        };
        Pass {
            phase: if files.len() > 0 {
                PassPhase::Age
            } else {
                PassPhase::Done
            },
            remaining: files,
            max_size_bytes: self.max_size_bytes,
            max_age_seconds: self.max_age_seconds,
            age_checked_at: now,
        }
    }

    /// The pass that starts at the time `now` with the inventory `inventory`.
    pub open spec fn start(
        inventory: Inventory,
        max_size_bytes: Option<u64>,
        max_age_seconds: Option<u64>,
        now: u64,
    ) -> Pass {
        let files = match max_size_bytes {
            Some(max_size_bytes) => inventory.files_to_delete_for_max_size(max_size_bytes),
            None => Seq::empty(),
        };
        let pass = Pass {
            phase: PassPhase::Size,
            remaining: files,
            max_size_bytes,
            max_age_seconds,
            age_checked_at: now,
        };
        if files.len() > 0 {
            pass
        } else {
            pass.age_phase(inventory, now)
        }
    }

    /// The file to delete next.
    pub open spec fn next_file(self) -> Option<Seq<char>> {
        if self.phase != PassPhase::Done && self.remaining.len() > 0 {
            Some(self.remaining[0])
        } else {
            None
        }
    }

    /// The pass after the deletion of its next file has ended, at the time
    /// `now` and with the inventory as it is then.
    pub open spec fn step(self, inventory: Inventory, now: u64) -> Pass {
        if self.next_file() is None {
            self
        } else if self.remaining.len() > 1 {
            Pass { remaining: self.remaining.drop_first(), ..self }
        } else if self.phase == PassPhase::Size {
            self.age_phase(inventory, now)
        } else {
            Pass { phase: PassPhase::Done, remaining: Seq::empty(), ..self }
        }
    }

    /// Whether the inventory is within the limit on size.
    pub open spec fn size_is_kept(self, inventory: Inventory) -> bool {
        self.max_size_bytes matches Some(max_size_bytes) ==> total_size(inventory.rows)
            <= max_size_bytes
    }

    /// Whether the files from `from` on are within the limit on age, as it
    /// was applied.
    pub open spec fn age_is_kept_from(self, inventory: Inventory, from: int) -> bool {
        self.max_age_seconds matches Some(max_age_seconds) ==> forall|i: int|
            from <= i < inventory.rows.len() ==> (#[trigger] inventory.rows[i]).last_access_time
                >= self.age_checked_at - max_age_seconds
    }

    /// Whether the pass leads the inventory to its limits: the files that
    /// the pass still deletes are the first files of the inventory, and
    /// once they are gone, the limit of the phase is kept.
    pub open spec fn is_on_track(self, inventory: Inventory) -> bool {
        let count = self.remaining.len() as int;
        &&& is_table(inventory.rows)
        &&& count <= inventory.rows.len()
        &&& self.remaining == absolute_paths(inventory.root, inventory.rows.take(count))
        &&& match self.phase {
            PassPhase::Size => count > 0 && (Pass { remaining: Seq::empty(), ..self }).size_is_kept(
                Inventory { root: inventory.root, rows: inventory.rows.skip(count) },
            ),
            PassPhase::Age => count > 0 && self.size_is_kept(inventory) && self.age_is_kept_from(
                inventory,
                count,
            ),
            PassPhase::Done => count == 0 && self.size_is_kept(inventory)
                && self.age_is_kept_from(inventory, 0),
        }
    }
}

/// In a table in the order of leaving, the files after those that are too
/// old are not too old.
pub proof fn lemma_aged_count_splits(rows: Seq<FileRow>, cutoff: int)
    requires
        sorted_by_access(rows),
    ensures
        0 <= aged_count(rows, cutoff) <= rows.len(),
        forall|i: int|
            0 <= i < aged_count(rows, cutoff) ==> (#[trigger] rows[i]).last_access_time < cutoff,
        forall|i: int|
            aged_count(rows, cutoff) <= i < rows.len() ==> (#[trigger] rows[i]).last_access_time
                >= cutoff,
    decreases rows.len(),
{
    if rows.len() > 0 {
        let rest = rows.drop_first();
        assert forall|i: int, j: int| 0 <= i < j < rest.len() implies (
        #[trigger] rest[i]).last_access_time <= (#[trigger] rest[j]).last_access_time by {
            assert(rest[i] == rows[i + 1]);
            assert(rest[j] == rows[j + 1]);
        }
        if rows[0].last_access_time >= cutoff {
            assert forall|i: int| 0 <= i < rows.len() implies (#[trigger] rows[i]).last_access_time
                >= cutoff by {
                if i > 0 {
                    assert(rows[0].last_access_time <= rows[i].last_access_time);
                }
            }
        } else {
            lemma_aged_count_splits(rest, cutoff);
            let k = aged_count(rest, cutoff);
            assert forall|i: int| 0 <= i < k + 1 implies (#[trigger] rows[i]).last_access_time
                < cutoff by {
                if i > 0 {
                    assert(rest[i - 1] == rows[i]);
                }
            }
            assert forall|i: int| k + 1 <= i < rows.len() implies (
            #[trigger] rows[i]).last_access_time >= cutoff by {
                assert(rest[i - 1] == rows[i]);
            }
        }
    }
}

/// The files that leave for an excess hold at least the excess, unless all
/// files leave.
pub proof fn lemma_eviction_frees_excess(rows: Seq<FileRow>, excess: int)
    ensures
        0 <= eviction_count(rows, excess) <= rows.len(),
        rows.len() > 0 ==> eviction_count(rows, excess) > 0,
        total_size(rows.skip(eviction_count(rows, excess))) <= total_size(rows) - excess
            || eviction_count(rows, excess) == rows.len(),
    decreases rows.len(),
{
    if rows.len() > 0 {
        lemma_total_size_drop_first(rows);
        if rows[0].size_in_bytes >= excess {
            assert(rows.skip(1) =~= rows.drop_first());
        } else {
            let rest = rows.drop_first();
            lemma_eviction_frees_excess(rest, excess - rows[0].size_in_bytes);
            let count = eviction_count(rest, excess - rows[0].size_in_bytes);
            assert(rest.skip(count) =~= rows.skip(count + 1));
        }
    } else {
        assert(rows.skip(0) =~= rows);
    }
}

/// The total of no rows is 0.
pub proof fn lemma_total_size_of_rest(rows: Seq<FileRow>)
    ensures
        total_size(rows.skip(rows.len() as int)) == 0,
        total_size(rows.skip(0)) == total_size(rows),
{
    assert(rows.skip(rows.len() as int) =~= Seq::empty());
    assert(rows.skip(0) =~= rows);
}

/// The phase `Age` starts on track, where the limit on size is kept.
pub proof fn lemma_age_phase_is_on_track(pass: Pass, inventory: Inventory, now: u64)
    requires
        is_table(inventory.rows),
        pass.size_is_kept(inventory),
    ensures
        pass.age_phase(inventory, now).is_on_track(inventory),
{
    let next = pass.age_phase(inventory, now);
    match pass.max_age_seconds {
        Some(max_age_seconds) => {
            lemma_aged_count_splits(inventory.rows, now - max_age_seconds);
        },
        None => {
            assert(inventory.rows.take(0) =~= Seq::empty());
            assert(next.remaining =~= absolute_paths(inventory.root, inventory.rows.take(0)));
        },
    }
}

/// A pass starts on track: the files that it sets out to delete are the
/// first files of the inventory, and enough of them for the limit on size.
/// This needs a total that a `u64` holds: of a larger one the pass does not
/// know the excess.
pub proof fn lemma_start_is_on_track(
    inventory: Inventory,
    max_size_bytes: Option<u64>,
    max_age_seconds: Option<u64>,
    now: u64,
)
    requires
        is_table(inventory.rows),
        total_size(inventory.rows) <= u64::MAX,
    ensures
        Pass::start(inventory, max_size_bytes, max_age_seconds, now).is_on_track(inventory),
{
    let pass = Pass::start(inventory, max_size_bytes, max_age_seconds, now);
    let first = Pass {
        phase: PassPhase::Size,
        remaining: match max_size_bytes {
            Some(max_size_bytes) => inventory.files_to_delete_for_max_size(max_size_bytes),
            None => Seq::empty(),
        },
        max_size_bytes,
        max_age_seconds,
        age_checked_at: now,
    };
    lemma_total_size_not_negative(inventory.rows);
    lemma_total_size_of_rest(inventory.rows);
    match max_size_bytes {
        Some(limit) => {
            let total = inventory.total_size_in_bytes();
            if total >= limit {
                let excess = total - limit;
                lemma_eviction_frees_excess(inventory.rows, excess);
                let count = eviction_count(inventory.rows, excess);
                if count == 0 {
                    assert(inventory.rows.len() == 0);
                    assert(inventory.rows =~= Seq::empty());
                    assert(total_size(inventory.rows) == 0);
                }
            }
        },
        None => {},
    }
    if first.remaining.len() == 0 {
        lemma_age_phase_is_on_track(first, inventory, now);
    }
}

/// A deletion that succeeds keeps the pass on track, and takes the first
/// file out of the inventory. This holds as long as nothing else changes
/// the inventory during the pass; a deletion that fails leaves its file in
/// the inventory, and the pass goes on without it.
pub proof fn lemma_step_stays_on_track(
    pass: Pass,
    inventory: Inventory,
    outcome: DeleteOutcome,
    now: u64,
)
    requires
        pass.is_on_track(inventory),
        pass.next_file() is Some,
        outcome != DeleteOutcome::Failed,
    ensures
        inventory_after(inventory, pass.next_file()->0, outcome).rows
            == inventory.rows.drop_first(),
        pass.step(inventory_after(inventory, pass.next_file()->0, outcome), now).is_on_track(
            inventory_after(inventory, pass.next_file()->0, outcome),
        ),
{
    let rows = inventory.rows;
    let count = pass.remaining.len() as int;
    let path = pass.next_file()->0;
    let after = inventory_after(inventory, path, outcome);
    assert(rows.take(count)[0] == rows[0]);
    assert(path == absolute_path(inventory.root, rows[0].path));
    lemma_relative_of_absolute(inventory.root, rows[0].path);
    assert(index_of_path(rows, rows[0].path) == Some(0int));
    assert(rows.remove(0) =~= rows.drop_first());
    assert(after.rows == rows.drop_first());
    let rest = after.rows;
    assert forall|i: int, j: int| 0 <= i < j < rest.len() implies (#[trigger] rest[i]).path != (
    #[trigger] rest[j]).path && rest[i].last_access_time <= rest[j].last_access_time by {
        assert(rest[i] == rows[i + 1]);
        assert(rest[j] == rows[j + 1]);
    }
    lemma_total_size_drop_first(rows);
    assert(rest.skip(count - 1) =~= rows.skip(count));
    assert(pass.remaining.drop_first() =~= absolute_paths(inventory.root, rest.take(count - 1)))
        by {
        assert forall|i: int| 0 <= i < count - 1 implies pass.remaining.drop_first()[i]
            == absolute_paths(inventory.root, rest.take(count - 1))[i] by {
            assert(pass.remaining[i + 1] == absolute_paths(inventory.root, rows.take(count))[i
                + 1]);
            assert(rows.take(count)[i + 1] == rest.take(count - 1)[i]);
        }
    }
    let next = pass.step(after, now);
    if count > 1 {
        if pass.phase == PassPhase::Age {
            assert forall|i: int| count - 1 <= i < rest.len() implies (#[trigger] rest[i])
                == rows[i + 1] by {}
        }
    } else if pass.phase == PassPhase::Size {
        assert(rows.skip(1) =~= rest);
        lemma_age_phase_is_on_track(pass, after, now);
    } else {
        assert(rest.take(0) =~= Seq::empty());
        assert(next.remaining =~= absolute_paths(after.root, rest.take(0)));
        assert forall|i: int| 0 <= i < rest.len() implies (#[trigger] rest[i]) == rows[i + 1] by {}
    }
}

/// A pass that has ended on track has brought the inventory to its limits:
/// the total is at most the limit on size, where there is one, and no file
/// was last accessed longer before the time at which the limit on age was
/// applied than that limit allows.
pub proof fn lemma_finished_pass_keeps_limits(pass: Pass, inventory: Inventory)
    requires
        pass.is_on_track(inventory),
        pass.next_file() is None,
    ensures
        pass.max_size_bytes matches Some(max_size_bytes) ==> total_size(inventory.rows)
            <= max_size_bytes,
        pass.max_age_seconds matches Some(max_age_seconds) ==> forall|i: int|
            0 <= i < inventory.rows.len() ==> (#[trigger] inventory.rows[i]).last_access_time
                >= pass.age_checked_at - max_age_seconds,
{
}

/// One pass over a managed directory.
pub struct EvictionPass {
    phase: PassPhase,
    /// The files of this phase, in the order in which they are deleted.
    queue: Vec<String>,
    /// The position in `queue` of the file to delete next.
    next: usize,
    max_size_bytes: Option<u64>,
    max_age_seconds: Option<u64>,
    age_checked_at: u64,
}

impl View for EvictionPass {
    type V = Pass;

    closed spec fn view(&self) -> Pass {
        Pass {
            phase: self.phase,
            remaining: texts_view(self.queue@).skip(self.next as int),
            max_size_bytes: self.max_size_bytes,
            max_age_seconds: self.max_age_seconds,
            age_checked_at: self.age_checked_at,
        }
    }
}

impl EvictionPass {
    #[verifier::type_invariant]
    spec fn is_valid(&self) -> bool {
        &&& self.next <= self.queue@.len()
        &&& self.phase != PassPhase::Done ==> self.next < self.queue@.len()
        &&& self.phase == PassPhase::Done ==> self.next == self.queue@.len()
    }

    /// The pass in the phase `Age`, or done where no file is too old.
    fn enter_age_phase(
        inventory: &FileInventory,
        max_size_bytes: Option<u64>,
        max_age_seconds: Option<u64>,
        now: u64,
    ) -> (pass: Self)
        ensures
            pass@ == (Pass {
                phase: PassPhase::Size,
                remaining: Seq::empty(),
                max_size_bytes,
                max_age_seconds,
                age_checked_at: now,
            }).age_phase(inventory@, now),
    {
        let queue = match max_age_seconds {
            Some(max_age) => inventory.get_files_to_delete_to_enforce_max_age(max_age, now),
            None => Vec::new(),
        };
        let phase = if queue.len() > 0 {
            PassPhase::Age
        } else {
            PassPhase::Done
        };
        let pass = EvictionPass {
            phase,
            queue,
            next: 0,
            max_size_bytes,
            max_age_seconds,
            age_checked_at: now,
        };
        assert(pass@.remaining =~= texts_view(pass.queue@));
        assert(max_age_seconds is None ==> texts_view(pass.queue@) =~= Seq::empty());
        pass
    }

    /// Starts a pass at the time `now`: lists the files that have to leave
    /// for the limit on size, or, where there are none, those that have to
    /// leave for the limit on age.
    pub fn start(
        inventory: &FileInventory,
        max_size_bytes: Option<u64>,
        max_age_seconds: Option<u64>,
        now: u64,
    ) -> (pass: Self)
        ensures
            pass@ == Pass::start(inventory@, max_size_bytes, max_age_seconds, now),
    {
        let queue = match max_size_bytes {
            Some(max_size) => inventory.get_files_to_delete_to_enforce_max_size(max_size),
            None => Vec::new(),
        };
        assert(max_size_bytes is None ==> texts_view(queue@) =~= Seq::empty());
        if queue.len() > 0 {
            let pass = EvictionPass {
                phase: PassPhase::Size,
                queue,
                next: 0,
                max_size_bytes,
                max_age_seconds,
                age_checked_at: now,
            };
            assert(pass@.remaining =~= texts_view(pass.queue@));
            pass
        } else {
            Self::enter_age_phase(inventory, max_size_bytes, max_age_seconds, now)
        }
    }

    /// The file to delete next, as a full path, or nothing once the pass
    /// has ended.
    pub fn next_file(&self) -> (path: Option<&str>)
        ensures
            match path {
                Some(path) => self@.next_file() == Some(path@),
                None => self@.next_file() is None,
            },
    {
        proof {
            use_type_invariant(self);
        }
        match self.phase {
            PassPhase::Done => None,
            _ => Some(self.queue[self.next].as_str()),
        }
    }

    /// Whether the pass has ended.
    pub fn is_done(&self) -> (done: bool)
        ensures
            done == (self@.next_file() is None),
    {
        proof {
            use_type_invariant(self);
        }
        match self.phase {
            PassPhase::Done => true,
            _ => false,
        }
    }

    /// Takes note of how the deletion of the file that `next_file` gave has
    /// ended, at the time `now`: a file that was deleted, or was not there,
    /// leaves the inventory; one that could not be deleted stays. After the
    /// last file of the limit on size, the files that have to leave for the
    /// limit on age are listed. Does nothing once the pass has ended.
    pub fn record(&mut self, inventory: &mut FileInventory, outcome: DeleteOutcome, now: u64)
        ensures
            final(inventory)@ == match old(self)@.next_file() {
                Some(path) => inventory_after(old(inventory)@, path, outcome),
                None => old(inventory)@,
            },
            final(self)@ == old(self)@.step(final(inventory)@, now),
    {
        proof {
            use_type_invariant(&*self);
        }
        match self.phase {
            PassPhase::Done => {},
            phase => {
                match outcome {
                    DeleteOutcome::Deleted => {
                        inventory.on_file_deleted(self.queue[self.next].as_str());
                    },
                    DeleteOutcome::NotFound => {
                        inventory.on_file_found_to_be_absent(self.queue[self.next].as_str());
                    },
                    DeleteOutcome::Failed => {},
                }
                let ghost before = self@;
                assert(before.remaining.len() == self.queue@.len() - self.next);
                let count = self.queue.len();
                if self.next < count - 1 {
                    self.next = self.next + 1;
                    assert(self@.remaining =~= before.remaining.drop_first());
                } else {
                    match phase {
                        PassPhase::Size => {
                            *self = Self::enter_age_phase(
                                inventory,
                                self.max_size_bytes,
                                self.max_age_seconds,
                                now,
                            );
                        },
                        _ => {
                            self.finish();
                            assert(self@.remaining =~= Seq::empty());
                        },
                    }
                }
            },
        }
    }

    fn finish(&mut self)
        ensures
            final(self)@.phase == PassPhase::Done,
            final(self)@.remaining.len() == 0,
            final(self)@.max_size_bytes == old(self)@.max_size_bytes,
            final(self)@.max_age_seconds == old(self)@.max_age_seconds,
            final(self)@.age_checked_at == old(self)@.age_checked_at,
    {
        *self = EvictionPass {
            phase: PassPhase::Done,
            queue: Vec::new(),
            next: 0,
            max_size_bytes: self.max_size_bytes,
            max_age_seconds: self.max_age_seconds,
            age_checked_at: self.age_checked_at,
        };
    }
}

} // verus!
