//! Disk pressure management.
//!
//! Decides which Parquet files of a data directory are pruned when its size
//! exceeds a threshold or its files outlive their retention. With an export
//! destination, only exported files are pruned.

use vstd::prelude::*;

use crate::text::{contains_string, strings, to_chars};

verus! {

/// Result of a disk pressure check.
#[derive(Debug, Clone, Copy, PartialEq, Eq, Structural)]
pub struct PressureResult {
    /// Whether any data was exported.
    pub exported: bool,
    /// Number of files exported.
    pub files_exported: usize,
    /// Number of files pruned.
    pub files_pruned: usize,
    /// Bytes reclaimed by pruning.
    pub bytes_reclaimed: u64,
}

/// A file of the data directory.
#[derive(Debug)]
pub struct DirectoryFile {
    /// File name, without its directory.
    pub name: String,
    /// Length in bytes.
    pub size: u64,
    /// When it was last modified, in seconds since the Unix epoch.
    pub modified: u64,
}

/// Whether a file name has the extension `parquet`.
pub open spec fn is_parquet(name: Seq<char>) -> bool {
    name.len() > 8 && name.skip(name.len() - 8) == seq!['.', 'p', 'a', 'r', 'q', 'u', 'e', 't']
}

/// Whether a file name has the extension `parquet`.
pub fn has_parquet_extension(name: &str) -> (r: bool)
    ensures
        r == is_parquet(name@),
{
    let chars = to_chars(name);
    let n: usize = chars.len();
    if n <= 8 {
        return false;
    }
    let r = chars[n - 8] == '.' && chars[n - 7] == 'p' && chars[n - 6] == 'a' && chars[n - 5]
        == 'r' && chars[n - 4] == 'q' && chars[n - 3] == 'u' && chars[n - 2] == 'e' && chars[n - 1]
        == 't';
    proof {
        let tail = name@.skip(n - 8);
        let want = seq!['.', 'p', 'a', 'r', 'q', 'u', 'e', 't'];
        if r {
            assert(tail =~= want);
        }
        if tail == want {
            assert(tail[0] == want[0] && tail[1] == want[1] && tail[2] == want[2] && tail[3]
                == want[3] && tail[4] == want[4] && tail[5] == want[5] && tail[6] == want[6]
                && tail[7] == want[7]);
        }
    }
    r
}

/// The total size of the Parquet files in a list.
pub open spec fn parquet_bytes(files: Seq<DirectoryFile>) -> nat
    decreases files.len(),
{
    if files.len() == 0 {
        0
    } else {
        parquet_bytes(files.drop_last()) + if is_parquet(files.last().name@) {
            files.last().size as nat
        } else {
            0
        }
    }
}

proof fn parquet_bytes_grow(files: Seq<DirectoryFile>, i: int)
    requires
        0 <= i <= files.len(),
    ensures
        parquet_bytes(files.take(i)) <= parquet_bytes(files),
    decreases files.len() - i,
{
    if i < files.len() {
        parquet_bytes_grow(files, i + 1);
        assert(files.take(i + 1).drop_last() == files.take(i));
    } else {
        assert(files.take(i) == files);
    }
}

/// Calculate the total size of the Parquet files in a directory.
pub fn dir_parquet_size(files: &Vec<DirectoryFile>) -> (r: u64)
    requires
        parquet_bytes(files@) <= u64::MAX,
    ensures
        r == parquet_bytes(files@),
{
    let mut total: u64 = 0;
    let mut i: usize = 0;
    while i < files.len()
        invariant
            i <= files.len(),
            total == parquet_bytes(files@.take(i as int)),
            parquet_bytes(files@) <= u64::MAX,
        decreases files.len() - i,
    {
        proof {
            assert(files@.take(i as int + 1).drop_last() == files@.take(i as int));
            parquet_bytes_grow(files@, i as int + 1);
        }
        if has_parquet_extension(files[i].name.as_str()) {
            total = total + files[i].size;
        }
        i = i + 1;
    }
    proof {
        assert(files@.take(files@.len() as int) == files@);
    }
    total
}

/// A file that may be pruned, and what decides about it.
#[derive(Debug)]
pub struct Candidate {
    /// File name, without its directory.
    pub name: String,
    /// Length in bytes.
    pub size: u64,
    /// When it was last modified, in seconds since the Unix epoch.
    pub modified: u64,
    /// Whether it was exported, or no destination is configured.
    pub removable: bool,
}

/// A candidate stands for a file of the directory.
pub open spec fn stands_for(
    c: Candidate,
    file: DirectoryFile,
    has_destination: bool,
    exported_files: Seq<Seq<char>>,
) -> bool {
    &&& c.name@ == file.name@
    &&& c.size == file.size
    &&& c.modified == file.modified
    &&& c.removable == (!has_destination || exported_files.contains(file.name@))
}

/// A list of candidates as plain facts: name, size, age and permission.
pub open spec fn candidate_facts(list: Seq<Candidate>) -> Seq<(Seq<char>, u64, u64, bool)> {
    list.map_values(|c: Candidate| (c.name@, c.size, c.modified, c.removable))
}

/// The Parquet files of a list as facts, sorted from the oldest; files of one
/// age keep their order.
pub open spec fn sorted_facts(
    files: Seq<DirectoryFile>,
    has_destination: bool,
    exported_files: Seq<Seq<char>>,
) -> Seq<(Seq<char>, u64, u64, bool)>
    decreases files.len(),
{
    if files.len() == 0 {
        Seq::empty()
    } else {
        let before = sorted_facts(files.drop_last(), has_destination, exported_files);
        let file = files.last();
        if is_parquet(file.name@) {
            with_fact(
                before,
                (
                    file.name@,
                    file.size,
                    file.modified,
                    !has_destination || exported_files.contains(file.name@),
                ),
            )
        } else {
            before
        }
    }
}

/// Facts with one more, behind every one that is no younger.
pub open spec fn with_fact(
    list: Seq<(Seq<char>, u64, u64, bool)>,
    fact: (Seq<char>, u64, u64, bool),
) -> Seq<(Seq<char>, u64, u64, bool)>
    decreases list.len(),
{
    if list.len() == 0 || list.last().2 <= fact.2 {
        list.push(fact)
    } else {
        with_fact(list.drop_last(), fact).push(list.last())
    }
}

proof fn with_fact_at(
    list: Seq<(Seq<char>, u64, u64, bool)>,
    fact: (Seq<char>, u64, u64, bool),
    at: int,
)
    requires
        0 <= at <= list.len(),
        at == 0 || list[at - 1].2 <= fact.2,
        forall|i: int| at <= i < list.len() ==> (#[trigger] list[i]).2 > fact.2,
    ensures
        with_fact(list, fact) == list.insert(at, fact),
    decreases list.len(),
{
    if at == list.len() {
        assert(list.insert(at, fact) =~= list.push(fact));
    } else {
        with_fact_at(list.drop_last(), fact, at);
        assert(list.insert(at, fact) =~= list.drop_last().insert(at, fact).push(list.last()));
    }
}

/// The total size of a list of facts.
pub open spec fn fact_bytes(list: Seq<(Seq<char>, u64, u64, bool)>) -> nat
    decreases list.len(),
{
    if list.len() == 0 {
        0
    } else {
        fact_bytes(list.drop_last()) + list.last().1 as nat
    }
}

proof fn with_fact_bytes(
    list: Seq<(Seq<char>, u64, u64, bool)>,
    fact: (Seq<char>, u64, u64, bool),
)
    ensures
        fact_bytes(with_fact(list, fact)) == fact_bytes(list) + fact.1,
        with_fact(list, fact).len() == list.len() + 1,
    decreases list.len(),
{
    if list.len() == 0 || list.last().2 <= fact.2 {
        assert(list.push(fact).drop_last() =~= list);
    } else {
        with_fact_bytes(list.drop_last(), fact);
        assert(with_fact(list.drop_last(), fact).push(list.last()).drop_last() =~= with_fact(
            list.drop_last(),
            fact,
        ));
    }
}

proof fn sorted_fact_bytes(
    files: Seq<DirectoryFile>,
    has_destination: bool,
    exported_files: Seq<Seq<char>>,
)
    ensures
        fact_bytes(sorted_facts(files, has_destination, exported_files)) == parquet_bytes(files),
        sorted_facts(files, has_destination, exported_files).len() <= files.len(),
    decreases files.len(),
{
    if files.len() > 0 {
        sorted_fact_bytes(files.drop_last(), has_destination, exported_files);
        let file = files.last();
        with_fact_bytes(
            sorted_facts(files.drop_last(), has_destination, exported_files),
            (
                file.name@,
                file.size,
                file.modified,
                !has_destination || exported_files.contains(file.name@),
            ),
        );
    }
}

/// The Parquet files of a directory, oldest first, each with whether it may be
/// removed.
fn candidates(
    files: &Vec<DirectoryFile>,
    has_destination: bool,
    exported_files: &Vec<String>,
) -> (r: Vec<Candidate>)
    ensures
        candidate_facts(r@) == sorted_facts(files@, has_destination, strings(exported_files@)),
{
    let ghost exported = strings(exported_files@);
    let mut list: Vec<Candidate> = Vec::new();
    let mut i: usize = 0;
    proof {
        assert(candidate_facts(list@) =~= sorted_facts(
            files@.take(0),
            has_destination,
            exported,
        ));
    }
    while i < files.len()
        invariant
            i <= files.len(),
            exported == strings(exported_files@),
            candidate_facts(list@) == sorted_facts(
                files@.take(i as int),
                has_destination,
                exported,
            ),
        decreases files.len() - i,
    {
        let file = &files[i];
        proof {
            assert(files@.take(i as int + 1).drop_last() == files@.take(i as int));
            assert(files@.take(i as int + 1).last() == *file);
        }
        if has_parquet_extension(file.name.as_str()) {
            let c = Candidate {
                name: file.name.clone(),
                size: file.size,
                modified: file.modified,
                removable: !has_destination || contains_string(
                    exported_files,
                    file.name.as_str(),
                ),
            };
            let ghost fact = (c.name@, c.size, c.modified, c.removable);
            let ghost before = candidate_facts(list@);
            let ghost old_list = list@;
            let mut at: usize = list.len();
            while at > 0 && list[at - 1].modified > c.modified
                invariant
                    at <= list.len(),
                    old_list == list@,
                    before == candidate_facts(list@),
                    fact.2 == c.modified,
                    forall|k: int| at <= k < before.len() ==> (#[trigger] before[k]).2 > fact.2,
                decreases at,
            {
                proof {
                    assert(before[at - 1].2 == list@[at - 1].modified);
                }
                at = at - 1;
            }
            list.insert(at, c);
            proof {
                if at > 0 {
                    assert(before[at - 1].2 == old_list[at - 1].modified);
                }
                assert(candidate_facts(list@) =~= before.insert(at as int, fact));
                with_fact_at(before, fact, at as int);
            }
        }
        i = i + 1;
    }
    proof {
        assert(files@.take(files@.len() as int) == files@);
    }
    list
}

/// A relief in progress: which files are still to be considered, and what was
/// pruned so far.
#[derive(Debug)]
pub struct Relief {
    /// The files that may be pruned, oldest first.
    pub candidates: Vec<Candidate>,
    /// How many of them were considered.
    pub considered: usize,
    /// The file whose removal is under way: the last one considered.
    pub removing: bool,
    /// Bytes that the directory is taken to hold.
    pub remaining: u64,
    /// Size limit in bytes; zero for none.
    pub max_bytes: u64,
    /// Files last modified before this second are past retention; zero for
    /// none.
    pub retention_cutoff: u64,
    /// What was done so far.
    pub result: PressureResult,
}

/// Whether a file is pruned: it may be removed, and it is past retention or
/// the directory is over its limit.
pub open spec fn prunes(
    c: Candidate,
    remaining: u64,
    max_bytes: u64,
    retention_cutoff: u64,
) -> bool {
    c.removable && ((retention_cutoff > 0 && c.modified < retention_cutoff) || (max_bytes > 0
        && remaining > max_bytes))
}

/// Seconds in a day.
pub const DAY_SECONDS: u64 = 86_400;

/// The second before which files are past a retention of some days.
pub open spec fn cutoff(now: u64, retention_days: u32) -> u64 {
    if retention_days == 0 || now < retention_days * DAY_SECONDS {
        0
    } else {
        (now - retention_days * DAY_SECONDS) as u64
    }
}

impl Relief {
    /// What was reclaimed and what can still be reclaimed can be counted.
    pub open spec fn wf(&self) -> bool {
        &&& self.considered <= self.candidates@.len()
        &&& self.removing ==> self.considered > 0
        &&& self.result.files_pruned + (if self.removing { 1int } else { 0 }) <= self.considered
        &&& self.result.bytes_reclaimed + fact_bytes(
            candidate_facts(self.candidates@).skip(self.from()),
        ) <= u64::MAX
    }

    /// Bytes that will be left when every removal from here on succeeds.
    pub open spec fn left_if_all_succeed(&self) -> u64 {
        left_after(
            self.candidates@,
            self.considered as int,
            self.remaining,
            self.max_bytes,
            self.retention_cutoff,
        )
    }

    /// The first file that may still be reclaimed.
    pub open spec fn from(&self) -> int {
        if self.removing {
            self.considered - 1
        } else {
            self.considered as int
        }
    }

    /// Go on to the next file to remove, and name its position.
    ///
    /// Once there is none, the relief is done.
    pub fn next_removal(&mut self) -> (r: Option<usize>)
        requires
            old(self).wf(),
            !old(self).removing,
        ensures
            final(self).wf(),
            final(self).candidates@ == old(self).candidates@,
            final(self).remaining == old(self).remaining,
            final(self).max_bytes == old(self).max_bytes,
            final(self).retention_cutoff == old(self).retention_cutoff,
            final(self).result == old(self).result,
            match r {
                Some(at) => {
                    &&& old(self).considered <= at < old(self).candidates@.len()
                    &&& prunes(
                        old(self).candidates@[at as int],
                        old(self).remaining,
                        old(self).max_bytes,
                        old(self).retention_cutoff,
                    )
                    &&& forall|i: int|
                        old(self).considered <= i < at ==> !prunes(
                            #[trigger] old(self).candidates@[i],
                            old(self).remaining,
                            old(self).max_bytes,
                            old(self).retention_cutoff,
                        )
                    &&& final(self).considered == at + 1
                    &&& final(self).removing
                    &&& old(self).left_if_all_succeed() == left_after(
                        old(self).candidates@,
                        at + 1,
                        less(old(self).remaining, old(self).candidates@[at as int].size),
                        old(self).max_bytes,
                        old(self).retention_cutoff,
                    )
                },
                None => {
                    &&& forall|i: int|
                        old(self).considered <= i < old(self).candidates@.len() ==> !prunes(
                            #[trigger] old(self).candidates@[i],
                            old(self).remaining,
                            old(self).max_bytes,
                            old(self).retention_cutoff,
                        )
                    &&& final(self).considered == old(self).candidates@.len()
                    &&& !final(self).removing
                    &&& old(self).left_if_all_succeed() == old(self).remaining
                },
            },
    {
        while self.considered < self.candidates.len()
            invariant
                self.wf(),
                !self.removing,
                old(self).considered <= self.considered,
                self.candidates@ == old(self).candidates@,
                self.remaining == old(self).remaining,
                self.max_bytes == old(self).max_bytes,
                self.retention_cutoff == old(self).retention_cutoff,
                self.result == old(self).result,
                self.left_if_all_succeed() == old(self).left_if_all_succeed(),
                forall|i: int|
                    old(self).considered <= i < self.considered ==> !prunes(
                        #[trigger] old(self).candidates@[i],
                        old(self).remaining,
                        old(self).max_bytes,
                        old(self).retention_cutoff,
                    ),
            decreases self.candidates.len() - self.considered,
        {
            let at: usize = self.considered;
            let c = &self.candidates[at];
            let past_retention = self.retention_cutoff > 0 && c.modified < self.retention_cutoff;
            let over_pressure = self.max_bytes > 0 && self.remaining > self.max_bytes;
            let prune = (past_retention || over_pressure) && c.removable;
            proof {
                fact_bytes_split(candidate_facts(self.candidates@), at as int);
            }
            self.considered = at + 1;
            if prune {
                self.removing = true;
                return Some(at);
            }
        }
        None
    }

    /// Record whether the removal that is under way succeeded.
    pub fn removal_done(&mut self, removed: bool)
        requires
            old(self).wf(),
            old(self).removing,
        ensures
            final(self).wf(),
            !final(self).removing,
            final(self).candidates@ == old(self).candidates@,
            final(self).considered == old(self).considered,
            final(self).max_bytes == old(self).max_bytes,
            final(self).retention_cutoff == old(self).retention_cutoff,
            final(self).result.exported == old(self).result.exported,
            final(self).result.files_exported == old(self).result.files_exported,
            ({
                let size = old(self).candidates@[old(self).considered - 1].size;
                if removed {
                    &&& final(self).result.files_pruned == old(self).result.files_pruned + 1
                    &&& final(self).result.bytes_reclaimed == old(self).result.bytes_reclaimed
                        + size
                    &&& final(self).remaining == less(old(self).remaining, size)
                } else {
                    &&& final(self).result == old(self).result
                    &&& final(self).remaining == old(self).remaining
                }
            }),
    {
        let at: usize = self.considered - 1;
        let size: u64 = self.candidates[at].size;
        proof {
            fact_bytes_split(candidate_facts(self.candidates@), at as int);
        }
        self.removing = false;
        if removed {
            self.result.files_pruned = self.result.files_pruned + 1;
            self.result.bytes_reclaimed = self.result.bytes_reclaimed + size;
            self.remaining = self.remaining.saturating_sub(size);
        }
    }
}

proof fn fact_bytes_split(list: Seq<(Seq<char>, u64, u64, bool)>, at: int)
    requires
        0 <= at < list.len(),
    ensures
        fact_bytes(list.skip(at)) == list[at].1 + fact_bytes(list.skip(at + 1)),
    decreases list.len() - at,
{
    let tail = list.skip(at);
    if tail.len() == 1 {
        assert(tail.drop_last() =~= Seq::<(Seq<char>, u64, u64, bool)>::empty());
        assert(fact_bytes(tail.drop_last()) == 0);
        assert(list.skip(at + 1) =~= Seq::<(Seq<char>, u64, u64, bool)>::empty());
        assert(fact_bytes(list.skip(at + 1)) == 0);
    } else {
        let shorter = list.drop_last();
        fact_bytes_split(shorter, at);
        assert(tail.drop_last() =~= shorter.skip(at));
        assert(list.skip(at + 1).drop_last() =~= shorter.skip(at + 1));
        assert(list.skip(at + 1).last() == list.last());
    }
}

/// Start to relieve a directory.
///
/// `current_size` was taken before the export, which is `None` if there is no
/// destination or it failed. Nothing is pruned unless the directory is over its
/// limit or a retention is set.
pub fn check_and_relieve(
    current_size: u64,
    has_destination: bool,
    files_exported: Option<usize>,
    exported_files: &Vec<String>,
    files: &Vec<DirectoryFile>,
    max_bytes: u64,
    retention_days: u32,
    now: u64,
) -> (r: Relief)
    requires
        parquet_bytes(files@) <= u64::MAX,
    ensures
        r.wf(),
        r.considered == 0,
        !r.removing,
        r.remaining == current_size,
        r.max_bytes == max_bytes,
        r.retention_cutoff == cutoff(now, retention_days),
        r.result == (PressureResult {
            exported: has_destination && files_exported is Some && files_exported->0 > 0,
            files_exported: if has_destination && files_exported is Some {
                files_exported->0
            } else {
                0
            },
            files_pruned: 0,
            bytes_reclaimed: 0,
        }),
        candidate_facts(r.candidates@) == if (max_bytes > 0 && current_size > max_bytes)
            || retention_days > 0 {
            sorted_facts(files@, has_destination, strings(exported_files@))
        } else {
            Seq::empty()
        },
{
    let mut result = PressureResult {
        exported: false,
        files_exported: 0,
        files_pruned: 0,
        bytes_reclaimed: 0,
    };
    if has_destination {
        match files_exported {
            Some(count) => {
                if count > 0 {
                    result.exported = true;
                    result.files_exported = count;
                }
            },
            None => {},
        }
    }
    let for_pressure = max_bytes > 0 && current_size > max_bytes;
    let for_retention = retention_days > 0;
    let list = if for_pressure || for_retention {
        candidates(files, has_destination, exported_files)
    } else {
        Vec::new()
    };
    let retention: u64 = retention_days as u64 * DAY_SECONDS;
    let retention_cutoff: u64 = if retention_days > 0 {
        now.saturating_sub(retention)
    } else {
        0
    };
    proof {
        sorted_fact_bytes(files@, has_destination, strings(exported_files@));
        assert(candidate_facts(list@).skip(0) =~= candidate_facts(list@));
        if !(for_pressure || for_retention) {
            assert(candidate_facts(list@) =~= Seq::empty());
            assert(fact_bytes(candidate_facts(list@)) == 0);
        }
    }
    Relief {
        candidates: list,
        considered: 0,
        removing: false,
        remaining: current_size,
        max_bytes,
        retention_cutoff,
        result,
    }
}

/// Files are considered from the oldest to the youngest.
pub proof fn oldest_files_come_first(
    files: Seq<DirectoryFile>,
    has_destination: bool,
    exported_files: Seq<Seq<char>>,
)
    ensures
        oldest_first(sorted_facts(files, has_destination, exported_files)),
    decreases files.len(),
{
    if files.len() > 0 {
        oldest_files_come_first(files.drop_last(), has_destination, exported_files);
        let file = files.last();
        with_fact_keeps_order(
            sorted_facts(files.drop_last(), has_destination, exported_files),
            (
                file.name@,
                file.size,
                file.modified,
                !has_destination || exported_files.contains(file.name@),
            ),
        );
    }
}

/// Whether a list of facts runs from the oldest to the youngest.
pub open spec fn oldest_first(list: Seq<(Seq<char>, u64, u64, bool)>) -> bool {
    forall|i: int, j: int|
        0 <= i < j < list.len() ==> (#[trigger] list[i]).2 <= (#[trigger] list[j]).2
}

proof fn with_fact_keeps_order(
    list: Seq<(Seq<char>, u64, u64, bool)>,
    fact: (Seq<char>, u64, u64, bool),
)
    requires
        oldest_first(list),
    ensures
        oldest_first(with_fact(list, fact)),
        with_fact(list, fact).len() == list.len() + 1,
        forall|i: int|
            0 <= i < with_fact(list, fact).len() ==> (#[trigger] with_fact(list, fact)[i]).2
                <= if list.len() > 0 && list.last().2 > fact.2 {
                list.last().2
            } else {
                fact.2
            },
    decreases list.len(),
{
    if list.len() > 0 && list.last().2 > fact.2 {
        let shorter = list.drop_last();
        with_fact_keeps_order(shorter, fact);
        let inner = with_fact(shorter, fact);
        assert forall|i: int| 0 <= i < inner.len() implies (#[trigger] inner[i]).2
            <= list.last().2 by {
            if shorter.len() > 0 {
                assert(shorter.last() == list[list.len() - 2]);
                assert(list[list.len() - 2].2 <= list[list.len() - 1].2);
            }
        }
    } else {
        assert forall|i: int, j: int|
            0 <= i < j < list.push(fact).len() implies (#[trigger] list.push(fact)[i]).2 <= (
        #[trigger] list.push(fact)[j]).2 by {
            if j == list.len() {
                if i < list.len() - 1 {
                    assert(list[i].2 <= list[list.len() - 1].2);
                }
            }
        }
        assert forall|i: int| 0 <= i < list.push(fact).len() implies (
        #[trigger] list.push(fact)[i]).2 <= fact.2 by {
            if i < list.len() - 1 {
                assert(list[i].2 <= list[list.len() - 1].2);
            }
        }
    }
}

/// With an export destination, a file that was not exported is never pruned.
pub proof fn unexported_files_are_kept(
    c: Candidate,
    file: DirectoryFile,
    exported_files: Seq<Seq<char>>,
    remaining: u64,
    max_bytes: u64,
    retention_cutoff: u64,
)
    requires
        stands_for(c, file, true, exported_files),
        !exported_files.contains(file.name@),
    ensures
        !prunes(c, remaining, max_bytes, retention_cutoff),
{
}

/// A size less another, or zero.
pub open spec fn less(a: u64, b: u64) -> u64 {
    if a >= b {
        (a - b) as u64
    } else {
        0
    }
}

/// Bytes that are left after pruning from a position on, when every removal
/// that is tried succeeds.
pub open spec fn left_after(
    list: Seq<Candidate>,
    from: int,
    remaining: u64,
    max_bytes: u64,
    retention_cutoff: u64,
) -> u64
    decreases list.len() - from,
{
    if from < 0 || from >= list.len() {
        remaining
    } else if prunes(list[from], remaining, max_bytes, retention_cutoff) {
        left_after(
            list,
            from + 1,
            less(remaining, list[from].size),
            max_bytes,
            retention_cutoff,
        )
    } else {
        left_after(list, from + 1, remaining, max_bytes, retention_cutoff)
    }
}

/// When every removal succeeds and every file may be removed, pruning brings
/// the directory under its limit, if its files are all it holds.
pub proof fn pruning_relieves_the_pressure(
    list: Seq<Candidate>,
    from: int,
    remaining: u64,
    max_bytes: u64,
    retention_cutoff: u64,
)
    requires
        max_bytes > 0,
        0 <= from <= list.len(),
        forall|i: int| from <= i < list.len() ==> (#[trigger] list[i]).removable,
        remaining <= fact_bytes(candidate_facts(list).skip(from)),
    ensures
        left_after(list, from, remaining, max_bytes, retention_cutoff) <= max_bytes,
    decreases list.len() - from,
{
    if from < list.len() {
        let facts = candidate_facts(list);
        fact_bytes_split(facts, from);
        if remaining > max_bytes {
            assert(list[from].removable);
            let rest = less(remaining, list[from].size);
            pruning_relieves_the_pressure(list, from + 1, rest, max_bytes, retention_cutoff);
        } else {
            left_after_shrinks(list, from, remaining, max_bytes, retention_cutoff);
        }
    } else {
        assert(candidate_facts(list).skip(from) =~= Seq::empty());
        assert(fact_bytes(candidate_facts(list).skip(from)) == 0);
    }
}

/// Pruning never leaves more than there was.
pub proof fn left_after_shrinks(
    list: Seq<Candidate>,
    from: int,
    remaining: u64,
    max_bytes: u64,
    retention_cutoff: u64,
)
    ensures
        left_after(list, from, remaining, max_bytes, retention_cutoff) <= remaining,
    decreases list.len() - from,
{
    if 0 <= from < list.len() {
        if prunes(list[from], remaining, max_bytes, retention_cutoff) {
            let rest = less(remaining, list[from].size);
            left_after_shrinks(list, from + 1, rest, max_bytes, retention_cutoff);
        } else {
            left_after_shrinks(list, from + 1, remaining, max_bytes, retention_cutoff);
        }
    }
}

/// Without a retention, a directory that is not over its limit loses no file.
pub proof fn nothing_is_pruned_under_the_limit(c: Candidate, remaining: u64, max_bytes: u64)
    requires
        max_bytes == 0 || remaining <= max_bytes,
    ensures
        !prunes(c, remaining, max_bytes, 0),
{
}

} // verus!
