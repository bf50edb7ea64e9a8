//! Relieving disk pressure: which files go, and which stay.

use vstd::prelude::*;

use crate::disk_pressure::{
    candidate_facts, check_and_relieve, dir_parquet_size, has_parquet_extension, left_after, less,
    oldest_files_come_first, parquet_bytes, sorted_facts, with_fact, Candidate, DirectoryFile,
    Relief,
};
use crate::text::strings;

verus! {

/// Whether a name is one of a Parquet file.
pub open spec fn named_parquet(name: Seq<char>) -> bool {
    exists|stem: Seq<char>| #[trigger]
        stem_of(stem, name) && stem.len() > 0
}

/// Whether a name is a stem with the extension of Parquet files.
pub open spec fn stem_of(stem: Seq<char>, name: Seq<char>) -> bool {
    name == stem + seq!['.', 'p', 'a', 'r', 'q', 'u', 'e', 't']
}

/// Parquet files are told by their extension, behind a stem that is not empty.
pub proof fn parquet_files_are_told_by_extension(name: &str, r: bool)
    requires
        call_ensures(has_parquet_extension, (name,), r),
    ensures
        r <==> named_parquet(name@),
{
    let extension = seq!['.', 'p', 'a', 'r', 'q', 'u', 'e', 't'];
    if r {
        let stem = name@.take(name@.len() - 8);
        assert(name@ =~= stem + name@.skip(name@.len() - 8));
        assert(stem_of(stem, name@));
    }
    if named_parquet(name@) {
        let stem = choose|stem: Seq<char>| #[trigger] stem_of(stem, name@) && stem.len() > 0;
        assert(name@.skip(name@.len() - 8) =~= extension);
    }
}

proof fn parquet_names(name: Seq<char>)
    ensures
        crate::disk_pressure::is_parquet(name) <==> named_parquet(name),
{
    let extension = seq!['.', 'p', 'a', 'r', 'q', 'u', 'e', 't'];
    if crate::disk_pressure::is_parquet(name) {
        let stem = name.take(name.len() - 8);
        assert(name =~= stem + name.skip(name.len() - 8));
        assert(stem_of(stem, name));
    }
    if named_parquet(name) {
        let stem = choose|stem: Seq<char>| #[trigger] stem_of(stem, name) && stem.len() > 0;
        assert(name.skip(name.len() - 8) =~= extension);
    }
}

proof fn sizes_add_up(files: Seq<DirectoryFile>, last: DirectoryFile)
    ensures
        parquet_bytes(files.push(last)) == parquet_bytes(files) + if named_parquet(last.name@) {
            last.size as nat
        } else {
            0
        },
        parquet_bytes(Seq::empty()) == 0,
{
    parquet_names(last.name@);
    assert(files.push(last).drop_last() =~= files);
}

/// The size of a directory is that of its Parquet files: a file more adds its
/// own size if it is one, and nothing else does.
pub proof fn only_parquet_files_have_a_size(
    files: &Vec<DirectoryFile>,
    more: &Vec<DirectoryFile>,
    last: DirectoryFile,
    size: u64,
    larger: u64,
)
    requires
        more@ == files@.push(last),
        call_ensures(dir_parquet_size, (files,), size),
        call_ensures(dir_parquet_size, (more,), larger),
    ensures
        named_parquet(last.name@) ==> larger == size + last.size,
        !named_parquet(last.name@) ==> larger == size,
        files@.len() == 0 ==> size == 0,
{
    sizes_add_up(files@, last);
    if files@.len() == 0 {
        assert(files@ =~= Seq::empty());
    }
}

proof fn facts_stand_for_files(
    files: Seq<DirectoryFile>,
    has_destination: bool,
    exported: Seq<Seq<char>>,
)
    ensures
        forall|i: int|
            0 <= i < files.len() && named_parquet((#[trigger] files[i]).name@) ==> sorted_facts(
                files,
                has_destination,
                exported,
            ).contains(
                (
                    files[i].name@,
                    files[i].size,
                    files[i].modified,
                    !has_destination || exported.contains(files[i].name@),
                ),
            ),
        forall|k: int|
            0 <= k < sorted_facts(files, has_destination, exported).len() ==> exists|i: int|
                0 <= i < files.len() && named_parquet((#[trigger] files[i]).name@) && (
                #[trigger] sorted_facts(files, has_destination, exported)[k]) == (
                    files[i].name@,
                    files[i].size,
                    files[i].modified,
                    !has_destination || exported.contains(files[i].name@),
                ),
    decreases files.len(),
{
    if files.len() > 0 {
        let rest = files.drop_last();
        let file = files.last();
        facts_stand_for_files(rest, has_destination, exported);
        parquet_names(file.name@);
        let before = sorted_facts(rest, has_destination, exported);
        let after = sorted_facts(files, has_destination, exported);
        let fact = (
            file.name@,
            file.size,
            file.modified,
            !has_destination || exported.contains(file.name@),
        );
        assert(files[files.len() - 1] == file);
        if named_parquet(file.name@) {
            inserted_keeps(before, fact);
            assert(after == with_fact(before, fact));
        }
        assert forall|i: int| 0 <= i < files.len() && named_parquet((#[trigger] files[i]).name@)
            implies after.contains(
            (
                files[i].name@,
                files[i].size,
                files[i].modified,
                !has_destination || exported.contains(files[i].name@),
            ),
        ) by {
            let wanted = (
                files[i].name@,
                files[i].size,
                files[i].modified,
                !has_destination || exported.contains(files[i].name@),
            );
            if i < rest.len() {
                assert(rest[i] == files[i]);
                assert(before.contains(wanted));
            }
            if named_parquet(file.name@) {
                assert(with_fact(before, fact).contains(wanted));
            }
        }
        assert forall|k: int| 0 <= k < after.len() implies exists|i: int|
            0 <= i < files.len() && named_parquet((#[trigger] files[i]).name@) && (
            #[trigger] after[k]) == (
                files[i].name@,
                files[i].size,
                files[i].modified,
                !has_destination || exported.contains(files[i].name@),
            ) by {
            assert(after.contains(after[k]));
            if named_parquet(file.name@) && after[k] == fact {
                assert(named_parquet(files[files.len() - 1].name@));
            } else {
                assert(before.contains(after[k]));
                let m = choose|m: int| 0 <= m < before.len() && before[m] == after[k];
                let i = choose|i: int|
                    0 <= i < rest.len() && named_parquet((#[trigger] rest[i]).name@) && before[m]
                        == (
                        rest[i].name@,
                        rest[i].size,
                        rest[i].modified,
                        !has_destination || exported.contains(rest[i].name@),
                    );
                assert(files[i] == rest[i]);
            }
        }
    }
}

proof fn inserted_keeps(
    list: Seq<(Seq<char>, u64, u64, bool)>,
    fact: (Seq<char>, u64, u64, bool),
)
    ensures
        forall|x: (Seq<char>, u64, u64, bool)|
            #[trigger] with_fact(list, fact).contains(x) <==> list.contains(x) || x == fact,
        with_fact(list, fact).len() == list.len() + 1,
    decreases list.len(),
{
    let after = with_fact(list, fact);
    if list.len() == 0 || list.last().2 <= fact.2 {
        assert(after == list.push(fact));
        assert forall|x: (Seq<char>, u64, u64, bool)| after.contains(x) <==> list.contains(x) || x
            == fact by {
            if list.contains(x) {
                let k = choose|k: int| 0 <= k < list.len() && list[k] == x;
                assert(after[k] == x);
            }
            assert(after[after.len() - 1] == fact);
            if after.contains(x) && x != fact {
                let k = choose|k: int| 0 <= k < after.len() && after[k] == x;
                assert(list[k] == x);
            }
        }
    } else {
        let rest = list.drop_last();
        inserted_keeps(rest, fact);
        let inner = with_fact(rest, fact);
        assert forall|x: (Seq<char>, u64, u64, bool)| after.contains(x) <==> list.contains(x) || x
            == fact by {
            if list.contains(x) {
                let k = choose|k: int| 0 <= k < list.len() && list[k] == x;
                if k < rest.len() {
                    assert(rest[k] == x);
                    assert(rest.contains(x));
                    assert(with_fact(rest, fact).contains(x));
                    let m = choose|m: int| 0 <= m < inner.len() && inner[m] == x;
                    assert(after[m] == x);
                } else {
                    assert(after[after.len() - 1] == x);
                }
            }
            if x == fact {
                assert(with_fact(rest, fact).contains(x));
                let m = choose|m: int| 0 <= m < inner.len() && inner[m] == x;
                assert(after[m] == x);
            }
            if after.contains(x) && x != fact {
                let k = choose|k: int| 0 <= k < after.len() && after[k] == x;
                if k < inner.len() {
                    assert(inner[k] == x);
                    assert(with_fact(rest, fact).contains(x));
                    assert(rest.contains(x));
                    let m = choose|m: int| 0 <= m < rest.len() && rest[m] == x;
                    assert(list[m] == x);
                } else {
                    assert(list[list.len() - 1] == x);
                }
            }
        }
    }
}

/// A relief considers every Parquet file, from the oldest to the youngest, as
/// soon as there is a retention or the directory is over its limit. A file may
/// go unless there is a destination and it was not exported.
pub proof fn a_relief_considers_every_parquet_file(
    current_size: u64,
    has_destination: bool,
    files_exported: Option<usize>,
    exported_files: &Vec<String>,
    files: &Vec<DirectoryFile>,
    max_bytes: u64,
    retention_days: u32,
    now: u64,
    r: Relief,
)
    requires
        call_ensures(
            check_and_relieve,
            (
                current_size,
                has_destination,
                files_exported,
                exported_files,
                files,
                max_bytes,
                retention_days,
                now,
            ),
            r,
        ),
    ensures
        r.considered == 0 && !r.removing,
        r.result.files_pruned == 0 && r.result.bytes_reclaimed == 0,
        retention_days > 0 || (max_bytes > 0 && current_size > max_bytes) ==> forall|i: int|
            0 <= i < files@.len() && named_parquet((#[trigger] files@[i]).name@) ==> exists|k: int|
                0 <= k < r.candidates@.len() && (#[trigger] r.candidates@[k]).name@
                    == files@[i].name@ && r.candidates@[k].size == files@[i].size
                    && r.candidates@[k].modified == files@[i].modified
                    && r.candidates@[k].removable == (!has_destination || strings(
                    exported_files@,
                ).contains(files@[i].name@)),
        forall|k: int|
            0 <= k < r.candidates@.len() ==> exists|i: int|
                0 <= i < files@.len() && named_parquet((#[trigger] files@[i]).name@) && (
                #[trigger] r.candidates@[k]).name@ == files@[i].name@ && r.candidates@[k].size
                    == files@[i].size && r.candidates@[k].modified == files@[i].modified
                    && r.candidates@[k].removable == (!has_destination || strings(
                    exported_files@,
                ).contains(files@[i].name@)),
        forall|i: int, j: int|
            0 <= i < j < r.candidates@.len() ==> (#[trigger] r.candidates@[i]).modified <= (
            #[trigger] r.candidates@[j]).modified,
{
    let exported = strings(exported_files@);
    let facts = sorted_facts(files@, has_destination, exported);
    facts_stand_for_files(files@, has_destination, exported);
    oldest_files_come_first(files@, has_destination, exported);
    let list = candidate_facts(r.candidates@);
    assert(list.len() == r.candidates@.len());
    if retention_days > 0 || (max_bytes > 0 && current_size > max_bytes) {
        assert forall|i: int| 0 <= i < files@.len() && named_parquet((#[trigger] files@[i]).name@)
            implies exists|k: int|
            0 <= k < r.candidates@.len() && (#[trigger] r.candidates@[k]).name@ == files@[i].name@
                && r.candidates@[k].size == files@[i].size && r.candidates@[k].modified
                == files@[i].modified && r.candidates@[k].removable == (!has_destination
                || exported.contains(files@[i].name@)) by {
            let fact = (
                files@[i].name@,
                files@[i].size,
                files@[i].modified,
                !has_destination || exported.contains(files@[i].name@),
            );
            assert(facts.contains(fact));
            let k = choose|k: int| 0 <= k < facts.len() && facts[k] == fact;
            assert(list[k] == fact);
            assert(r.candidates@[k].name@ == files@[i].name@);
        }
        assert forall|k: int| 0 <= k < r.candidates@.len() implies exists|i: int|
            0 <= i < files@.len() && named_parquet((#[trigger] files@[i]).name@) && (
            #[trigger] r.candidates@[k]).name@ == files@[i].name@ && r.candidates@[k].size
                == files@[i].size && r.candidates@[k].modified == files@[i].modified
                && r.candidates@[k].removable == (!has_destination || exported.contains(
                files@[i].name@,
            )) by {
            assert(facts[k] == list[k]);
        }
        assert forall|i: int, j: int| 0 <= i < j < r.candidates@.len() implies (
        #[trigger] r.candidates@[i]).modified <= (#[trigger] r.candidates@[j]).modified by {
            assert(facts[i] == list[i] && facts[j] == list[j]);
            assert(facts[i].2 <= facts[j].2);
        }
    } else {
        assert(r.candidates@.len() == 0);
    }
}

/// The retention goes back whole days from now; none asked for means none, and
/// so does one that reaches back beyond the beginning of time.
pub proof fn retention_goes_back_whole_days(
    current_size: u64,
    has_destination: bool,
    files_exported: Option<usize>,
    exported_files: &Vec<String>,
    files: &Vec<DirectoryFile>,
    max_bytes: u64,
    retention_days: u32,
    now: u64,
    r: Relief,
)
    requires
        call_ensures(
            check_and_relieve,
            (
                current_size,
                has_destination,
                files_exported,
                exported_files,
                files,
                max_bytes,
                retention_days,
                now,
            ),
            r,
        ),
    ensures
        retention_days == 0 ==> r.retention_cutoff == 0,
        retention_days > 0 && now >= retention_days * 24 * 60 * 60 ==> r.retention_cutoff
            + retention_days * 24 * 60 * 60 == now,
        now < retention_days * 24 * 60 * 60 ==> r.retention_cutoff == 0,
        r.max_bytes == max_bytes && r.remaining == current_size,
        r.result.files_exported > 0 <==> r.result.exported,
        !has_destination || files_exported is None ==> r.result.files_exported == 0,
        has_destination && files_exported is Some ==> r.result.files_exported
            == files_exported->0,
{
}

/// Whether a file is older than the retention allows.
pub open spec fn outlived(c: Candidate, retention_cutoff: u64) -> bool {
    retention_cutoff > 0 && c.modified < retention_cutoff
}

/// The next removal is of the first file that may go and either is past its
/// retention, whatever the size, or stands in a directory that is over its
/// limit. No file between is passed over that should go, and there is no more
/// removal only when no such file is left.
pub proof fn files_past_retention_or_over_the_limit_go(relief: &mut Relief, r: Option<usize>)
    requires
        call_ensures(Relief::next_removal, (relief,), r),
    ensures
        ({
            let list = old(relief).candidates@;
            let over = old(relief).max_bytes > 0 && old(relief).remaining > old(relief).max_bytes;
            &&& r matches Some(at) ==> at < list.len() && list[at as int].removable && (over
                || outlived(list[at as int], old(relief).retention_cutoff))
            &&& forall|i: int|
                old(relief).considered <= i < list.len() && (#[trigger] list[i]).removable
                    && outlived(list[i], old(relief).retention_cutoff) ==> r is Some && r->0 <= i
            &&& forall|i: int|
                old(relief).considered <= i < list.len() && (#[trigger] list[i]).removable && over
                    ==> r is Some && r->0 <= i
            &&& r is Some ==> final(relief).considered == r->0 + 1 && final(relief).removing
            &&& r is None ==> final(relief).considered == list.len() && !final(relief).removing
            &&& final(relief).candidates@ == list && final(relief).remaining == old(
                relief,
            ).remaining && final(relief).result == old(relief).result
        }),
{
    let list = relief.candidates@;
    assert forall|i: int|
        relief.considered <= i < list.len() && (#[trigger] list[i]).removable && (outlived(
            list[i],
            relief.retention_cutoff,
        ) || (relief.max_bytes > 0 && relief.remaining > relief.max_bytes)) implies r is Some
        && r->0 <= i by {
        assert(crate::disk_pressure::prunes(
            list[i],
            relief.remaining,
            relief.max_bytes,
            relief.retention_cutoff,
        ));
    }
}

/// A removal that succeeded counts once, by its size; one that failed counts
/// for nothing.
pub proof fn only_removed_files_are_counted(relief: &mut Relief, removed: bool)
    requires
        call_ensures(Relief::removal_done, (relief, removed), ()),
        old(relief).considered > 0,
    ensures
        !final(relief).removing,
        !removed ==> final(relief).result == old(relief).result && final(relief).remaining == old(
            relief,
        ).remaining,
        removed ==> final(relief).result.files_pruned == old(relief).result.files_pruned + 1,
        removed ==> final(relief).result.bytes_reclaimed - old(relief).result.bytes_reclaimed
            == old(relief).candidates@[old(relief).considered - 1].size,
        removed && old(relief).remaining >= old(relief).candidates@[old(relief).considered
            - 1].size ==> old(relief).remaining - final(relief).remaining == old(
            relief,
        ).candidates@[old(relief).considered - 1].size,
        removed && old(relief).remaining < old(relief).candidates@[old(relief).considered - 1].size
            ==> final(relief).remaining == 0,
        final(relief).result.exported == old(relief).result.exported,
        final(relief).result.files_exported == old(relief).result.files_exported,
{
}

/// When every removal succeeds, a relief that ends has pruned every file that
/// may go and is past its retention: what is left is what was there, less at
/// least those files.
pub proof fn nothing_past_retention_outlasts_a_relief(
    list: Seq<Candidate>,
    from: int,
    remaining: u64,
    max_bytes: u64,
    retention_cutoff: u64,
    i: int,
)
    requires
        0 <= from <= i < list.len(),
        list[i].removable,
        outlived(list[i], retention_cutoff),
    ensures
        left_after(list, from, remaining, max_bytes, retention_cutoff) + list[i].size <= remaining
            || left_after(list, from, remaining, max_bytes, retention_cutoff) == 0,
    decreases list.len() - from,
{
    crate::disk_pressure::left_after_shrinks(
        list,
        from + 1,
        less(remaining, list[from].size),
        max_bytes,
        retention_cutoff,
    );
    if i > from {
        nothing_past_retention_outlasts_a_relief(
            list,
            from + 1,
            less(remaining, list[from].size),
            max_bytes,
            retention_cutoff,
            i,
        );
        nothing_past_retention_outlasts_a_relief(
            list,
            from + 1,
            remaining,
            max_bytes,
            retention_cutoff,
            i,
        );
    }
}

} // verus!
