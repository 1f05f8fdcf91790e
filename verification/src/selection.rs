//! Which level 1 files go with the first level 0 files of a partition.
//!
//! A level 1 file goes with the first level 0 file that it overlaps. What is selected for the
//! first `n` level 0 files is therefore the level 1 files that go with them, in the order of the
//! level 0 files that they go with, followed by those `n` files.

use crate::parquet_file::{overlaps_in_time, CompactorParquetFile};
use vstd::prelude::*;

verus! {

/// Whether the level 1 file `file` overlaps one of the first `n` level 0 files.
pub open spec fn overlaps_any(
    file: CompactorParquetFile,
    level_0: Seq<CompactorParquetFile>,
    n: int,
) -> bool {
    exists|j: int| 0 <= j < n && file.overlaps(#[trigger] level_0[j])
}

/// The level 1 files that overlap none of the first `n` level 0 files.
pub open spec fn unclaimed(
    level_0: Seq<CompactorParquetFile>,
    level_1: Seq<CompactorParquetFile>,
    n: int,
) -> Seq<CompactorParquetFile> {
    level_1.filter(|f: CompactorParquetFile| !overlaps_any(f, level_0, n))
}

/// The level 1 files that overlap level 0 file `i` and none before it.
pub open spec fn claimed_by(
    level_0: Seq<CompactorParquetFile>,
    level_1: Seq<CompactorParquetFile>,
    i: int,
) -> Seq<CompactorParquetFile> {
    level_1.filter(
        |f: CompactorParquetFile| !overlaps_any(f, level_0, i) && f.overlaps(level_0[i]),
    )
}

/// The level 1 files that go with the first `n` level 0 files.
pub open spec fn claimed(
    level_0: Seq<CompactorParquetFile>,
    level_1: Seq<CompactorParquetFile>,
    n: int,
) -> Seq<CompactorParquetFile>
    decreases n,
{
    if n <= 0 {
        Seq::empty()
    } else {
        claimed(level_0, level_1, n - 1) + claimed_by(level_0, level_1, n - 1)
    }
}

/// The files that are selected together with the first `n` level 0 files.
pub open spec fn selection(
    level_0: Seq<CompactorParquetFile>,
    level_1: Seq<CompactorParquetFile>,
    n: int,
) -> Seq<CompactorParquetFile> {
    claimed(level_0, level_1, n) + level_0.take(n)
}

/// Filtering twice is filtering once by both conditions.
proof fn lemma_filter_twice<A>(
    s: Seq<A>,
    p: spec_fn(A) -> bool,
    q: spec_fn(A) -> bool,
    both: spec_fn(A) -> bool,
)
    requires
        forall|x: A| #[trigger] both(x) == (p(x) && q(x)),
    ensures
        s.filter(p).filter(q) == s.filter(both),
    decreases s.len(),
{
    reveal(Seq::filter);
    if s.len() > 0 {
        lemma_filter_twice(s.drop_last(), p, q, both);
        let kept = s.drop_last().filter(p);
        assert(kept.push(s.last()).drop_last() =~= kept);
        assert(both(s.last()) == (p(s.last()) && q(s.last())));
    }
}

/// Before any level 0 file is selected, every level 1 file is unclaimed.
pub proof fn lemma_nothing_claimed(
    level_0: Seq<CompactorParquetFile>,
    level_1: Seq<CompactorParquetFile>,
)
    ensures
        unclaimed(level_0, level_1, 0) == level_1,
    decreases level_1.len(),
{
    reveal(Seq::filter);
    if level_1.len() > 0 {
        lemma_nothing_claimed(level_0, level_1.drop_last());
        assert(level_1.drop_last().push(level_1.last()) =~= level_1);
    } else {
        assert(unclaimed(level_0, level_1, 0) =~= level_1);
    }
}

/// Selecting level 0 file `n` splits the unclaimed level 1 files by whether they overlap it.
pub proof fn lemma_claim_next(
    level_0: Seq<CompactorParquetFile>,
    level_1: Seq<CompactorParquetFile>,
    n: int,
)
    requires
        0 <= n < level_0.len(),
    ensures
        unclaimed(level_0, level_1, n).filter(|f: CompactorParquetFile| f.overlaps(level_0[n]))
            == claimed_by(level_0, level_1, n),
        unclaimed(level_0, level_1, n).filter(|f: CompactorParquetFile| !f.overlaps(level_0[n]))
            == unclaimed(level_0, level_1, n + 1),
{
    let free = |f: CompactorParquetFile| !overlaps_any(f, level_0, n);
    let hit = |f: CompactorParquetFile| f.overlaps(level_0[n]);
    let miss = |f: CompactorParquetFile| !f.overlaps(level_0[n]);
    let taken = |f: CompactorParquetFile| !overlaps_any(f, level_0, n) && f.overlaps(level_0[n]);
    let still_free = |f: CompactorParquetFile| !overlaps_any(f, level_0, n + 1);
    lemma_filter_twice(level_1, free, hit, taken);
    assert forall|f: CompactorParquetFile| #[trigger] still_free(f) == (free(f) && miss(f)) by {
        lemma_overlaps_any_next(f, level_0, n);
    }
    lemma_filter_twice(level_1, free, miss, still_free);
}

/// The claimed and the unclaimed level 1 files are together as many as there are.
pub proof fn lemma_claimed_len(
    level_0: Seq<CompactorParquetFile>,
    level_1: Seq<CompactorParquetFile>,
    n: int,
)
    requires
        0 <= n <= level_0.len(),
    ensures
        claimed(level_0, level_1, n).len() + unclaimed(level_0, level_1, n).len() == level_1.len(),
    decreases n,
{
    if n == 0 {
        lemma_nothing_claimed(level_0, level_1);
    } else {
        lemma_claimed_len(level_0, level_1, n - 1);
        lemma_claim_next(level_0, level_1, n - 1);
        lemma_filter_splits(
            unclaimed(level_0, level_1, n - 1),
            |f: CompactorParquetFile| f.overlaps(level_0[n - 1]),
            |f: CompactorParquetFile| !f.overlaps(level_0[n - 1]),
        );
    }
}

/// Filtering by a condition and by its opposite gives each element once.
proof fn lemma_filter_splits<A>(s: Seq<A>, p: spec_fn(A) -> bool, not_p: spec_fn(A) -> bool)
    requires
        forall|x: A| #[trigger] p(x) != not_p(x),
    ensures
        s.filter(p).len() + s.filter(not_p).len() == s.len(),
        s.filter(p).to_multiset().add(s.filter(not_p).to_multiset()) =~= s.to_multiset(),
    decreases s.len(),
{
    reveal(Seq::filter);
    broadcast use vstd::seq_lib::group_to_multiset_ensures;

    if s.len() > 0 {
        lemma_filter_splits(s.drop_last(), p, not_p);
        assert(s.drop_last().push(s.last()) =~= s);
        assert(p(s.last()) != not_p(s.last()));
    }
}

/// A file overlaps one of `n + 1` level 0 files if it overlaps one of the first `n` or the last.
pub proof fn lemma_overlaps_any_next(
    file: CompactorParquetFile,
    level_0: Seq<CompactorParquetFile>,
    n: int,
)
    requires
        0 <= n,
    ensures
        overlaps_any(file, level_0, n + 1) == (overlaps_any(file, level_0, n) || file.overlaps(
            level_0[n],
        )),
{
    if overlaps_any(file, level_0, n) {
        let j = choose|j: int| 0 <= j < n && file.overlaps(#[trigger] level_0[j]);
        assert(0 <= j < n + 1 && file.overlaps(level_0[j]));
    }
}

/// Parts the level 1 files that overlap a level 0 file from those that do not.
pub fn partition_by_overlap(
    level_1: &Vec<CompactorParquetFile>,
    level_0_file: &CompactorParquetFile,
) -> (res: (Vec<CompactorParquetFile>, Vec<CompactorParquetFile>))
    ensures
        res.0@ == level_1@.filter(|f: CompactorParquetFile| f.overlaps(*level_0_file)),
        res.1@ == level_1@.filter(|f: CompactorParquetFile| !f.overlaps(*level_0_file)),
{
    let ghost hit = |f: CompactorParquetFile| f.overlaps(*level_0_file);
    let ghost miss = |f: CompactorParquetFile| !f.overlaps(*level_0_file);
    let mut overlaps: Vec<CompactorParquetFile> = Vec::new();
    let mut non_overlaps: Vec<CompactorParquetFile> = Vec::new();
    proof {
        reveal(Seq::filter);
    }
    for i in 0..level_1.len()
        invariant
            hit == (|f: CompactorParquetFile| f.overlaps(*level_0_file)),
            miss == (|f: CompactorParquetFile| !f.overlaps(*level_0_file)),
            overlaps@ == level_1@.take(i as int).filter(hit),
            non_overlaps@ == level_1@.take(i as int).filter(miss),
    {
        let file: CompactorParquetFile = level_1[i];
        proof {
            reveal(Seq::filter);
            assert(level_1@.take(i + 1).drop_last() =~= level_1@.take(i as int));
        }
        if overlaps_in_time(&file, level_0_file) {
            overlaps.push(file);
        } else {
            non_overlaps.push(file);
        }
    }
    assert(level_1@.take(level_1@.len() as int) =~= level_1@);
    (overlaps, non_overlaps)
}

/// The level 1 files that overlap one of the first `n` level 0 files.
pub open spec fn overlapping(
    level_0: Seq<CompactorParquetFile>,
    level_1: Seq<CompactorParquetFile>,
    n: int,
) -> Seq<CompactorParquetFile> {
    level_1.filter(|f: CompactorParquetFile| overlaps_any(f, level_0, n))
}

/// The level 1 files of a selection are those that overlap one of its level 0 files: all of them,
/// each as often as it is in the list, and no others. What is not selected is left over.
pub proof fn law_claimed_are_the_overlapping(
    level_0: Seq<CompactorParquetFile>,
    level_1: Seq<CompactorParquetFile>,
    n: int,
)
    requires
        0 <= n <= level_0.len(),
    ensures
        claimed(level_0, level_1, n).to_multiset() == overlapping(
            level_0,
            level_1,
            n,
        ).to_multiset(),
        claimed(level_0, level_1, n).to_multiset().add(
            unclaimed(level_0, level_1, n).to_multiset(),
        ) == level_1.to_multiset(),
        forall|f: CompactorParquetFile| #[trigger]
            claimed(level_0, level_1, n).contains(f) <==> level_1.contains(f) && overlaps_any(
                f,
                level_0,
                n,
            ),
{
    lemma_claimed_and_unclaimed(level_0, level_1, n);
    lemma_filter_splits(
        level_1,
        |f: CompactorParquetFile| overlaps_any(f, level_0, n),
        |f: CompactorParquetFile| !overlaps_any(f, level_0, n),
    );
    let taken = claimed(level_0, level_1, n).to_multiset();
    let hit = overlapping(level_0, level_1, n).to_multiset();
    let rest = unclaimed(level_0, level_1, n).to_multiset();
    assert forall|f: CompactorParquetFile| taken.count(f) == hit.count(f) by {
        assert(taken.add(rest).count(f) == hit.add(rest).count(f));
    }
    assert(taken =~= hit);
    assert forall|f: CompactorParquetFile| #[trigger]
        claimed(level_0, level_1, n).contains(f) <==> level_1.contains(f) && overlaps_any(
            f,
            level_0,
            n,
        ) by {
        broadcast use vstd::seq_lib::group_to_multiset_ensures;

        assert(claimed(level_0, level_1, n).contains(f) <==> taken.count(f) > 0);
        assert(overlapping(level_0, level_1, n).contains(f) <==> hit.count(f) > 0);
        lemma_filter_contains(level_1, |g: CompactorParquetFile| overlaps_any(g, level_0, n), f);
    }
}

/// The claimed and the unclaimed level 1 files are together the level 1 files.
proof fn lemma_claimed_and_unclaimed(
    level_0: Seq<CompactorParquetFile>,
    level_1: Seq<CompactorParquetFile>,
    n: int,
)
    requires
        0 <= n <= level_0.len(),
    ensures
        claimed(level_0, level_1, n).to_multiset().add(
            unclaimed(level_0, level_1, n).to_multiset(),
        ) == level_1.to_multiset(),
    decreases n,
{
    if n == 0 {
        lemma_nothing_claimed(level_0, level_1);
        broadcast use vstd::seq_lib::group_to_multiset_ensures;

        assert(claimed(level_0, level_1, 0).to_multiset().len() == 0);
        assert(claimed(level_0, level_1, 0).to_multiset().add(level_1.to_multiset())
            =~= level_1.to_multiset());
    } else {
        lemma_claimed_and_unclaimed(level_0, level_1, n - 1);
        lemma_claim_next(level_0, level_1, n - 1);
        lemma_filter_splits(
            unclaimed(level_0, level_1, n - 1),
            |f: CompactorParquetFile| f.overlaps(level_0[n - 1]),
            |f: CompactorParquetFile| !f.overlaps(level_0[n - 1]),
        );
        vstd::seq_lib::lemma_multiset_commutative(
            claimed(level_0, level_1, n - 1),
            claimed_by(level_0, level_1, n - 1),
        );
        assert(claimed(level_0, level_1, n).to_multiset().add(
            unclaimed(level_0, level_1, n).to_multiset(),
        ) =~= claimed(level_0, level_1, n - 1).to_multiset().add(
            unclaimed(level_0, level_1, n - 1).to_multiset(),
        ));
    }
}

/// A filtered sequence holds what the sequence holds and the condition admits.
pub proof fn lemma_filter_contains<A>(s: Seq<A>, p: spec_fn(A) -> bool, x: A)
    ensures
        s.filter(p).contains(x) <==> s.contains(x) && p(x),
    decreases s.len(),
{
    reveal(Seq::filter);
    if s.len() > 0 {
        let rest = s.drop_last();
        lemma_filter_contains(rest, p, x);
        assert(s =~= rest.push(s.last()));
        lemma_push_contains(rest, s.last(), x);
        lemma_push_contains(rest.filter(p), s.last(), x);
    }
}

/// A longer sequence holds what the shorter one holds and the new element.
proof fn lemma_push_contains<A>(s: Seq<A>, last: A, x: A)
    ensures
        s.push(last).contains(x) <==> s.contains(x) || x == last,
{
    if s.contains(x) {
        let i = choose|i: int| 0 <= i < s.len() && s[i] == x;
        assert(s.push(last)[i] == x);
    }
    assert(s.push(last)[s.len() as int] == last);
}

/// Whether the files are sorted by max sequence number.
pub open spec fn sorted_by_max_sequence_number(files: Seq<CompactorParquetFile>) -> bool {
    forall|i: int, j: int|
        0 <= i <= j < files.len() ==> (#[trigger] files[i]).max_sequence_number <= (
        #[trigger] files[j]).max_sequence_number
}

/// A selection holds its level 1 files first and then, in their order, its level 0 files, which
/// are sorted by max sequence number if the level 0 files are.
pub proof fn law_level_0_files_come_last_in_order(
    level_0: Seq<CompactorParquetFile>,
    level_1: Seq<CompactorParquetFile>,
    n: int,
)
    requires
        0 <= n <= level_0.len(),
    ensures
        ({
            let level_1_count = claimed(level_0, level_1, n).len() as int;
            let files = selection(level_0, level_1, n);
            &&& files.take(level_1_count) == claimed(level_0, level_1, n)
            &&& files.skip(level_1_count) == level_0.take(n)
            &&& sorted_by_max_sequence_number(level_0) ==> sorted_by_max_sequence_number(
                files.skip(level_1_count),
            )
        }),
{
    let level_1_count = claimed(level_0, level_1, n).len() as int;
    let files = selection(level_0, level_1, n);
    assert(files.take(level_1_count) =~= claimed(level_0, level_1, n));
    assert(files.skip(level_1_count) =~= level_0.take(n));
}

/// Selecting more level 0 files keeps the files that were selected for fewer, in their order.
pub proof fn law_selection_grows(
    level_0: Seq<CompactorParquetFile>,
    level_1: Seq<CompactorParquetFile>,
    m: int,
    n: int,
)
    requires
        0 <= m <= n <= level_0.len(),
    ensures
        claimed(level_0, level_1, m).is_prefix_of(claimed(level_0, level_1, n)),
        level_0.take(m).is_prefix_of(level_0.take(n)),
        selection(level_0, level_1, m).len() <= selection(level_0, level_1, n).len(),
        forall|f: CompactorParquetFile| #[trigger]
            selection(level_0, level_1, m).contains(f) ==> selection(level_0, level_1, n).contains(
                f,
            ),
{
    lemma_claimed_grows(level_0, level_1, m, n);
    let fewer = claimed(level_0, level_1, m);
    let more = claimed(level_0, level_1, n);
    assert(level_0.take(m) =~= level_0.take(n).take(m));
    assert forall|f: CompactorParquetFile| #[trigger]
        selection(level_0, level_1, m).contains(f) implies selection(
        level_0,
        level_1,
        n,
    ).contains(f) by {
        let i = choose|i: int|
            0 <= i < selection(level_0, level_1, m).len() && selection(level_0, level_1, m)[i] == f;
        if i < fewer.len() {
            assert(fewer[i] == more.take(fewer.len() as int)[i]);
            assert(selection(level_0, level_1, n)[i] == f);
        } else {
            assert(selection(level_0, level_1, n)[more.len() + i - fewer.len()] == f);
        }
    }
}

/// Selecting more level 0 files adds level 1 files after those that go with fewer.
proof fn lemma_claimed_grows(
    level_0: Seq<CompactorParquetFile>,
    level_1: Seq<CompactorParquetFile>,
    m: int,
    n: int,
)
    requires
        0 <= m <= n <= level_0.len(),
    ensures
        claimed(level_0, level_1, m).is_prefix_of(claimed(level_0, level_1, n)),
    decreases n - m,
{
    if m < n {
        lemma_claimed_grows(level_0, level_1, m, n - 1);
        let fewer = claimed(level_0, level_1, m);
        assert(fewer =~= claimed(level_0, level_1, n - 1).take(fewer.len() as int));
        assert(fewer =~= claimed(level_0, level_1, n).take(fewer.len() as int));
    } else {
        let all = claimed(level_0, level_1, n);
        assert(all =~= all.take(all.len() as int));
    }
}

/// With each level 0 file that is added, a selection gets the level 1 files that overlap it and
/// none of the level 0 files before it, in their order, after the level 1 files it had; the level 0
/// files stand at the end. With no level 0 file it is empty.
pub proof fn law_selection_with_one_more(
    level_0: Seq<CompactorParquetFile>,
    level_1: Seq<CompactorParquetFile>,
    n: int,
)
    requires
        0 <= n < level_0.len(),
    ensures
        selection(level_0, level_1, 0).len() == 0,
        selection(level_0, level_1, n).len() >= n,
        selection(level_0, level_1, n + 1) == selection(level_0, level_1, n).take(
            selection(level_0, level_1, n).len() - n,
        ) + level_1.filter(
            |f: CompactorParquetFile|
                f.overlaps(level_0[n]) && forall|j: int|
                    0 <= j < n ==> !f.overlaps(#[trigger] level_0[j]),
        ) + level_0.take(n + 1),
{
    let before = selection(level_0, level_1, n);
    assert(before.take(before.len() - n) =~= claimed(level_0, level_1, n));
    lemma_claimed_by(level_0, level_1, n);
}

/// The level 1 files that go with a level 0 file, by the level 0 files that they overlap.
pub proof fn lemma_claimed_by(
    level_0: Seq<CompactorParquetFile>,
    level_1: Seq<CompactorParquetFile>,
    n: int,
)
    ensures
        claimed_by(level_0, level_1, n) == level_1.filter(
            |f: CompactorParquetFile|
                f.overlaps(level_0[n]) && forall|j: int|
                    0 <= j < n ==> !f.overlaps(#[trigger] level_0[j]),
        ),
{
    let p = |f: CompactorParquetFile| !overlaps_any(f, level_0, n) && f.overlaps(level_0[n]);
    let q = |f: CompactorParquetFile|
        f.overlaps(level_0[n]) && forall|j: int|
            0 <= j < n ==> !f.overlaps(#[trigger] level_0[j]);
    assert(p =~= q);
}

/// A selection holds the first level 0 files and all level 1 files that overlap one of them, each
/// as often as it is in the lists, and nothing else.
pub proof fn law_selection_holds_all_that_overlap(
    level_0: Seq<CompactorParquetFile>,
    level_1: Seq<CompactorParquetFile>,
    n: int,
)
    requires
        0 <= n <= level_0.len(),
    ensures
        selection(level_0, level_1, n).to_multiset() == level_1.filter(
            |f: CompactorParquetFile|
                exists|j: int| 0 <= j < n && f.overlaps(#[trigger] level_0[j]),
        ).to_multiset().add(level_0.take(n).to_multiset()),
        selection(level_0, level_1, n).skip(selection(level_0, level_1, n).len() - n)
            == level_0.take(n),
{
    law_claimed_are_the_overlapping(level_0, level_1, n);
    law_level_0_files_come_last_in_order(level_0, level_1, n);
    let p = |f: CompactorParquetFile| overlaps_any(f, level_0, n);
    let q = |f: CompactorParquetFile|
        exists|j: int| 0 <= j < n && f.overlaps(#[trigger] level_0[j]);
    assert(p =~= q);
    vstd::seq_lib::lemma_multiset_commutative(claimed(level_0, level_1, n), level_0.take(n));
}

} // verus!
