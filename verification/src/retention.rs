//! Retention pruning: which archives must go so that at most the configured
//! number of newest archives stays.
//!
//! The pruner works on a plain directory listing.  Every entry carrying the
//! archive extension counts as an archive; archives are ordered by file
//! name, which orders them by creation time because archives are named
//! after their creation seconds.  The pruner selects the archives with the
//! smallest names beyond the retention budget, smallest first.

use vstd::prelude::*;
use vstd::relations::{sorted_by, total_ordering};
use vstd::seq_lib::lemma_sorted_unique;

use crate::archive_name::{is_zip_file_name, spec_is_zip_file_name};

verus! {

broadcast use vstd::seq_lib::group_to_multiset_ensures, vstd::multiset::group_multiset_axioms;

/// Lexicographic order on names, by character code.
pub open spec fn lex_le(a: Seq<char>, b: Seq<char>) -> bool
    decreases a.len(),
{
    if a.len() == 0 {
        true
    } else if b.len() == 0 {
        false
    } else if (a[0] as int) < (b[0] as int) {
        true
    } else if a[0] == b[0] {
        lex_le(a.drop_first(), b.drop_first())
    } else {
        false
    }
}

/// Strict lexicographic order on names.
pub open spec fn lex_lt(a: Seq<char>, b: Seq<char>) -> bool {
    lex_le(a, b) && a != b
}

/// Every name is lexicographically below itself.
pub proof fn lemma_lex_le_reflexive(a: Seq<char>)
    ensures
        lex_le(a, a),
    decreases a.len(),
{
    if a.len() > 0 {
        lemma_lex_le_reflexive(a.drop_first());
    }
}

/// Any two names are lexicographically comparable.
pub proof fn lemma_lex_le_connected(a: Seq<char>, b: Seq<char>)
    ensures
        lex_le(a, b) || lex_le(b, a),
    decreases a.len(),
{
    if a.len() > 0 && b.len() > 0 {
        assert(a[0] as int == b[0] as int ==> a[0] == b[0]);
        if a[0] == b[0] {
            lemma_lex_le_connected(a.drop_first(), b.drop_first());
        }
    }
}

/// Names below each other lexicographically are equal.
pub proof fn lemma_lex_le_antisymmetric(a: Seq<char>, b: Seq<char>)
    requires
        lex_le(a, b),
        lex_le(b, a),
    ensures
        a == b,
    decreases a.len(),
{
    if a.len() == 0 {
        assert(a =~= b);
    } else {
        lemma_lex_le_antisymmetric(a.drop_first(), b.drop_first());
        assert(a =~= b) by {
            assert(forall|k: int|
                1 <= k < a.len() ==> #[trigger] a[k] == a.drop_first()[k - 1]);
            assert(forall|k: int|
                1 <= k < b.len() ==> #[trigger] b[k] == b.drop_first()[k - 1]);
        }
    }
}

/// Lexicographic order is transitive.
pub proof fn lemma_lex_le_transitive(a: Seq<char>, b: Seq<char>, c: Seq<char>)
    requires
        lex_le(a, b),
        lex_le(b, c),
    ensures
        lex_le(a, c),
    decreases a.len(),
{
    if a.len() > 0 && b.len() > 0 && c.len() > 0 && a[0] == b[0] && b[0] == c[0] {
        lemma_lex_le_transitive(a.drop_first(), b.drop_first(), c.drop_first());
    }
}

/// The age order on listing positions: by file name, and for equal names by
/// position.  On archives named after their creation seconds this orders by
/// creation time, oldest first.
pub open spec fn listing_order(names: Seq<String>) -> spec_fn(usize, usize) -> bool {
    |i: usize, j: usize|
        lex_lt(names[i as int]@, names[j as int]@) || (names[i as int]@ == names[j as int]@ && i
            <= j)
}

/// The age order is a total order on listing positions.
pub proof fn lemma_listing_order_total(names: Seq<String>)
    ensures
        total_ordering(listing_order(names)),
{
    let order = listing_order(names);
    assert forall|i: usize, j: usize| #[trigger] order(i, j) || #[trigger] order(j, i) by {
        lemma_lex_le_connected(names[i as int]@, names[j as int]@);
        if lex_le(names[i as int]@, names[j as int]@) && lex_le(names[j as int]@, names[i as int]@) {
            lemma_lex_le_antisymmetric(names[i as int]@, names[j as int]@);
        }
    }
    assert forall|i: usize, j: usize| #[trigger] order(i, j) && #[trigger] order(j, i) implies i
        == j by {
        if lex_lt(names[i as int]@, names[j as int]@) && lex_lt(names[j as int]@, names[i as int]@) {
            lemma_lex_le_antisymmetric(names[i as int]@, names[j as int]@);
        }
    }
    assert forall|i: usize, j: usize, k: usize|
        #[trigger] order(i, j) && #[trigger] order(j, k) implies order(i, k) by {
        let a = names[i as int]@;
        let b = names[j as int]@;
        let c = names[k as int]@;
        lemma_lex_le_reflexive(a);
        lemma_lex_le_reflexive(b);
        assert(lex_le(a, b) && lex_le(b, c));
        lemma_lex_le_transitive(a, b, c);
        if a == c && a != b {
            lemma_lex_le_antisymmetric(a, b);
        }
    }
}

/// The listing positions of the archives among the first `i` directory
/// entries: every entry with the archive extension, in listing order.
pub open spec fn spec_archive_positions(names: Seq<String>, i: int) -> Seq<usize>
    decreases i,
{
    if i <= 0 {
        Seq::empty()
    } else {
        let rest = spec_archive_positions(names, i - 1);
        if spec_is_zip_file_name(names[i - 1]@) {
            rest.push((i - 1) as usize)
        } else {
            rest
        }
    }
}

/// Archive positions are in range and strictly increasing.
pub proof fn lemma_archive_positions_in_bounds(names: Seq<String>, i: int)
    requires
        0 <= i <= names.len() <= usize::MAX,
    ensures
        forall|r: int|
            0 <= r < spec_archive_positions(names, i).len() ==> {
                let position = #[trigger] spec_archive_positions(names, i)[r];
                &&& position < i
                &&& spec_is_zip_file_name(names[position as int]@)
            },
        forall|r: int, s: int|
            0 <= r < s < spec_archive_positions(names, i).len()
                ==> #[trigger] spec_archive_positions(names, i)[r]
                < #[trigger] spec_archive_positions(names, i)[s],
    decreases i,
{
    if i > 0 {
        lemma_archive_positions_in_bounds(names, i - 1);
        let prev = spec_archive_positions(names, i - 1);
        let cur = spec_archive_positions(names, i);
        assert forall|r: int| 0 <= r < cur.len() implies {
            let position = #[trigger] cur[r];
            &&& position < i
            &&& spec_is_zip_file_name(names[position as int]@)
        } by {
            if r < prev.len() {
                assert(cur[r] == prev[r]);
            } else {
                assert(spec_is_zip_file_name(names[i - 1]@) && cur[r] == (i - 1) as usize);
            }
        }
    }
}

/// Collects the listing positions of the archives in a directory listing.
fn collect_archive_positions(names: &Vec<String>) -> (positions: Vec<usize>)
    ensures
        positions@ == spec_archive_positions(names@, names@.len() as int),
{
    let mut positions: Vec<usize> = Vec::new();
    let count = names.len();
    for index in 0..count
        invariant
            count == names@.len(),
            positions@ == spec_archive_positions(names@, index as int),
    {
        if is_zip_file_name(names[index].as_str()) {
            positions.push(index);
        }
    }
    positions
}

/// Compares two names lexicographically.
fn lex_le_names(a: &str, b: &str) -> (below: bool)
    ensures
        below == lex_le(a@, b@),
{
    let a_len = a.unicode_len();
    let b_len = b.unicode_len();
    let mut offset: usize = 0;
    proof {
        assert(a@.skip(0) =~= a@);
        assert(b@.skip(0) =~= b@);
    }
    loop
        invariant
            a_len == a@.len(),
            b_len == b@.len(),
            offset <= a_len,
            offset <= b_len,
            lex_le(a@, b@) == lex_le(a@.skip(offset as int), b@.skip(offset as int)),
        decreases a_len - offset,
    {
        if offset == a_len {
            assert(a@.skip(offset as int).len() == 0);
            return true;
        }
        if offset == b_len {
            assert(b@.skip(offset as int).len() == 0);
            assert(a@.skip(offset as int).len() > 0);
            return false;
        }
        let ca = a.get_char(offset);
        let cb = b.get_char(offset);
        proof {
            let a_rest = a@.skip(offset as int);
            let b_rest = b@.skip(offset as int);
            assert(a_rest[0] == a@[offset as int]);
            assert(b_rest[0] == b@[offset as int]);
            assert(a_rest.drop_first() =~= a@.skip(offset + 1));
            assert(b_rest.drop_first() =~= b@.skip(offset + 1));
            assert(ca as u32 == ca as int && cb as u32 == cb as int);
        }
        if (ca as u32) < (cb as u32) {
            return true;
        }
        if ca != cb {
            return false;
        }
        offset += 1;
    }
}

/// Compares two listing positions in the age order.
fn listing_le(names: &Vec<String>, a: usize, b: usize) -> (below: bool)
    requires
        a < names@.len(),
        b < names@.len(),
    ensures
        below == listing_order(names@)(a, b),
{
    let forward = lex_le_names(names[a].as_str(), names[b].as_str());
    let backward = lex_le_names(names[b].as_str(), names[a].as_str());
    proof {
        if names@[a as int]@ == names@[b as int]@ {
            lemma_lex_le_reflexive(names@[a as int]@);
        }
    }
    if forward && backward {
        proof {
            lemma_lex_le_antisymmetric(names@[a as int]@, names@[b as int]@);
        }
        a <= b
    } else {
        forward
    }
}

/// The position, within `positions`, of an oldest archive.
fn min_position_index(names: &Vec<String>, positions: &Vec<usize>) -> (at: usize)
    requires
        positions@.len() > 0,
        forall|r: int| 0 <= r < positions@.len() ==> #[trigger] positions@[r] < names@.len(),
    ensures
        at < positions@.len(),
        forall|r: int|
            0 <= r < positions@.len() ==> listing_order(names@)(
                positions@[at as int],
                #[trigger] positions@[r],
            ),
{
    proof {
        lemma_listing_order_total(names@);
    }
    let mut at: usize = 0;
    let count = positions.len();
    for index in 1..count
        invariant
            count == positions@.len(),
            at < index,
            forall|r: int| 0 <= r < positions@.len() ==> #[trigger] positions@[r] < names@.len(),
            forall|r: int|
                0 <= r < index ==> listing_order(names@)(
                    positions@[at as int],
                    #[trigger] positions@[r],
                ),
    {
        if !listing_le(names, positions[at], positions[index]) {
            proof {
                lemma_listing_order_total(names@);
                let order = listing_order(names@);
                assert(order(positions@[index as int], positions@[at as int]));
                assert forall|r: int|
                    0 <= r < index + 1 implies order(
                    positions@[index as int],
                    #[trigger] positions@[r],
                ) by {
                    if r < index {
                        assert(order(positions@[at as int], positions@[r]));
                    }
                }
            }
            at = index;
        }
    }
    at
}

/// Sorts archive positions by age, oldest first.
fn sort_archive_positions(names: &Vec<String>, positions: Vec<usize>) -> (sorted: Vec<usize>)
    requires
        forall|r: int| 0 <= r < positions@.len() ==> #[trigger] positions@[r] < names@.len(),
    ensures
        sorted@.to_multiset() == positions@.to_multiset(),
        sorted_by(sorted@, listing_order(names@)),
        forall|r: int| 0 <= r < sorted@.len() ==> #[trigger] sorted@[r] < names@.len(),
{
    let mut remaining = positions;
    let mut sorted: Vec<usize> = Vec::new();
    proof {
        assert(sorted@.to_multiset().add(remaining@.to_multiset()) =~= positions@.to_multiset());
    }
    while remaining.len() > 0
        invariant
            forall|r: int| 0 <= r < remaining@.len() ==> #[trigger] remaining@[r] < names@.len(),
            forall|r: int| 0 <= r < sorted@.len() ==> #[trigger] sorted@[r] < names@.len(),
            sorted@.to_multiset().add(remaining@.to_multiset()) == positions@.to_multiset(),
            sorted_by(sorted@, listing_order(names@)),
            forall|i: int, k: int|
                0 <= i < sorted@.len() && 0 <= k < remaining@.len() ==> listing_order(names@)(
                    #[trigger] sorted@[i],
                    #[trigger] remaining@[k],
                ),
        decreases remaining@.len(),
    {
        let at = min_position_index(names, &remaining);
        let ghost old_sorted = sorted@;
        let ghost old_remaining = remaining@;
        let oldest = remaining.remove(at);
        sorted.push(oldest);
        proof {
            assert(old_remaining.to_multiset().contains(oldest)) by {
                assert(old_remaining[at as int] == oldest);
                assert(old_remaining.contains(oldest));
            }
            assert(sorted@.to_multiset().add(remaining@.to_multiset())
                =~= positions@.to_multiset());
            let order = listing_order(names@);
            assert forall|i: int, k: int|
                0 <= i < sorted@.len() && 0 <= k < remaining@.len() implies order(
                #[trigger] sorted@[i],
                #[trigger] remaining@[k],
            ) by {
                assert(remaining@[k] == if k < at {
                    old_remaining[k]
                } else {
                    old_remaining[k + 1]
                });
                assert(order(oldest, remaining@[k]));
                if i < old_sorted.len() {
                    assert(order(old_sorted[i], remaining@[k]));
                }
            }
            assert(sorted_by(sorted@, order)) by {
                assert forall|i: int, j: int| 0 <= i < j < sorted@.len() implies order(
                    sorted@[i],
                    sorted@[j],
                ) by {
                    if j == sorted@.len() - 1 {
                        assert(order(old_sorted[i], old_remaining[at as int]));
                    }
                }
            }
        }
    }
    proof {
        assert(sorted@.to_multiset().add(remaining@.to_multiset()) =~= sorted@.to_multiset());
    }
    sorted
}

/// The archives of a directory listing by age, oldest first: the listing
/// positions of the entries with the archive extension, sorted by the age
/// order.
pub open spec fn spec_archives_by_age(names: Seq<String>) -> Seq<usize> {
    spec_archive_positions(names, names.len() as int).sort_by(listing_order(names))
}

/// How many archives exceed the retention budget.
pub open spec fn spec_excess_archives(names: Seq<String>, maximum_backups: int) -> int {
    let count = spec_archive_positions(names, names.len() as int).len();
    if count <= maximum_backups {
        0
    } else {
        count - maximum_backups
    }
}

/// Selects the archives to delete from the directory listing `names` so that
/// at most `maximum_backups` archives stay.
///
/// The result holds the file names of exactly the excess archives — the
/// oldest ones beyond the budget — oldest first; it is empty whenever the
/// archive count is within the budget.  Entries of `names` without the
/// archive extension are never counted and never selected.
pub fn backups_to_remove(names: &Vec<String>, maximum_backups: usize) -> (removals: Vec<String>)
    ensures
        removals@.len() == spec_excess_archives(names@, maximum_backups as int),
        forall|r: int|
            0 <= r < removals@.len() ==> {
                let position = spec_archives_by_age(names@)[r];
                &&& 0 <= position < names@.len()
                &&& #[trigger] removals@[r] == names@[position as int]
            },
{
    let total = names.len();
    let positions = collect_archive_positions(names);
    proof {
        assert(total == names@.len());
        lemma_archive_positions_in_bounds(names@, names@.len() as int);
    }
    let excess = if positions.len() <= maximum_backups {
        0
    } else {
        positions.len() - maximum_backups
    };
    let sorted = sort_archive_positions(names, positions);
    proof {
        assert(sorted@.len() == spec_archive_positions(names@, names@.len() as int).len()) by {
            assert(sorted@.to_multiset().len() == spec_archive_positions(
                names@,
                names@.len() as int,
            ).to_multiset().len());
        }
        lemma_listing_order_total(names@);
        spec_archive_positions(names@, names@.len() as int).lemma_sort_by_ensures(
            listing_order(names@),
        );
        lemma_sorted_unique(sorted@, spec_archives_by_age(names@), listing_order(names@));
    }
    let mut removals: Vec<String> = Vec::new();
    for rank in 0..excess
        invariant
            excess == spec_excess_archives(names@, maximum_backups as int),
            excess <= sorted@.len(),
            sorted@ == spec_archives_by_age(names@),
            forall|r: int| 0 <= r < sorted@.len() ==> #[trigger] sorted@[r] < names@.len(),
            removals@.len() == rank,
            forall|r: int|
                0 <= r < rank ==> #[trigger] removals@[r] == names@[sorted@[r] as int],
    {
        let position = sorted[rank];
        removals.push(names[position].clone());
    }
    removals
}

/// The archive file names among the first `i` directory entries, in listing
/// order.
pub open spec fn spec_archive_names(names: Seq<String>, i: int) -> Seq<String>
    decreases i,
{
    if i <= 0 {
        Seq::empty()
    } else {
        let rest = spec_archive_names(names, i - 1);
        if spec_is_zip_file_name(names[i - 1]@) {
            rest.push(names[i - 1])
        } else {
            rest
        }
    }
}


/// The archive file names are the names at the archive positions.
pub proof fn lemma_archive_names_at_positions(names: Seq<String>, i: int)
    requires
        0 <= i <= names.len() <= usize::MAX,
    ensures
        spec_archive_names(names, i).len() == spec_archive_positions(names, i).len(),
        forall|r: int|
            0 <= r < spec_archive_names(names, i).len() ==> #[trigger] spec_archive_names(
                names,
                i,
            )[r] == names[spec_archive_positions(names, i)[r] as int],
    decreases i,
{
    if i > 0 {
        lemma_archive_names_at_positions(names, i - 1);
        lemma_archive_positions_in_bounds(names, i);
        let prev_names = spec_archive_names(names, i - 1);
        let cur_names = spec_archive_names(names, i);
        let prev_positions = spec_archive_positions(names, i - 1);
        let cur_positions = spec_archive_positions(names, i);
        assert forall|r: int| 0 <= r < cur_names.len() implies #[trigger] cur_names[r]
            == names[cur_positions[r] as int] by {
            if r < prev_names.len() {
                assert(cur_names[r] == prev_names[r]);
                assert(cur_positions[r] == prev_positions[r]);
            } else {
                assert(cur_names[r] == names[i - 1]);
                assert(cur_positions[r] == (i - 1) as usize);
            }
        }
    }
}

/// Whether the archive names strictly grow along the listing: the listing
/// holds its archives in creation order, oldest first, as a directory of
/// epoch-named archives listed in name order does.
pub open spec fn spec_listing_in_creation_order(names: Seq<String>) -> bool {
    forall|r: int, s: int|
        0 <= r < s < spec_archive_positions(names, names.len() as int).len() ==> lex_lt(
            names[#[trigger] spec_archive_positions(names, names.len() as int)[r] as int]@,
            names[#[trigger] spec_archive_positions(names, names.len() as int)[s] as int]@,
        )
}

/// On a listing that holds its archives in creation order, age order is
/// listing order: the pruner's oldest-first selection is the front of the
/// listing.
pub proof fn lemma_ordered_listing_sorts_identically(names: Seq<String>)
    requires
        names.len() <= usize::MAX,
        spec_listing_in_creation_order(names),
    ensures
        spec_archives_by_age(names) == spec_archive_positions(names, names.len() as int),
{
    let positions = spec_archive_positions(names, names.len() as int);
    let order = listing_order(names);
    lemma_listing_order_total(names);
    assert(sorted_by(positions, order)) by {
        assert forall|r: int, s: int| 0 <= r < s < positions.len() implies order(
            positions[r],
            positions[s],
        ) by {
            assert(lex_lt(names[positions[r] as int]@, names[positions[s] as int]@));
        }
    }
    positions.lemma_sort_by_ensures(order);
    lemma_sorted_unique(positions.sort_by(order), positions, order);
}

/// One step of the backup directory's life: an archive appears, newest last,
/// or the pruner runs.
pub enum RetentionOp {
    /// An archive with the given file name is created, behind all others.
    Create(Seq<char>),
    /// The pruner removes everything but the newest `maximum` archives.
    Clean,
}

/// The directory after one prune: the newest `maximum` archives stay (the
/// directory lists archives oldest to newest).
pub open spec fn spec_prune(directory: Seq<Seq<char>>, maximum: int) -> Seq<Seq<char>> {
    if directory.len() <= maximum {
        directory
    } else {
        directory.subrange(directory.len() - maximum, directory.len() as int)
    }
}

/// The directory after one lifecycle step.
pub open spec fn spec_apply_op(directory: Seq<Seq<char>>, op: RetentionOp, maximum: int) -> Seq<
    Seq<char>,
> {
    match op {
        RetentionOp::Create(name) => directory.push(name),
        RetentionOp::Clean => spec_prune(directory, maximum),
    }
}

/// The directory after a whole run of lifecycle steps.
pub open spec fn spec_run_ops(
    directory: Seq<Seq<char>>,
    ops: Seq<RetentionOp>,
    maximum: int,
) -> Seq<Seq<char>>
    decreases ops.len(),
{
    if ops.len() == 0 {
        directory
    } else {
        spec_run_ops(spec_apply_op(directory, ops[0], maximum), ops.drop_first(), maximum)
    }
}

/// The names of all archives a run creates, in creation order.
pub open spec fn spec_created_names(ops: Seq<RetentionOp>) -> Seq<Seq<char>>
    decreases ops.len(),
{
    if ops.len() == 0 {
        Seq::empty()
    } else {
        let rest = spec_created_names(ops.drop_first());
        match ops[0] {
            RetentionOp::Create(name) => seq![name] + rest,
            RetentionOp::Clean => rest,
        }
    }
}

proof fn lemma_retention_run(
    directory: Seq<Seq<char>>,
    created: Seq<Seq<char>>,
    ops: Seq<RetentionOp>,
    maximum: int,
)
    requires
        maximum >= 0,
        directory.len() <= created.len(),
        directory == created.subrange(created.len() - directory.len(), created.len() as int),
        directory.len() >= created.len() || directory.len() >= maximum,
    ensures
        ({
            let all = created + spec_created_names(ops);
            let fin = spec_run_ops(directory, ops, maximum);
            &&& fin.len() <= all.len()
            &&& fin == all.subrange(all.len() - fin.len(), all.len() as int)
            &&& fin.len() >= all.len() || fin.len() >= maximum
            &&& (ops.len() > 0 && ops.last() is Clean ==> fin.len() == if all.len() <= maximum {
                all.len() as int
            } else {
                maximum
            })
        }),
    decreases ops.len(),
{
    let all = created + spec_created_names(ops);
    if ops.len() == 0 {
        assert(all =~= created);
        assert(spec_run_ops(directory, ops, maximum) == directory);
    } else {
        let rest = ops.drop_first();
        match ops[0] {
            RetentionOp::Create(name) => {
                let directory2 = directory.push(name);
                let created2 = created.push(name);
                assert(directory2 =~= created2.subrange(
                    created2.len() - directory2.len(),
                    created2.len() as int,
                ));
                lemma_retention_run(directory2, created2, rest, maximum);
                assert(created2 + spec_created_names(rest) =~= all);
                if rest.len() > 0 {
                    assert(ops.last() == rest.last());
                }
            },
            RetentionOp::Clean => {
                let directory2 = spec_prune(directory, maximum);
                assert(directory2 =~= created.subrange(
                    created.len() - directory2.len(),
                    created.len() as int,
                ));
                lemma_retention_run(directory2, created, rest, maximum);
                assert(created + spec_created_names(rest) =~= all);
                if rest.len() > 0 {
                    assert(ops.last() == rest.last());
                }
            },
        }
    }
}

/// Retention invariant: start from an empty backup directory, create archives
/// (each behind all before it) and prune in any interleaving that ends with a
/// prune.  Afterwards the directory holds exactly
/// `min(total created, maximum)` archives, and they are exactly the most
/// recently created ones.
pub proof fn lemma_retention_invariant(ops: Seq<RetentionOp>, maximum: int)
    requires
        maximum >= 0,
        ops.len() > 0,
        ops.last() is Clean,
    ensures
        ({
            let all = spec_created_names(ops);
            let fin = spec_run_ops(Seq::empty(), ops, maximum);
            &&& fin.len() == if all.len() <= maximum {
                all.len() as int
            } else {
                maximum
            }
            &&& fin == all.subrange(all.len() - fin.len(), all.len() as int)
        }),
{
    assert(Seq::<Seq<char>>::empty() =~= Seq::<Seq<char>>::empty().subrange(0, 0));
    lemma_retention_run(Seq::empty(), Seq::empty(), ops, maximum);
    assert(Seq::<Seq<char>>::empty() + spec_created_names(ops) =~= spec_created_names(ops));
}

/// Pruning realizes the model: on a listing that holds its archives in
/// creation order, the selected removals are exactly the first excess
/// archives, and the archives that stay are exactly the model's prune of the
/// archive names — the newest `maximum` of them.
pub proof fn lemma_removals_realize_prune(names: Seq<String>, maximum: int)
    requires
        0 <= maximum,
        names.len() <= usize::MAX,
        spec_listing_in_creation_order(names),
    ensures
        ({
            let archives = spec_archive_names(names, names.len() as int).map_values(
                |name: String| name@,
            );
            let excess = spec_excess_archives(names, maximum);
            &&& (forall|r: int|
                0 <= r < excess ==> names[#[trigger] spec_archives_by_age(names)[r] as int]@
                    == archives[r])
            &&& archives.skip(excess) == spec_prune(archives, maximum)
        }),
{
    let archives = spec_archive_names(names, names.len() as int).map_values(
        |name: String| name@,
    );
    let excess = spec_excess_archives(names, maximum);
    lemma_ordered_listing_sorts_identically(names);
    lemma_archive_names_at_positions(names, names.len() as int);
    assert forall|r: int|
        0 <= r < excess implies names[#[trigger] spec_archives_by_age(names)[r] as int]@
        == archives[r] by {
        assert(spec_archives_by_age(names)[r] == spec_archive_positions(
            names,
            names.len() as int,
        )[r]);
    }
    if archives.len() <= maximum {
        assert(archives.skip(0) =~= archives);
    } else {
        assert(archives.skip(excess) =~= archives.subrange(
            archives.len() - maximum,
            archives.len() as int,
        ));
    }
}

/// The backup archives among the directory entries `names`, in listing order.
pub fn current_backups(names: &Vec<String>) -> (backups: Vec<String>)
    ensures
        backups@ == spec_archive_names(names@, names@.len() as int),
{
    let mut backups: Vec<String> = Vec::new();
    let count = names.len();
    for index in 0..count
        invariant
            count == names@.len(),
            backups@ == spec_archive_names(names@, index as int),
    {
        if is_zip_file_name(names[index].as_str()) {
            backups.push(names[index].clone());
        }
    }
    backups
}

} // verus!
