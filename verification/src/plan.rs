use crate::migrations::{ascending, first_pending, lemma_first_pending, Entry, Migrations};
use vstd::prelude::*;

verus! {

/// A run of pending migrations that are applied together: either migrations
/// that share one transaction, or a single migration that runs outside any.
/// Once every migration in `first..end` has succeeded, `version` is recorded
/// as the database's schema version.
#[derive(Clone, Copy, Debug, PartialEq, Eq, Structural)]
pub struct Batch {
    /// Index of the first migration of the batch.
    pub first: usize,
    /// Index one past its last migration.
    pub end: usize,
    /// Whether the batch runs inside a transaction.
    pub transactional: bool,
    /// The version of its last migration.
    pub version: i32,
}

/// A batch as a mathematical value.
pub struct BatchView {
    pub first: int,
    pub end: int,
    pub transactional: bool,
    pub version: i32,
}

impl View for Batch {
    type V = BatchView;

    open spec fn view(&self) -> BatchView {
        BatchView {
            first: self.first as int,
            end: self.end as int,
            transactional: self.transactional,
            version: self.version,
        }
    }
}

impl Batch {
    /// The batch with this view.
    pub open spec fn of(view: BatchView) -> Batch {
        Batch {
            first: view.first as usize,
            end: view.end as usize,
            transactional: view.transactional,
            version: view.version,
        }
    }
}

/// One past the last migration of the unbroken run of transactional
/// migrations that begins at `from` (`from` itself, if none begins there).
pub open spec fn run_end(s: Seq<Entry>, from: int) -> int
    decreases s.len() - from,
{
    if 0 <= from < s.len() && s[from].transactional {
        run_end(s, from + 1)
    } else {
        from
    }
}

/// One past the last migration of the batch that begins at `from`.
pub open spec fn batch_end(s: Seq<Entry>, from: int) -> int {
    if s[from].transactional {
        run_end(s, from)
    } else {
        from + 1
    }
}

/// The batch that begins at `from`.
pub open spec fn batch_at(s: Seq<Entry>, from: int) -> BatchView {
    let end = batch_end(s, from);
    BatchView {
        first: from,
        end,
        transactional: s[from].transactional,
        version: s[end - 1].version,
    }
}

/// The run that begins at `from` ends inside the sequence, holds transactional
/// migrations only, and is not followed by another.
pub proof fn lemma_run_end(s: Seq<Entry>, from: int)
    requires
        0 <= from <= s.len(),
    ensures
        from <= run_end(s, from) <= s.len(),
        forall|i: int| from <= i < run_end(s, from) ==> s[i].transactional,
        run_end(s, from) < s.len() ==> !s[run_end(s, from)].transactional,
        from < s.len() && s[from].transactional ==> from < run_end(s, from),
    decreases s.len() - from,
{
    if from < s.len() && s[from].transactional {
        lemma_run_end(s, from + 1);
    }
}

/// The batches into which the migrations from index `from` on fall.
pub open spec fn batches_from(s: Seq<Entry>, from: int) -> Seq<BatchView>
    decreases s.len() - from,
{
    if 0 <= from < s.len() {
        proof {
            lemma_run_end(s, from);
        }
        seq![batch_at(s, from)] + batches_from(s, batch_end(s, from))
    } else {
        Seq::empty()
    }
}

/// The batches that bring a database at schema version `user_version` up to
/// date: those of the migrations whose version exceeds it.
pub open spec fn plan_spec(s: Seq<Entry>, user_version: int) -> Seq<BatchView> {
    batches_from(s, first_pending(s, user_version))
}

/// That `batch` is a batch of the migrations `s`: it holds at least one
/// migration, all of its migrations are of its kind, a batch outside a
/// transaction holds one migration only, and its version is that of its last
/// migration.
pub open spec fn is_batch(s: Seq<Entry>, batch: BatchView) -> bool {
    &&& 0 <= batch.first < batch.end <= s.len()
    &&& forall|i: int| batch.first <= i < batch.end ==> s[i].transactional == batch.transactional
    &&& !batch.transactional ==> batch.end == batch.first + 1
    &&& batch.version == s[batch.end - 1].version
}

/// That `batches` cut the migrations from index `from` on into batches: each
/// begins where the one before it ends, the first at `from`, the last ends
/// with the last migration, and no two transactional batches stand next to
/// each other.
pub open spec fn cuts(s: Seq<Entry>, from: int, batches: Seq<BatchView>) -> bool {
    &&& forall|j: int| 0 <= j < batches.len() ==> is_batch(s, #[trigger] batches[j])
    &&& forall|j: int|
        0 <= j < batches.len() ==> (#[trigger] batches[j]).first == if j == 0 {
            from
        } else {
            batches[j - 1].end
        }
    &&& s.len() == if batches.len() == 0 {
        from
    } else {
        batches.last().end
    }
    &&& forall|j: int|
        0 < j < batches.len() ==> !(batches[j - 1].transactional && (
        #[trigger] batches[j]).transactional)
}

/// The batches from index `from` on cut the migrations from there on.
pub proof fn lemma_batches_cut(s: Seq<Entry>, from: int)
    requires
        0 <= from <= s.len(),
    ensures
        cuts(s, from, batches_from(s, from)),
    decreases s.len() - from,
{
    if from < s.len() {
        lemma_run_end(s, from);
        let first = batch_at(s, from);
        let next = batch_end(s, from);
        let rest = batches_from(s, next);
        lemma_batches_cut(s, next);
        let all = batches_from(s, from);
        assert(all == seq![first] + rest);
        assert(is_batch(s, first));
        assert forall|j: int| 0 <= j < all.len() implies is_batch(s, #[trigger] all[j]) by {
            if j > 0 {
                assert(all[j] == rest[j - 1]);
            }
        }
        assert forall|j: int| 0 <= j < all.len() implies (#[trigger] all[j]).first == if j == 0 {
            from
        } else {
            all[j - 1].end
        } by {
            if j > 0 {
                assert(all[j] == rest[j - 1]);
                if j > 1 {
                    assert(all[j - 1] == rest[j - 2]);
                }
            }
        }
        assert forall|j: int| 0 < j < all.len() implies !(all[j - 1].transactional && (
        #[trigger] all[j]).transactional) by {
            assert(all[j] == rest[j - 1]);
            if j > 1 {
                assert(all[j - 1] == rest[j - 2]);
            } else {
                assert(rest[0].first == next);
                assert(is_batch(s, rest[0]));
            }
        }
        if rest.len() > 0 {
            assert(all.last() == rest.last());
        }
    }
}

/// A run of transactional migrations that begins at `from` reaches to every
/// index up to which all migrations are transactional.
pub proof fn lemma_run_reaches(s: Seq<Entry>, from: int, end: int)
    requires
        0 <= from <= end <= s.len(),
        forall|i: int| from <= i < end ==> s[i].transactional,
    ensures
        end <= run_end(s, from),
    decreases end - from,
{
    if from < end {
        lemma_run_reaches(s, from + 1, end);
    } else {
        lemma_run_end(s, from);
    }
}

/// There is one way only to cut the migrations from index `from` on into
/// batches.
pub proof fn lemma_cut_is_unique(s: Seq<Entry>, from: int, batches: Seq<BatchView>)
    requires
        0 <= from <= s.len(),
        cuts(s, from, batches),
    ensures
        batches == batches_from(s, from),
    decreases s.len() - from,
{
    if batches.len() == 0 {
        assert(batches =~= batches_from(s, from));
    } else {
        let first = batches[0];
        assert(is_batch(s, first));
        lemma_run_end(s, from);
        assert(first.end == batch_end(s, from)) by {
            if first.transactional {
                lemma_run_reaches(s, from, first.end);
                if first.end < run_end(s, from) {
                    assert(s[first.end].transactional);
                    assert(batches.last().end == s.len());
                    assert(batches.len() > 1);
                    assert(batches[1].first == first.end);
                    assert(is_batch(s, batches[1]));
                    assert(!(batches[0].transactional && batches[1].transactional));
                }
            }
        }
        assert(first == batch_at(s, from));
        let rest = batches.drop_first();
        assert(cuts(s, first.end, rest)) by {
            assert forall|j: int| 0 <= j < rest.len() implies is_batch(s, #[trigger] rest[j]) by {
                assert(rest[j] == batches[j + 1]);
            }
            assert forall|j: int| 0 <= j < rest.len() implies (#[trigger] rest[j]).first == if j
                == 0 {
                first.end
            } else {
                rest[j - 1].end
            } by {
                assert(rest[j] == batches[j + 1]);
                if j > 0 {
                    assert(rest[j - 1] == batches[j]);
                }
            }
            assert forall|j: int| 0 < j < rest.len() implies !(rest[j - 1].transactional && (
            #[trigger] rest[j]).transactional) by {
                assert(rest[j] == batches[j + 1]);
                assert(rest[j - 1] == batches[j]);
            }
            if rest.len() > 0 {
                assert(rest.last() == batches.last());
            }
        }
        lemma_cut_is_unique(s, first.end, rest);
        assert(batches =~= seq![first] + rest);
    }
}

/// A plan cuts the pending migrations into batches, and is the one way to
/// do so.
pub proof fn law_plan_cuts_pending(s: Seq<Entry>, user_version: int)
    requires
        ascending(s),
    ensures
        cuts(s, first_pending(s, user_version), plan_spec(s, user_version)),
        forall|batches: Seq<BatchView>|
            cuts(s, first_pending(s, user_version), batches) ==> batches == plan_spec(
                s,
                user_version,
            ),
{
    lemma_first_pending(s, user_version);
    let from = first_pending(s, user_version);
    lemma_batches_cut(s, from);
    assert forall|batches: Seq<BatchView>| cuts(s, from, batches) implies batches == plan_spec(
        s,
        user_version,
    ) by {
        lemma_cut_is_unique(s, from, batches);
    }
}

/// The batch that begins with the migration at index `from`: that migration
/// alone if it runs outside a transaction, and else the unbroken run of
/// transactional migrations that it begins.
pub fn next_batch<E>(migrations: &Migrations<E>, from: usize) -> (batch: Batch)
    requires
        from < migrations@.len(),
    ensures
        batch@ == batch_at(migrations@, from as int),
        batch == Batch::of(batch_at(migrations@, from as int)),
        is_batch(migrations@, batch@),
{
    let n = migrations.len();
    let transactional = migrations.is_transactional(from);
    let mut end = from + 1;
    if transactional {
        while end < n && migrations.is_transactional(end)
            invariant
                n == migrations@.len(),
                from < end <= n,
                run_end(migrations@, end as int) == run_end(migrations@, from as int),
            decreases n - end,
        {
            end = end + 1;
        }
    }
    proof {
        lemma_run_end(migrations@, from as int);
    }
    Batch { first: from, end, transactional, version: migrations.version(end - 1) }
}

} // verus!
