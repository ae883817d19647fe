use vstd::prelude::*;

verus! {

/// A migration procedure: code that changes a database through an open
/// connection and reports whether it succeeded.
///
/// Every `Fn(&rusqlite::Connection) -> Result<(), E>` that is `Send` is one.
pub trait MigrationFn<E>: Send {
    /// Whether the procedure may be called on `conn`.
    spec fn callable(&self, conn: &rusqlite::Connection) -> bool;

    /// Whether `result` is something the procedure may return when called on `conn`.
    spec fn may_return(&self, conn: &rusqlite::Connection, result: Result<(), E>) -> bool;

    /// Runs the procedure against `conn`.
    fn apply(&self, conn: &rusqlite::Connection) -> (result: Result<(), E>)
        requires
            self.callable(conn),
        ensures
            self.may_return(conn, result),
    ;
}

impl<E, F> MigrationFn<E> for F where F: Fn(&rusqlite::Connection) -> Result<(), E> + Send {
    open spec fn callable(&self, conn: &rusqlite::Connection) -> bool {
        call_requires(*self, (conn,))
    }

    open spec fn may_return(&self, conn: &rusqlite::Connection, result: Result<(), E>) -> bool {
        call_ensures(*self, (conn,), result)
    }

    fn apply(&self, conn: &rusqlite::Connection) -> (result: Result<(), E>) {
        self(conn)
    }
}

/// What the setup protocol reads of a registered migration: the schema version
/// it brings the database to, and whether it runs inside the shared transaction.
#[derive(Clone, Copy, Debug, PartialEq, Eq, Structural)]
pub struct Entry {
    pub version: i32,
    pub transactional: bool,
}

/// Versions never decrease along the sequence.
pub open spec fn ascending(s: Seq<Entry>) -> bool {
    forall|i: int, j: int| 0 <= i <= j < s.len() ==> s[i].version <= s[j].version
}

/// Every version is greater than zero.
pub open spec fn positive(s: Seq<Entry>) -> bool {
    forall|i: int| 0 <= i < s.len() ==> s[i].version > 0
}

/// The highest version in an ascending sequence, and 0 for the empty one.
pub open spec fn latest(s: Seq<Entry>) -> int {
    if s.len() == 0 {
        0
    } else {
        s.last().version as int
    }
}

/// The first index at or after `from` whose version exceeds `version`
/// (the length, if there is none).
pub open spec fn skip_applied(s: Seq<Entry>, version: int, from: int) -> int
    decreases s.len() - from,
{
    if 0 <= from < s.len() && s[from].version <= version {
        skip_applied(s, version, from + 1)
    } else {
        from
    }
}

/// The index of the first migration that a database at `version` still lacks.
pub open spec fn first_pending(s: Seq<Entry>, version: int) -> int {
    skip_applied(s, version, 0)
}

/// `skip_applied` stops inside the sequence, past entries at or below `version`
/// only, and at an entry above it.
pub proof fn lemma_skip_applied(s: Seq<Entry>, version: int, from: int)
    requires
        0 <= from <= s.len(),
    ensures
        from <= skip_applied(s, version, from) <= s.len(),
        forall|i: int| from <= i < skip_applied(s, version, from) ==> s[i].version <= version,
        skip_applied(s, version, from) < s.len() ==> s[skip_applied(s, version, from)].version
            > version,
    decreases s.len() - from,
{
    if from < s.len() && s[from].version <= version {
        lemma_skip_applied(s, version, from + 1);
    }
}

/// In an ascending sequence `first_pending` is the one place that parts the
/// versions at or below `version` from those above it.
pub proof fn lemma_first_pending(s: Seq<Entry>, version: int)
    requires
        ascending(s),
    ensures
        0 <= first_pending(s, version) <= s.len(),
        forall|i: int| 0 <= i < first_pending(s, version) ==> s[i].version <= version,
        forall|i: int| first_pending(s, version) <= i < s.len() ==> s[i].version > version,
{
    lemma_skip_applied(s, version, 0);
}

/// Any index that parts an ascending sequence at `version` is `first_pending`.
pub proof fn lemma_first_pending_unique(s: Seq<Entry>, version: int, k: int)
    requires
        0 <= k <= s.len(),
        forall|i: int| 0 <= i < k ==> s[i].version <= version,
        forall|i: int| k <= i < s.len() ==> s[i].version > version,
    ensures
        first_pending(s, version) == k,
{
    lemma_skip_applied(s, version, 0);
    let p = first_pending(s, version);
    if p < k {
        assert(s[p].version > version);
    } else if p > k {
        assert(s[k].version <= version);
    }
}

/// One registered migration.
#[verifier::reject_recursive_types(E)]
struct Migration<E> {
    version: i32,
    perform_in_transaction: bool,
    migration: Box<dyn MigrationFn<E>>,
}

impl<E> Migration<E> {
    spec fn entry(self) -> Entry {
        Entry { version: self.version, transactional: self.perform_in_transaction }
    }
}

/// The entries of a sequence of migrations, in the same order.
spec fn entries<E>(migrations: Seq<Migration<E>>) -> Seq<Entry> {
    Seq::new(migrations.len(), |i: int| migrations[i].entry())
}

/// That every procedure in the sequence may be called on every connection.
spec fn all_callable<E>(migrations: Seq<Migration<E>>) -> bool {
    forall|i: int, conn: &rusqlite::Connection|
        0 <= i < migrations.len() ==> #[trigger] migrations[i].migration.callable(conn)
}

/// Putting a migration in at `first_pending` of its version keeps the
/// sequence ascending, positive and callable.
proof fn lemma_insert_keeps_order<E>(migrations: Seq<Migration<E>>, new: Migration<E>)
    requires
        ascending(entries(migrations)),
        positive(entries(migrations)),
        all_callable(migrations),
        new.version > 0,
        forall|conn: &rusqlite::Connection| new.migration.callable(conn),
    ensures
        ({
            let at = first_pending(entries(migrations), new.version as int);
            let after = migrations.insert(at, new);
            &&& 0 <= at <= migrations.len()
            &&& entries(after) == entries(migrations).insert(at, new.entry())
            &&& ascending(entries(after))
            &&& positive(entries(after))
            &&& all_callable(after)
        }),
{
    let before = entries(migrations);
    lemma_first_pending(before, new.version as int);
    let at = first_pending(before, new.version as int);
    let after = migrations.insert(at, new);
    assert(entries(after) =~= before.insert(at, new.entry()));
    assert forall|i: int, j: int| 0 <= i <= j < entries(after).len() implies entries(after)[i].version
        <= entries(after)[j].version by {
        if j < at {
            assert(entries(after)[i] == before[i] && entries(after)[j] == before[j]);
        } else if j == at {
            if i < at {
                assert(entries(after)[i] == before[i]);
            }
        } else {
            assert(entries(after)[j] == before[j - 1]);
            if i < at {
                assert(entries(after)[i] == before[i]);
            } else if i > at {
                assert(entries(after)[i] == before[i - 1]);
            }
        }
    }
    assert forall|i: int| 0 <= i < entries(after).len() implies entries(after)[i].version > 0 by {
        if i < at {
            assert(entries(after)[i] == before[i]);
        } else if i > at {
            assert(entries(after)[i] == before[i - 1]);
        }
    }
    assert forall|i: int, conn: &rusqlite::Connection| 0 <= i < after.len() implies (
    #[trigger] after[i].migration.callable(conn)) by {
        if i < at {
            assert(after[i] == migrations[i]);
        } else if i > at {
            assert(after[i] == migrations[i - 1]);
        }
    }
}

/// A set of migrations to apply to an SQLite database, kept in the order in
/// which they run: lowest version first, and among equal versions the one
/// registered first.
#[verifier::reject_recursive_types(E)]
pub struct Migrations<E = rusqlite::Error> {
    migrations: Vec<Migration<E>>,
}

impl<E> View for Migrations<E> {
    type V = Seq<Entry>;

    closed spec fn view(&self) -> Seq<Entry> {
        entries(self.migrations@)
    }
}

impl<E> Migrations<E> {
    #[verifier::type_invariant]
    spec fn valid(self) -> bool {
        &&& ascending(self@)
        &&& positive(self@)
        &&& all_callable(self.migrations@)
    }

    /// The procedure of the migration at index `i`.
    pub closed spec fn procedure(self, i: int) -> Box<dyn MigrationFn<E>> {
        self.migrations@[i].migration
    }

    /// The migrations are held in memory, so that they can be counted.
    pub proof fn lemma_len_fits(self)
        ensures
            self@.len() <= usize::MAX,
    {
        assert(self.migrations.len() == self.migrations@.len());
    }

    /// Construct a new, empty set of migrations.
    pub fn new() -> (r: Self)
        ensures
            r@ == Seq::<Entry>::empty(),
    {
        let r = Migrations { migrations: Vec::new() };
        assert(r@ =~= Seq::<Entry>::empty());
        r
    }

    /// How many migrations are registered.
    pub fn len(&self) -> (n: usize)
        ensures
            n == self@.len(),
    {
        self.migrations.len()
    }

    /// The version of the migration at index `i`.
    pub fn version(&self, i: usize) -> (v: i32)
        requires
            i < self@.len(),
        ensures
            v == self@[i as int].version,
    {
        self.migrations[i].version
    }

    /// Whether the migration at index `i` runs inside the shared transaction.
    pub fn is_transactional(&self, i: usize) -> (b: bool)
        requires
            i < self@.len(),
        ensures
            b == self@[i as int].transactional,
    {
        self.migrations[i].perform_in_transaction
    }

    /// Runs the procedure of the migration at index `i` against `conn`.
    pub fn run(&self, i: usize, conn: &rusqlite::Connection) -> (result: Result<(), E>)
        requires
            i < self@.len(),
        ensures
            self.procedure(i as int).may_return(conn, result),
    {
        proof {
            use_type_invariant(self);
        }
        self.migrations[i].migration.apply(conn)
    }

    /// The migrations in the order in which they run, lowest version first.
    /// The procedure of each is reached through [`Migrations::run()`].
    pub fn entries(&self) -> (items: Vec<Entry>)
        ensures
            items@ == self@,
            ascending(items@),
            positive(items@),
    {
        proof {
            use_type_invariant(self);
        }
        let mut items: Vec<Entry> = Vec::new();
        let mut i: usize = 0;
        while i < self.migrations.len()
            invariant
                i <= self.migrations@.len(),
                items@ == self@.take(i as int),
            decreases self.migrations@.len() - i,
        {
            let m = &self.migrations[i];
            items.push(Entry { version: m.version, transactional: m.perform_in_transaction });
            proof {
                assert(items@ =~= self@.take(i + 1));
            }
            i = i + 1;
        }
        proof {
            assert(self@.take(i as int) =~= self@);
        }
        items
    }

    /// The highest registered version, and 0 where nothing is registered.
    pub fn latest_version(&self) -> (v: i32)
        ensures
            v == latest(self@),
            ascending(self@),
            positive(self@),
    {
        proof {
            use_type_invariant(self);
        }
        let n = self.migrations.len();
        if n == 0 {
            0
        } else {
            self.migrations[n - 1].version
        }
    }

    /// The index of the first migration whose version exceeds `version`: the
    /// first one that a database at that schema version still lacks.
    pub fn first_pending(&self, version: i32) -> (k: usize)
        ensures
            k == first_pending(self@, version as int),
            k <= self@.len(),
            forall|i: int| 0 <= i < k ==> self@[i].version <= version,
            forall|i: int| k <= i < self@.len() ==> self@[i].version > version,
    {
        proof {
            use_type_invariant(self);
            lemma_first_pending(self@, version as int);
        }
        let n = self.migrations.len();
        let mut k: usize = 0;
        while k < n && self.migrations[k].version <= version
            invariant
                n == self.migrations@.len(),
                n == self@.len(),
                k <= n,
                skip_applied(self@, version as int, k as int) == first_pending(
                    self@,
                    version as int,
                ),
            decreases n - k,
        {
            k = k + 1;
        }
        k
    }

    /// Add a migration to the list with an associated version number.
    /// Migrations are run in order from lowest to highest number, and the
    /// schema version is set in the database to record the version it is up
    /// to. Migrations should never be removed or changed once they have been
    /// applied to a database somewhere.
    ///
    /// The version must be greater than 0.
    pub fn add<F>(self, version: i32, migration: F) -> (r: Self) where
        F: Fn(&rusqlite::Connection) -> Result<(), E> + Send + 'static,

        requires
            version > 0,
            forall|conn: &rusqlite::Connection| call_requires(migration, (conn,)),
        ensures
            r.extends(self, version, true),
            ascending(r@),
            positive(r@),
            forall|conn: &rusqlite::Connection, result: Result<(), E>|
                r.procedure(first_pending(self@, version as int)).may_return(conn, result)
                    <==> call_ensures(migration, (conn,), result),
    {
        self.do_add_migration(version, true, migration)
    }

    /// Like [`Migrations::add()`], except the migration will _not_ be performed
    /// inside a transaction. **This can lead to an invalid database state; use
    /// with extreme caution**.
    ///
    /// The expected use case for this is that it will internally begin a
    /// transaction, but may choose to do things like disabling foreign keys
    /// first, which cannot be done inside a transaction.
    pub fn add_non_transactionally<F>(self, version: i32, migration: F) -> (r: Self) where
        F: Fn(&rusqlite::Connection) -> Result<(), E> + Send + 'static,

        requires
            version > 0,
            forall|conn: &rusqlite::Connection| call_requires(migration, (conn,)),
        ensures
            r.extends(self, version, false),
            ascending(r@),
            positive(r@),
            forall|conn: &rusqlite::Connection, result: Result<(), E>|
                r.procedure(first_pending(self@, version as int)).may_return(conn, result)
                    <==> call_ensures(migration, (conn,), result),
    {
        self.do_add_migration(version, false, migration)
    }

    /// That `self` is `before` with one migration more: the new entry stands
    /// behind every entry whose version is not higher than its own, and every
    /// other migration keeps its procedure.
    pub open spec fn extends(self, before: Self, version: i32, transactional: bool) -> bool {
        let at = first_pending(before@, version as int);
        &&& 0 <= at <= before@.len()
        &&& self@ == before@.insert(at, Entry { version, transactional })
        &&& forall|i: int| 0 <= i < at ==> self.procedure(i) == before.procedure(i)
        &&& forall|i: int| at <= i < before@.len() ==> self.procedure(i + 1) == before.procedure(i)
    }

    fn do_add_migration<F>(self, version: i32, perform_in_transaction: bool, migration: F) -> (r:
        Self) where F: Fn(&rusqlite::Connection) -> Result<(), E> + Send + 'static
        requires
            version > 0,
            forall|conn: &rusqlite::Connection| call_requires(migration, (conn,)),
        ensures
            r.extends(self, version, perform_in_transaction),
            ascending(r@),
            positive(r@),
            forall|conn: &rusqlite::Connection, result: Result<(), E>|
                r.procedure(first_pending(self@, version as int)).may_return(conn, result)
                    <==> call_ensures(migration, (conn,), result),
    {
        proof {
            use_type_invariant(&self);
        }
        let at = self.first_pending(version);
        let boxed: Box<dyn MigrationFn<E>> = Box::new(migration);
        let new = Migration { version, perform_in_transaction, migration: boxed };
        let ghost before = self;
        let ghost added = new;
        proof {
            lemma_insert_keeps_order(self.migrations@, new);
        }
        let mut migrations = self.migrations;
        migrations.insert(at, new);
        let r = Migrations { migrations };
        proof {
            use_type_invariant(&r);
            assert(r.migrations@ == before.migrations@.insert(at as int, added));
            before.migrations@.insert_ensures(at as int, added);
        }
        r
    }
}

impl<E> Default for Migrations<E> {
    fn default() -> (r: Self)
        ensures
            r@ == Seq::<Entry>::empty(),
    {
        Migrations::new()
    }
}

} // verus!
