//! Schema synchronization engine.
//!
//! A backend is abstracted by [`SyncSupport`]: the engine can read and write
//! the backend's persisted schema version marker and run raw statements
//! against it. The state the engine may observe or change is captured by the
//! ghost [`BackendModel`]: the marker, the statements that have run
//! successfully (oldest first), and the version values persisted so far.
//!
//! A migration step is a [`Synchronizer`]: a flat batch of statements, a
//! named custom routine run against the shared cross-backend context, or an
//! ordered composition of sub-steps. [`execute`] drives one sync run: it
//! reads the current version and applies exactly the steps needed, persisting
//! the version after each applied step and never speculatively.

use vstd::prelude::*;

use crate::database::error::DatabaseError;
use crate::parse::{parse_u64, spec_parse_u64};

verus! {

/// Interpret a persisted version marker value, which is stored in decimal
/// string form. A value that is present but not parseable as a non-negative
/// integer is fatal for that backend's run — never silently defaulted.
pub fn parse_version(value: &str) -> (r: Result<u64, DatabaseError>)
    ensures
        match spec_parse_u64(value@) {
            Some(v) => r == Ok::<u64, DatabaseError>(v),
            None => r matches Err(DatabaseError::SchemaState(m)) && m@
                == "invalid schema version: "@ + value@,
        },
{
    match parse_u64(value) {
        Some(v) => Ok(v),
        None => Err(
            DatabaseError::SchemaState("invalid schema version: ".to_owned().concat(value)),
        ),
    }
}

/// Outcome of one synchronization action.
pub type SyncResponse = Result<(), DatabaseError>;

/// Ghost abstraction of everything the engine may observe of one backend,
/// as seen through the operations of [`SyncSupport`].
#[verifier::ext_equal]
pub ghost struct BackendModel {
    /// The persisted schema version marker; `None` while the backend has
    /// never been initialized. Only `set_schema_version` changes it.
    pub version: Option<u64>,
    /// Statements that have run successfully against the backend, oldest
    /// first.
    pub executed: Seq<Seq<char>>,
    /// Version values persisted into the marker, oldest first.
    pub version_writes: Seq<u64>,
}

/// Handle naming one custom synchronization routine. The shared context
/// invokes the routine registered under this identifier.
#[derive(Clone, Copy, Debug, PartialEq, Eq, Structural)]
pub struct SyncFn {
    pub id: u64,
}

impl SyncFn {
    pub fn new(id: u64) -> (r: Self)
        ensures
            r.id == id,
    {
        SyncFn { id }
    }
}

/// The narrow interface a storage backend implements so the engine can read
/// and write its version marker and run raw statements.
pub trait SyncSupport: Sized {
    /// Ghost view of the backend state the engine depends on. An
    /// implementation outside the library leaves the default, an arbitrary
    /// model: nothing is then proved about it, and nothing checks that it
    /// meets these contracts.
    open spec fn model(&self) -> BackendModel {
        arbitrary()
    }

    /// Identifies the backend, for log lines only.
    fn name(&self) -> String;

    /// Read the persisted version marker. An absent marker is not an error:
    /// a backend that was never initialized reports `Ok(None)`.
    fn schema_version(&self) -> (r: Result<Option<u64>, DatabaseError>)
        ensures
            r is Ok ==> r->Ok_0 == self.model().version,
    ;

    /// Upsert the version marker: insert if absent, else update.
    fn set_schema_version(&mut self, version: u64) -> (r: SyncResponse)
        ensures
            final(self).model().executed == old(self).model().executed,
            r is Ok ==> final(self).model().version == Some(version)
                && final(self).model().version_writes == old(self).model().version_writes.push(
                version,
            ),
            r is Err ==> final(self).model() == old(self).model(),
    ;

    /// Run one raw statement. Failures surface verbatim; no retry here, and
    /// the version marker is never touched.
    fn execute(&mut self, query: &str) -> (r: SyncResponse)
        ensures
            final(self).model().version == old(self).model().version,
            final(self).model().version_writes == old(self).model().version_writes,
            r is Ok ==> final(self).model().executed == old(self).model().executed.push(query@),
            r is Err ==> final(self).model().executed == old(self).model().executed,
    ;
}

/// The shared cross-backend context handed to custom steps, so a migration
/// can, for example, read from one backend while writing to another.
pub trait SyncContext: Sized {
    /// Identifiers of the custom routines invoked so far, oldest first. An
    /// implementation outside the library leaves the default, an arbitrary
    /// log.
    open spec fn customs(&self) -> Seq<u64> {
        arbitrary()
    }

    /// Invoke the custom routine named by `function` and report its outcome.
    /// The invocation is recorded whatever the outcome.
    fn run_custom(&mut self, function: &SyncFn) -> (r: SyncResponse)
        ensures
            final(self).customs() == old(self).customs().push(function.id),
    ;
}

/// Bookkeeping that would let a failed run resume; not yet carried by any
/// step.
pub struct SyncState;

/// One unit of schema change.
#[derive(Debug)]
pub enum Synchronizer {
    /// A flat batch of raw statements, executed as a unit.
    Simple(Vec<String>),
    /// A custom routine run against the shared context, for changes that
    /// cannot be expressed as flat statements.
    Custom(SyncFn),
    /// Composition: sub-steps applied strictly in order, stopping at the
    /// first failure.
    Mixed(Vec<Synchronizer>),
}

/// Within a `Simple` step, statements are processed in groups of this size;
/// a group must finish before the next begins.
pub const QUERY_BATCH_SIZE: usize = 10;

/// The statements a step runs when it succeeds, in order.
pub open spec fn step_stmts(s: Synchronizer) -> Seq<Seq<char>>
    decreases s,
{
    match s {
        Synchronizer::Simple(qs) => qs.deep_view(),
        Synchronizer::Custom(_) => Seq::empty(),
        Synchronizer::Mixed(ss) => steps_stmts(ss@),
    }
}

/// The statements a sequence of steps runs when all succeed, in order.
pub open spec fn steps_stmts(ss: Seq<Synchronizer>) -> Seq<Seq<char>>
    decreases ss,
{
    if ss.len() == 0 {
        Seq::empty()
    } else {
        step_stmts(ss[0]) + steps_stmts(ss.drop_first())
    }
}

/// The custom routines a step invokes when it succeeds, in order.
pub open spec fn step_customs(s: Synchronizer) -> Seq<u64>
    decreases s,
{
    match s {
        Synchronizer::Simple(_) => Seq::empty(),
        Synchronizer::Custom(f) => seq![f.id],
        Synchronizer::Mixed(ss) => steps_customs(ss@),
    }
}

/// The custom routines a sequence of steps invokes when all succeed.
pub open spec fn steps_customs(ss: Seq<Synchronizer>) -> Seq<u64>
    decreases ss,
{
    if ss.len() == 0 {
        Seq::empty()
    } else {
        step_customs(ss[0]) + steps_customs(ss.drop_first())
    }
}

/// What a failed run of step `s` leaves behind, relating the backend model
/// and custom log before (`db0`, `cs0`) and after (`db1`, `cs1`) the run,
/// with `e` the error the run surfaced.
///
/// The marker is never touched by a step. A failed `Simple` run executed a
/// strict prefix of its statements; a failed `Custom` run was invoked but
/// changed nothing in the backend; a failed `Mixed` run completed every
/// sub-step before the failing one, failed inside that sub-step, and never
/// invoked the sub-steps after it — the failing sub-run's error `e` is the
/// error of the whole.
pub open spec fn step_err(
    s: Synchronizer,
    db0: BackendModel,
    db1: BackendModel,
    cs0: Seq<u64>,
    cs1: Seq<u64>,
    e: DatabaseError,
) -> bool
    decreases s,
{
    &&& db1.version == db0.version
    &&& db1.version_writes == db0.version_writes
    &&& match s {
        Synchronizer::Simple(qs) => cs1 == cs0 && exists|k: int|
            0 <= k < qs.deep_view().len() && db1.executed == db0.executed + qs.deep_view().take(k),
        Synchronizer::Custom(f) => db1.executed == db0.executed && cs1 == cs0.push(f.id),
        Synchronizer::Mixed(ss) => exists|j: int|
            0 <= j < ss@.len() && step_err(
                ss@[j],
                BackendModel { executed: db0.executed + steps_stmts(ss@.take(j)), ..db0 },
                db1,
                cs0 + steps_customs(ss@.take(j)),
                cs1,
                e,
            ),
    }
}

impl Synchronizer {
    /// Apply this step: run its statements against `database` (in groups of
    /// [`QUERY_BATCH_SIZE`]), its custom routines against `bundle`, its
    /// sub-steps in order, stopping at the first failure.
    ///
    /// The step never reads or writes the version marker; that is the
    /// engine's responsibility. On success exactly the step's statements and
    /// custom routines have run, in order; on failure the run stopped at the
    /// failure point and [`step_err`] relates old and new state.
    pub fn execute<C: SyncContext, T: SyncSupport>(
        &self,
        bundle: &mut C,
        database: &mut T,
        _state: Option<SyncState>,
    ) -> (r: SyncResponse)
        ensures
            final(database).model().version == old(database).model().version,
            final(database).model().version_writes == old(database).model().version_writes,
            r is Ok ==> final(database).model().executed == old(database).model().executed
                + step_stmts(*self) && final(bundle).customs() == old(bundle).customs()
                + step_customs(*self),
            r is Err ==> step_err(
                *self,
                old(database).model(),
                final(database).model(),
                old(bundle).customs(),
                final(bundle).customs(),
                r->Err_0,
            ),
        decreases *self,
    {
        match self {
            Synchronizer::Simple(queries) => Self::execute_simple_sync(database, queries),
            Synchronizer::Custom(function) => Self::execute_custom_sync(bundle, function),
            Synchronizer::Mixed(synchronizers) => Self::execute_mixed_sync(
                synchronizers,
                bundle,
                database,
            ),
        }
    }

    /// Run a flat batch of statements: groups of [`QUERY_BATCH_SIZE`] in
    /// order, each group finishing before the next begins, stopping at the
    /// first failure. The grouping is [`chunks_of`]; [`lemma_batching`]
    /// states its shape.
    fn execute_simple_sync<T: SyncSupport>(database: &mut T, queries: &Vec<String>) -> (r:
        SyncResponse)
        ensures
            final(database).model().version == old(database).model().version,
            final(database).model().version_writes == old(database).model().version_writes,
            r is Ok ==> final(database).model().executed == old(database).model().executed
                + queries.deep_view(),
            r is Err ==> exists|k: int|
                0 <= k < queries.deep_view().len() && final(database).model().executed == old(
                    database,
                ).model().executed + queries.deep_view().take(k),
    {
        let ghost db0 = database.model();
        let mut i: usize = 0;
        while i < queries.len()
            invariant
                i <= queries.len(),
                db0 == old(database).model(),
                database.model().version == db0.version,
                database.model().version_writes == db0.version_writes,
                database.model().executed == db0.executed + queries.deep_view().take(i as int),
            decreases queries.len() - i,
        {
            let end = if queries.len() - i < QUERY_BATCH_SIZE {
                queries.len()
            } else {
                i + QUERY_BATCH_SIZE
            };
            let ghost db_mid = database.model();
            match Self::execute_batch_query(database, queries, i, end) {
                Ok(()) => {
                    proof {
                        assert(db0.executed + queries.deep_view().take(end as int) =~= db_mid.executed
                            + queries.deep_view().subrange(i as int, end as int));
                    }
                },
                Err(e) => {
                    proof {
                        let k = choose|k: int|
                            i <= k < end && database.model().executed == db_mid.executed
                                + queries.deep_view().subrange(i as int, k);
                        assert(db0.executed + queries.deep_view().take(k) =~= db_mid.executed
                            + queries.deep_view().subrange(i as int, k));
                        assert(database.model().executed == db0.executed + queries.deep_view().take(
                            k,
                        ));
                    }
                    return Err(e);
                },
            }
            i = end;
        }
        proof {
            assert(queries.deep_view().take(queries.len() as int) =~= queries.deep_view());
        }
        Ok(())
    }

    /// Invoke one custom routine against the shared context and propagate its
    /// outcome unchanged.
    fn execute_custom_sync<C: SyncContext>(bundle: &mut C, function: &SyncFn) -> (r: SyncResponse)
        ensures
            final(bundle).customs() == old(bundle).customs().push(function.id),
    {
        bundle.run_custom(function)
    }

    /// Apply sub-steps strictly in sequence; stop and propagate the first
    /// error; never invoke the sub-steps after a failed one.
    fn execute_mixed_sync<C: SyncContext, T: SyncSupport>(
        synchronizers: &Vec<Synchronizer>,
        bundle: &mut C,
        database: &mut T,
    ) -> (r: SyncResponse)
        ensures
            final(database).model().version == old(database).model().version,
            final(database).model().version_writes == old(database).model().version_writes,
            r is Ok ==> final(database).model().executed == old(database).model().executed
                + steps_stmts(synchronizers@) && final(bundle).customs() == old(bundle).customs()
                + steps_customs(synchronizers@),
            r is Err ==> exists|j: int|
                0 <= j < synchronizers@.len() && step_err(
                    synchronizers@[j],
                    BackendModel {
                        executed: old(database).model().executed + steps_stmts(
                            synchronizers@.take(j),
                        ),
                        ..old(database).model()
                    },
                    final(database).model(),
                    old(bundle).customs() + steps_customs(synchronizers@.take(j)),
                    final(bundle).customs(),
                    r->Err_0,
                ),
        decreases synchronizers@,
    {
        let ghost db0 = database.model();
        let ghost cs0 = bundle.customs();
        let mut j: usize = 0;
        while j < synchronizers.len()
            invariant
                j <= synchronizers.len(),
                db0 == old(database).model(),
                cs0 == old(bundle).customs(),
                database.model().version == db0.version,
                database.model().version_writes == db0.version_writes,
                database.model().executed == db0.executed + steps_stmts(
                    synchronizers@.take(j as int),
                ),
                bundle.customs() == cs0 + steps_customs(synchronizers@.take(j as int)),
            decreases synchronizers.len() - j,
        {
            proof {
                assert(decreases_to!(synchronizers@ => synchronizers@[j as int]));
            }
            match synchronizers[j].execute(bundle, database, None) {
                Ok(()) => {
                    proof {
                        lemma_steps_stmts_snoc(synchronizers@, j as int);
                        lemma_steps_customs_snoc(synchronizers@, j as int);
                    }
                },
                Err(e) => {
                    proof {
                        assert(step_err(
                            synchronizers@[j as int],
                            BackendModel {
                                executed: db0.executed + steps_stmts(synchronizers@.take(j as int)),
                                ..db0
                            },
                            database.model(),
                            cs0 + steps_customs(synchronizers@.take(j as int)),
                            bundle.customs(),
                            e,
                        ));
                    }
                    return Err(e);
                },
            }
            j = j + 1;
        }
        proof {
            assert(synchronizers@.take(synchronizers@.len() as int) =~= synchronizers@);
        }
        Ok(())
    }

    /// Run one group of statements: `queries[start..end]`, in order, stopping
    /// at the first failure.
    fn execute_batch_query<T: SyncSupport>(
        database: &mut T,
        queries: &Vec<String>,
        start: usize,
        end: usize,
    ) -> (r: SyncResponse)
        requires
            start <= end <= queries.len(),
        ensures
            final(database).model().version == old(database).model().version,
            final(database).model().version_writes == old(database).model().version_writes,
            r is Ok ==> final(database).model().executed == old(database).model().executed
                + queries.deep_view().subrange(start as int, end as int),
            r is Err ==> exists|k: int|
                start <= k < end && final(database).model().executed == old(
                    database,
                ).model().executed + queries.deep_view().subrange(start as int, k),
    {
        let ghost db0 = database.model();
        let mut k = start;
        while k < end
            invariant
                start <= k <= end <= queries.len(),
                db0 == old(database).model(),
                database.model().version == db0.version,
                database.model().version_writes == db0.version_writes,
                db0.executed + queries.deep_view().subrange(start as int, k as int)
                    == database.model().executed,
            decreases end - k,
        {
            match Self::execute_query(database, &queries[k]) {
                Ok(()) => {
                    proof {
                        assert(db0.executed + queries.deep_view().subrange(
                            start as int,
                            k + 1 as int,
                        ) =~= (db0.executed + queries.deep_view().subrange(start as int, k as int))
                            .push(queries.deep_view()[k as int]));
                    }
                },
                Err(e) => {
                    proof {
                        assert(start <= k < end && database.model().executed == db0.executed
                            + queries.deep_view().subrange(start as int, k as int));
                    }
                    return Err(e);
                },
            }
            k = k + 1;
        }
        Ok(())
    }

    /// Run one statement against the backend and propagate its outcome
    /// unchanged.
    fn execute_query<T: SyncSupport>(database: &mut T, query: &String) -> (r: SyncResponse)
        ensures
            final(database).model().version == old(database).model().version,
            final(database).model().version_writes == old(database).model().version_writes,
            r is Ok ==> final(database).model().executed == old(database).model().executed.push(
                query@,
            ),
            r is Err ==> final(database).model().executed == old(database).model().executed,
    {
        database.execute(query.as_str())
    }
}

/// The statements steps `cat[lo..hi]` run when all succeed, in order.
pub open spec fn range_stmts(cat: Seq<Synchronizer>, lo: int, hi: int) -> Seq<Seq<char>>
    decreases hi - lo,
{
    if lo >= hi {
        Seq::empty()
    } else {
        step_stmts(cat[lo]) + range_stmts(cat, lo + 1, hi)
    }
}

/// The custom routines steps `cat[lo..hi]` invoke when all succeed.
pub open spec fn range_customs(cat: Seq<Synchronizer>, lo: int, hi: int) -> Seq<u64>
    decreases hi - lo,
{
    if lo >= hi {
        Seq::empty()
    } else {
        step_customs(cat[lo]) + range_customs(cat, lo + 1, hi)
    }
}

/// The version values `lo, lo + 1, ..., hi - 1`, in ascending order: one
/// persisted write per applied step, never skipping or decrementing.
pub open spec fn write_seq(lo: int, hi: int) -> Seq<u64> {
    Seq::new(if hi >= lo { (hi - lo) as nat } else { 0 }, |k: int| (lo + k) as u64)
}

/// The backend state a successful sync run reaches from `db`.
///
/// An empty catalog changes nothing. An uninitialized backend receives the
/// master step `cat[0]` and is recorded as caught up to the latest version
/// `N - 1`. A backend at version `v` receives the steps with indices in
/// `[v, N - 1)` — deliberately stopping one short of the last index — with
/// the version persisted after each one.
pub open spec fn run_target(cat: Seq<Synchronizer>, db: BackendModel) -> BackendModel {
    let n = cat.len() as int;
    if n == 0 {
        db
    } else {
        match db.version {
            None => BackendModel {
                version: Some((n - 1) as u64),
                executed: db.executed + step_stmts(cat[0]),
                version_writes: db.version_writes.push((n - 1) as u64),
            },
            Some(v) => BackendModel {
                version: if v < n - 1 {
                    Some((n - 2) as u64)
                } else {
                    Some(v)
                },
                executed: db.executed + range_stmts(cat, v as int, n - 1),
                version_writes: db.version_writes + write_seq(v as int, n - 1),
            },
        }
    }
}

/// The custom routines a successful sync run from `db` invokes, in order.
pub open spec fn run_added_customs(cat: Seq<Synchronizer>, db: BackendModel) -> Seq<u64> {
    let n = cat.len() as int;
    if n == 0 {
        Seq::empty()
    } else {
        match db.version {
            None => step_customs(cat[0]),
            Some(v) => range_customs(cat, v as int, n - 1),
        }
    }
}

/// What a failed incremental run from version `v` leaves behind: the steps
/// with indices in `[v, j)` were applied in full and their versions
/// persisted, and then either step `j` failed partway, or step `j` was
/// applied in full and persisting version `j` failed.
pub open spec fn upgrade_err(
    cat: Seq<Synchronizer>,
    v: int,
    db0: BackendModel,
    db1: BackendModel,
    cs0: Seq<u64>,
    cs1: Seq<u64>,
    e: DatabaseError,
) -> bool {
    exists|j: int|
        #![trigger range_stmts(cat, v, j)]
        v <= j < cat.len() - 1 && {
            let dbj = BackendModel {
                version: if j > v {
                    Some((j - 1) as u64)
                } else {
                    db0.version
                },
                executed: db0.executed + range_stmts(cat, v, j),
                version_writes: db0.version_writes + write_seq(v, j),
            };
            let csj = cs0 + range_customs(cat, v, j);
            step_err(cat[j], dbj, db1, csj, cs1, e) || (db1 == BackendModel {
                executed: dbj.executed + step_stmts(cat[j]),
                ..dbj
            } && cs1 == csj + step_customs(cat[j]))
        }
}

/// What a failed sync run leaves behind. Either reading the marker failed
/// and nothing ran; or, on an uninitialized backend, the master step failed
/// or persisting the final version failed; or, on an initialized backend,
/// the incremental traversal stopped as [`upgrade_err`] describes. A version
/// is never persisted for a step that failed.
pub open spec fn run_err(
    cat: Seq<Synchronizer>,
    db0: BackendModel,
    db1: BackendModel,
    cs0: Seq<u64>,
    cs1: Seq<u64>,
    e: DatabaseError,
) -> bool {
    cat.len() > 0 && match db0.version {
        None => (db1 == db0 && cs1 == cs0) || step_err(cat[0], db0, db1, cs0, cs1, e) || (db1
            == BackendModel { executed: db0.executed + step_stmts(cat[0]), ..db0 } && cs1 == cs0
            + step_customs(cat[0])),
        Some(v) => (db1 == db0 && cs1 == cs0) || upgrade_err(cat, v as int, db0, db1, cs0, cs1, e),
    }
}

/// Drive one sync run of `database` against the ordered catalog
/// `synchronizers`.
///
/// An empty catalog is a no-op. On an uninitialized backend (`None`
/// marker), the master step `synchronizers[0]` is applied in full and the
/// backend is recorded as caught up to the latest version `N - 1`: a fresh
/// backend has no prior state to reconcile, and the master step encodes the
/// complete current schema. On a backend at version `v`, the steps with
/// indices in `[v, N - 1)` are applied in ascending order — the loop bound
/// deliberately never touches index `N - 1`, preserving observed behavior —
/// persisting the version after each applied step and never speculatively.
/// The run aborts on the first failure; no version is persisted for a step
/// that failed. A backend already at version `N - 1` or beyond is left
/// untouched, whatever the outcome.
pub fn execute<C: SyncContext, T: SyncSupport>(
    synchronizers: &Vec<Synchronizer>,
    bundle: &mut C,
    database: &mut T,
) -> (r: SyncResponse)
    ensures
        r is Ok ==> final(database).model() == run_target(
            synchronizers@,
            old(database).model(),
        ) && final(bundle).customs() == old(bundle).customs() + run_added_customs(
            synchronizers@,
            old(database).model(),
        ),
        r is Err ==> run_err(
            synchronizers@,
            old(database).model(),
            final(database).model(),
            old(bundle).customs(),
            final(bundle).customs(),
            r->Err_0,
        ),
        (match old(database).model().version {
            Some(v) => v + 1 >= synchronizers@.len(),
            None => false,
        }) ==> final(database).model() == old(database).model() && final(bundle).customs() == old(
            bundle,
        ).customs(),
{
    let ghost db0 = database.model();
    let ghost cs0 = bundle.customs();
    if synchronizers.len() == 0 {
        proof {
            assert(cs0 + run_added_customs(synchronizers@, db0) =~= cs0);
        }
        return Ok(());
    }
    let current = match database.schema_version() {
        Err(e) => {
            return Err(e);
        },
        Ok(current) => current,
    };
    match current {
        None => {
            match synchronizers[0].execute(bundle, database, None) {
                Ok(()) => {},
                Err(e) => {
                    return Err(e);
                },
            }
            let latest = (synchronizers.len() - 1) as u64;
            match database.set_schema_version(latest) {
                Ok(()) => {},
                Err(e) => {
                    return Err(e);
                },
            }
            proof {
                assert(database.model() =~= run_target(synchronizers@, db0));
            }
            Ok(())
        },
        Some(v) => {
            let last: usize = synchronizers.len() - 1;
            let mut i: u64 = v;
            while i < (last as u64)
                invariant
                    db0 == old(database).model(),
                    cs0 == old(bundle).customs(),
                    db0.version == Some(v),
                    synchronizers@.len() > 0,
                    last == synchronizers@.len() - 1,
                    v <= i,
                    i == v || i <= last as u64,
                    database.model().version == (if i > v {
                        Some((i - 1) as u64)
                    } else {
                        Some(v)
                    }),
                    database.model().executed == db0.executed + range_stmts(
                        synchronizers@,
                        v as int,
                        i as int,
                    ),
                    database.model().version_writes == db0.version_writes + write_seq(
                        v as int,
                        i as int,
                    ),
                    bundle.customs() == cs0 + range_customs(synchronizers@, v as int, i as int),
                decreases last as u64 - i,
            {
                let idx = i as usize;
                let ghost dbj = database.model();
                let ghost csj = bundle.customs();
                match synchronizers[idx].execute(bundle, database, None) {
                    Ok(()) => {},
                    Err(e) => {
                        proof {
                            assert(upgrade_err(
                                synchronizers@,
                                v as int,
                                db0,
                                database.model(),
                                cs0,
                                bundle.customs(),
                                e,
                            )) by {
                                assert(range_stmts(synchronizers@, v as int, i as int)
                                    == range_stmts(synchronizers@, v as int, i as int));
                                assert(step_err(
                                    synchronizers@[i as int],
                                    dbj,
                                    database.model(),
                                    csj,
                                    bundle.customs(),
                                    e,
                                ));
                            }
                        }
                        return Err(e);
                    },
                }
                match database.set_schema_version(i) {
                    Ok(()) => {},
                    Err(e) => {
                        proof {
                            assert(upgrade_err(
                                synchronizers@,
                                v as int,
                                db0,
                                database.model(),
                                cs0,
                                bundle.customs(),
                                e,
                            )) by {
                                assert(range_stmts(synchronizers@, v as int, i as int)
                                    == range_stmts(synchronizers@, v as int, i as int));
                                assert(database.model() == BackendModel {
                                    executed: dbj.executed + step_stmts(synchronizers@[i as int]),
                                    ..dbj
                                });
                            }
                        }
                        return Err(e);
                    },
                }
                proof {
                    lemma_range_stmts_snoc(synchronizers@, v as int, i as int);
                    lemma_range_customs_snoc(synchronizers@, v as int, i as int);
                    assert(db0.version_writes + write_seq(v as int, i + 1 as int) =~= (db0
                        .version_writes + write_seq(v as int, i as int)).push(i));
                }
                i = i + 1;
            }
            proof {
                if v as int >= last as int {
                    assert(db0.executed + range_stmts(synchronizers@, v as int, v as int) =~= db0
                        .executed);
                    assert(db0.version_writes + write_seq(v as int, v as int) =~= db0
                        .version_writes);
                    assert(cs0 + range_customs(synchronizers@, v as int, v as int) =~= cs0);
                    assert(range_stmts(synchronizers@, v as int, last as int) == range_stmts(
                        synchronizers@,
                        v as int,
                        v as int,
                    ));
                    assert(range_customs(synchronizers@, v as int, last as int) == range_customs(
                        synchronizers@,
                        v as int,
                        v as int,
                    ));
                    assert(write_seq(v as int, last as int) =~= write_seq(v as int, v as int));
                    assert(database.model() =~= db0);
                }
                assert(database.model() =~= run_target(synchronizers@, db0));
                assert(bundle.customs() == cs0 + run_added_customs(synchronizers@, db0));
            }
            Ok(())
        },
    }
}

/// Extending the applied range by one step appends exactly that step's
/// statements.
proof fn lemma_range_stmts_snoc(cat: Seq<Synchronizer>, lo: int, hi: int)
    requires
        lo <= hi,
    ensures
        range_stmts(cat, lo, hi + 1) == range_stmts(cat, lo, hi) + step_stmts(cat[hi]),
    decreases hi - lo,
{
    if lo == hi {
        assert(range_stmts(cat, hi + 1, hi + 1) == Seq::<Seq<char>>::empty());
        assert(range_stmts(cat, lo, hi) == Seq::<Seq<char>>::empty());
        assert(range_stmts(cat, lo, hi + 1) == step_stmts(cat[lo]) + range_stmts(
            cat,
            lo + 1,
            hi + 1,
        ));
        assert(range_stmts(cat, lo, hi + 1) =~= range_stmts(cat, lo, hi) + step_stmts(cat[hi]));
    } else {
        lemma_range_stmts_snoc(cat, lo + 1, hi);
        assert(step_stmts(cat[lo]) + (range_stmts(cat, lo + 1, hi) + step_stmts(cat[hi])) =~= (
        step_stmts(cat[lo]) + range_stmts(cat, lo + 1, hi)) + step_stmts(cat[hi]));
    }
}

/// Extending the applied range by one step appends exactly that step's
/// custom routines.
proof fn lemma_range_customs_snoc(cat: Seq<Synchronizer>, lo: int, hi: int)
    requires
        lo <= hi,
    ensures
        range_customs(cat, lo, hi + 1) == range_customs(cat, lo, hi) + step_customs(cat[hi]),
    decreases hi - lo,
{
    if lo == hi {
        assert(range_customs(cat, hi + 1, hi + 1) == Seq::<u64>::empty());
        assert(range_customs(cat, lo, hi) == Seq::<u64>::empty());
        assert(range_customs(cat, lo, hi + 1) == step_customs(cat[lo]) + range_customs(
            cat,
            lo + 1,
            hi + 1,
        ));
        assert(range_customs(cat, lo, hi + 1) =~= range_customs(cat, lo, hi) + step_customs(
            cat[hi],
        ));
    } else {
        lemma_range_customs_snoc(cat, lo + 1, hi);
        assert(step_customs(cat[lo]) + (range_customs(cat, lo + 1, hi) + step_customs(cat[hi]))
            =~= (step_customs(cat[lo]) + range_customs(cat, lo + 1, hi)) + step_customs(cat[hi]));
    }
}

/// The groups in which a flat batch of statements is processed: successive
/// runs of [`QUERY_BATCH_SIZE`] statements, in order, the last group holding
/// the remainder.
pub open spec fn chunks_of(qs: Seq<Seq<char>>) -> Seq<Seq<Seq<char>>>
    decreases qs.len(),
{
    if qs.len() == 0 {
        Seq::empty()
    } else if qs.len() <= QUERY_BATCH_SIZE {
        seq![qs]
    } else {
        seq![qs.take(QUERY_BATCH_SIZE as int)] + chunks_of(qs.skip(QUERY_BATCH_SIZE as int))
    }
}

/// A flat batch of K statements is processed as exactly
/// `ceil(K / QUERY_BATCH_SIZE)` groups: every group but the last holds
/// exactly [`QUERY_BATCH_SIZE`] statements, the last holds the (non-empty)
/// remainder, and concatenating the groups in order restores the statements
/// exactly — no statement of a later group runs before every statement of an
/// earlier group has completed, and none is dropped, duplicated or
/// reordered.
pub proof fn lemma_batching(qs: Seq<Seq<char>>)
    ensures
        chunks_of(qs).len() == (qs.len() + QUERY_BATCH_SIZE - 1) as int / QUERY_BATCH_SIZE as int,
        forall|b: int|
            0 <= b < chunks_of(qs).len() - 1 ==> #[trigger] chunks_of(qs)[b].len()
                == QUERY_BATCH_SIZE,
        chunks_of(qs).len() > 0 ==> 0 < chunks_of(qs).last().len() <= QUERY_BATCH_SIZE,
        chunks_of(qs).flatten() == qs,
        forall|b: int|
            0 <= b < chunks_of(qs).len() ==> #[trigger] chunks_of(qs)[b] == qs.subrange(
                b * QUERY_BATCH_SIZE,
                if (b + 1) * QUERY_BATCH_SIZE <= qs.len() {
                    (b + 1) * QUERY_BATCH_SIZE
                } else {
                    qs.len() as int
                },
            ),
    decreases qs.len(),
{
    if qs.len() == 0 {
        assert(chunks_of(qs).flatten() =~= qs);
    } else if qs.len() <= QUERY_BATCH_SIZE {
        assert(chunks_of(qs) == seq![qs]);
        assert(chunks_of(qs).drop_first() =~= Seq::<Seq<Seq<char>>>::empty());
        assert(Seq::<Seq<Seq<char>>>::empty().flatten() == Seq::<Seq<char>>::empty());
        assert(chunks_of(qs).flatten() == chunks_of(qs).first() + chunks_of(
            qs,
        ).drop_first().flatten());
        assert(chunks_of(qs).flatten() =~= qs);
        assert(qs.subrange(0, qs.len() as int) =~= qs);
    } else {
        let rest = qs.skip(QUERY_BATCH_SIZE as int);
        lemma_batching(rest);
        let c = chunks_of(qs);
        assert(c.drop_first() =~= chunks_of(rest));
        assert(c.flatten() == c.first() + c.drop_first().flatten());
        assert(qs.take(QUERY_BATCH_SIZE as int) + rest =~= qs);
        assert(forall|b: int|
            0 <= b < c.len() - 1 ==> #[trigger] c[b].len() == QUERY_BATCH_SIZE) by {
            assert(forall|b: int|
                1 <= b < c.len() - 1 ==> #[trigger] c[b].len() == chunks_of(rest)[b - 1].len());
        }
        assert(forall|b: int|
            0 <= b < c.len() ==> #[trigger] c[b] == qs.subrange(
                b * QUERY_BATCH_SIZE,
                if (b + 1) * QUERY_BATCH_SIZE <= qs.len() {
                    (b + 1) * QUERY_BATCH_SIZE
                } else {
                    qs.len() as int
                },
            )) by {
            assert(c[0] == qs.take(QUERY_BATCH_SIZE as int));
            assert(qs.take(QUERY_BATCH_SIZE as int) =~= qs.subrange(0, QUERY_BATCH_SIZE as int));
            assert forall|b: int| 1 <= b < c.len() implies #[trigger] c[b] == qs.subrange(
                b * QUERY_BATCH_SIZE,
                if (b + 1) * QUERY_BATCH_SIZE <= qs.len() {
                    (b + 1) * QUERY_BATCH_SIZE
                } else {
                    qs.len() as int
                },
            ) by {
                assert(c[b] == chunks_of(rest)[b - 1]);
                let lo = (b - 1) * QUERY_BATCH_SIZE;
                let hi = if b * QUERY_BATCH_SIZE <= rest.len() {
                    b * QUERY_BATCH_SIZE
                } else {
                    rest.len() as int
                };
                assert(chunks_of(rest)[b - 1] == rest.subrange(lo, hi));
                assert(rest.subrange(lo, hi) =~= qs.subrange(
                    lo + QUERY_BATCH_SIZE,
                    hi + QUERY_BATCH_SIZE,
                ));
            }
        }
    }
}

/// In a failed run of a step, the statements that did run form a prefix of
/// the step's statements: nothing past the failure point is ever started.
pub proof fn lemma_step_err_prefix(
    s: Synchronizer,
    db0: BackendModel,
    db1: BackendModel,
    cs0: Seq<u64>,
    cs1: Seq<u64>,
    e: DatabaseError,
)
    requires
        step_err(s, db0, db1, cs0, cs1, e),
    ensures
        exists|m: int|
            0 <= m <= step_stmts(s).len() && db1.executed == db0.executed + step_stmts(s).take(m),
    decreases s,
{
    match s {
        Synchronizer::Simple(qs) => {
            let k = choose|k: int|
                0 <= k < qs.deep_view().len() && db1.executed == db0.executed
                    + qs.deep_view().take(k);
            assert(0 <= k <= step_stmts(s).len() && db1.executed == db0.executed + step_stmts(
                s,
            ).take(k));
        },
        Synchronizer::Custom(_) => {
            assert(db0.executed + step_stmts(s).take(0) =~= db0.executed);
            assert(0 <= 0 <= step_stmts(s).len() && db1.executed == db0.executed + step_stmts(
                s,
            ).take(0));
        },
        Synchronizer::Mixed(ss) => {
            let j = choose|j: int|
                0 <= j < ss@.len() && step_err(
                    ss@[j],
                    BackendModel { executed: db0.executed + steps_stmts(ss@.take(j)), ..db0 },
                    db1,
                    cs0 + steps_customs(ss@.take(j)),
                    cs1,
                    e,
                );
            let before = steps_stmts(ss@.take(j));
            let mid = BackendModel { executed: db0.executed + before, ..db0 };
            lemma_step_err_prefix(ss@[j], mid, db1, cs0 + steps_customs(ss@.take(j)), cs1, e);
            let m = choose|m: int|
                0 <= m <= step_stmts(ss@[j]).len() && db1.executed == mid.executed + step_stmts(
                    ss@[j],
                ).take(m);
            lemma_steps_stmts_split_at(ss@, j);
            assert(ss@.skip(j)[0] == ss@[j]);
            assert(ss@.skip(j).drop_first() =~= ss@.skip(j + 1));
            assert(steps_stmts(ss@.skip(j)) == step_stmts(ss@[j]) + steps_stmts(ss@.skip(j + 1)));
            assert(steps_stmts(ss@) == before + (step_stmts(ss@[j]) + steps_stmts(
                ss@.skip(j + 1),
            )));
            let big = before.len() + m;
            assert(steps_stmts(ss@).take(big) =~= before + step_stmts(ss@[j]).take(m));
            assert((db0.executed + before) + step_stmts(ss@[j]).take(m) =~= db0.executed + (before
                + step_stmts(ss@[j]).take(m)));
            assert(0 <= big <= step_stmts(s).len() && db1.executed == db0.executed + step_stmts(
                s,
            ).take(big));
        },
    }
}

/// A failure inside a composite step isolates the sub-steps after it: some
/// sub-step `j` is the failing one; every sub-step before `j` was applied in
/// full; the failing sub-run surfaced the very error `e` of the whole run;
/// and nothing beyond sub-step `j`'s own statements ever ran.
pub proof fn lemma_mixed_failure_isolation(
    s: Synchronizer,
    db0: BackendModel,
    db1: BackendModel,
    cs0: Seq<u64>,
    cs1: Seq<u64>,
    e: DatabaseError,
)
    requires
        s is Mixed,
        step_err(s, db0, db1, cs0, cs1, e),
    ensures
        exists|j: int|
            0 <= j < s->Mixed_0@.len() && step_err(
                s->Mixed_0@[j],
                BackendModel {
                    executed: db0.executed + steps_stmts(s->Mixed_0@.take(j)),
                    ..db0
                },
                db1,
                cs0 + steps_customs(s->Mixed_0@.take(j)),
                cs1,
                e,
            ) && db1.executed.len() <= db0.executed.len() + steps_stmts(
                s->Mixed_0@.take(j + 1),
            ).len(),
{
    let ss = s->Mixed_0;
    let j = choose|j: int|
        0 <= j < ss@.len() && step_err(
            ss@[j],
            BackendModel { executed: db0.executed + steps_stmts(ss@.take(j)), ..db0 },
            db1,
            cs0 + steps_customs(ss@.take(j)),
            cs1,
            e,
        );
    let mid = BackendModel { executed: db0.executed + steps_stmts(ss@.take(j)), ..db0 };
    lemma_step_err_prefix(ss@[j], mid, db1, cs0 + steps_customs(ss@.take(j)), cs1, e);
    lemma_steps_stmts_snoc(ss@, j);
}

/// The version values a run persists ascend one by one from the start
/// version: the engine never skips an index and never decrements one.
pub proof fn lemma_write_seq_ascending(lo: int, hi: int)
    requires
        0 <= lo,
        hi <= u64::MAX,
    ensures
        write_seq(lo, hi).len() == if hi >= lo {
            hi - lo
        } else {
            0
        },
        forall|k: int| 0 <= k < write_seq(lo, hi).len() ==> #[trigger] write_seq(lo, hi)[k] == lo
            + k,
        forall|k: int, l: int|
            0 <= k < l < write_seq(lo, hi).len() ==> #[trigger] write_seq(lo, hi)[k]
                < #[trigger] write_seq(lo, hi)[l],
{
}

/// A second consecutive run on a caught-up backend is a no-op: it executes
/// no statements, invokes no custom routines, and performs no version
/// writes. A backend is caught up once a run took its uninitialized marker
/// to the latest version, or once its version is at or past the last
/// catalog index.
pub proof fn lemma_second_run_is_noop(cat: Seq<Synchronizer>, db: BackendModel)
    requires
        cat.len() <= u64::MAX,
        db.version is None || db.version->0 + 1 >= cat.len(),
    ensures
        run_target(cat, run_target(cat, db)) == run_target(cat, db),
        run_added_customs(cat, run_target(cat, db)) == Seq::<u64>::empty(),
{
    let db1 = run_target(cat, db);
    if cat.len() == 0 {
        assert(run_target(cat, db1) == db1);
    } else {
        match db.version {
            None => {
                assert(db1.version == Some((cat.len() - 1) as u64));
                assert(db1.version->0 + 1 >= cat.len());
                assert(run_target(cat, db1) =~= db1) by {
                    assert(db1.executed + range_stmts(
                        cat,
                        db1.version->0 as int,
                        cat.len() - 1,
                    ) =~= db1.executed);
                    assert(db1.version_writes + write_seq(
                        db1.version->0 as int,
                        cat.len() - 1,
                    ) =~= db1.version_writes);
                }
                assert(run_added_customs(cat, db1) == range_customs(
                    cat,
                    db1.version->0 as int,
                    cat.len() - 1,
                ));
            },
            Some(v) => {
                assert(db1 =~= db) by {
                    assert(db.executed + range_stmts(cat, v as int, cat.len() - 1) =~= db.executed);
                    assert(db.version_writes + write_seq(cat.len() - 1, cat.len() - 1) =~= db
                        .version_writes);
                    assert(write_seq(v as int, cat.len() - 1) =~= write_seq(
                        cat.len() - 1,
                        cat.len() - 1,
                    ));
                }
            },
        }
    }
}

/// Appending one step to a traversed prefix extends its statements by
/// exactly that step's statements.
proof fn lemma_steps_stmts_snoc(ss: Seq<Synchronizer>, j: int)
    requires
        0 <= j < ss.len(),
    ensures
        steps_stmts(ss.take(j + 1)) == steps_stmts(ss.take(j)) + step_stmts(ss[j]),
    decreases j,
{
    if j == 0 {
        assert(ss.take(1).drop_first() =~= ss.take(0));
        assert(steps_stmts(ss.take(1)) =~= step_stmts(ss[0]) + steps_stmts(ss.take(0)));
        assert(steps_stmts(ss.take(0)) =~= Seq::empty());
        assert(steps_stmts(ss.take(0)) + step_stmts(ss[0]) =~= step_stmts(ss[0]) + steps_stmts(
            ss.take(0),
        ));
    } else {
        let tail = ss.drop_first();
        lemma_steps_stmts_snoc(tail, j - 1);
        assert(ss.take(j + 1).drop_first() =~= tail.take(j));
        assert(ss.take(j).drop_first() =~= tail.take(j - 1));
        assert(tail[j - 1] == ss[j]);
        assert(steps_stmts(ss.take(j + 1)) == step_stmts(ss[0]) + steps_stmts(tail.take(j)));
        assert(steps_stmts(ss.take(j)) == step_stmts(ss[0]) + steps_stmts(tail.take(j - 1)));
        assert(step_stmts(ss[0]) + (steps_stmts(tail.take(j - 1)) + step_stmts(ss[j])) =~= (
        step_stmts(ss[0]) + steps_stmts(tail.take(j - 1))) + step_stmts(ss[j]));
    }
}

/// The statements of a step sequence split at any index: what the prefix
/// runs, then what the rest runs.
proof fn lemma_steps_stmts_split_at(ss: Seq<Synchronizer>, k: int)
    requires
        0 <= k <= ss.len(),
    ensures
        steps_stmts(ss) == steps_stmts(ss.take(k)) + steps_stmts(ss.skip(k)),
    decreases k,
{
    if k == 0 {
        assert(ss.take(0) =~= Seq::empty());
        assert(ss.skip(0) =~= ss);
        assert(steps_stmts(ss.take(0)) + steps_stmts(ss) =~= steps_stmts(ss));
    } else {
        let tail = ss.drop_first();
        lemma_steps_stmts_split_at(tail, k - 1);
        assert(ss.take(k).drop_first() =~= tail.take(k - 1));
        assert(ss.take(k)[0] == ss[0]);
        assert(ss.skip(k) =~= tail.skip(k - 1));
        assert(steps_stmts(ss.take(k)) == step_stmts(ss[0]) + steps_stmts(tail.take(k - 1)));
        assert(step_stmts(ss[0]) + (steps_stmts(tail.take(k - 1)) + steps_stmts(tail.skip(k - 1)))
            =~= (step_stmts(ss[0]) + steps_stmts(tail.take(k - 1))) + steps_stmts(
            tail.skip(k - 1),
        ));
    }
}

/// Appending one step to a traversed prefix extends its custom routines by
/// exactly that step's custom routines.
proof fn lemma_steps_customs_snoc(ss: Seq<Synchronizer>, j: int)
    requires
        0 <= j < ss.len(),
    ensures
        steps_customs(ss.take(j + 1)) == steps_customs(ss.take(j)) + step_customs(ss[j]),
    decreases j,
{
    if j == 0 {
        assert(ss.take(1).drop_first() =~= ss.take(0));
        assert(steps_customs(ss.take(1)) =~= step_customs(ss[0]) + steps_customs(ss.take(0)));
        assert(steps_customs(ss.take(0)) =~= Seq::empty());
        assert(steps_customs(ss.take(0)) + step_customs(ss[0]) =~= step_customs(ss[0])
            + steps_customs(ss.take(0)));
    } else {
        let tail = ss.drop_first();
        lemma_steps_customs_snoc(tail, j - 1);
        assert(ss.take(j + 1).drop_first() =~= tail.take(j));
        assert(ss.take(j).drop_first() =~= tail.take(j - 1));
        assert(tail[j - 1] == ss[j]);
        assert(steps_customs(ss.take(j + 1)) == step_customs(ss[0]) + steps_customs(tail.take(j)));
        assert(steps_customs(ss.take(j)) == step_customs(ss[0]) + steps_customs(tail.take(j - 1)));
        assert(step_customs(ss[0]) + (steps_customs(tail.take(j - 1)) + step_customs(ss[j])) =~= (
        step_customs(ss[0]) + steps_customs(tail.take(j - 1))) + step_customs(ss[j]));
    }
}

} // verus!
