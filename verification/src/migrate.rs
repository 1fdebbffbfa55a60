//! Versioned schema migration: an ordered catalog of tagged steps and the
//! runner that brings a store from any version to the newest, applying each
//! step at most once.

use vstd::prelude::*;

verus! {

/// An ordered, immutable unit of schema change: write statements under an
/// integer version tag.
pub struct MigrationStep {
    pub tag: u64,
    pub statements: Vec<String>,
}

/// The full ordered catalog of schema-change steps, fixed at build time.
pub struct MigrationCatalog {
    pub steps: Vec<MigrationStep>,
}

/// Tags grow strictly along the catalog.
pub open spec fn tags_ascending(steps: Seq<MigrationStep>) -> bool {
    forall|i: int, j: int| 0 <= i < j < steps.len() ==> steps[i].tag < steps[j].tag
}

impl MigrationCatalog {
    /// Well-formedness: strictly increasing tags, so each step has one
    /// place in the order and is applied at most once.
    pub open spec fn wf(&self) -> bool {
        tags_ascending(self.steps@)
    }
}

/// The statements of a step, as sequences of characters, in order.
pub open spec fn stmts_of(s: MigrationStep) -> Seq<Seq<char>> {
    s.statements@.map_values(|q: String| q@)
}

/// In-memory model of the persistent store's schema side: the version row
/// (absent before the first boot ever seeds it) and the ordered log of
/// schema statements executed against the store.
pub struct SchemaStore {
    pub version_row: Option<u64>,
    pub executed: Vec<String>,
}

impl SchemaStore {
    /// The store before any boot: no version row, nothing executed.
    pub fn new() -> (s: SchemaStore)
        ensures
            s.version_row is None,
            s.log() == Seq::<Seq<char>>::empty(),
    {
        let s = SchemaStore { version_row: None, executed: Vec::new() };
        proof {
            assert(s.log() =~= Seq::<Seq<char>>::empty());
        }
        s
    }

    /// The statements executed so far, as sequences of characters, oldest
    /// first.
    pub open spec fn log(&self) -> Seq<Seq<char>> {
        self.executed@.map_values(|q: String| q@)
    }
}

/// The version the idempotent seed leaves in place: an absent row becomes
/// 0; an existing row is kept, the seed's write conflict being harmless and
/// expected on every boot after the first.
pub open spec fn seeded_version(v: Option<u64>) -> u64 {
    match v {
        None => 0,
        Some(x) => x,
    }
}

/// One step applied to a version and log: its statements execute, and the
/// version becomes its tag, exactly when the tag exceeds the version.
pub open spec fn apply_step(v: u64, log: Seq<Seq<char>>, s: MigrationStep) -> (u64, Seq<Seq<char>>) {
    if s.tag > v {
        (s.tag, log + stmts_of(s))
    } else {
        (v, log)
    }
}

/// The runner's effect on a version and log: the steps applied in catalog
/// order, each at most once.
pub open spec fn run_spec(v: u64, log: Seq<Seq<char>>, steps: Seq<MigrationStep>) -> (
    u64,
    Seq<Seq<char>>,
)
    decreases steps.len(),
{
    if steps.len() == 0 {
        (v, log)
    } else {
        let prev = run_spec(v, log, steps.drop_last());
        apply_step(prev.0, prev.1, steps.last())
    }
}

/// What one full boot-time run of the catalog does to a store: seed the
/// version row if absent, then apply every pending step in order, recording
/// each step's tag as it commits.
pub open spec fn run_post(pre: SchemaStore, post: SchemaStore, steps: Seq<MigrationStep>) -> bool {
    let r = run_spec(seeded_version(pre.version_row), pre.log(), steps);
    &&& post.version_row == Some(r.0)
    &&& post.log() == r.1
}

/// Brings a store from "unknown" to "current" shape on startup.
pub struct MigrationRunner {
    pub catalog: MigrationCatalog,
}

impl MigrationRunner {
    /// A runner over the given catalog.
    pub fn new(catalog: MigrationCatalog) -> (r: MigrationRunner)
        ensures
            r.catalog == catalog,
    {
        MigrationRunner { catalog }
    }

    /// Run all pending migrations: seed the version row if absent, then,
    /// for each step whose tag exceeds the stored version, in ascending
    /// catalog order, execute its statements and set the stored version to
    /// its tag. Steps already covered by the stored version never re-run.
    pub fn run(&self, store: &mut SchemaStore)
        ensures
            run_post(*old(store), *final(store), self.catalog.steps@),
    {
        if store.version_row.is_none() {
            store.version_row = Some(0);
        }
        let mut v: u64 = match store.version_row {
            Some(x) => x,
            None => 0,
        };
        let ghost v0 = seeded_version(old(store).version_row);
        let ghost log0 = old(store).log();
        let mut i: usize = 0;
        while i < self.catalog.steps.len()
            invariant
                i <= self.catalog.steps@.len(),
                store.version_row == Some(v),
                v == run_spec(v0, log0, self.catalog.steps@.take(i as int)).0,
                store.log() == run_spec(v0, log0, self.catalog.steps@.take(i as int)).1,
            decreases self.catalog.steps@.len() - i,
        {
            proof {
                assert(self.catalog.steps@.take(i as int + 1).drop_last() =~= self.catalog.steps@
                    .take(i as int));
                assert(self.catalog.steps@.take(i as int + 1).last() == self.catalog.steps@[
                    i as int]);
            }
            let step = &self.catalog.steps[i];
            if step.tag > v {
                let ghost log_mid = store.log();
                let mut k: usize = 0;
                while k < step.statements.len()
                    invariant
                        k <= step.statements@.len(),
                        store.version_row == Some(v),
                        store.log() == log_mid + stmts_of(*step).take(k as int),
                    decreases step.statements@.len() - k,
                {
                    let ghost prev_log = store.log();
                    store.executed.push(step.statements[k].clone());
                    proof {
                        assert(store.log() =~= prev_log.push(stmts_of(*step)[k as int]));
                        assert(log_mid + stmts_of(*step).take(k as int + 1) =~= prev_log.push(
                            stmts_of(*step)[k as int],
                        ));
                    }
                    k = k + 1;
                }
                proof {
                    assert(stmts_of(*step).take(step.statements@.len() as int) =~= stmts_of(
                        *step,
                    ));
                }
                store.version_row = Some(step.tag);
                v = step.tag;
            }
            i = i + 1;
        }
        proof {
            assert(self.catalog.steps@.take(self.catalog.steps@.len() as int) =~= self.catalog
                .steps@);
        }
    }
}

/// The steps a store at `version` still needs: exactly those whose tags
/// exceed the version, in catalog order.
pub open spec fn pending_of(steps: Seq<MigrationStep>, v: u64) -> Seq<MigrationStep>
    decreases steps.len(),
{
    if steps.len() == 0 {
        Seq::empty()
    } else if steps.last().tag > v {
        pending_of(steps.drop_last(), v).push(steps.last())
    } else {
        pending_of(steps.drop_last(), v)
    }
}

/// Select the steps a store at `version` still needs, in catalog order. A
/// caller driving a real persistent store executes exactly these, setting
/// the stored version to each step's tag as the step commits.
pub fn pending_steps<'a>(catalog: &'a MigrationCatalog, version: u64) -> (r: Vec<
    &'a MigrationStep,
>)
    ensures
        r@.map_values(|s: &MigrationStep| *s) == pending_of(catalog.steps@, version),
{
    let mut r: Vec<&MigrationStep> = Vec::new();
    proof {
        assert(r@.map_values(|s: &MigrationStep| *s) =~= pending_of(
            catalog.steps@.take(0),
            version,
        ));
    }
    let mut i: usize = 0;
    while i < catalog.steps.len()
        invariant
            i <= catalog.steps@.len(),
            r@.map_values(|s: &MigrationStep| *s) == pending_of(
                catalog.steps@.take(i as int),
                version,
            ),
        decreases catalog.steps@.len() - i,
    {
        proof {
            assert(catalog.steps@.take(i as int + 1).drop_last() =~= catalog.steps@.take(i as int));
            assert(catalog.steps@.take(i as int + 1).last() == catalog.steps@[i as int]);
        }
        let step = &catalog.steps[i];
        if step.tag > version {
            r.push(step);
        }
        proof {
            assert(r@.map_values(|s: &MigrationStep| *s) =~= pending_of(
                catalog.steps@.take(i as int + 1),
                version,
            ));
        }
        i = i + 1;
    }
    proof {
        assert(catalog.steps@.take(catalog.steps@.len() as int) =~= catalog.steps@);
    }
    r
}

/// The catalog this build ships: one step that creates the redirects table,
/// with the token column unique so that racing inserts cannot both succeed.
pub fn current_catalog() -> (c: MigrationCatalog)
    ensures
        c.wf(),
        c.steps@.len() == 1,
        c.steps@[0].tag == 1,
        c.steps@[0].statements@.len() == 1,
        c.steps@[0].statements@[0]@
            == "CREATE TABLE IF NOT EXISTS redirects (token TEXT NOT NULL PRIMARY KEY, url TEXT NOT NULL)"@,
{
    let mut statements: Vec<String> = Vec::new();
    statements.push(String::from_str(
        "CREATE TABLE IF NOT EXISTS redirects (token TEXT NOT NULL PRIMARY KEY, url TEXT NOT NULL)",
    ));
    let mut steps: Vec<MigrationStep> = Vec::new();
    steps.push(MigrationStep { tag: 1, statements });
    MigrationCatalog { steps }
}

/// After a run, the version is at least what it was and at least every tag
/// in the catalog: migration never moves backward and never leaves a step
/// behind.
proof fn lemma_run_version_reaches(v: u64, log: Seq<Seq<char>>, steps: Seq<MigrationStep>)
    ensures
        run_spec(v, log, steps).0 >= v,
        forall|i: int| 0 <= i < steps.len() ==> run_spec(v, log, steps).0 >= steps[i].tag,
    decreases steps.len(),
{
    if steps.len() > 0 {
        lemma_run_version_reaches(v, log, steps.drop_last());
        assert forall|i: int| 0 <= i < steps.len() implies run_spec(v, log, steps).0
            >= steps[i].tag by {
            if i < steps.len() - 1 {
                assert(steps.drop_last()[i] == steps[i]);
            }
        }
    }
}

/// A run whose every tag the version already covers is a no-op: no
/// statement executes and the version stays.
proof fn lemma_run_covered_noop(v: u64, log: Seq<Seq<char>>, steps: Seq<MigrationStep>)
    requires
        forall|i: int| 0 <= i < steps.len() ==> steps[i].tag <= v,
    ensures
        run_spec(v, log, steps) == (v, log),
    decreases steps.len(),
{
    if steps.len() > 0 {
        assert(forall|i: int|
            0 <= i < steps.drop_last().len() ==> steps.drop_last()[i].tag <= v) by {
            assert(forall|i: int|
                0 <= i < steps.drop_last().len() ==> steps.drop_last()[i] == steps[i]);
        }
        lemma_run_covered_noop(v, log, steps.drop_last());
        assert(steps.last().tag <= v);
    }
}

/// Law: migration is idempotent. A second run of the same catalog against
/// the store a first run produced changes nothing: the version stays and no
/// statement re-executes.
pub proof fn lemma_migrations_idempotent(
    s0: SchemaStore,
    s1: SchemaStore,
    s2: SchemaStore,
    steps: Seq<MigrationStep>,
)
    requires
        run_post(s0, s1, steps),
        run_post(s1, s2, steps),
    ensures
        s2.version_row == s1.version_row,
        s2.log() == s1.log(),
{
    let r = run_spec(seeded_version(s0.version_row), s0.log(), steps);
    lemma_run_version_reaches(seeded_version(s0.version_row), s0.log(), steps);
    lemma_run_covered_noop(r.0, r.1, steps);
}

} // verus!
