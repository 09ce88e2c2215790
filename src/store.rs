use vstd::prelude::*;

use crate::vecs::reversed;

verus! {

/// One upstream game-version record.
#[derive(Debug, Clone, PartialEq, Eq)]
pub struct VersionEntry {
    pub id: u64,
    pub version_type_id: u64,
    pub name: String,
    pub slug: String,
}

/// One upstream version-type record.
#[derive(Debug, Clone, PartialEq, Eq)]
pub struct VersionTypeEntry {
    pub id: u64,
    pub name: String,
    pub slug: String,
}

/// One write to the mirror, as a statement of the replacing transaction.
#[derive(Debug, Clone, PartialEq, Eq)]
pub enum MirrorOp {
    ClearVersions,
    InsertVersion(VersionEntry),
    ClearVersionTypes,
    InsertVersionType(VersionTypeEntry),
}

/// The contents of the mirror: both tables, rows in insertion order.
pub struct Snapshot {
    pub versions: Seq<VersionEntry>,
    pub types: Seq<VersionTypeEntry>,
}

/// What one write does to the mirror.
pub open spec fn apply_op(s: Snapshot, op: MirrorOp) -> Snapshot {
    match op {
        MirrorOp::ClearVersions => Snapshot { versions: Seq::empty(), types: s.types },
        MirrorOp::InsertVersion(e) => Snapshot { versions: s.versions.push(e), types: s.types },
        MirrorOp::ClearVersionTypes => Snapshot { versions: s.versions, types: Seq::empty() },
        MirrorOp::InsertVersionType(e) => Snapshot { versions: s.versions, types: s.types.push(e) },
    }
}

/// What a sequence of writes does to the mirror, first to last.
pub open spec fn apply_ops(s: Snapshot, ops: Seq<MirrorOp>) -> Snapshot
    decreases ops.len(),
{
    if ops.len() == 0 {
        s
    } else {
        apply_op(apply_ops(s, ops.drop_last()), ops.last())
    }
}

/// A transaction over `ops` that stops at the write `failed_at`, if any, is
/// rolled back; otherwise all its writes take effect together.
pub open spec fn run_transaction(s: Snapshot, ops: Seq<MirrorOp>, failed_at: Option<nat>) -> Snapshot {
    match failed_at {
        Some(k) => if k < ops.len() { s } else { apply_ops(s, ops) },
        None => apply_ops(s, ops),
    }
}

/// One insert per version record, in order.
pub open spec fn version_inserts(v: Seq<VersionEntry>) -> Seq<MirrorOp> {
    v.map_values(|e: VersionEntry| MirrorOp::InsertVersion(e))
}

/// One insert per version-type record, in order.
pub open spec fn type_inserts(t: Seq<VersionTypeEntry>) -> Seq<MirrorOp> {
    t.map_values(|e: VersionTypeEntry| MirrorOp::InsertVersionType(e))
}

/// The writes that replace the whole mirror with the given records.
pub open spec fn replace_ops(v: Seq<VersionEntry>, t: Seq<VersionTypeEntry>) -> Seq<MirrorOp> {
    seq![MirrorOp::ClearVersions] + version_inserts(v) + seq![MirrorOp::ClearVersionTypes]
        + type_inserts(t)
}

/// The statement text of each kind of write; an insert binds the record's
/// fields in column order.
pub open spec fn op_sql(op: MirrorOp) -> Seq<char> {
    match op {
        MirrorOp::ClearVersions => "DELETE FROM versions"@,
        MirrorOp::InsertVersion(_) => "INSERT INTO versions VALUES (?, ?, ?, ?)"@,
        MirrorOp::ClearVersionTypes => "DELETE FROM versionTypes"@,
        MirrorOp::InsertVersionType(_) => "INSERT INTO versionTypes VALUES (?, ?, ?)"@,
    }
}

impl MirrorOp {
    /// The SQL statement that performs this write.
    pub fn sql(&self) -> (r: &'static str)
        ensures
            r@ == op_sql(*self),
    {
        match self {
            MirrorOp::ClearVersions => {
                proof { reveal_strlit("DELETE FROM versions"); }
                "DELETE FROM versions"
            },
            MirrorOp::InsertVersion(_) => {
                proof { reveal_strlit("INSERT INTO versions VALUES (?, ?, ?, ?)"); }
                "INSERT INTO versions VALUES (?, ?, ?, ?)"
            },
            MirrorOp::ClearVersionTypes => {
                proof { reveal_strlit("DELETE FROM versionTypes"); }
                "DELETE FROM versionTypes"
            },
            MirrorOp::InsertVersionType(_) => {
                proof { reveal_strlit("INSERT INTO versionTypes VALUES (?, ?, ?)"); }
                "INSERT INTO versionTypes VALUES (?, ?, ?)"
            },
        }
    }
}

/// The statements that create both tables of the mirror where they are
/// absent; running them again changes nothing.
pub fn schema_sql() -> (r: Vec<&'static str>)
    ensures
        r@.len() == 2,
        r@[0]@ == "CREATE TABLE IF NOT EXISTS versions (id INT PRIMARY KEY, gameVersionTypeID INT, name TEXT, slug TEXT)"@,
        r@[1]@ == "CREATE TABLE IF NOT EXISTS versionTypes (id INT PRIMARY KEY, name TEXT, slug TEXT)"@,
{
    let mut r: Vec<&'static str> = Vec::new();
    r.push("CREATE TABLE IF NOT EXISTS versions (id INT PRIMARY KEY, gameVersionTypeID INT, name TEXT, slug TEXT)");
    r.push("CREATE TABLE IF NOT EXISTS versionTypes (id INT PRIMARY KEY, name TEXT, slug TEXT)");
    r
}

/// The writes that replace the whole mirror with `versions` and `types`:
/// each table is cleared, then refilled with its records in order.
pub fn replace_plan(versions: Vec<VersionEntry>, types: Vec<VersionTypeEntry>) -> (r: Vec<MirrorOp>)
    ensures
        r@ == replace_ops(versions@, types@),
{
    let ghost v = versions@;
    let ghost t = types@;
    let mut ops: Vec<MirrorOp> = Vec::new();
    ops.push(MirrorOp::ClearVersions);
    let mut rv = reversed(versions);
    while rv.len() > 0
        invariant
            rv@.len() <= v.len(),
            forall|j: int| 0 <= j < rv@.len() ==> rv@[j] == v[v.len() - 1 - j],
            ops@ == seq![MirrorOp::ClearVersions] + version_inserts(v.take(v.len() - rv@.len())),
        decreases rv@.len(),
    {
        let ghost k = v.len() - rv@.len();
        match rv.pop() {
            Some(e) => {
                ops.push(MirrorOp::InsertVersion(e));
            },
            None => {},
        }
        proof {
            assert(v.take(k + 1) =~= v.take(k).push(v[k]));
            assert(version_inserts(v.take(k + 1)) =~= version_inserts(v.take(k)).push(
                MirrorOp::InsertVersion(v[k]),
            ));
        }
    }
    proof {
        assert(v.take(v.len() as int) =~= v);
    }
    ops.push(MirrorOp::ClearVersionTypes);
    let ghost mid = ops@;
    let mut rt = reversed(types);
    while rt.len() > 0
        invariant
            rt@.len() <= t.len(),
            forall|j: int| 0 <= j < rt@.len() ==> rt@[j] == t[t.len() - 1 - j],
            ops@ == mid + type_inserts(t.take(t.len() - rt@.len())),
        decreases rt@.len(),
    {
        let ghost k = t.len() - rt@.len();
        match rt.pop() {
            Some(e) => {
                ops.push(MirrorOp::InsertVersionType(e));
            },
            None => {},
        }
        proof {
            assert(t.take(k + 1) =~= t.take(k).push(t[k]));
            assert(type_inserts(t.take(k + 1)) =~= type_inserts(t.take(k)).push(
                MirrorOp::InsertVersionType(t[k]),
            ));
        }
    }
    proof {
        assert(t.take(t.len() as int) =~= t);
        assert(ops@ =~= replace_ops(v, t));
    }
    ops
}

proof fn lemma_apply_concat(s: Snapshot, a: Seq<MirrorOp>, b: Seq<MirrorOp>)
    ensures
        apply_ops(s, a + b) == apply_ops(apply_ops(s, a), b),
    decreases b.len(),
{
    if b.len() == 0 {
        assert(a + b =~= a);
    } else {
        assert((a + b).drop_last() =~= a + b.drop_last());
        lemma_apply_concat(s, a, b.drop_last());
    }
}

proof fn lemma_version_inserts(s: Snapshot, v: Seq<VersionEntry>)
    ensures
        apply_ops(s, version_inserts(v)) == (Snapshot { versions: s.versions + v, types: s.types }),
    decreases v.len(),
{
    if v.len() == 0 {
        assert(version_inserts(v) =~= Seq::<MirrorOp>::empty());
        assert(s.versions + v =~= s.versions);
    } else {
        let ops = version_inserts(v);
        assert(ops.drop_last() =~= version_inserts(v.drop_last()));
        assert(ops.last() == ops[v.len() - 1]);
        lemma_version_inserts(s, v.drop_last());
        assert((s.versions + v.drop_last()).push(v.last()) =~= s.versions + v);
    }
}

proof fn lemma_type_inserts(s: Snapshot, t: Seq<VersionTypeEntry>)
    ensures
        apply_ops(s, type_inserts(t)) == (Snapshot { versions: s.versions, types: s.types + t }),
    decreases t.len(),
{
    if t.len() == 0 {
        assert(type_inserts(t) =~= Seq::<MirrorOp>::empty());
        assert(s.types + t =~= s.types);
    } else {
        let ops = type_inserts(t);
        assert(ops.drop_last() =~= type_inserts(t.drop_last()));
        assert(ops.last() == ops[t.len() - 1]);
        lemma_type_inserts(s, t.drop_last());
        assert((s.types + t.drop_last()).push(t.last()) =~= s.types + t);
    }
}

/// Applying the replacement writes in full leaves exactly the new records,
/// whatever the mirror held before: no row of the old snapshot survives.
pub proof fn lemma_replace_yields_new(prior: Snapshot, v: Seq<VersionEntry>, t: Seq<VersionTypeEntry>)
    ensures
        apply_ops(prior, replace_ops(v, t)) == (Snapshot { versions: v, types: t }),
{
    let c1 = seq![MirrorOp::ClearVersions];
    let c2 = seq![MirrorOp::ClearVersionTypes];
    let vi = version_inserts(v);
    let ti = type_inserts(t);
    assert(replace_ops(v, t) == c1 + vi + c2 + ti);
    lemma_apply_concat(prior, c1 + vi + c2, ti);
    lemma_apply_concat(prior, c1 + vi, c2);
    lemma_apply_concat(prior, c1, vi);
    assert(apply_ops(prior, c1) == apply_op(apply_ops(prior, c1.drop_last()), MirrorOp::ClearVersions));
    assert(c1.drop_last() =~= Seq::<MirrorOp>::empty());
    let s1 = apply_ops(prior, c1);
    lemma_version_inserts(s1, v);
    assert(Seq::<VersionEntry>::empty() + v =~= v);
    let s2 = apply_ops(s1, vi);
    assert(c2.drop_last() =~= Seq::<MirrorOp>::empty());
    assert(apply_ops(s2, c2) == apply_op(apply_ops(s2, c2.drop_last()), MirrorOp::ClearVersionTypes));
    let s3 = apply_ops(s2, c2);
    lemma_type_inserts(s3, t);
    assert(Seq::<VersionTypeEntry>::empty() + t =~= t);
}

/// Replacing the mirror is atomic: a transaction that fails at any write
/// leaves the prior snapshot whole, and one that completes leaves exactly the
/// new snapshot; a mix of old and new rows is never the outcome.
pub proof fn lemma_replace_atomic(
    prior: Snapshot,
    v: Seq<VersionEntry>,
    t: Seq<VersionTypeEntry>,
    failed_at: Option<nat>,
)
    ensures
        run_transaction(prior, replace_ops(v, t), failed_at) == (if failed_at is Some
            && failed_at->Some_0 < replace_ops(v, t).len() {
            prior
        } else {
            Snapshot { versions: v, types: t }
        }),
{
    lemma_replace_yields_new(prior, v, t);
}

} // verus!
