use vstd::prelude::*;
use vstd::string::*;
use crate::entity::DbError;
use crate::migration::{migration_sql, Migration};
use crate::text::{decimal, push_decimal};

verus! {

#[verifier::external_type_specification]
#[verifier::external_body]
pub struct ExRefineryError(refinery::Error);

/// A migration made ready to run: its position is its version, its table its name.
pub struct MigrationUnit {
    pub version: u64,
    pub name: String,
    pub file_name: String,
    pub sql: String,
    pub checksum: u64,
}

/// A migration that the history table records as applied.
pub struct HistoryEntry {
    pub version: u64,
    pub name: String,
    pub checksum: u64,
}

/// What a run does with one migration.
#[derive(PartialEq, Eq, Structural, Clone, Copy, Debug)]
pub enum Outcome {
    Apply,
    Skip,
    Diverged,
}

/// The checksum that refinery gives a migration of this versioned name and text.
pub uninterp spec fn checksum_of(file_name: Seq<char>, sql: Seq<char>) -> u64;

/// A character that refinery's name pattern counts as a word character.
pub open spec fn ascii_word(c: char) -> bool {
    ('a' <= c && c <= 'z') || ('A' <= c && c <= 'Z') || ('0' <= c && c <= '9') || c == '_'
}

/// Relies on refinery's `Migration::unapplied` and `Migration::checksum`: it
/// parses the versioned name and hashes name, version and text. A name made of
/// `V`, a version that fits an `i32`, `__` and a word character is accepted.
#[verifier::external_body]
fn refinery_checksum(file_name: &String, sql: &String) -> (r: Result<u64, refinery::Error>)
    requires
        file_name@.len() > 0,
        file_name@[0] == 'V',
    ensures
        r matches Ok(c) ==> c == checksum_of(file_name@, sql@),
        (exists|v: nat, t: Seq<char>|
            v <= i32::MAX && t.len() > 0 && ascii_word(t[0]) && file_name@ == #[trigger] file_name_of(v, t))
            ==> r is Ok,
{
    refinery::Migration::unapplied(file_name, sql).map(|m| m.checksum())
}

/// The versioned name under which the migration at a position is recorded.
pub open spec fn file_name_of(version: nat, table: Seq<char>) -> Seq<char> {
    "V"@ + decimal(version) + "__"@ + table + ".rs"@
}

/// The unit made of the migration at position `i`.
pub open spec fn unit_of(i: int, m: Migration, u: MigrationUnit) -> bool {
    &&& u.version == i
    &&& u.name@ == m.table@
    &&& u.file_name@ == file_name_of(i as nat, m.table@)
    &&& u.sql@ == migration_sql(m.table@, m.view_columns())
    &&& u.checksum == checksum_of(u.file_name@, u.sql@)
}

fn versioned_name(version: usize, table: &String) -> (r: String)
    ensures
        r@ == file_name_of(version as nat, table@),
{
    let mut s = String::from_str("V");
    push_decimal(&mut s, version as u128);
    s.append("__");
    s.append(table.as_str());
    s.append(".rs");
    s
}

/// Versions the migrations by position and names them by table. Fails when
/// refinery refuses a versioned name.
pub fn to_units(ms: &Vec<Migration>) -> (r: Result<Vec<MigrationUnit>, DbError>)
    ensures
        r matches Ok(us) ==> us@.len() == ms@.len() && forall|i: int|
            0 <= i < ms@.len() ==> unit_of(i, ms@[i], #[trigger] us@[i]),
        ms@.len() <= i32::MAX && (forall|i: int| 0 <= i < ms@.len() ==> (#[trigger] ms@[i]).table@.len() > 0
            && ascii_word(ms@[i].table@[0])) ==> r is Ok,
{
    let mut us: Vec<MigrationUnit> = Vec::new();
    let mut i: usize = 0;
    while i < ms.len()
        invariant
            i <= ms@.len(),
            us@.len() == i,
            forall|j: int| 0 <= j < i ==> unit_of(j, ms@[j], #[trigger] us@[j]),
        decreases ms@.len() - i,
    {
        let m = &ms[i];
        let sql = m.to_sql();
        let file_name = versioned_name(i, &m.table);
        proof {
            reveal_strlit("V");
            assert(file_name@[0] == "V"@[0]);
        }
        assert(file_name@ == file_name_of(i as nat, m.table@));
        let checksum = match refinery_checksum(&file_name, &sql) {
            Ok(c) => c,
            Err(_) => {
                return Err(DbError::Migration(String::from_str("invalid migration name")));
            },
        };
        us.push(MigrationUnit { version: i as u64, name: m.table.clone(), file_name, sql, checksum });
        i = i + 1;
    }
    Ok(us)
}

/// The first history entry of a version.
pub open spec fn find_version(h: Seq<HistoryEntry>, v: u64) -> Option<HistoryEntry>
    decreases h.len(),
{
    if h.len() == 0 {
        None
    } else if h[0].version == v {
        Some(h[0])
    } else {
        find_version(h.drop_first(), v)
    }
}

/// A recorded migration of the same name and checksum is skipped, one that
/// differs has diverged, and one not recorded is applied.
pub open spec fn outcome_of(h: Seq<HistoryEntry>, u: MigrationUnit) -> Outcome {
    match find_version(h, u.version) {
        None => Outcome::Apply,
        Some(e) => if e.name@ == u.name@ && e.checksum == u.checksum {
            Outcome::Skip
        } else {
            Outcome::Diverged
        },
    }
}

/// The history entry that applying a unit records.
pub open spec fn entry_of(u: MigrationUnit) -> HistoryEntry {
    HistoryEntry { version: u.version, name: u.name, checksum: u.checksum }
}

/// The entries that a run adds: one per applied unit, in version order.
pub open spec fn new_entries(h: Seq<HistoryEntry>, us: Seq<MigrationUnit>) -> Seq<HistoryEntry>
    decreases us.len(),
{
    if us.len() == 0 {
        Seq::empty()
    } else if outcome_of(h, us.last()) == Outcome::Apply {
        new_entries(h, us.drop_last()).push(entry_of(us.last()))
    } else {
        new_entries(h, us.drop_last())
    }
}

/// The history after a run.
pub open spec fn history_after(h: Seq<HistoryEntry>, us: Seq<MigrationUnit>) -> Seq<HistoryEntry> {
    h + new_entries(h, us)
}

fn find_entry(h: &Vec<HistoryEntry>, v: u64) -> (r: Option<usize>)
    ensures
        match r {
            Some(k) => k < h@.len() && find_version(h@, v) == Some(h@[k as int]),
            None => find_version(h@, v) is None,
        },
{
    let n = h.len();
    let mut i: usize = 0;
    assert(h@.subrange(0, n as int) =~= h@);
    while i < n
        invariant
            n == h@.len(),
            i <= n,
            find_version(h@, v) == find_version(h@.subrange(i as int, n as int), v),
        decreases n - i,
    {
        let ghost rest = h@.subrange(i as int, n as int);
        assert(rest[0] == h@[i as int]);
        if h[i].version == v {
            return Some(i);
        }
        assert(rest.drop_first() =~= h@.subrange(i + 1, n as int));
        i = i + 1;
    }
    None
}

/// Decides, in version order, what a run does with each unit.
pub fn plan(history: &Vec<HistoryEntry>, units: &Vec<MigrationUnit>) -> (r: Vec<Outcome>)
    ensures
        r@.len() == units@.len(),
        forall|i: int| 0 <= i < units@.len() ==> #[trigger] r@[i] == outcome_of(history@, units@[i]),
{
    let mut r: Vec<Outcome> = Vec::new();
    let mut i: usize = 0;
    while i < units.len()
        invariant
            i <= units@.len(),
            r@.len() == i,
            forall|j: int| 0 <= j < i ==> #[trigger] r@[j] == outcome_of(history@, units@[j]),
        decreases units@.len() - i,
    {
        let u = &units[i];
        let o = match find_entry(history, u.version) {
            None => Outcome::Apply,
            Some(k) => {
                let e = &history[k];
                if e.name == u.name && e.checksum == u.checksum {
                    Outcome::Skip
                } else {
                    Outcome::Diverged
                }
            },
        };
        r.push(o);
        i = i + 1;
    }
    r
}

/// Records an applied unit in the history.
pub fn record_applied(history: &mut Vec<HistoryEntry>, u: &MigrationUnit)
    ensures
        final(history)@ == old(history)@.push(entry_of(*u)),
{
    history.push(HistoryEntry { version: u.version, name: u.name.clone(), checksum: u.checksum });
}

proof fn lemma_find_append(a: Seq<HistoryEntry>, b: Seq<HistoryEntry>, v: u64)
    ensures
        find_version(a + b, v) == match find_version(a, v) {
            Some(e) => Some(e),
            None => find_version(b, v),
        },
    decreases a.len(),
{
    if a.len() == 0 {
        assert(a + b =~= b);
    } else {
        assert((a + b).drop_first() =~= a.drop_first() + b);
        assert((a + b)[0] == a[0]);
        lemma_find_append(a.drop_first(), b, v);
    }
}

proof fn lemma_find_single(e: HistoryEntry, v: u64)
    ensures
        find_version(seq![e], v) == if e.version == v { Some(e) } else { None::<HistoryEntry> },
{
    assert(seq![e].drop_first() =~= Seq::<HistoryEntry>::empty());
    assert(find_version(Seq::<HistoryEntry>::empty(), v) is None);
    assert(seq![e][0] == e);
}

/// Every entry that a run adds has the version of one of its units, and the
/// unit at position `i` is found under its own version once it was applied.
proof fn lemma_new_entries_find(h: Seq<HistoryEntry>, us: Seq<MigrationUnit>, i: int)
    requires
        forall|j: int| 0 <= j < us.len() ==> (#[trigger] us[j]).version == j,
        0 <= i < us.len(),
    ensures
        outcome_of(h, us[i]) == Outcome::Apply ==> find_version(new_entries(h, us), us[i].version)
            == Some(entry_of(us[i])),
        outcome_of(h, us[i]) != Outcome::Apply ==> find_version(new_entries(h, us), us[i].version)
            is None,
    decreases us.len(),
{
    let d = us.drop_last();
    let last = us.last();
    if i < us.len() - 1 {
        assert(d[i] == us[i]);
        lemma_new_entries_find(h, d, i);
        if outcome_of(h, last) == Outcome::Apply {
            lemma_find_append(new_entries(h, d), seq![entry_of(last)], us[i].version);
            lemma_find_single(entry_of(last), us[i].version);
            assert(new_entries(h, d).push(entry_of(last)) == new_entries(h, d) + seq![entry_of(last)]);
        }
    } else {
        lemma_new_entries_absent(h, d, us[i].version);
        if outcome_of(h, last) == Outcome::Apply {
            lemma_find_append(new_entries(h, d), seq![entry_of(last)], us[i].version);
            lemma_find_single(entry_of(last), us[i].version);
            assert(new_entries(h, d).push(entry_of(last)) == new_entries(h, d) + seq![entry_of(last)]);
        }
    }
}

/// A version beyond the units' positions is not among the added entries.
proof fn lemma_new_entries_absent(h: Seq<HistoryEntry>, us: Seq<MigrationUnit>, v: u64)
    requires
        forall|j: int| 0 <= j < us.len() ==> (#[trigger] us[j]).version == j,
        v >= us.len(),
    ensures
        find_version(new_entries(h, us), v) is None,
    decreases us.len(),
{
    if us.len() > 0 {
        let d = us.drop_last();
        assert forall|j: int| 0 <= j < d.len() implies (#[trigger] d[j]).version == j by {
            assert(d[j] == us[j]);
        }
        lemma_new_entries_absent(h, d, v);
        if outcome_of(h, us.last()) == Outcome::Apply {
            lemma_find_append(new_entries(h, d), seq![entry_of(us.last())], v);
            lemma_find_single(entry_of(us.last()), v);
            assert(new_entries(h, d).push(entry_of(us.last())) == new_entries(h, d) + seq![
                entry_of(us.last()),
            ]);
        }
    }
}

/// Running the same units a second time, over the history that the first run
/// left, skips every one of them, so no schema statement runs; this holds where
/// the first run found no divergence.
pub proof fn lemma_second_run_skips(h: Seq<HistoryEntry>, us: Seq<MigrationUnit>)
    requires
        forall|j: int| 0 <= j < us.len() ==> (#[trigger] us[j]).version == j,
        forall|j: int| 0 <= j < us.len() ==> outcome_of(h, #[trigger] us[j]) != Outcome::Diverged,
    ensures
        forall|j: int| 0 <= j < us.len() ==> outcome_of(history_after(h, us), #[trigger] us[j])
            == Outcome::Skip,
{
    assert forall|j: int| 0 <= j < us.len() implies outcome_of(history_after(h, us), #[trigger] us[j])
        == Outcome::Skip by {
        lemma_find_append(h, new_entries(h, us), us[j].version);
        lemma_new_entries_find(h, us, j);
    }
}

/// A second run over the history that the first run left applies nothing, so
/// it runs no schema statement: what the first run applied is now skipped, and
/// what it skipped or found diverged keeps its outcome.
pub proof fn lemma_second_run_applies_nothing(h: Seq<HistoryEntry>, us: Seq<MigrationUnit>)
    requires
        forall|j: int| 0 <= j < us.len() ==> (#[trigger] us[j]).version == j,
    ensures
        forall|j: int| 0 <= j < us.len() ==> outcome_of(history_after(h, us), #[trigger] us[j])
            != Outcome::Apply,
        forall|j: int| 0 <= j < us.len() ==> outcome_of(h, #[trigger] us[j]) != Outcome::Apply
            ==> outcome_of(history_after(h, us), us[j]) == outcome_of(h, us[j]),
{
    assert forall|j: int| 0 <= j < us.len() implies outcome_of(history_after(h, us), #[trigger] us[j])
        != Outcome::Apply && (outcome_of(h, us[j]) != Outcome::Apply ==> outcome_of(
        history_after(h, us),
        us[j],
    ) == outcome_of(h, us[j])) by {
        lemma_find_append(h, new_entries(h, us), us[j].version);
        lemma_new_entries_find(h, us, j);
    }
}

/// A recorded migration whose checksum differs from its current one is reported
/// as diverged, while a migration that was never recorded is applied.
pub proof fn lemma_divergence_reported(h: Seq<HistoryEntry>, changed: MigrationUnit, fresh: MigrationUnit)
    requires
        find_version(h, changed.version) matches Some(e) && e.checksum != changed.checksum,
        find_version(h, fresh.version) is None,
    ensures
        outcome_of(h, changed) == Outcome::Diverged,
        outcome_of(h, fresh) == Outcome::Apply,
{
}

} // verus!
