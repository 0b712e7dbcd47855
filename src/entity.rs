use vstd::prelude::*;
use crate::attrs::{EntityAttr, IndexAttr, RelationAttr};
use crate::descriptor::{
    diagnostics, table_name_of, view_opt, ConfigError, EntityDescriptor, Field,
};
use crate::sql::{
    build_delete, build_insert, build_select, build_select_first, build_update, delete_sql,
    insert_sql, select_first_sql, select_sql, update_sql, views,
};
use crate::value::{default_view, is_default, type_of, values_view, Record, Row, Value, ValueView};

verus! {

/// Failures of the data-access operations.
#[derive(Debug)]
pub enum DbError {
    /// The pool could not hand out a connection, or the store is unreachable.
    Connection(String),
    /// Preparing or running a statement failed.
    Query(String),
    /// An insert returned no row.
    DataIntegrity,
    /// Applying a migration failed.
    Migration(String),
}

/// A statement with its positional parameters.
pub struct Statement {
    pub sql: String,
    pub params: Vec<Value>,
}

/// What `save` runs: an insert for a new record, an update for a stored one.
pub enum SaveStatement {
    Insert(Statement),
    Update(Statement),
}

/// Fields that are written by insert and update: neither ignored nor the key.
pub open spec fn persisted(f: Field) -> bool {
    !f.ignored && !f.primary_key
}

/// Positions of the persisted fields, in declaration order.
pub open spec fn plain_positions(fs: Seq<Field>) -> Seq<int>
    decreases fs.len(),
{
    if fs.len() == 0 {
        Seq::empty()
    } else if persisted(fs.last()) {
        plain_positions(fs.drop_last()).push(fs.len() - 1)
    } else {
        plain_positions(fs.drop_last())
    }
}

pub open spec fn plain_names(fs: Seq<Field>) -> Seq<Seq<char>> {
    plain_positions(fs).map_values(|p: int| fs[p].name@)
}

pub open spec fn plain_values(fs: Seq<Field>, rec: Seq<ValueView>) -> Seq<ValueView> {
    plain_positions(fs).map_values(|p: int| rec[p])
}

/// The first value under a column name.
pub open spec fn lookup(row: Seq<(Seq<char>, ValueView)>, name: Seq<char>) -> Option<ValueView>
    decreases row.len(),
{
    if row.len() == 0 {
        None
    } else if row[0].0 == name {
        Some(row[0].1)
    } else {
        lookup(row.drop_first(), name)
    }
}

/// A field's value decoded from a row: ignored fields take their default, the
/// others the column of their name, which must hold their type.
pub open spec fn decode_field(f: Field, row: Seq<(Seq<char>, ValueView)>) -> Option<ValueView> {
    if f.ignored {
        Some(default_view(f.ty))
    } else {
        match lookup(row, f.name@) {
            Some(v) => if type_of(v) == f.ty { Some(v) } else { None },
            None => None,
        }
    }
}

pub open spec fn decode(fs: Seq<Field>, row: Seq<(Seq<char>, ValueView)>) -> Option<Seq<ValueView>>
    decreases fs.len(),
{
    if fs.len() == 0 {
        Some(Seq::empty())
    } else {
        match (decode(fs.drop_last(), row), decode_field(fs.last(), row)) {
            (Some(a), Some(v)) => Some(a.push(v)),
            _ => None,
        }
    }
}

pub open spec fn decode_all(fs: Seq<Field>, rows: Seq<Seq<(Seq<char>, ValueView)>>) -> Option<
    Seq<Seq<ValueView>>,
>
    decreases rows.len(),
{
    if rows.len() == 0 {
        Some(Seq::empty())
    } else {
        match (decode_all(fs, rows.drop_last()), decode(fs, rows.last())) {
            (Some(a), Some(r)) => Some(a.push(r)),
            _ => None,
        }
    }
}

pub open spec fn value_opt_view(v: Option<Value>) -> Option<ValueView> {
    match v {
        Some(x) => Some(x@),
        None => None,
    }
}

pub open spec fn record_opt_view(r: Option<Record>) -> Option<Seq<ValueView>> {
    match r {
        Some(x) => Some(x@),
        None => None,
    }
}

pub open spec fn rows_view(rows: Seq<Row>) -> Seq<Seq<(Seq<char>, ValueView)>> {
    rows.map_values(|r: Row| r@)
}

pub open spec fn records_view(rs: Seq<Record>) -> Seq<Seq<ValueView>> {
    rs.map_values(|r: Record| r@)
}

pub open spec fn first_view(r: Option<Option<Record>>) -> Option<Option<Seq<ValueView>>> {
    match r {
        Some(o) => Some(record_opt_view(o)),
        None => None,
    }
}

pub open spec fn records_opt_view(r: Option<Vec<Record>>) -> Option<Seq<Seq<ValueView>>> {
    match r {
        Some(v) => Some(records_view(v@)),
        None => None,
    }
}

pub proof fn lemma_plain_bounds(fs: Seq<Field>)
    ensures
        forall|k: int| 0 <= k < plain_positions(fs).len() ==> 0 <= #[trigger] plain_positions(fs)[k] < fs.len(),
    decreases fs.len(),
{
    if fs.len() > 0 {
        let p = plain_positions(fs.drop_last());
        lemma_plain_bounds(fs.drop_last());
        if persisted(fs.last()) {
            assert forall|k: int| 0 <= k < plain_positions(fs).len() implies 0
                <= #[trigger] plain_positions(fs)[k] < fs.len() by {
                if k < p.len() {
                    assert(plain_positions(fs)[k] == p[k]);
                }
            }
        }
    }
}

pub open spec fn positions_view(v: Seq<usize>) -> Seq<int> {
    v.map_values(|p: usize| p as int)
}

/// The operations generated for one entity.
pub struct Entity {
    pub descriptor: EntityDescriptor,
    pub plain: Vec<usize>,
    pub insert_sql: String,
    pub update_sql: String,
    pub delete_sql: String,
}

impl Entity {
    pub open spec fn fields(&self) -> Seq<Field> {
        self.descriptor.fields@
    }

    pub open spec fn pk(&self) -> int {
        self.descriptor.primary_key as int
    }

    pub open spec fn pk_name(&self) -> Seq<char> {
        self.fields()[self.pk()].name@
    }

    pub open spec fn table(&self) -> Seq<char> {
        self.descriptor.table_name@
    }

    /// The statements are the ones that the description determines.
    pub open spec fn wf(&self) -> bool {
        &&& self.descriptor.wf()
        &&& positions_view(self.plain@) == plain_positions(self.fields())
        &&& self.insert_sql@ == insert_sql(self.table(), plain_names(self.fields()), self.pk_name())
        &&& self.update_sql@ == update_sql(self.table(), plain_names(self.fields()), self.pk_name())
        &&& self.delete_sql@ == delete_sql(self.table(), self.pk_name())
    }
}

impl Entity {
    /// The persisted field values, in declaration order.
    fn plain_params(&self, rec: &Record) -> (r: Vec<Value>)
        requires
            self.wf(),
            rec@.len() == self.fields().len(),
        ensures
            values_view(r@) == plain_values(self.fields(), rec@),
    {
        proof {
            lemma_plain_bounds(self.fields());
        }
        let mut r: Vec<Value> = Vec::new();
        let mut k: usize = 0;
        while k < self.plain.len()
            invariant
                self.wf(),
                rec@.len() == self.fields().len(),
                forall|j: int| 0 <= j < plain_positions(self.fields()).len() ==> 0 <= #[trigger] plain_positions(self.fields())[j] < self.fields().len(),
                k <= self.plain@.len(),
                r@.len() == k,
                forall|j: int| 0 <= j < k ==> (#[trigger] r@[j])@ == rec@[self.plain@[j] as int],
            decreases self.plain@.len() - k,
        {
            assert(positions_view(self.plain@)[k as int] == self.plain@[k as int] as int);
            let p = self.plain[k];
            let v = rec.values[p].copy();
            r.push(v);
            k = k + 1;
        }
        assert(values_view(r@) =~= plain_values(self.fields(), rec@)) by {
            assert(positions_view(self.plain@).len() == self.plain@.len());
            assert forall|j: int| 0 <= j < r@.len() implies values_view(r@)[j] == plain_values(self.fields(), rec@)[j] by {
                assert(positions_view(self.plain@)[j] == self.plain@[j] as int);
            }
        }
        r
    }

    /// The statement that `save` runs: an insert of the persisted fields when the
    /// key holds its default, else an update of them keyed by the primary key.
    pub fn save_statement(&self, rec: &Record) -> (r: SaveStatement)
        requires
            self.wf(),
            rec@.len() == self.fields().len(),
        ensures
            match r {
                SaveStatement::Insert(st) => {
                    &&& is_default(rec@[self.pk()])
                    &&& st.sql@ == insert_sql(self.table(), plain_names(self.fields()), self.pk_name())
                    &&& values_view(st.params@) == plain_values(self.fields(), rec@)
                },
                SaveStatement::Update(st) => {
                    &&& !is_default(rec@[self.pk()])
                    &&& st.sql@ == update_sql(self.table(), plain_names(self.fields()), self.pk_name())
                    &&& values_view(st.params@) == plain_values(self.fields(), rec@).push(rec@[self.pk()])
                },
            },
    {
        let key = &rec.values[self.descriptor.primary_key];
        let mut params = self.plain_params(rec);
        if key.is_default() {
            SaveStatement::Insert(Statement { sql: self.insert_sql.clone(), params })
        } else {
            let ghost before = params@;
            params.push(key.copy());
            assert(values_view(params@) =~= values_view(before).push(rec@[self.pk()]));
            SaveStatement::Update(Statement { sql: self.update_sql.clone(), params })
        }
    }

    /// Whether a key returned by an insert can identify the record: it has the
    /// key field's type and is not its default.
    pub open spec fn key_accepted(&self, returned: Option<Value>) -> bool {
        returned matches Some(k) && type_of(k@) == self.fields()[self.pk()].ty && !is_default(k@)
    }

    /// The key that an insert returned: the key column of the first row.
    pub fn returned_key(&self, rows: &Vec<Row>) -> (r: Option<Value>)
        requires
            self.wf(),
        ensures
            value_opt_view(r) == if rows@.len() == 0 {
                None
            } else {
                lookup(rows@[0]@, self.pk_name())
            },
    {
        if rows.len() == 0 {
            return None;
        }
        let row = &rows[0];
        match find_cell(row, &self.descriptor.fields[self.descriptor.primary_key].name) {
            Some(k) => Some(row.cells[k].value.copy()),
            None => None,
        }
    }

    /// Completes an insert with the key that the store returned: an accepted key
    /// is stored on the record, which counts as created; a missing, mistyped or
    /// default key is a data error and leaves the record as it was.
    pub fn finish_insert(&self, rec: &mut Record, returned: Option<Value>) -> (r: Result<bool, DbError>)
        requires
            self.wf(),
            old(rec)@.len() == self.fields().len(),
        ensures
            self.key_accepted(returned) ==> r == Ok::<bool, DbError>(true) && final(rec)@ == old(rec)@.update(
                self.pk(),
                returned->Some_0@,
            ),
            !self.key_accepted(returned) ==> r == Err::<bool, DbError>(DbError::DataIntegrity) && final(rec)@
                == old(rec)@,
    {
        match returned {
            Some(k) => {
                if k.sem_type() == self.descriptor.fields[self.descriptor.primary_key].ty && !k.is_default() {
                    rec.values.set(self.descriptor.primary_key, k);
                    assert(final(rec)@ =~= old(rec)@.update(self.pk(), k@));
                    Ok(true)
                } else {
                    Err(DbError::DataIntegrity)
                }
            },
            None => Err(DbError::DataIntegrity),
        }
    }

    /// Completes an update: a stored record is never created, whatever the row count.
    pub fn finish_update(&self, executed: Result<u64, DbError>) -> (r: Result<bool, DbError>)
        ensures
            match executed {
                Ok(_) => r == Ok::<bool, DbError>(false),
                Err(e) => r == Err::<bool, DbError>(e),
            },
    {
        match executed {
            Ok(_) => Ok(false),
            Err(e) => Err(e),
        }
    }

    /// The statement that `delete` runs; none for a record whose key holds its default.
    pub fn delete_statement(&self, rec: &Record) -> (r: Option<Statement>)
        requires
            self.wf(),
            rec@.len() == self.fields().len(),
        ensures
            match r {
                None => is_default(rec@[self.pk()]),
                Some(st) => {
                    &&& !is_default(rec@[self.pk()])
                    &&& st.sql@ == delete_sql(self.table(), self.pk_name())
                    &&& values_view(st.params@) == seq![rec@[self.pk()]]
                },
            },
    {
        let key = &rec.values[self.descriptor.primary_key];
        if key.is_default() {
            None
        } else {
            let params = vec![key.copy()];
            assert(values_view(params@) =~= seq![rec@[self.pk()]]);
            Some(Statement { sql: self.delete_sql.clone(), params })
        }
    }

    /// Completes a delete with the affected-row count: when a row went, the key is
    /// reset to its default and the result is true; else nothing changes.
    pub fn finish_delete(&self, rec: &mut Record, affected: u64) -> (r: bool)
        requires
            self.wf(),
            old(rec)@.len() == self.fields().len(),
        ensures
            r == (affected != 0),
            affected == 0 ==> final(rec)@ == old(rec)@,
            affected != 0 ==> final(rec)@ == old(rec)@.update(
                self.pk(),
                default_view(self.fields()[self.pk()].ty),
            ),
    {
        if affected == 0 {
            false
        } else {
            let t = self.descriptor.fields[self.descriptor.primary_key].ty;
            rec.values.set(self.descriptor.primary_key, Value::default_of(t));
            assert(final(rec)@ =~= old(rec)@.update(self.pk(), default_view(t)));
            true
        }
    }

    /// The query of `find`.
    pub fn find_sql(&self, condition: &str) -> (r: String)
        ensures
            r@ == select_sql(self.table(), condition@),
    {
        build_select(&self.descriptor.table_name, condition)
    }

    /// The query of `first`.
    pub fn first_sql(&self, condition: &str) -> (r: String)
        ensures
            r@ == select_first_sql(self.table(), condition@),
    {
        build_select_first(&self.descriptor.table_name, condition)
    }
}

/// The position of the first cell under a column name.
fn find_cell(row: &Row, name: &String) -> (r: Option<usize>)
    ensures
        match r {
            Some(k) => k < row@.len() && lookup(row@, name@) == Some(row@[k as int].1),
            None => lookup(row@, name@) is None,
        },
{
    let n = row.cells.len();
    let mut i: usize = 0;
    assert(row@.subrange(0, n as int) =~= row@);
    while i < n
        invariant
            n == row@.len(),
            i <= n,
            lookup(row@, name@) == lookup(row@.subrange(i as int, n as int), name@),
        decreases n - i,
    {
        let ghost rest = row@.subrange(i as int, n as int);
        assert(rest[0] == row@[i as int]);
        if row.cells[i].column == *name {
            return Some(i);
        }
        assert(rest.drop_first() =~= row@.subrange(i + 1, n as int));
        i = i + 1;
    }
    None
}

fn decode_one(f: &Field, row: &Row) -> (r: Option<Value>)
    ensures
        match r {
            Some(v) => decode_field(*f, row@) == Some(v@),
            None => decode_field(*f, row@) is None,
        },
{
    if f.ignored {
        Some(Value::default_of(f.ty))
    } else {
        match find_cell(row, &f.name) {
            Some(k) => {
                let v = &row.cells[k].value;
                if v.sem_type() == f.ty {
                    Some(v.copy())
                } else {
                    None
                }
            },
            None => None,
        }
    }
}

impl Entity {
    /// Decodes a row into a record, each field by its column name and type.
    pub fn from_row(&self, row: &Row) -> (r: Option<Record>)
        ensures
            record_opt_view(r) == decode(self.fields(), row@),
    {
        let fs = &self.descriptor.fields;
        let mut vals: Vec<Value> = Vec::new();
        let mut i: usize = 0;
        while i < fs.len()
            invariant
                fs@ == self.fields(),
                i <= fs@.len(),
                decode(fs@.subrange(0, i as int), row@) == Some(values_view(vals@)),
            decreases fs@.len() - i,
        {
            let ghost sub1 = fs@.subrange(0, i + 1);
            assert(sub1.drop_last() =~= fs@.subrange(0, i as int));
            assert(sub1.last() == fs@[i as int]);
            match decode_one(&fs[i], row) {
                Some(v) => {
                    let ghost before = vals@;
                    vals.push(v);
                    assert(values_view(vals@) =~= values_view(before).push(v@));
                },
                None => {
                    proof {
                        lemma_decode_prefix_none(fs@, row@, i + 1);
                    }
                    return None;
                },
            }
            i = i + 1;
        }
        assert(fs@.subrange(0, fs@.len() as int) =~= fs@);
        Some(Record { values: vals })
    }

    /// Decodes the rows of a `find` query, in the store's order.
    pub fn find_rows(&self, rows: &Vec<Row>) -> (r: Option<Vec<Record>>)
        ensures
            records_opt_view(r) == decode_all(self.fields(), rows_view(rows@)),
    {
        let mut out: Vec<Record> = Vec::new();
        let mut i: usize = 0;
        while i < rows.len()
            invariant
                i <= rows@.len(),
                decode_all(self.fields(), rows_view(rows@.subrange(0, i as int))) == Some(records_view(out@)),
            decreases rows@.len() - i,
        {
            let ghost sub1 = rows_view(rows@.subrange(0, i + 1));
            assert(sub1.drop_last() =~= rows_view(rows@.subrange(0, i as int)));
            assert(sub1.last() == rows@[i as int]@);
            match self.from_row(&rows[i]) {
                Some(rec) => {
                    let ghost before = out@;
                    out.push(rec);
                    assert(records_view(out@) =~= records_view(before).push(rec@));
                },
                None => {
                    proof {
                        lemma_decode_all_prefix_none(self.fields(), rows_view(rows@), i + 1);
                        assert(rows_view(rows@).subrange(0, i + 1) =~= sub1);
                    }
                    return None;
                },
            }
            i = i + 1;
        }
        assert(rows@.subrange(0, rows@.len() as int) =~= rows@);
        Some(out)
    }

    /// Decodes the result of a `first` query: absent when no row came back.
    pub fn first_row(&self, rows: &Vec<Row>) -> (r: Option<Option<Record>>)
        ensures
            rows@.len() == 0 ==> first_view(r) == Some(None::<Seq<ValueView>>),
            rows@.len() > 0 ==> first_view(r) == match decode(self.fields(), rows@[0]@) {
                Some(x) => Some(Some(x)),
                None => None::<Option<Seq<ValueView>>>,
            },
    {
        if rows.len() == 0 {
            Some(None)
        } else {
            match self.from_row(&rows[0]) {
                Some(rec) => Some(Some(rec)),
                None => None,
            }
        }
    }
}

/// Once a prefix fails to decode, every longer one fails.
proof fn lemma_decode_prefix_none(fs: Seq<Field>, row: Seq<(Seq<char>, ValueView)>, i: int)
    requires
        0 < i <= fs.len(),
        decode(fs.subrange(0, i), row) is None,
    ensures
        decode(fs, row) is None,
    decreases fs.len() - i,
{
    if i < fs.len() {
        assert(fs.subrange(0, i + 1).drop_last() =~= fs.subrange(0, i));
        lemma_decode_prefix_none(fs, row, i + 1);
    } else {
        assert(fs.subrange(0, i) =~= fs);
    }
}

proof fn lemma_decode_all_prefix_none(fs: Seq<Field>, rows: Seq<Seq<(Seq<char>, ValueView)>>, i: int)
    requires
        0 < i <= rows.len(),
        decode_all(fs, rows.subrange(0, i)) is None,
    ensures
        decode_all(fs, rows) is None,
    decreases rows.len() - i,
{
    if i < rows.len() {
        assert(rows.subrange(0, i + 1).drop_last() =~= rows.subrange(0, i));
        lemma_decode_all_prefix_none(fs, rows, i + 1);
    } else {
        assert(rows.subrange(0, i) =~= rows);
    }
}

/// Storing the key of an insert never touches the persisted fields.
proof fn lemma_plain_values_keep(fs: Seq<Field>, rec: Seq<ValueView>, pk: int, key: ValueView)
    requires
        0 <= pk < fs.len(),
        fs[pk].primary_key,
        rec.len() == fs.len(),
    ensures
        plain_values(fs, rec.update(pk, key)) == plain_values(fs, rec),
{
    lemma_plain_positions_skip_key(fs, pk);
    assert(plain_values(fs, rec.update(pk, key)) =~= plain_values(fs, rec));
}

proof fn lemma_plain_positions_skip_key(fs: Seq<Field>, pk: int)
    requires
        0 <= pk < fs.len(),
        fs[pk].primary_key,
    ensures
        forall|k: int| 0 <= k < plain_positions(fs).len() ==> #[trigger] plain_positions(fs)[k] != pk
            && 0 <= plain_positions(fs)[k] < fs.len(),
    decreases fs.len(),
{
    lemma_plain_bounds(fs);
    let d = fs.drop_last();
    if fs.len() > 0 {
        lemma_plain_bounds(d);
        if pk < d.len() {
            lemma_plain_positions_skip_key(d, pk);
        }
        assert forall|k: int| 0 <= k < plain_positions(fs).len() implies #[trigger] plain_positions(fs)[k]
            != pk && 0 <= plain_positions(fs)[k] < fs.len() by {
            if k < plain_positions(d).len() {
                assert(plain_positions(fs)[k] == plain_positions(d)[k]);
            }
        }
    }
}

/// A record saved for the first time holds afterwards the key that the store
/// generated, which an accepted insert never leaves at the default: the next
/// save of the record is an update of the same field values, keyed by that key
/// (so it creates nothing).
pub proof fn lemma_second_save_updates(e: Entity, rec: Seq<ValueView>, key: ValueView)
    requires
        e.wf(),
        rec.len() == e.fields().len(),
        is_default(rec[e.pk()]),
        !is_default(key),
    ensures
        !is_default(rec.update(e.pk(), key)[e.pk()]),
        plain_values(e.fields(), rec.update(e.pk(), key)).push(rec.update(e.pk(), key)[e.pk()])
            == plain_values(e.fields(), rec).push(key),
{
    lemma_plain_values_keep(e.fields(), rec, e.pk(), key);
}

/// A delete that removed a row resets the key to its default, so a repeated
/// delete of the record runs no statement.
pub proof fn lemma_delete_resets_key(e: Entity, rec: Seq<ValueView>)
    requires
        e.wf(),
        rec.len() == e.fields().len(),
    ensures
        is_default(rec.update(e.pk(), default_view(e.fields()[e.pk()].ty))[e.pk()]),
{
}

/// The rows of a query decode one record each, in the store's order.
pub proof fn lemma_find_decodes_each(fs: Seq<Field>, rows: Seq<Seq<(Seq<char>, ValueView)>>)
    ensures
        decode_all(fs, rows) matches Some(recs) ==> recs.len() == rows.len() && forall|i: int|
            0 <= i < rows.len() ==> decode(fs, #[trigger] rows[i]) == Some(recs[i]),
    decreases rows.len(),
{
    if rows.len() > 0 {
        lemma_find_decodes_each(fs, rows.drop_last());
        if let Some(recs) = decode_all(fs, rows) {
            assert forall|i: int| 0 <= i < rows.len() implies decode(fs, #[trigger] rows[i]) == Some(recs[i]) by {
                if i < rows.len() - 1 {
                    assert(rows[i] == rows.drop_last()[i]);
                }
            }
        }
    }
}

/// Where a condition matches one row, `first` yields the record that `find` yields.
pub proof fn lemma_first_matches_find(fs: Seq<Field>, row: Seq<(Seq<char>, ValueView)>)
    ensures
        decode_all(fs, seq![row]) matches Some(recs) ==> recs.len() == 1 && decode(fs, row) == Some(recs[0]),
{
    lemma_find_decodes_each(fs, seq![row]);
}

/// Positions and names of the persisted fields.
fn plain_of(fs: &Vec<Field>) -> (r: (Vec<usize>, Vec<String>))
    ensures
        positions_view(r.0@) == plain_positions(fs@),
        views(r.1@) == plain_names(fs@),
{
    let mut pos: Vec<usize> = Vec::new();
    let mut names: Vec<String> = Vec::new();
    let mut i: usize = 0;
    while i < fs.len()
        invariant
            i <= fs@.len(),
            positions_view(pos@) == plain_positions(fs@.subrange(0, i as int)),
            views(names@) == plain_positions(fs@.subrange(0, i as int)).map_values(|p: int| fs@[p].name@),
            names@.len() == pos@.len(),
            forall|k: int| 0 <= k < pos@.len() ==> pos@[k] < i,
        decreases fs@.len() - i,
    {
        let ghost sub0 = fs@.subrange(0, i as int);
        let ghost sub1 = fs@.subrange(0, i + 1);
        assert(sub1.drop_last() =~= sub0);
        let f = &fs[i];
        assert(sub1.last() == fs@[i as int]);
        if !f.ignored && !f.primary_key {
            assert(plain_positions(sub1) == plain_positions(sub0).push(i as int));
            let ghost names0 = names@;
            let ghost pos0 = pos@;
            pos.push(i);
            names.push(f.name.clone());
            assert(positions_view(pos@) =~= plain_positions(sub1));
            proof {
                let target = plain_positions(sub1).map_values(|p: int| fs@[p].name@);
                assert forall|k: int| 0 <= k < names@.len() implies views(names@)[k] == target[k] by {
                    if k < names0.len() {
                        assert(names@[k] == names0[k]);
                        assert(views(names0)[k] == plain_positions(sub0).map_values(|p: int| fs@[p].name@)[k]);
                        assert(plain_positions(sub1)[k] == plain_positions(sub0)[k]);
                    }
                }
                assert(views(names@) =~= target);
            }
        } else {
            assert(positions_view(pos@) =~= plain_positions(sub1));
        }
        i = i + 1;
    }
    assert(fs@.subrange(0, fs@.len() as int) =~= fs@);
    proof {
        lemma_plain_bounds(fs@);
        assert(plain_positions(fs@).map_values(|p: int| fs@[p].name@) =~= plain_names(fs@));
    }
    (pos, names)
}

/// Builds the operations of an entity from its description.
pub struct EntityBuilder {}

impl EntityBuilder {
    pub fn new() -> (r: Self)
        ensures
            r == (EntityBuilder {}),
    {
        EntityBuilder {}
    }

    /// Generates the statements of a valid description.
    pub fn generate(&self, descriptor: EntityDescriptor) -> (r: Entity)
        requires
            descriptor.wf(),
        ensures
            r.wf(),
            r.descriptor == descriptor,
    {
        let (plain, names) = plain_of(&descriptor.fields);
        let pk_name = &descriptor.fields[descriptor.primary_key].name;
        let insert_sql = build_insert(&descriptor.table_name, &names, pk_name);
        let update_sql = build_update(&descriptor.table_name, &names, pk_name);
        let delete_sql = build_delete(&descriptor.table_name, pk_name);
        Entity { descriptor, plain, insert_sql, update_sql, delete_sql }
    }

    /// Validates a type description and generates its operations.
    pub fn build(
        &self,
        entity_name: &str,
        attr: EntityAttr,
        fields: Vec<Field>,
        indexes: Vec<IndexAttr>,
        relations: Vec<RelationAttr>,
        has_many: Vec<RelationAttr>,
    ) -> (r: Result<Entity, Vec<ConfigError>>)
        ensures
            match r {
                Ok(e) => {
                    &&& diagnostics(fields@, indexes@).len() == 0
                    &&& e.wf()
                    &&& e.table() == table_name_of(entity_name@, view_opt(attr.table_name))
                    &&& e.fields() == fields@
                },
                Err(errs) => errs@ == diagnostics(fields@, indexes@) && errs@.len() > 0,
            },
    {
        match EntityDescriptor::new(entity_name, attr, fields, indexes, relations, has_many) {
            Ok(d) => Ok(self.generate(d)),
            Err(errs) => Err(errs),
        }
    }
}

} // verus!
