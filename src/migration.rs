use vstd::prelude::*;
use vstd::string::*;
use crate::descriptor::{DbType, Field, SemType};
use crate::entity::Entity;

verus! {

/// What a column type is.
pub enum DbTypeView {
    Integer,
    Text,
    Boolean,
    Custom(Seq<char>),
}

impl View for DbType {
    type V = DbTypeView;

    open spec fn view(&self) -> DbTypeView {
        match self {
            DbType::Integer => DbTypeView::Integer,
            DbType::Text => DbTypeView::Text,
            DbType::Boolean => DbTypeView::Boolean,
            DbType::Custom(s) => DbTypeView::Custom(s@),
        }
    }
}

/// A column of a table to create.
pub struct Column {
    pub name: String,
    pub db_type: DbType,
}

/// A table-creation schema change.
pub struct Migration {
    pub table: String,
    pub columns: Vec<Column>,
}

pub open spec fn columns_view(cs: Seq<Column>) -> Seq<(Seq<char>, DbTypeView)> {
    cs.map_values(|c: Column| (c.name@, c.db_type@))
}

/// The column type of a field: its override, else the one of its semantic type.
pub open spec fn db_type_of(f: Field) -> DbTypeView {
    match f.custom_type {
        Some(c) => DbTypeView::Custom(c@),
        None => match f.ty {
            SemType::Int => DbTypeView::Integer,
            SemType::Text => DbTypeView::Text,
            SemType::Bool => DbTypeView::Boolean,
        },
    }
}

/// One column per field that is not ignored, in declaration order.
pub open spec fn migration_columns(fs: Seq<Field>) -> Seq<(Seq<char>, DbTypeView)>
    decreases fs.len(),
{
    if fs.len() == 0 {
        Seq::empty()
    } else if fs.last().ignored {
        migration_columns(fs.drop_last())
    } else {
        migration_columns(fs.drop_last()).push((fs.last().name@, db_type_of(fs.last())))
    }
}

#[verifier::external_type_specification]
#[verifier::external_body]
pub struct ExTable(barrel::Table);

/// The table name and the columns that a barrel table holds.
pub uninterp spec fn table_spec(t: barrel::Table) -> (Seq<char>, Seq<(Seq<char>, DbTypeView)>);

/// The text that barrel's Postgres generator makes of a created table.
pub uninterp spec fn pg_create_sql_of(table: Seq<char>, cols: Seq<(Seq<char>, DbTypeView)>) -> Seq<char>;

/// The Postgres text of a migration.
pub open spec fn migration_sql(table: Seq<char>, cols: Seq<(Seq<char>, DbTypeView)>) -> Seq<char> {
    pg_create_sql_of(table, cols)
}

/// Relies on barrel's `Table::new`: a table of that name with no columns.
#[verifier::external_body]
fn barrel_table(name: &String) -> (r: barrel::Table)
    ensures
        table_spec(r) == (name@, Seq::<(Seq<char>, DbTypeView)>::empty()),
{
    barrel::Table::new(name.clone())
}

/// Relies on barrel's `Table::add_column`: the column goes after the others,
/// with barrel's type of the same kind (a custom type as the `'static` text
/// that barrel asks for).
#[verifier::external_body]
fn barrel_add_column(t: &mut barrel::Table, name: &String, ty: &DbType)
    ensures
        table_spec(*final(t)) == (table_spec(*old(t)).0, table_spec(*old(t)).1.push((name@, ty@))),
{
    let bt = match ty {
        DbType::Integer => barrel::types::integer(),
        DbType::Text => barrel::types::text(),
        DbType::Boolean => barrel::types::boolean(),
        DbType::Custom(c) => barrel::types::custom(Box::leak(c.clone().into_boxed_str())),
    };
    t.add_column(name.clone(), bt);
}

/// Relies on barrel's `Migration::make::<Pg>` over one table creation whose
/// columns are already in place (the callback adds nothing).
#[verifier::external_body]
fn barrel_create_sql(t: barrel::Table) -> (r: String)
    ensures
        r@ == pg_create_sql_of(table_spec(t).0, table_spec(t).1),
{
    let mut m = barrel::Migration::new();
    m.changes.push(barrel::DatabaseChange::CreateTable(t, std::rc::Rc::new(|_: &mut barrel::Table| {})));
    m.make::<barrel::backend::Pg>()
}

fn db_type(f: &Field) -> (r: DbType)
    ensures
        r@ == db_type_of(*f),
{
    match &f.custom_type {
        Some(c) => DbType::Custom(c.clone()),
        None => match f.ty {
            SemType::Int => DbType::Integer,
            SemType::Text => DbType::Text,
            SemType::Bool => DbType::Boolean,
        },
    }
}

impl Migration {
    pub open spec fn view_columns(&self) -> Seq<(Seq<char>, DbTypeView)> {
        columns_view(self.columns@)
    }

    /// The Postgres statement that creates the table.
    pub fn to_sql(&self) -> (r: String)
        ensures
            r@ == migration_sql(self.table@, self.view_columns()),
    {
        let ghost cols = self.view_columns();
        let mut t = barrel_table(&self.table);
        let mut k: usize = 0;
        while k < self.columns.len()
            invariant
                cols == self.view_columns(),
                k <= self.columns@.len(),
                table_spec(t) == (self.table@, cols.subrange(0, k as int)),
            decreases self.columns@.len() - k,
        {
            let c = &self.columns[k];
            barrel_add_column(&mut t, &c.name, &c.db_type);
            k = k + 1;
            assert(cols.subrange(0, k as int) =~= cols.subrange(0, k - 1).push((c.name@, c.db_type@)));
        }
        assert(cols.subrange(0, cols.len() as int) =~= cols);
        barrel_create_sql(t)
    }
}

impl Entity {
    /// The table-creation change of the entity: one column per field that is not
    /// ignored, in declaration order, typed by its override or its semantic type.
    pub fn create_migration(&self) -> (r: Migration)
        ensures
            r.table@ == self.table(),
            r.view_columns() == migration_columns(self.fields()),
    {
        let fs = &self.descriptor.fields;
        let mut columns: Vec<Column> = Vec::new();
        let mut i: usize = 0;
        while i < fs.len()
            invariant
                fs@ == self.fields(),
                i <= fs@.len(),
                columns_view(columns@) == migration_columns(fs@.subrange(0, i as int)),
            decreases fs@.len() - i,
        {
            let ghost sub1 = fs@.subrange(0, i + 1);
            assert(sub1.drop_last() =~= fs@.subrange(0, i as int));
            assert(sub1.last() == fs@[i as int]);
            let f = &fs[i];
            if !f.ignored {
                let ghost before = columns@;
                columns.push(Column { name: f.name.clone(), db_type: db_type(f) });
                assert(columns_view(columns@) =~= columns_view(before).push((f.name@, db_type_of(*f))));
            }
            i = i + 1;
        }
        assert(fs@.subrange(0, fs@.len() as int) =~= fs@);
        Migration { table: self.descriptor.table_name.clone(), columns }
    }
}

} // verus!
