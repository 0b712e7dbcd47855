use vstd::prelude::*;
use vstd::string::*;
use crate::attrs::{EntityAttr, IndexAttr, RelationAttr};
use crate::index::{indexes_ok, indexes_valid};
use crate::text::{is_upper, lower, lower_char, push_char};

verus! {

/// The semantic type of a field, as the record holds it.
#[derive(PartialEq, Eq, Structural, Clone, Copy, Debug)]
pub enum SemType {
    Int,
    Text,
    Bool,
}

/// The column type in the store.
pub enum DbType {
    Integer,
    Text,
    Boolean,
    Custom(String),
}

/// A declared field of a record type.
pub struct Field {
    pub name: String,
    pub ty: SemType,
    pub custom_type: Option<String>,
    pub primary_key: bool,
    pub ignored: bool,
}

/// A problem with a type description.
#[derive(PartialEq, Eq, Structural, Clone, Copy, Debug)]
pub enum ConfigError {
    NoPrimaryKey,
    MultiplePrimaryKeys,
    DuplicateField,
    MalformedIndex,
}

/// The validated description of an entity.
pub struct EntityDescriptor {
    pub table_name: String,
    pub fields: Vec<Field>,
    pub primary_key: usize,
    pub indexes: Vec<IndexAttr>,
    pub relations: Vec<RelationAttr>,
    pub has_many: Vec<RelationAttr>,
}

/// Lower-case, underscore-delimited form of a type name: an underscore goes
/// before every upper-case letter but a leading one.
pub open spec fn snake(s: Seq<char>) -> Seq<char>
    decreases s.len(),
{
    if s.len() == 0 {
        Seq::empty()
    } else {
        let c = s.last();
        let rest = snake(s.drop_last());
        if is_upper(c) && s.len() > 1 {
            rest + seq!['_', lower(c)]
        } else {
            rest + seq![lower(c)]
        }
    }
}

pub open spec fn count_primary(fs: Seq<Field>) -> nat
    decreases fs.len(),
{
    if fs.len() == 0 {
        0
    } else {
        count_primary(fs.drop_last()) + if fs.last().primary_key { 1nat } else { 0nat }
    }
}

pub open spec fn names_unique(fs: Seq<Field>) -> bool {
    forall|i: int, j: int| 0 <= i < j < fs.len() ==> fs[i].name@ != fs[j].name@
}

/// The diagnostics of a description, in a fixed order.
pub open spec fn diagnostics(fs: Seq<Field>, ixs: Seq<IndexAttr>) -> Seq<ConfigError> {
    (if count_primary(fs) == 0 {
        seq![ConfigError::NoPrimaryKey]
    } else if count_primary(fs) > 1 {
        seq![ConfigError::MultiplePrimaryKeys]
    } else {
        Seq::empty()
    }) + (if names_unique(fs) { Seq::empty() } else { seq![ConfigError::DuplicateField] }) + (
    if indexes_ok(ixs, fs) {
        Seq::empty()
    } else {
        seq![ConfigError::MalformedIndex]
    })
}

/// The table name that a description yields.
pub open spec fn table_name_of(entity_name: Seq<char>, attr: Option<Seq<char>>) -> Seq<char> {
    match attr {
        Some(t) => t,
        None => snake(entity_name),
    }
}

pub open spec fn view_opt(o: Option<String>) -> Option<Seq<char>> {
    match o {
        Some(s) => Some(s@),
        None => None,
    }
}

impl EntityDescriptor {
    /// Exactly one primary-key field, which `primary_key` points at, and unique names.
    pub open spec fn wf(&self) -> bool {
        &&& self.primary_key < self.fields@.len()
        &&& self.fields@[self.primary_key as int].primary_key
        &&& count_primary(self.fields@) == 1
        &&& names_unique(self.fields@)
    }

    /// Validates a type description; on success the table name is the override
    /// or the derived name, and the lists are kept as given.
    pub fn new(
        entity_name: &str,
        attr: EntityAttr,
        fields: Vec<Field>,
        indexes: Vec<IndexAttr>,
        relations: Vec<RelationAttr>,
        has_many: Vec<RelationAttr>,
    ) -> (r: Result<EntityDescriptor, Vec<ConfigError>>)
        ensures
            match r {
                Ok(d) => {
                    &&& diagnostics(fields@, indexes@).len() == 0
                    &&& d.wf()
                    &&& d.table_name@ == table_name_of(entity_name@, view_opt(attr.table_name))
                    &&& d.fields@ == fields@
                    &&& d.indexes@ == indexes@
                    &&& d.relations@ == relations@
                    &&& d.has_many@ == has_many@
                },
                Err(e) => e@ == diagnostics(fields@, indexes@) && e@.len() > 0,
            },
    {
        let mut errors: Vec<ConfigError> = Vec::new();
        let mut count: usize = 0;
        let mut pk: usize = 0;
        let mut i: usize = 0;
        while i < fields.len()
            invariant
                i <= fields@.len(),
                count == count_primary(fields@.subrange(0, i as int)),
                count <= i,
                count > 0 ==> pk < i && fields@[pk as int].primary_key,
            decreases fields@.len() - i,
        {
            assert(fields@.subrange(0, i + 1).drop_last() =~= fields@.subrange(0, i as int));
            if fields[i].primary_key {
                if count == 0 {
                    pk = i;
                }
                count = count + 1;
            }
            i = i + 1;
        }
        assert(fields@.subrange(0, fields@.len() as int) =~= fields@);
        if count == 0 {
            errors.push(ConfigError::NoPrimaryKey);
        } else if count > 1 {
            errors.push(ConfigError::MultiplePrimaryKeys);
        }
        let unique = all_names_unique(&fields);
        if !unique {
            errors.push(ConfigError::DuplicateField);
        }
        if !indexes_valid(&indexes, &fields) {
            errors.push(ConfigError::MalformedIndex);
        }
        if errors.len() > 0 {
            assert(errors@ =~= diagnostics(fields@, indexes@));
            return Err(errors);
        }
        assert(diagnostics(fields@, indexes@) =~= Seq::<ConfigError>::empty());
        let table_name = match attr.table_name {
            Some(t) => t,
            None => snake_case(entity_name),
        };
        Ok(EntityDescriptor { table_name, fields, primary_key: pk, indexes, relations, has_many })
    }
}

fn all_names_unique(fs: &Vec<Field>) -> (r: bool)
    ensures
        r == names_unique(fs@),
{
    let mut j: usize = 0;
    while j < fs.len()
        invariant
            j <= fs@.len(),
            forall|a: int, b: int| 0 <= a < b < j ==> fs@[a].name@ != fs@[b].name@,
        decreases fs@.len() - j,
    {
        let mut i: usize = 0;
        while i < j
            invariant
                i <= j < fs@.len(),
                forall|a: int| 0 <= a < i ==> fs@[a].name@ != fs@[j as int].name@,
            decreases j - i,
        {
            if fs[i].name == fs[j].name {
                return false;
            }
            i = i + 1;
        }
        j = j + 1;
    }
    true
}

/// The derived table name of a type name.
pub fn snake_case(s: &str) -> (r: String)
    ensures
        r@ == snake(s@),
{
    let mut r = String::new();
    let n = s.unicode_len();
    let mut i: usize = 0;
    while i < n
        invariant
            n == s@.len(),
            i <= n,
            r@ == snake(s@.subrange(0, i as int)),
        decreases n - i,
    {
        let c = s.get_char(i);
        assert(s@.subrange(0, i + 1).drop_last() =~= s@.subrange(0, i as int));
        if 'A' <= c && c <= 'Z' && i > 0 {
            push_char(&mut r, '_');
        }
        push_char(&mut r, lower_char(c));
        i = i + 1;
    }
    assert(s@.subrange(0, n as int) =~= s@);
    r
}

} // verus!
