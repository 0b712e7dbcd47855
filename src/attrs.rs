use vstd::prelude::*;

verus! {

/// A single association: the referenced entity and the foreign-key field.
pub struct RelationAttr {
    pub model: String,
    pub key: String,
}

/// An index over columns given as a comma-separated list.
pub struct IndexAttr {
    pub name: String,
    pub columns: String,
    pub unique: bool,
}

/// Entity-level options.
pub struct EntityAttr {
    pub table_name: Option<String>,
}

} // verus!
