use vstd::prelude::*;
use vstd::string::*;
use crate::descriptor::SemType;

verus! {

/// A field value as the record and the store exchange it.
pub enum Value {
    Int(i64),
    Text(String),
    Bool(bool),
}

/// What a value holds.
pub enum ValueView {
    Int(i64),
    Text(Seq<char>),
    Bool(bool),
}

impl View for Value {
    type V = ValueView;

    open spec fn view(&self) -> ValueView {
        match self {
            Value::Int(i) => ValueView::Int(*i),
            Value::Text(s) => ValueView::Text(s@),
            Value::Bool(b) => ValueView::Bool(*b),
        }
    }
}

pub open spec fn type_of(v: ValueView) -> SemType {
    match v {
        ValueView::Int(_) => SemType::Int,
        ValueView::Text(_) => SemType::Text,
        ValueView::Bool(_) => SemType::Bool,
    }
}

/// The default value of a semantic type: zero, the empty text, false.
pub open spec fn default_view(t: SemType) -> ValueView {
    match t {
        SemType::Int => ValueView::Int(0),
        SemType::Text => ValueView::Text(Seq::empty()),
        SemType::Bool => ValueView::Bool(false),
    }
}

pub open spec fn is_default(v: ValueView) -> bool {
    v == default_view(type_of(v))
}

pub open spec fn values_view(vs: Seq<Value>) -> Seq<ValueView> {
    vs.map_values(|v: Value| v@)
}

impl Value {
    pub fn copy(&self) -> (r: Value)
        ensures
            r@ == self@,
    {
        match self {
            Value::Int(i) => Value::Int(*i),
            Value::Text(s) => Value::Text(s.clone()),
            Value::Bool(b) => Value::Bool(*b),
        }
    }

    pub fn default_of(t: SemType) -> (r: Value)
        ensures
            r@ == default_view(t),
    {
        match t {
            SemType::Int => Value::Int(0),
            SemType::Text => Value::Text(String::new()),
            SemType::Bool => Value::Bool(false),
        }
    }

    pub fn sem_type(&self) -> (r: SemType)
        ensures
            r == type_of(self@),
    {
        match self {
            Value::Int(_) => SemType::Int,
            Value::Text(_) => SemType::Text,
            Value::Bool(_) => SemType::Bool,
        }
    }

    /// Whether the value equals its type's default.
    pub fn is_default(&self) -> (r: bool)
        ensures
            r == is_default(self@),
    {
        match self {
            Value::Int(i) => *i == 0,
            Value::Text(s) => {
                let n = s.as_str().unicode_len();
                proof {
                    if n == 0 {
                        assert(s@ =~= Seq::<char>::empty());
                    }
                }
                n == 0
            },
            Value::Bool(b) => !*b,
        }
    }
}

/// One persisted row's in-memory form: a value per declared field, in order.
pub struct Record {
    pub values: Vec<Value>,
}

impl View for Record {
    type V = Seq<ValueView>;

    open spec fn view(&self) -> Seq<ValueView> {
        values_view(self.values@)
    }
}

/// A named column of a result row.
pub struct Cell {
    pub column: String,
    pub value: Value,
}

/// A result row: its columns in the store's order.
pub struct Row {
    pub cells: Vec<Cell>,
}

impl View for Row {
    type V = Seq<(Seq<char>, ValueView)>;

    open spec fn view(&self) -> Seq<(Seq<char>, ValueView)> {
        self.cells@.map_values(|c: Cell| (c.column@, c.value@))
    }
}

} // verus!
