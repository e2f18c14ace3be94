use vstd::prelude::*;

verus! {

/// Errors raised while building or evaluating expressions.
#[derive(Clone, Copy, Debug, PartialEq, Eq, Structural)]
pub enum ErrorCode {
    /// A column name is absent from the schema.
    UnknownColumn,
    /// An operator was applied to values of a kind it does not accept.
    BadDataValueType,
    /// Negation of the smallest 64-bit integer.
    Overflow,
    /// A function whose meaning the evaluator does not know.
    UnknownFunction,
    /// A function called with the wrong number of arguments.
    BadArguments,
}

#[derive(Clone, Copy, Debug, PartialEq, Eq, Structural)]
pub enum DataType {
    Boolean,
    Int32,
    Int64,
    UInt64,
    String,
}

/// A scalar value; `Null` is the SQL null.
#[derive(Clone, Debug)]
pub enum DataValue {
    Null,
    Boolean(bool),
    Int64(i64),
    UInt64(u64),
    String(String),
}

impl DataValue {
    pub fn copied(&self) -> (r: DataValue)
        ensures
            r == *self,
    {
        match self {
            DataValue::Null => DataValue::Null,
            DataValue::Boolean(b) => DataValue::Boolean(*b),
            DataValue::Int64(x) => DataValue::Int64(*x),
            DataValue::UInt64(x) => DataValue::UInt64(*x),
            DataValue::String(s) => DataValue::String(s.clone()),
        }
    }

    pub fn is_null(&self) -> (r: bool)
        ensures
            r == (*self is Null),
    {
        match self {
            DataValue::Null => true,
            _ => false,
        }
    }
}

#[derive(Clone, Debug)]
pub struct DataField {
    pub name: String,
    pub data_type: DataType,
    pub nullable: bool,
}

impl DataField {
    pub fn copied(&self) -> (r: DataField)
        ensures
            r == *self,
    {
        DataField { name: self.name.clone(), data_type: self.data_type, nullable: self.nullable }
    }

    pub fn new(name: &str, data_type: DataType, nullable: bool) -> (r: DataField)
        ensures
            r.name@ == name@,
            r.data_type == data_type,
            r.nullable == nullable,
    {
        DataField { name: name.to_owned(), data_type, nullable }
    }
}

/// Position of the first field at or after `start` whose name is `name`.
pub open spec fn index_from(fields: Seq<DataField>, name: Seq<char>, start: int) -> Option<int>
    decreases fields.len() - start,
{
    if start < 0 || start >= fields.len() {
        None
    } else if fields[start].name@ == name {
        Some(start)
    } else {
        index_from(fields, name, start + 1)
    }
}

/// Position of the first field named `name`.
pub open spec fn field_index(fields: Seq<DataField>, name: Seq<char>) -> Option<int> {
    index_from(fields, name, 0)
}

pub proof fn lemma_index_from(fields: Seq<DataField>, name: Seq<char>, start: int)
    requires
        0 <= start <= fields.len(),
    ensures
        match index_from(fields, name, start) {
            Some(i) => start <= i < fields.len() && fields[i].name@ == name && forall|j: int|
                start <= j < i ==> fields[j].name@ != name,
            None => forall|j: int| start <= j < fields.len() ==> fields[j].name@ != name,
        },
    decreases fields.len() - start,
{
    if start < fields.len() && fields[start].name@ != name {
        lemma_index_from(fields, name, start + 1);
    }
}

/// The first index of `name` is the only index `i` whose field is named `name`
/// with no earlier field of that name.
pub proof fn lemma_field_index(fields: Seq<DataField>, name: Seq<char>)
    ensures
        match field_index(fields, name) {
            Some(i) => 0 <= i < fields.len() && fields[i].name@ == name && forall|j: int|
                0 <= j < i ==> fields[j].name@ != name,
            None => forall|j: int| 0 <= j < fields.len() ==> fields[j].name@ != name,
        },
{
    lemma_index_from(fields, name, 0);
}

/// An ordered list of fields; a name resolves to its first field.
#[derive(Clone, Debug)]
pub struct DataSchema {
    pub fields: Vec<DataField>,
}

impl DataSchema {
    pub fn new(fields: Vec<DataField>) -> (r: DataSchema)
        ensures
            r.fields@ == fields@,
    {
        DataSchema { fields }
    }

    pub fn index_of(&self, name: &String) -> (r: Result<usize, ErrorCode>)
        ensures
            match r {
                Ok(i) => field_index(self.fields@, name@) == Some(i as int),
                Err(e) => e == ErrorCode::UnknownColumn && field_index(self.fields@, name@) is None,
            },
    {
        let mut i: usize = 0;
        while i < self.fields.len()
            invariant
                0 <= i <= self.fields@.len(),
                index_from(self.fields@, name@, 0) == index_from(self.fields@, name@, i as int),
            decreases self.fields@.len() - i,
        {
            if self.fields[i].name == *name {
                return Ok(i);
            }
            i = i + 1;
        }
        Err(ErrorCode::UnknownColumn)
    }
}

} // verus!
