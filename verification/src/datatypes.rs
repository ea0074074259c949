use vstd::prelude::*;
use crate::error::DataFusionError;

verus! {

/// Granularity of a time-of-day or timestamp value.
#[derive(Clone, Copy, PartialEq, Eq, Structural, Debug)]
pub enum TimeUnit {
    Second,
    Millisecond,
    Microsecond,
    Nanosecond,
}

/// Granularity of a date value.
#[derive(Clone, Copy, PartialEq, Eq, Structural, Debug)]
pub enum DateUnit {
    Day,
    Millisecond,
}

/// Logical type of a column.
#[derive(Clone, Copy, PartialEq, Eq, Structural, Debug)]
pub enum DataType {
    Boolean,
    Int8,
    Int16,
    Int32,
    Int64,
    UInt8,
    UInt16,
    UInt32,
    UInt64,
    Float32,
    Float64,
    Date32(DateUnit),
    Time32(TimeUnit),
    Time64(TimeUnit),
    Timestamp(TimeUnit),
    Utf8,
    Binary,
    FixedSizeBinary(i32),
}

/// A named, typed, possibly nullable column of a schema.
#[derive(Debug)]
pub struct Field {
    name: String,
    data_type: DataType,
    nullable: bool,
}

/// Mathematical image of a `Field`.
pub struct FieldV {
    pub name: Seq<char>,
    pub data_type: DataType,
    pub nullable: bool,
}

impl View for Field {
    type V = FieldV;

    closed spec fn view(&self) -> FieldV {
        FieldV { name: self.name@, data_type: self.data_type, nullable: self.nullable }
    }
}

impl Clone for Field {
    fn clone(&self) -> (r: Self)
        ensures
            r@ == self@,
    {
        Field { name: self.name.clone(), data_type: self.data_type, nullable: self.nullable }
    }
}

impl Field {
    /// Build a field from its parts.
    pub fn new(name: String, data_type: DataType, nullable: bool) -> (r: Field)
        ensures
            r@ == (FieldV { name: name@, data_type, nullable }),
    {
        Field { name, data_type, nullable }
    }

    /// The field's name.
    pub fn name(&self) -> (r: &String)
        ensures
            r@ == self@.name,
    {
        &self.name
    }

    /// The field's logical type.
    pub fn data_type(&self) -> (r: DataType)
        ensures
            r == self@.data_type,
    {
        self.data_type
    }

    /// Whether the field admits nulls.
    pub fn is_nullable(&self) -> (r: bool)
        ensures
            r == self@.nullable,
    {
        self.nullable
    }
}

/// An ordered sequence of fields.
#[derive(Debug)]
pub struct Schema {
    fields: Vec<Field>,
}

impl View for Schema {
    type V = Seq<FieldV>;

    closed spec fn view(&self) -> Seq<FieldV> {
        self.fields@.map_values(|f: Field| f@)
    }
}

impl Clone for Schema {
    fn clone(&self) -> (r: Self)
        ensures
            r@ == self@,
    {
        let mut fields: Vec<Field> = Vec::new();
        let mut i: usize = 0;
        while i < self.fields.len()
            invariant
                i <= self.fields.len(),
                fields@.len() == i as int,
                forall|j: int| 0 <= j < i ==> fields@[j]@ == self.fields@[j]@,
            decreases self.fields.len() - i,
        {
            fields.push(self.fields[i].clone());
            i = i + 1;
        }
        let r = Schema { fields };
        proof {
            assert(r@ =~= self@);
        }
        r
    }
}

impl Schema {
    /// Build a schema from an ordered list of fields.
    pub fn new(fields: Vec<Field>) -> (r: Schema)
        ensures
            r@ == fields@.map_values(|f: Field| f@),
    {
        Schema { fields }
    }

    /// The ordered fields.
    pub fn fields(&self) -> (r: &Vec<Field>)
        ensures
            r@.map_values(|f: Field| f@) == self@,
    {
        &self.fields
    }

    /// The number of fields.
    pub fn num_fields(&self) -> (r: usize)
        ensures
            r == self@.len(),
    {
        self.fields.len()
    }

    /// The field at position `i`.
    pub fn field(&self, i: usize) -> (r: &Field)
        requires
            i < self@.len(),
        ensures
            r@ == self@[i as int],
    {
        &self.fields[i]
    }
}

/// Create a new schema by applying a projection to a schema's fields,
/// cloning them in the order the projection gives.
///
/// Returns `InvalidColumn` exactly when some projection index is out of
/// range.
pub fn schema_projection(schema: &Schema, projection: &Vec<usize>) -> (r: Result<
    Schema,
    DataFusionError,
>)
    ensures
        (r is Ok) <==> (forall|i: int| 0 <= i < projection@.len() ==> projection@[i] < schema@.len()),
        r matches Ok(s) ==> s@ == projection@.map_values(|i: usize| schema@[i as int]),
        r matches Err(e) ==> e is InvalidColumn,
{
    let mut fields: Vec<Field> = Vec::new();
    let mut k: usize = 0;
    while k < projection.len()
        invariant
            k <= projection@.len(),
            fields@.len() == k as int,
            forall|j: int| 0 <= j < k ==> projection@[j] < schema@.len(),
            forall|j: int| 0 <= j < k ==> fields@[j]@ == schema@[projection@[j] as int],
        decreases projection@.len() - k,
    {
        let i = projection[k];
        if i < schema.num_fields() {
            fields.push(schema.field(i).clone());
        } else {
            return Err(DataFusionError::InvalidColumn(
                "Invalid column index in projection".to_owned(),
            ));
        }
        k = k + 1;
    }
    let r = Schema::new(fields);
    proof {
        assert(r@ =~= projection@.map_values(|i: usize| schema@[i as int]));
    }
    Ok(r)
}

} // verus!
