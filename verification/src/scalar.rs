use vstd::prelude::*;
use crate::datatypes::DataType;

verus! {

/// Mathematical image of a single non-null cell of a column.
///
/// Floating-point cells are carried as their raw IEEE-754 bit patterns:
/// the engine never computes with them, it only moves them, so the bits
/// are the right mathematical identity.
pub enum CellV {
    Bool(bool),
    I8(i8),
    I16(i16),
    I32(i32),
    I64(i64),
    U8(u8),
    U16(u16),
    U32(u32),
    U64(u64),
    F32Bits(u32),
    F64Bits(u64),
    Str(Seq<char>),
}

/// One cell of a grouping key: a tagged scalar over the supported
/// grouping types. Floating-point and binary grouping columns are
/// rejected before a key is ever built.
#[derive(Debug)]
pub enum GroupByScalar {
    Int8(i8),
    Int16(i16),
    Int32(i32),
    Int64(i64),
    UInt8(u8),
    UInt16(u16),
    UInt32(u32),
    UInt64(u64),
    Utf8(String),
}

impl View for GroupByScalar {
    type V = CellV;

    open spec fn view(&self) -> CellV {
        match self {
            GroupByScalar::Int8(v) => CellV::I8(*v),
            GroupByScalar::Int16(v) => CellV::I16(*v),
            GroupByScalar::Int32(v) => CellV::I32(*v),
            GroupByScalar::Int64(v) => CellV::I64(*v),
            GroupByScalar::UInt8(v) => CellV::U8(*v),
            GroupByScalar::UInt16(v) => CellV::U16(*v),
            GroupByScalar::UInt32(v) => CellV::U32(*v),
            GroupByScalar::UInt64(v) => CellV::U64(*v),
            GroupByScalar::Utf8(v) => CellV::Str(v@),
        }
    }
}

impl Clone for GroupByScalar {
    fn clone(&self) -> (r: Self)
        ensures
            r@ == self@,
    {
        match self {
            GroupByScalar::Int8(v) => GroupByScalar::Int8(*v),
            GroupByScalar::Int16(v) => GroupByScalar::Int16(*v),
            GroupByScalar::Int32(v) => GroupByScalar::Int32(*v),
            GroupByScalar::Int64(v) => GroupByScalar::Int64(*v),
            GroupByScalar::UInt8(v) => GroupByScalar::UInt8(*v),
            GroupByScalar::UInt16(v) => GroupByScalar::UInt16(*v),
            GroupByScalar::UInt32(v) => GroupByScalar::UInt32(*v),
            GroupByScalar::UInt64(v) => GroupByScalar::UInt64(*v),
            GroupByScalar::Utf8(v) => GroupByScalar::Utf8(v.clone()),
        }
    }
}

impl GroupByScalar {
    /// Cell equality: two key cells are equal exactly when their
    /// mathematical images are.
    pub fn eq_cell(&self, other: &GroupByScalar) -> (r: bool)
        ensures
            r == (self@ == other@),
    {
        match self {
            GroupByScalar::Int8(a) => match other {
                GroupByScalar::Int8(b) => *a == *b,
                _ => false,
            },
            GroupByScalar::Int16(a) => match other {
                GroupByScalar::Int16(b) => *a == *b,
                _ => false,
            },
            GroupByScalar::Int32(a) => match other {
                GroupByScalar::Int32(b) => *a == *b,
                _ => false,
            },
            GroupByScalar::Int64(a) => match other {
                GroupByScalar::Int64(b) => *a == *b,
                _ => false,
            },
            GroupByScalar::UInt8(a) => match other {
                GroupByScalar::UInt8(b) => *a == *b,
                _ => false,
            },
            GroupByScalar::UInt16(a) => match other {
                GroupByScalar::UInt16(b) => *a == *b,
                _ => false,
            },
            GroupByScalar::UInt32(a) => match other {
                GroupByScalar::UInt32(b) => *a == *b,
                _ => false,
            },
            GroupByScalar::UInt64(a) => match other {
                GroupByScalar::UInt64(b) => *a == *b,
                _ => false,
            },
            GroupByScalar::Utf8(a) => match other {
                GroupByScalar::Utf8(b) => *a == *b,
                _ => false,
            },
        }
    }
}

/// A single scalar value together with its logical type, as produced by
/// accumulators when serializing state or evaluating a final value. The
/// inner `Option` is the value's nullability; floating-point payloads are
/// raw IEEE-754 bit patterns.
#[derive(Debug)]
pub enum ScalarValue {
    Boolean(Option<bool>),
    Int8(Option<i8>),
    Int16(Option<i16>),
    Int32(Option<i32>),
    Int64(Option<i64>),
    UInt8(Option<u8>),
    UInt16(Option<u16>),
    UInt32(Option<u32>),
    UInt64(Option<u64>),
    Float32Bits(Option<u32>),
    Float64Bits(Option<u64>),
    Utf8(Option<String>),
}

impl ScalarValue {
    /// The logical type this scalar belongs to.
    pub open spec fn spec_data_type(&self) -> DataType {
        match self {
            ScalarValue::Boolean(_) => DataType::Boolean,
            ScalarValue::Int8(_) => DataType::Int8,
            ScalarValue::Int16(_) => DataType::Int16,
            ScalarValue::Int32(_) => DataType::Int32,
            ScalarValue::Int64(_) => DataType::Int64,
            ScalarValue::UInt8(_) => DataType::UInt8,
            ScalarValue::UInt16(_) => DataType::UInt16,
            ScalarValue::UInt32(_) => DataType::UInt32,
            ScalarValue::UInt64(_) => DataType::UInt64,
            ScalarValue::Float32Bits(_) => DataType::Float32,
            ScalarValue::Float64Bits(_) => DataType::Float64,
            ScalarValue::Utf8(_) => DataType::Utf8,
        }
    }

    /// The cell this scalar denotes: `None` is the null cell.
    pub open spec fn spec_cell(&self) -> Option<CellV> {
        match self {
            ScalarValue::Boolean(v) => match v {
                Some(x) => Some(CellV::Bool(*x)),
                None => None,
            },
            ScalarValue::Int8(v) => match v {
                Some(x) => Some(CellV::I8(*x)),
                None => None,
            },
            ScalarValue::Int16(v) => match v {
                Some(x) => Some(CellV::I16(*x)),
                None => None,
            },
            ScalarValue::Int32(v) => match v {
                Some(x) => Some(CellV::I32(*x)),
                None => None,
            },
            ScalarValue::Int64(v) => match v {
                Some(x) => Some(CellV::I64(*x)),
                None => None,
            },
            ScalarValue::UInt8(v) => match v {
                Some(x) => Some(CellV::U8(*x)),
                None => None,
            },
            ScalarValue::UInt16(v) => match v {
                Some(x) => Some(CellV::U16(*x)),
                None => None,
            },
            ScalarValue::UInt32(v) => match v {
                Some(x) => Some(CellV::U32(*x)),
                None => None,
            },
            ScalarValue::UInt64(v) => match v {
                Some(x) => Some(CellV::U64(*x)),
                None => None,
            },
            ScalarValue::Float32Bits(v) => match v {
                Some(x) => Some(CellV::F32Bits(*x)),
                None => None,
            },
            ScalarValue::Float64Bits(v) => match v {
                Some(x) => Some(CellV::F64Bits(*x)),
                None => None,
            },
            ScalarValue::Utf8(v) => match v {
                Some(x) => Some(CellV::Str(x@)),
                None => None,
            },
        }
    }

    /// The logical type this scalar belongs to.
    pub fn data_type(&self) -> (r: DataType)
        ensures
            r == self.spec_data_type(),
    {
        match self {
            ScalarValue::Boolean(_) => DataType::Boolean,
            ScalarValue::Int8(_) => DataType::Int8,
            ScalarValue::Int16(_) => DataType::Int16,
            ScalarValue::Int32(_) => DataType::Int32,
            ScalarValue::Int64(_) => DataType::Int64,
            ScalarValue::UInt8(_) => DataType::UInt8,
            ScalarValue::UInt16(_) => DataType::UInt16,
            ScalarValue::UInt32(_) => DataType::UInt32,
            ScalarValue::UInt64(_) => DataType::UInt64,
            ScalarValue::Float32Bits(_) => DataType::Float32,
            ScalarValue::Float64Bits(_) => DataType::Float64,
            ScalarValue::Utf8(_) => DataType::Utf8,
        }
    }
}

} // verus!
