use vstd::prelude::*;
use crate::datatypes::DataType;
use crate::error::DataFusionError;
use crate::scalar::{CellV, ScalarValue};

verus! {

/// Physical storage of a column: one vector of optional cells per
/// physical layout. `None` is a null cell. Floating-point storage holds
/// raw IEEE-754 bit patterns.
#[derive(Debug)]
pub enum ColumnData {
    Boolean(Vec<Option<bool>>),
    Int8(Vec<Option<i8>>),
    Int16(Vec<Option<i16>>),
    Int32(Vec<Option<i32>>),
    Int64(Vec<Option<i64>>),
    UInt8(Vec<Option<u8>>),
    UInt16(Vec<Option<u16>>),
    UInt32(Vec<Option<u32>>),
    UInt64(Vec<Option<u64>>),
    Float32(Vec<Option<u32>>),
    Float64(Vec<Option<u64>>),
    Utf8(Vec<Option<String>>),
}

/// An immutable typed array: a logical type over a physical cell vector.
/// Logical date, time and timestamp types share the integer layouts.
#[derive(Debug)]
pub struct Column {
    pub data_type: DataType,
    pub data: ColumnData,
}

pub open spec fn opt_bool(o: Option<bool>) -> Option<CellV> {
    match o {
        Some(x) => Some(CellV::Bool(x)),
        None => None,
    }
}

pub open spec fn opt_i8(o: Option<i8>) -> Option<CellV> {
    match o {
        Some(x) => Some(CellV::I8(x)),
        None => None,
    }
}

pub open spec fn opt_i16(o: Option<i16>) -> Option<CellV> {
    match o {
        Some(x) => Some(CellV::I16(x)),
        None => None,
    }
}

pub open spec fn opt_i32(o: Option<i32>) -> Option<CellV> {
    match o {
        Some(x) => Some(CellV::I32(x)),
        None => None,
    }
}

pub open spec fn opt_i64(o: Option<i64>) -> Option<CellV> {
    match o {
        Some(x) => Some(CellV::I64(x)),
        None => None,
    }
}

pub open spec fn opt_u8(o: Option<u8>) -> Option<CellV> {
    match o {
        Some(x) => Some(CellV::U8(x)),
        None => None,
    }
}

pub open spec fn opt_u16(o: Option<u16>) -> Option<CellV> {
    match o {
        Some(x) => Some(CellV::U16(x)),
        None => None,
    }
}

pub open spec fn opt_u32(o: Option<u32>) -> Option<CellV> {
    match o {
        Some(x) => Some(CellV::U32(x)),
        None => None,
    }
}

pub open spec fn opt_u64(o: Option<u64>) -> Option<CellV> {
    match o {
        Some(x) => Some(CellV::U64(x)),
        None => None,
    }
}

pub open spec fn opt_f32(o: Option<u32>) -> Option<CellV> {
    match o {
        Some(x) => Some(CellV::F32Bits(x)),
        None => None,
    }
}

pub open spec fn opt_f64(o: Option<u64>) -> Option<CellV> {
    match o {
        Some(x) => Some(CellV::F64Bits(x)),
        None => None,
    }
}

pub open spec fn opt_str(o: Option<String>) -> Option<CellV> {
    match o {
        Some(x) => Some(CellV::Str(x@)),
        None => None,
    }
}

impl View for Column {
    type V = Seq<Option<CellV>>;

    open spec fn view(&self) -> Seq<Option<CellV>> {
        match self.data {
            ColumnData::Boolean(v) => v@.map_values(|o: Option<bool>| opt_bool(o)),
            ColumnData::Int8(v) => v@.map_values(|o: Option<i8>| opt_i8(o)),
            ColumnData::Int16(v) => v@.map_values(|o: Option<i16>| opt_i16(o)),
            ColumnData::Int32(v) => v@.map_values(|o: Option<i32>| opt_i32(o)),
            ColumnData::Int64(v) => v@.map_values(|o: Option<i64>| opt_i64(o)),
            ColumnData::UInt8(v) => v@.map_values(|o: Option<u8>| opt_u8(o)),
            ColumnData::UInt16(v) => v@.map_values(|o: Option<u16>| opt_u16(o)),
            ColumnData::UInt32(v) => v@.map_values(|o: Option<u32>| opt_u32(o)),
            ColumnData::UInt64(v) => v@.map_values(|o: Option<u64>| opt_u64(o)),
            ColumnData::Float32(v) => v@.map_values(|o: Option<u32>| opt_f32(o)),
            ColumnData::Float64(v) => v@.map_values(|o: Option<u64>| opt_f64(o)),
            ColumnData::Utf8(v) => v@.map_values(|o: Option<String>| opt_str(o)),
        }
    }
}

impl Column {
    /// The physical storage agrees with the logical type.
    pub open spec fn wf(&self) -> bool {
        match self.data {
            ColumnData::Boolean(_) => self.data_type == DataType::Boolean,
            ColumnData::Int8(_) => self.data_type == DataType::Int8,
            ColumnData::Int16(_) => self.data_type == DataType::Int16,
            ColumnData::Int32(_) => self.data_type == DataType::Int32 || (self.data_type matches
                DataType::Date32(_)) || (self.data_type matches DataType::Time32(_)),
            ColumnData::Int64(_) => self.data_type == DataType::Int64 || (self.data_type matches
                DataType::Time64(_)) || (self.data_type matches DataType::Timestamp(_)),
            ColumnData::UInt8(_) => self.data_type == DataType::UInt8,
            ColumnData::UInt16(_) => self.data_type == DataType::UInt16,
            ColumnData::UInt32(_) => self.data_type == DataType::UInt32,
            ColumnData::UInt64(_) => self.data_type == DataType::UInt64,
            ColumnData::Float32(_) => self.data_type == DataType::Float32,
            ColumnData::Float64(_) => self.data_type == DataType::Float64,
            ColumnData::Utf8(_) => self.data_type == DataType::Utf8,
        }
    }

    /// Runtime check of `wf`.
    pub fn check_wf(&self) -> (r: bool)
        ensures
            r == self.wf(),
    {
        match &self.data {
            ColumnData::Boolean(_) => self.data_type == DataType::Boolean,
            ColumnData::Int8(_) => self.data_type == DataType::Int8,
            ColumnData::Int16(_) => self.data_type == DataType::Int16,
            ColumnData::Int32(_) => self.data_type == DataType::Int32 || (matches!(
                self.data_type,
                DataType::Date32(_),
            )) || (matches!(self.data_type, DataType::Time32(_))),
            ColumnData::Int64(_) => self.data_type == DataType::Int64 || (matches!(
                self.data_type,
                DataType::Time64(_),
            )) || (matches!(self.data_type, DataType::Timestamp(_))),
            ColumnData::UInt8(_) => self.data_type == DataType::UInt8,
            ColumnData::UInt16(_) => self.data_type == DataType::UInt16,
            ColumnData::UInt32(_) => self.data_type == DataType::UInt32,
            ColumnData::UInt64(_) => self.data_type == DataType::UInt64,
            ColumnData::Float32(_) => self.data_type == DataType::Float32,
            ColumnData::Float64(_) => self.data_type == DataType::Float64,
            ColumnData::Utf8(_) => self.data_type == DataType::Utf8,
        }
    }

    /// Number of cells.
    pub fn len(&self) -> (r: usize)
        ensures
            r == self@.len(),
    {
        match &self.data {
            ColumnData::Boolean(v) => v.len(),
            ColumnData::Int8(v) => v.len(),
            ColumnData::Int16(v) => v.len(),
            ColumnData::Int32(v) => v.len(),
            ColumnData::Int64(v) => v.len(),
            ColumnData::UInt8(v) => v.len(),
            ColumnData::UInt16(v) => v.len(),
            ColumnData::UInt32(v) => v.len(),
            ColumnData::UInt64(v) => v.len(),
            ColumnData::Float32(v) => v.len(),
            ColumnData::Float64(v) => v.len(),
            ColumnData::Utf8(v) => v.len(),
        }
    }
}

fn clone_copy_cells<T: Copy>(values: &Vec<Option<T>>) -> (r: Vec<Option<T>>)
    ensures
        r@ == values@,
{
    let mut r: Vec<Option<T>> = Vec::new();
    let mut i: usize = 0;
    while i < values.len()
        invariant
            i <= values@.len(),
            r@ == values@.take(i as int),
        decreases values@.len() - i,
    {
        r.push(values[i]);
        proof {
            assert(r@ =~= values@.take(i + 1 as int));
        }
        i = i + 1;
    }
    proof {
        assert(values@.take(values@.len() as int) =~= values@);
    }
    r
}

fn clone_str_cells(values: &Vec<Option<String>>) -> (r: Vec<Option<String>>)
    ensures
        r@.len() == values@.len(),
        forall|i: int| 0 <= i < values@.len() ==> opt_str(#[trigger] r@[i]) == opt_str(values@[i]),
{
    let mut r: Vec<Option<String>> = Vec::new();
    let mut i: usize = 0;
    while i < values.len()
        invariant
            i <= values@.len(),
            r@.len() == i as int,
            forall|j: int| 0 <= j < i ==> opt_str(#[trigger] r@[j]) == opt_str(values@[j]),
        decreases values@.len() - i,
    {
        match &values[i] {
            Some(s) => r.push(Some(s.clone())),
            None => r.push(None),
        }
        i = i + 1;
    }
    r
}

impl Clone for Column {
    fn clone(&self) -> (r: Self)
        ensures
            r@ == self@,
            r.data_type == self.data_type,
            r.wf() == self.wf(),
    {
        let data = match &self.data {
            ColumnData::Boolean(v) => ColumnData::Boolean(clone_copy_cells(v)),
            ColumnData::Int8(v) => ColumnData::Int8(clone_copy_cells(v)),
            ColumnData::Int16(v) => ColumnData::Int16(clone_copy_cells(v)),
            ColumnData::Int32(v) => ColumnData::Int32(clone_copy_cells(v)),
            ColumnData::Int64(v) => ColumnData::Int64(clone_copy_cells(v)),
            ColumnData::UInt8(v) => ColumnData::UInt8(clone_copy_cells(v)),
            ColumnData::UInt16(v) => ColumnData::UInt16(clone_copy_cells(v)),
            ColumnData::UInt32(v) => ColumnData::UInt32(clone_copy_cells(v)),
            ColumnData::UInt64(v) => ColumnData::UInt64(clone_copy_cells(v)),
            ColumnData::Float32(v) => ColumnData::Float32(clone_copy_cells(v)),
            ColumnData::Float64(v) => ColumnData::Float64(clone_copy_cells(v)),
            ColumnData::Utf8(v) => ColumnData::Utf8(clone_str_cells(v)),
        };
        let r = Column { data_type: self.data_type, data };
        proof {
            assert(r@ =~= self@);
        }
        r
    }
}

fn gather_copy_cells<T: Copy>(values: &Vec<Option<T>>, indices: &Vec<u32>) -> (r: Vec<Option<T>>)
    requires
        forall|i: int| 0 <= i < indices@.len() ==> (indices@[i] as int) < values@.len(),
    ensures
        r@.len() == indices@.len(),
        forall|i: int| 0 <= i < indices@.len() ==> r@[i] == values@[indices@[i] as int],
{
    let mut r: Vec<Option<T>> = Vec::new();
    let mut i: usize = 0;
    while i < indices.len()
        invariant
            i <= indices@.len(),
            forall|j: int| 0 <= j < indices@.len() ==> (indices@[j] as int) < values@.len(),
            r@.len() == i as int,
            forall|j: int| 0 <= j < i ==> r@[j] == values@[indices@[j] as int],
        decreases indices@.len() - i,
    {
        let ix = indices[i] as usize;
        r.push(values[ix]);
        i = i + 1;
    }
    r
}

fn gather_str_cells(values: &Vec<Option<String>>, indices: &Vec<u32>) -> (r: Vec<Option<String>>)
    requires
        forall|i: int| 0 <= i < indices@.len() ==> (indices@[i] as int) < values@.len(),
    ensures
        r@.len() == indices@.len(),
        forall|i: int|
            0 <= i < indices@.len() ==> opt_str(#[trigger] r@[i]) == opt_str(
                values@[indices@[i] as int],
            ),
{
    let mut r: Vec<Option<String>> = Vec::new();
    let mut i: usize = 0;
    while i < indices.len()
        invariant
            i <= indices@.len(),
            forall|j: int| 0 <= j < indices@.len() ==> (indices@[j] as int) < values@.len(),
            r@.len() == i as int,
            forall|j: int|
                0 <= j < i ==> opt_str(#[trigger] r@[j]) == opt_str(values@[indices@[j] as int]),
        decreases indices@.len() - i,
    {
        let ix = indices[i] as usize;
        match &values[ix] {
            Some(s) => r.push(Some(s.clone())),
            None => r.push(None),
        }
        i = i + 1;
    }
    r
}

impl Column {
    /// The `take` compute kernel: gather the cells at `indices`, in
    /// order.
    pub fn take(&self, indices: &Vec<u32>) -> (r: Column)
        requires
            self.wf(),
            forall|i: int| 0 <= i < indices@.len() ==> (indices@[i] as int) < self@.len(),
        ensures
            r.wf(),
            r.data_type == self.data_type,
            r@ == indices@.map_values(|ix: u32| self@[ix as int]),
    {
        let data = match &self.data {
            ColumnData::Boolean(v) => ColumnData::Boolean(gather_copy_cells(v, indices)),
            ColumnData::Int8(v) => ColumnData::Int8(gather_copy_cells(v, indices)),
            ColumnData::Int16(v) => ColumnData::Int16(gather_copy_cells(v, indices)),
            ColumnData::Int32(v) => ColumnData::Int32(gather_copy_cells(v, indices)),
            ColumnData::Int64(v) => ColumnData::Int64(gather_copy_cells(v, indices)),
            ColumnData::UInt8(v) => ColumnData::UInt8(gather_copy_cells(v, indices)),
            ColumnData::UInt16(v) => ColumnData::UInt16(gather_copy_cells(v, indices)),
            ColumnData::UInt32(v) => ColumnData::UInt32(gather_copy_cells(v, indices)),
            ColumnData::UInt64(v) => ColumnData::UInt64(gather_copy_cells(v, indices)),
            ColumnData::Float32(v) => ColumnData::Float32(gather_copy_cells(v, indices)),
            ColumnData::Float64(v) => ColumnData::Float64(gather_copy_cells(v, indices)),
            ColumnData::Utf8(v) => ColumnData::Utf8(gather_str_cells(v, indices)),
        };
        let r = Column { data_type: self.data_type, data };
        proof {
            assert(r@ =~= indices@.map_values(|ix: u32| self@[ix as int]));
        }
        r
    }
}

fn extend_copy_cells<T: Copy>(acc: Vec<Option<T>>, more: &Vec<Option<T>>) -> (r: Vec<Option<T>>)
    ensures
        r@ == acc@ + more@,
{
    let mut r = acc;
    let mut i: usize = 0;
    while i < more.len()
        invariant
            i <= more@.len(),
            r@ == acc@ + more@.take(i as int),
        decreases more@.len() - i,
    {
        r.push(more[i]);
        proof {
            assert(acc@ + more@.take(i + 1 as int) =~= (acc@ + more@.take(i as int)).push(
                more@[i as int],
            ));
        }
        i = i + 1;
    }
    proof {
        assert(more@.take(more@.len() as int) =~= more@);
    }
    r
}

fn extend_str_cells(acc: Vec<Option<String>>, more: &Vec<Option<String>>) -> (r: Vec<
    Option<String>,
>)
    ensures
        r@.len() == acc@.len() + more@.len(),
        forall|i: int| 0 <= i < acc@.len() ==> r@[i] == acc@[i],
        forall|i: int|
            acc@.len() <= i < r@.len() ==> opt_str(#[trigger] r@[i]) == opt_str(
                more@[i - acc@.len()],
            ),
{
    let mut r = acc;
    let mut i: usize = 0;
    while i < more.len()
        invariant
            i <= more@.len(),
            r@.len() == acc@.len() + i as int,
            forall|j: int| 0 <= j < acc@.len() ==> r@[j] == acc@[j],
            forall|j: int|
                acc@.len() <= j < r@.len() ==> opt_str(#[trigger] r@[j]) == opt_str(
                    more@[j - acc@.len()],
                ),
        decreases more@.len() - i,
    {
        match &more[i] {
            Some(s) => r.push(Some(s.clone())),
            None => r.push(None),
        }
        i = i + 1;
    }
    r
}

/// Concatenate two columns of one type, first then second.
fn append_column(acc: Column, other: &Column) -> (r: Column)
    requires
        acc.wf(),
        other.wf(),
        other.data_type == acc.data_type,
    ensures
        r.wf(),
        r.data_type == acc.data_type,
        r@ == acc@ + other@,
{
    let dt = acc.data_type;
    let ghost acc_view = acc@;
    let data = match (acc.data, &other.data) {
        (ColumnData::Boolean(a), ColumnData::Boolean(b)) => ColumnData::Boolean(
            extend_copy_cells(a, b),
        ),
        (ColumnData::Int8(a), ColumnData::Int8(b)) => ColumnData::Int8(extend_copy_cells(a, b)),
        (ColumnData::Int16(a), ColumnData::Int16(b)) => ColumnData::Int16(extend_copy_cells(a, b)),
        (ColumnData::Int32(a), ColumnData::Int32(b)) => ColumnData::Int32(extend_copy_cells(a, b)),
        (ColumnData::Int64(a), ColumnData::Int64(b)) => ColumnData::Int64(extend_copy_cells(a, b)),
        (ColumnData::UInt8(a), ColumnData::UInt8(b)) => ColumnData::UInt8(extend_copy_cells(a, b)),
        (ColumnData::UInt16(a), ColumnData::UInt16(b)) => ColumnData::UInt16(
            extend_copy_cells(a, b),
        ),
        (ColumnData::UInt32(a), ColumnData::UInt32(b)) => ColumnData::UInt32(
            extend_copy_cells(a, b),
        ),
        (ColumnData::UInt64(a), ColumnData::UInt64(b)) => ColumnData::UInt64(
            extend_copy_cells(a, b),
        ),
        (ColumnData::Float32(a), ColumnData::Float32(b)) => ColumnData::Float32(
            extend_copy_cells(a, b),
        ),
        (ColumnData::Float64(a), ColumnData::Float64(b)) => ColumnData::Float64(
            extend_copy_cells(a, b),
        ),
        (ColumnData::Utf8(a), ColumnData::Utf8(b)) => ColumnData::Utf8(extend_str_cells(a, b)),
        _ => vstd::pervasive::unreached(),
    };
    let r = Column { data_type: dt, data };
    proof {
        assert(r@ =~= acc_view + other@);
    }
    r
}

/// Views of a sequence of columns.
pub open spec fn views_of_columns(cols: Seq<Column>) -> Seq<Seq<Option<CellV>>> {
    cols.map_values(|c: Column| c@)
}

/// Concatenation, first to last, of a sequence of cell sequences.
pub open spec fn flatten_cells(s: Seq<Seq<Option<CellV>>>) -> Seq<Option<CellV>>
    decreases s.len(),
{
    if s.len() == 0 {
        Seq::empty()
    } else {
        flatten_cells(s.drop_last()) + s.last()
    }
}

/// The `concat` compute kernel: concatenate the given columns, in order,
/// into one column.
///
/// Fails with an `Arrow` error exactly when the columns do not all share
/// one logical type.
pub fn concat_columns(cols: &Vec<Column>) -> (r: Result<Column, DataFusionError>)
    requires
        cols@.len() >= 1,
        forall|i: int| 0 <= i < cols@.len() ==> (#[trigger] cols@[i]).wf(),
    ensures
        (r is Ok) <==> (forall|i: int|
            0 <= i < cols@.len() ==> (#[trigger] cols@[i]).data_type == cols@[0].data_type),
        r matches Ok(c) ==> c.wf() && c.data_type == cols@[0].data_type && c@ == flatten_cells(
            views_of_columns(cols@),
        ),
        r matches Err(e) ==> e is Arrow,
{
    let dt0 = cols[0].data_type;
    let mut acc: Column = cols[0].clone();
    proof {
        assert(views_of_columns(cols@.take(1)).drop_last() =~= views_of_columns(cols@.take(0)));
        assert(flatten_cells(views_of_columns(cols@.take(0))) + acc@ =~= acc@);
    }
    let mut j: usize = 1;
    while j < cols.len()
        invariant
            1 <= j <= cols@.len(),
            cols@.len() >= 1,
            dt0 == cols@[0].data_type,
            forall|i: int| 0 <= i < cols@.len() ==> (#[trigger] cols@[i]).wf(),
            forall|i: int| 0 <= i < j ==> (#[trigger] cols@[i]).data_type == cols@[0].data_type,
            acc.wf(),
            acc.data_type == cols@[0].data_type,
            acc@ == flatten_cells(views_of_columns(cols@.take(j as int))),
        decreases cols@.len() - j,
    {
        if !(cols[j].data_type == dt0) {
            return Err(DataFusionError::Arrow("cannot concatenate arrays of different types".to_owned()));
        }
        acc = append_column(acc, &cols[j]);
        proof {
            assert(views_of_columns(cols@.take(j + 1)).drop_last() =~= views_of_columns(
                cols@.take(j as int),
            ));
            assert(views_of_columns(cols@.take(j + 1)).last() == cols@[j as int]@);
        }
        j = j + 1;
    }
    proof {
        assert(cols@.take(cols@.len() as int) =~= cols@);
    }
    Ok(acc)
}

impl ScalarValue {
    /// A single-cell column holding exactly this scalar.
    pub fn to_array(&self) -> (r: Column)
        ensures
            r.wf(),
            r.data_type == self.spec_data_type(),
            r@ == seq![self.spec_cell()],
    {
        let data = match self {
            ScalarValue::Boolean(v) => ColumnData::Boolean(vec![*v]),
            ScalarValue::Int8(v) => ColumnData::Int8(vec![*v]),
            ScalarValue::Int16(v) => ColumnData::Int16(vec![*v]),
            ScalarValue::Int32(v) => ColumnData::Int32(vec![*v]),
            ScalarValue::Int64(v) => ColumnData::Int64(vec![*v]),
            ScalarValue::UInt8(v) => ColumnData::UInt8(vec![*v]),
            ScalarValue::UInt16(v) => ColumnData::UInt16(vec![*v]),
            ScalarValue::UInt32(v) => ColumnData::UInt32(vec![*v]),
            ScalarValue::UInt64(v) => ColumnData::UInt64(vec![*v]),
            ScalarValue::Float32Bits(v) => ColumnData::Float32(vec![*v]),
            ScalarValue::Float64Bits(v) => ColumnData::Float64(vec![*v]),
            ScalarValue::Utf8(v) => match v {
                Some(s) => ColumnData::Utf8(vec![Some(s.clone())]),
                None => ColumnData::Utf8(vec![None]),
            },
        };
        let r = Column { data_type: self.data_type(), data };
        proof {
            assert(r@ =~= seq![self.spec_cell()]);
        }
        r
    }
}


/// The number of non-null cells.
pub open spec fn non_null_count(s: Seq<Option<CellV>>) -> nat
    decreases s.len(),
{
    if s.len() == 0 {
        0
    } else {
        non_null_count(s.drop_last()) + (if s.last() is Some {
            1nat
        } else {
            0nat
        })
    }
}

pub proof fn lemma_non_null_count_take_succ(s: Seq<Option<CellV>>, i: int)
    requires
        0 <= i < s.len(),
    ensures
        non_null_count(s.take(i + 1)) == non_null_count(s.take(i)) + (if s[i] is Some {
            1nat
        } else {
            0nat
        }),
{
    assert(s.take(i + 1).drop_last() =~= s.take(i));
    assert(s.take(i + 1).last() == s[i]);
}

pub proof fn lemma_non_null_count_le(s: Seq<Option<CellV>>)
    ensures
        non_null_count(s) <= s.len(),
    decreases s.len(),
{
    if s.len() > 0 {
        lemma_non_null_count_le(s.drop_last());
    }
}

/// Concatenation splits the non-null count.
pub proof fn lemma_non_null_count_concat(a: Seq<Option<CellV>>, b: Seq<Option<CellV>>)
    ensures
        non_null_count(a + b) == non_null_count(a) + non_null_count(b),
    decreases b.len(),
{
    if b.len() == 0 {
        assert(a + b =~= a);
    } else {
        lemma_non_null_count_concat(a, b.drop_last());
        assert((a + b).drop_last() =~= a + b.drop_last());
        assert((a + b).last() == b.last());
    }
}

impl Column {
    /// Whether the cell at `row` carries a value.
    pub fn is_valid(&self, row: usize) -> (r: bool)
        requires
            row < self@.len(),
        ensures
            r == (self@[row as int] is Some),
    {
        match &self.data {
            ColumnData::Boolean(v) => v[row].is_some(),
            ColumnData::Int8(v) => v[row].is_some(),
            ColumnData::Int16(v) => v[row].is_some(),
            ColumnData::Int32(v) => v[row].is_some(),
            ColumnData::Int64(v) => v[row].is_some(),
            ColumnData::UInt8(v) => v[row].is_some(),
            ColumnData::UInt16(v) => v[row].is_some(),
            ColumnData::UInt32(v) => v[row].is_some(),
            ColumnData::UInt64(v) => v[row].is_some(),
            ColumnData::Float32(v) => v[row].is_some(),
            ColumnData::Float64(v) => v[row].is_some(),
            ColumnData::Utf8(v) => v[row].is_some(),
        }
    }

    /// The number of non-null cells.
    pub fn count_non_null(&self) -> (r: usize)
        ensures
            r == non_null_count(self@),
    {
        let n = self.len();
        let mut count: usize = 0;
        let mut i: usize = 0;
        while i < n
            invariant
                i <= n,
                n == self@.len(),
                count <= i,
                count == non_null_count(self@.take(i as int)),
            decreases n - i,
        {
            if self.is_valid(i) {
                count = count + 1;
            }
            proof {
                lemma_non_null_count_take_succ(self@, i as int);
            }
            i = i + 1;
        }
        proof {
            assert(self@.take(self@.len() as int) =~= self@);
        }
        count
    }
}

/// The logical types that have a physical storage here: every type but
/// the raw binary ones.
pub open spec fn storage_supported(dt: DataType) -> bool {
    !(dt == DataType::Binary || (dt matches DataType::FixedSizeBinary(_)))
}

impl Column {
    /// A well-formed empty column of the given type.
    ///
    /// Fails with an `Arrow` error exactly when the type has no storage
    /// here.
    pub fn new_empty(dt: DataType) -> (r: Result<Column, DataFusionError>)
        ensures
            (r is Ok) <==> storage_supported(dt),
            r matches Ok(c) ==> c.wf() && c.data_type == dt && c@.len() == 0,
            r matches Err(e) ==> e is Arrow,
    {
        let data = match dt {
            DataType::Boolean => ColumnData::Boolean(Vec::new()),
            DataType::Int8 => ColumnData::Int8(Vec::new()),
            DataType::Int16 => ColumnData::Int16(Vec::new()),
            DataType::Int32 => ColumnData::Int32(Vec::new()),
            DataType::Int64 => ColumnData::Int64(Vec::new()),
            DataType::UInt8 => ColumnData::UInt8(Vec::new()),
            DataType::UInt16 => ColumnData::UInt16(Vec::new()),
            DataType::UInt32 => ColumnData::UInt32(Vec::new()),
            DataType::UInt64 => ColumnData::UInt64(Vec::new()),
            DataType::Float32 => ColumnData::Float32(Vec::new()),
            DataType::Float64 => ColumnData::Float64(Vec::new()),
            DataType::Date32(_) => ColumnData::Int32(Vec::new()),
            DataType::Time32(_) => ColumnData::Int32(Vec::new()),
            DataType::Time64(_) => ColumnData::Int64(Vec::new()),
            DataType::Timestamp(_) => ColumnData::Int64(Vec::new()),
            DataType::Utf8 => ColumnData::Utf8(Vec::new()),
            DataType::Binary => {
                return Err(DataFusionError::Arrow("no storage for binary columns".to_owned()));
            },
            DataType::FixedSizeBinary(_) => {
                return Err(
                    DataFusionError::Arrow("no storage for fixed-size binary columns".to_owned()),
                );
            },
        };
        Ok(Column { data_type: dt, data })
    }
}


} // verus!
