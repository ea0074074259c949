use vstd::prelude::*;
use crate::batch::RecordBatch;
use crate::column::{non_null_count, Column, ColumnData};
use crate::datatypes::{DataType, Field, FieldV, Schema};
use crate::error::DataFusionError;
use crate::physical_plan::{Accumulator, AggregateExpr, PhysicalExpr};
use crate::scalar::{CellV, ScalarValue};

verus! {

/// The position of the first field named `name`, or `-1` when none is.
pub open spec fn field_index(schema: Seq<FieldV>, name: Seq<char>) -> int
    decreases schema.len(),
{
    if schema.len() == 0 {
        -1
    } else if schema.first().name == name {
        0
    } else {
        let r = field_index(schema.drop_first(), name);
        if r < 0 {
            -1
        } else {
            r + 1
        }
    }
}

pub proof fn lemma_field_index_found(schema: Seq<FieldV>, name: Seq<char>, i: int)
    requires
        0 <= i < schema.len(),
        schema[i].name == name,
        forall|k: int| 0 <= k < i ==> (#[trigger] schema[k]).name != name,
    ensures
        field_index(schema, name) == i,
    decreases i,
{
    if i > 0 {
        lemma_field_index_found(schema.drop_first(), name, i - 1);
        assert(schema.drop_first()[i - 1] == schema[i]);
        assert forall|k: int| 0 <= k < i - 1 implies (#[trigger] schema.drop_first()[k]).name
            != name by {
            assert(schema.drop_first()[k] == schema[k + 1]);
        }
    }
}

pub proof fn lemma_field_index_missing(schema: Seq<FieldV>, name: Seq<char>)
    requires
        forall|k: int| 0 <= k < schema.len() ==> (#[trigger] schema[k]).name != name,
    ensures
        field_index(schema, name) == -1,
    decreases schema.len(),
{
    if schema.len() > 0 {
        lemma_field_index_missing(schema.drop_first(), name);
        assert forall|k: int| 0 <= k < schema.drop_first().len() implies (
        #[trigger] schema.drop_first()[k]).name != name by {
            assert(schema.drop_first()[k] == schema[k + 1]);
        }
    }
}

/// A physical expression that reads one of the batch's columns by
/// name: the first field of that name.
#[derive(Debug)]
pub struct ColumnRef {
    name: String,
}

impl ColumnRef {
    /// Reference a column by name.
    pub fn new(name: String) -> (r: ColumnRef)
        ensures
            r.spec_name() == name@,
    {
        ColumnRef { name }
    }

    /// The referenced name.
    pub closed spec fn spec_name(&self) -> Seq<char> {
        self.name@
    }

    /// The referenced name.
    pub fn name(&self) -> (r: &String)
        ensures
            r@ == self.spec_name(),
    {
        &self.name
    }

    fn find_in(&self, schema: &Schema) -> (r: Option<usize>)
        ensures
            r matches Some(i) ==> 0 <= i < schema@.len() && field_index(
                schema@,
                self.spec_name(),
            ) == i,
            r is None ==> field_index(schema@, self.spec_name()) == -1,
    {
        let n = schema.num_fields();
        let mut i: usize = 0;
        while i < n
            invariant
                i <= n,
                n == schema@.len(),
                forall|k: int| 0 <= k < i ==> (#[trigger] schema@[k]).name != self.spec_name(),
            decreases n - i,
        {
            let fname = schema.field(i).name();
            if *fname == self.name {
                proof {
                    lemma_field_index_found(schema@, self.spec_name(), i as int);
                }
                return Some(i);
            }
            i = i + 1;
        }
        proof {
            lemma_field_index_missing(schema@, self.spec_name());
        }
        None
    }
}

impl Clone for ColumnRef {
    fn clone(&self) -> (r: Self)
        ensures
            r == *self,
            r.spec_name() == self.spec_name(),
    {
        ColumnRef { name: self.name.clone() }
    }
}

/// Build a column reference; the usual shorthand.
pub fn col(name: &str) -> (r: ColumnRef)
    ensures
        r.spec_name() == name@,
{
    ColumnRef::new(name.to_owned())
}

impl PhysicalExpr for ColumnRef {
    /// The type of the first field of the referenced name, where one
    /// is.
    open spec fn spec_data_type(&self, input_schema: Seq<FieldV>) -> Option<DataType> {
        if field_index(input_schema, self.spec_name()) >= 0 {
            Some(input_schema[field_index(input_schema, self.spec_name())].data_type)
        } else {
            None
        }
    }

    /// The nullability of the first field of the referenced name,
    /// where one is.
    open spec fn spec_nullable(&self, input_schema: Seq<FieldV>) -> Option<bool> {
        if field_index(input_schema, self.spec_name()) >= 0 {
            Some(input_schema[field_index(input_schema, self.spec_name())].nullable)
        } else {
            None
        }
    }

    /// The type of the first field of the referenced name; `General`
    /// exactly when no field carries it.
    fn data_type(&self, input_schema: &Schema) -> (r: Result<DataType, DataFusionError>)
        ensures
            (r is Ok) <==> field_index(input_schema@, self.spec_name()) >= 0,
            r matches Ok(dt) ==> dt == input_schema@[field_index(
                input_schema@,
                self.spec_name(),
            )].data_type,
            r matches Err(e) ==> e is General,
    {
        match self.find_in(input_schema) {
            Some(i) => Ok(input_schema.field(i).data_type()),
            None => Err(DataFusionError::General("no field of the requested name".to_owned())),
        }
    }

    /// The nullability of the first field of the referenced name;
    /// `General` exactly when no field carries it.
    fn nullable(&self, input_schema: &Schema) -> (r: Result<bool, DataFusionError>)
        ensures
            (r is Ok) <==> field_index(input_schema@, self.spec_name()) >= 0,
            r matches Ok(b) ==> b == input_schema@[field_index(
                input_schema@,
                self.spec_name(),
            )].nullable,
            r matches Err(e) ==> e is General,
    {
        match self.find_in(input_schema) {
            Some(i) => Ok(input_schema.field(i).is_nullable()),
            None => Err(DataFusionError::General("no field of the requested name".to_owned())),
        }
    }

    /// The batch's column under the first field of the referenced name;
    /// `General` exactly when no field carries it.
    fn evaluate(&self, batch: &RecordBatch) -> (r: Result<Column, DataFusionError>)
        ensures
            r matches Ok(c) ==> c.wf() && c@.len() == batch@.num_rows,
            (r is Ok) <==> field_index(batch@.schema, self.spec_name()) >= 0,
            r matches Ok(c) ==> c@ == batch@.columns[field_index(batch@.schema, self.spec_name())],
            r matches Err(e) ==> e is General,
    {
        let n = batch.num_columns();
        match self.find_in(batch.schema()) {
            Some(i) => Ok(batch.column(i).clone()),
            None => Err(DataFusionError::General("no field of the requested name".to_owned())),
        }
    }
}

/// The sum of the non-null unsigned 64-bit cells.
pub open spec fn sum_u64_cells(s: Seq<Option<CellV>>) -> int
    decreases s.len(),
{
    if s.len() == 0 {
        0
    } else {
        sum_u64_cells(s.drop_last()) + (match s.last() {
            Some(CellV::U64(v)) => v as int,
            _ => 0,
        })
    }
}

pub proof fn lemma_sum_u64_cells_take_succ(s: Seq<Option<CellV>>, i: int)
    requires
        0 <= i < s.len(),
    ensures
        sum_u64_cells(s.take(i + 1)) == sum_u64_cells(s.take(i)) + (match s[i] {
            Some(CellV::U64(v)) => v as int,
            _ => 0,
        }),
{
    assert(s.take(i + 1).drop_last() =~= s.take(i));
    assert(s.take(i + 1).last() == s[i]);
}

pub proof fn lemma_sum_u64_cells_mono(s: Seq<Option<CellV>>, i: int)
    requires
        0 <= i <= s.len(),
    ensures
        sum_u64_cells(s.take(i)) <= sum_u64_cells(s),
    decreases s.len() - i,
{
    if i == s.len() {
        assert(s.take(i) =~= s);
    } else {
        lemma_sum_u64_cells_take_succ(s, i);
        lemma_sum_u64_cells_mono(s, i + 1);
    }
}

/// An accumulator counting the non-null cells of its first input
/// column. Its serialized state is the single unsigned count.
#[derive(Debug, Clone)]
pub struct CountAccumulator {
    count: u64,
}

impl CountAccumulator {
    /// The current count.
    pub closed spec fn spec_count(&self) -> nat {
        self.count as nat
    }

    /// A fresh counter at zero.
    pub fn new() -> (r: CountAccumulator)
        ensures
            r.spec_count() == 0,
    {
        CountAccumulator { count: 0 }
    }
}

impl Accumulator for CountAccumulator {
    /// Add the number of non-null cells of the first input column.
    ///
    /// Fails with `Internal` exactly when no column is given or the
    /// count would overflow.
    fn update_batch(&mut self, values: &Vec<Column>) -> (r: Result<(), DataFusionError>)
        ensures
            (r is Ok) <==> (values@.len() >= 1 && old(self).spec_count() + non_null_count(
                values@[0]@,
            ) <= u64::MAX),
            r is Ok ==> final(self).spec_count() == old(self).spec_count() + non_null_count(
                values@[0]@,
            ),
            r is Err ==> final(self).spec_count() == old(self).spec_count(),
            r matches Err(e) ==> e is Internal,
    {
        if values.len() == 0 {
            return Err(DataFusionError::Internal("count expects one input column".to_owned()));
        }
        let add = values[0].count_non_null();
        proof {
            crate::column::lemma_non_null_count_le(values@[0]@);
        }
        if add as u64 > u64::MAX - self.count {
            return Err(DataFusionError::Internal("count overflow".to_owned()));
        }
        self.count = self.count + add as u64;
        Ok(())
    }

    /// Add the partial counts of the first state column: the sum of its
    /// non-null unsigned cells.
    ///
    /// Fails with `Internal` exactly when no column is given, the
    /// column is not an unsigned 64-bit one, or the count would
    /// overflow.
    fn merge_batch(&mut self, states: &Vec<Column>) -> (r: Result<(), DataFusionError>)
        ensures
            (r is Ok) <==> (states@.len() >= 1 && (states@[0].data matches ColumnData::UInt64(_))
                && old(self).spec_count() + sum_u64_cells(states@[0]@) <= u64::MAX),
            r is Ok ==> final(self).spec_count() == old(self).spec_count() + sum_u64_cells(
                states@[0]@,
            ),
            r is Err ==> final(self).spec_count() == old(self).spec_count(),
            r matches Err(e) ==> e is Internal,
    {
        if states.len() == 0 {
            return Err(DataFusionError::Internal("count expects one state column".to_owned()));
        }
        let counts = match &states[0].data {
            ColumnData::UInt64(v) => v,
            _ => {
                return Err(
                    DataFusionError::Internal("count state column must be unsigned".to_owned()),
                );
            },
        };
        let ghost cells = states@[0]@;
        let mut total: u64 = self.count;
        let mut i: usize = 0;
        while i < counts.len()
            invariant
                i <= counts@.len(),
                cells == states@[0]@,
                counts@.map_values(|o: Option<u64>| crate::column::opt_u64(o)) == cells,
                total == old(self).spec_count() + sum_u64_cells(cells.take(i as int)),
                old(self).spec_count() + sum_u64_cells(cells.take(i as int)) <= u64::MAX,
                self.count == old(self).count,
            decreases counts@.len() - i,
        {
            proof {
                lemma_sum_u64_cells_take_succ(cells, i as int);
                assert(cells[i as int] == crate::column::opt_u64(counts@[i as int]));
            }
            match counts[i] {
                Some(v) => {
                    if v > u64::MAX - total {
                        proof {
                            lemma_sum_u64_cells_mono(cells, i + 1);
                        }
                        return Err(DataFusionError::Internal("count overflow".to_owned()));
                    }
                    total = total + v;
                },
                None => {},
            }
            i = i + 1;
        }
        proof {
            assert(cells.take(cells.len() as int) =~= cells);
        }
        self.count = total;
        Ok(())
    }

    /// The single state scalar: the count.
    fn state(&self) -> (r: Result<Vec<ScalarValue>, DataFusionError>)
        ensures
            r matches Ok(v) && v@.len() == 1 && v@[0].spec_cell() == Some(
                CellV::U64((self.spec_count()) as u64),
            ) && v@[0].spec_data_type() == DataType::UInt64,
    {
        Ok(vec![ScalarValue::UInt64(Some(self.count))])
    }

    /// The final value: the count.
    fn evaluate(&self) -> (r: Result<ScalarValue, DataFusionError>)
        ensures
            r matches Ok(v) && v.spec_cell() == Some(CellV::U64((self.spec_count()) as u64))
                && v.spec_data_type() == DataType::UInt64,
    {
        Ok(ScalarValue::UInt64(Some(self.count)))
    }
}

/// The COUNT aggregate over one input expression: per group, the number
/// of rows whose input value is not null.
#[derive(Debug, Clone)]
pub struct Count {
    expr: ColumnRef,
    name: String,
}

impl Count {
    /// Build a COUNT over an input column with an output name.
    pub fn new(expr: ColumnRef, name: String) -> (r: Count)
        ensures
            r.spec_name() == name@,
            r.spec_expr_name() == expr.spec_name(),
    {
        Count { expr, name }
    }

    /// The output field's name.
    pub closed spec fn spec_name(&self) -> Seq<char> {
        self.name@
    }

    /// The input column's name.
    pub closed spec fn spec_expr_name(&self) -> Seq<char> {
        self.expr.spec_name()
    }
}

impl AggregateExpr for Count {
    type Expr = ColumnRef;

    type Acc = CountAccumulator;

    /// The single input: the referenced column.
    closed spec fn spec_expressions(&self) -> Seq<ColumnRef> {
        seq![self.expr]
    }

    /// The single state field: the count, named after the output.
    closed spec fn spec_state_fields(&self) -> Option<Seq<FieldV>> {
        Some(
            seq![
                FieldV { name: self.spec_name(), data_type: DataType::UInt64, nullable: true },
            ],
        )
    }

    /// The output field.
    closed spec fn spec_field(&self) -> Option<FieldV> {
        Some(FieldV { name: self.spec_name(), data_type: DataType::UInt64, nullable: true })
    }

    /// One input: the referenced column.
    fn expressions(&self) -> (r: Vec<ColumnRef>)
        ensures
            r@ == self.spec_expressions(),
            r@.len() == 1,
            r@[0].spec_name() == self.spec_expr_name(),
    {
        let r = vec![self.expr.clone()];
        proof {
            assert(r@ =~= self.spec_expressions());
        }
        r
    }

    /// One state field, named after the output, of the count's type.
    fn state_fields(&self) -> (r: Result<Vec<Field>, DataFusionError>)
        ensures
            r matches Ok(v) && v@.len() == 1 && v@[0]@ == (FieldV {
                name: self.spec_name(),
                data_type: DataType::UInt64,
                nullable: true,
            }),
    {
        let r = vec![Field::new(self.name.clone(), DataType::UInt64, true)];
        proof {
            assert(Some(r@.map_values(|f: Field| f@)) =~= self.spec_state_fields());
        }
        Ok(r)
    }

    /// The output field.
    fn field(&self) -> (r: Result<Field, DataFusionError>)
        ensures
            r matches Ok(f) && f@ == (FieldV {
                name: self.spec_name(),
                data_type: DataType::UInt64,
                nullable: true,
            }),
    {
        Ok(Field::new(self.name.clone(), DataType::UInt64, true))
    }

    /// A fresh counter at zero.
    fn create_accumulator(&self) -> (r: Result<CountAccumulator, DataFusionError>)
        ensures
            r matches Ok(a) && a.spec_count() == 0,
    {
        Ok(CountAccumulator::new())
    }
}

/// Counting distributes over splitting the input: folding two runs of
/// cells one after the other counts exactly what folding their
/// concatenation counts, so partial counts over partitions merge to the
/// single-stage total.
pub proof fn lemma_count_split(a: Seq<Option<CellV>>, b: Seq<Option<CellV>>)
    ensures
        non_null_count(a + b) == non_null_count(a) + non_null_count(b),
{
    crate::column::lemma_non_null_count_concat(a, b);
}

/// Round trip through serialized state: a fresh counter updated with
/// some cells, serialized via `state` into the single-cell state
/// column, and merged into another fresh counter, evaluates to the same
/// count as the directly updated counter.
pub proof fn lemma_count_state_roundtrip(cells: Seq<Option<CellV>>)
    requires
        non_null_count(cells) <= u64::MAX,
    ensures
        ({
            let direct = non_null_count(cells);
            let state_column = seq![Some(CellV::U64(direct as u64))];
            sum_u64_cells(state_column) == direct
        }),
{
    let direct = non_null_count(cells);
    let state_column = seq![Some(CellV::U64(direct as u64))];
    assert(state_column.drop_last() =~= Seq::<Option<CellV>>::empty());
    assert(state_column.last() == Some(CellV::U64(direct as u64)));
    assert(sum_u64_cells(Seq::<Option<CellV>>::empty()) == 0);
    assert(sum_u64_cells(state_column) == sum_u64_cells(state_column.drop_last()) + direct);
}

} // verus!
