use vstd::prelude::*;
use crate::batch::RecordBatch;
use crate::column::{non_null_count, Column, ColumnData};
use crate::datatypes::{DataType, Field, FieldV, Schema};
use crate::error::DataFusionError;
use crate::expressions::ColumnRef;
use crate::physical_plan::{
    Accumulator, AggregateExpr, Distribution, ExecutionPlan, Partitioning, PhysicalExpr,
};
use crate::producer::BatchProducer;
use crate::scalar::{CellV, GroupByScalar, ScalarValue};

verus! {

/// Hash aggregate modes: the two phases of a distributable aggregate.
#[derive(Debug, Copy, Clone)]
pub enum AggregateMode {
    /// Partial aggregate that can be applied in parallel across input
    /// partitions; it emits the accumulators' serialized states.
    Partial,
    /// Final aggregate that produces a single partition of output from
    /// partial states; it emits the aggregates' values.
    Final,
}

/// An expression the aggregate evaluates against each input batch:
/// either an aggregate's own input expression (partial phase), or a
/// by-name reference to a serialized state column (final phase).
pub enum AggregateInput<E: PhysicalExpr> {
    Expr(E),
    StateColumn(ColumnRef),
}

impl<E: PhysicalExpr> AggregateInput<E> {
    /// Evaluate against a batch, by whichever expression this is.
    pub fn evaluate(&self, batch: &RecordBatch) -> (r: Result<Column, DataFusionError>)
        ensures
            r matches Ok(c) ==> c.wf() && c@.len() == batch@.num_rows,
    {
        match self {
            AggregateInput::Expr(e) => e.evaluate(batch),
            AggregateInput::StateColumn(c) => c.evaluate(batch),
        }
    }
}

/// Evaluate each expression against the batch: one well-formed column
/// of the batch's row count per expression.
pub fn evaluate<E: PhysicalExpr>(expr: &Vec<E>, batch: &RecordBatch) -> (r: Result<
    Vec<Column>,
    DataFusionError,
>)
    ensures
        r matches Ok(v) ==> v@.len() == expr@.len() && (forall|i: int|
            0 <= i < v@.len() ==> (#[trigger] v@[i]).wf() && v@[i]@.len() == batch@.num_rows),
{
    let mut out: Vec<Column> = Vec::new();
    let mut i: usize = 0;
    while i < expr.len()
        invariant
            i <= expr@.len(),
            out@.len() == i as int,
            forall|j: int|
                0 <= j < i ==> (#[trigger] out@[j]).wf() && out@[j]@.len() == batch@.num_rows,
        decreases expr@.len() - i,
    {
        match expr[i].evaluate(batch) {
            Ok(c) => out.push(c),
            Err(e) => {
                return Err(e);
            },
        }
        i = i + 1;
    }
    Ok(out)
}

/// Evaluate each aggregate's input expressions against the batch: one
/// list of columns per aggregate, each column of the batch's row count.
pub fn evaluate_many<E: PhysicalExpr>(
    expr: &Vec<Vec<AggregateInput<E>>>,
    batch: &RecordBatch,
) -> (r: Result<Vec<Vec<Column>>, DataFusionError>)
    ensures
        r matches Ok(v) ==> v@.len() == expr@.len() && (forall|i: int, k: int|
            0 <= i < v@.len() && 0 <= k < v@[i]@.len() ==> (#[trigger] v@[i]@[k]).wf()
                && v@[i]@[k]@.len() == batch@.num_rows),
{
    let mut out: Vec<Vec<Column>> = Vec::new();
    let mut i: usize = 0;
    while i < expr.len()
        invariant
            i <= expr@.len(),
            out@.len() == i as int,
            forall|j: int, k: int|
                0 <= j < i && 0 <= k < out@[j]@.len() ==> (#[trigger] out@[j]@[k]).wf()
                    && out@[j]@[k]@.len() == batch@.num_rows,
        decreases expr@.len() - i,
    {
        let exprs = &expr[i];
        let mut cols: Vec<Column> = Vec::new();
        let mut k: usize = 0;
        while k < exprs.len()
            invariant
                k <= exprs@.len(),
                cols@.len() == k as int,
                forall|m: int|
                    0 <= m < k ==> (#[trigger] cols@[m]).wf() && cols@[m]@.len()
                        == batch@.num_rows,
            decreases exprs@.len() - k,
        {
            match exprs[k].evaluate(batch) {
                Ok(c) => cols.push(c),
                Err(e) => {
                    return Err(e);
                },
            }
            k = k + 1;
        }
        out.push(cols);
        i = i + 1;
    }
    Ok(out)
}

/// One by-name column reference per field, under the field's name.
pub fn state_column_refs(fields: &Vec<Field>) -> (r: Vec<ColumnRef>)
    ensures
        r@.len() == fields@.len(),
        forall|i: int| 0 <= i < r@.len() ==> (#[trigger] r@[i]).spec_name() == fields@[i]@.name,
{
    let mut out: Vec<ColumnRef> = Vec::new();
    let mut i: usize = 0;
    while i < fields.len()
        invariant
            i <= fields@.len(),
            out@.len() == i as int,
            forall|j: int| 0 <= j < i ==> (#[trigger] out@[j]).spec_name() == fields@[j]@.name,
        decreases fields@.len() - i,
    {
        out.push(ColumnRef::new(fields[i].name().clone()));
        i = i + 1;
    }
    out
}

/// Build, from an aggregate's state fields, the by-name column
/// references through which its serialized partial state is read back
/// in the final phase: one reference per state field, under the state
/// field's name. Succeeds exactly when the aggregate's state-field
/// model resolves.
pub fn merge_expressions<A: AggregateExpr>(expr: &A) -> (r: Result<Vec<ColumnRef>, DataFusionError>)
    ensures
        (r is Ok) <==> expr.spec_state_fields() is Some,
        r matches Ok(v) ==> v@.len() == expr.spec_state_fields()->Some_0.len() && (forall|k: int|
            0 <= k < v@.len() ==> (#[trigger] v@[k]).spec_name()
                == expr.spec_state_fields()->Some_0[k].name),
{
    let fields = match expr.state_fields() {
        Ok(f) => f,
        Err(e) => {
            return Err(e);
        },
    };
    Ok(state_column_refs(&fields))
}

/// The per-aggregate claim of `aggregate_expressions`: in the partial
/// phase the aggregate's own modeled input expressions, wrapped; in
/// the final phase one by-name reference per modeled state field,
/// under the state field's name.
pub open spec fn aggregate_inputs_ok<A: AggregateExpr>(
    a: A,
    list: Seq<AggregateInput<A::Expr>>,
    mode: AggregateMode,
) -> bool {
    match mode {
        AggregateMode::Partial => list == a.spec_expressions().map_values(
            |e: A::Expr| AggregateInput::<A::Expr>::Expr(e),
        ),
        AggregateMode::Final => {
            &&& a.spec_state_fields() is Some
            &&& list.len() == a.spec_state_fields()->Some_0.len()
            &&& forall|k: int|
                0 <= k < list.len() ==> ((#[trigger] list[k]) matches AggregateInput::StateColumn(
                    c,
                ) && c.spec_name() == a.spec_state_fields()->Some_0[k].name)
        },
    }
}

/// The expressions to evaluate against each input batch, one list per
/// aggregate: in the partial phase each aggregate's own input
/// expressions; in the final phase by-name references to its state
/// fields, so that partial-state columns are read back positionally.
///
/// Succeeds exactly when, in the final phase, every aggregate's
/// state-field model resolves; the partial phase always succeeds.
pub fn aggregate_expressions<A: AggregateExpr>(aggr_expr: &Vec<A>, mode: &AggregateMode) -> (r:
    Result<Vec<Vec<AggregateInput<A::Expr>>>, DataFusionError>)
    ensures
        (r is Ok) <==> (match mode {
            AggregateMode::Partial => true,
            AggregateMode::Final => forall|i: int|
                0 <= i < aggr_expr@.len() ==> (#[trigger] aggr_expr@[i].spec_state_fields())
                    is Some,
        }),
        r matches Ok(v) ==> v@.len() == aggr_expr@.len() && (forall|i: int|
            0 <= i < v@.len() ==> aggregate_inputs_ok(
                aggr_expr@[i],
                (#[trigger] v@[i])@,
                *mode,
            )),
{
    let mut out: Vec<Vec<AggregateInput<A::Expr>>> = Vec::new();
    let mut i: usize = 0;
    while i < aggr_expr.len()
        invariant
            i <= aggr_expr@.len(),
            out@.len() == i as int,
            forall|j: int|
                0 <= j < i ==> aggregate_inputs_ok(aggr_expr@[j], (#[trigger] out@[j])@, *mode),
            (mode matches AggregateMode::Final) ==> (forall|j: int|
                0 <= j < i ==> (#[trigger] aggr_expr@[j].spec_state_fields()) is Some),
        decreases aggr_expr@.len() - i,
    {
        match mode {
            AggregateMode::Partial => {
                let exprs = aggr_expr[i].expressions();
                let ghost orig = exprs@;
                let mut list: Vec<AggregateInput<A::Expr>> = Vec::new();
                let mut rest = exprs;
                while rest.len() > 0
                    invariant
                        orig == aggr_expr@[i as int].spec_expressions(),
                        list@.len() + rest@.len() == orig.len(),
                        rest@ == orig.skip(list@.len() as int),
                        forall|k: int|
                            0 <= k < list@.len() ==> (#[trigger] list@[k])
                                == AggregateInput::<A::Expr>::Expr(orig[k]),
                    decreases rest@.len(),
                {
                    let ghost pre_rest = rest@;
                    let e = rest.remove(0);
                    proof {
                        assert(e == orig[list@.len() as int]);
                        assert(rest@ =~= orig.skip(list@.len() + 1int));
                    }
                    list.push(AggregateInput::Expr(e));
                }
                proof {
                    assert(list@ =~= orig.map_values(
                        |e2: A::Expr| AggregateInput::<A::Expr>::Expr(e2),
                    ));
                }
                out.push(list);
            },
            AggregateMode::Final => {
                let refs = match merge_expressions(&aggr_expr[i]) {
                    Ok(v) => v,
                    Err(e) => {
                        return Err(e);
                    },
                };
                let ghost orig = refs@;
                let mut list: Vec<AggregateInput<A::Expr>> = Vec::new();
                let mut rest = refs;
                while rest.len() > 0
                    invariant
                        orig.len() == aggr_expr@[i as int].spec_state_fields()->Some_0.len(),
                        forall|k: int|
                            0 <= k < orig.len() ==> (#[trigger] orig[k]).spec_name() == aggr_expr@[
                                i as int
                            ].spec_state_fields()->Some_0[k].name,
                        list@.len() + rest@.len() == orig.len(),
                        rest@ == orig.skip(list@.len() as int),
                        forall|k: int|
                            0 <= k < list@.len() ==> (#[trigger] list@[k])
                                == AggregateInput::<A::Expr>::StateColumn(orig[k]),
                    decreases rest@.len(),
                {
                    let c = rest.remove(0);
                    proof {
                        assert(c == orig[list@.len() as int]);
                        assert(rest@ =~= orig.skip(list@.len() + 1int));
                    }
                    list.push(AggregateInput::StateColumn(c));
                }
                out.push(list);
            },
        }
        i = i + 1;
    }
    Ok(out)
}

/// One fresh accumulator per aggregate expression.
pub fn create_accumulators<A: AggregateExpr>(aggr_expr: &Vec<A>) -> (r: Result<
    Vec<A::Acc>,
    DataFusionError,
>)
    ensures
        r matches Ok(v) ==> v@.len() == aggr_expr@.len(),
{
    let mut out: Vec<A::Acc> = Vec::new();
    let mut i: usize = 0;
    while i < aggr_expr.len()
        invariant
            i <= aggr_expr@.len(),
            out@.len() == i as int,
        decreases aggr_expr@.len() - i,
    {
        match aggr_expr[i].create_accumulator() {
            Ok(a) => out.push(a),
            Err(e) => {
                return Err(e);
            },
        }
        i = i + 1;
    }
    Ok(out)
}

/// The grouping fields the operator derives: each grouping
/// expression's declared name with its modeled type and nullability;
/// `None` where some expression does not resolve against the input
/// schema.
pub open spec fn spec_group_fields<E: PhysicalExpr>(
    input: Seq<FieldV>,
    group_expr: Seq<(E, String)>,
) -> Option<Seq<FieldV>> {
    if forall|i: int|
        0 <= i < group_expr.len() ==> (#[trigger] group_expr[i].0.spec_data_type(input)) is Some
            && group_expr[i].0.spec_nullable(input) is Some {
        Some(
            Seq::new(
                group_expr.len(),
                |i: int|
                    FieldV {
                        name: group_expr[i].1@,
                        data_type: group_expr[i].0.spec_data_type(input)->Some_0,
                        nullable: group_expr[i].0.spec_nullable(input)->Some_0,
                    },
            ),
        )
    } else {
        None
    }
}

/// The payload fields the operator derives: in the partial phase the
/// concatenation of every aggregate's state fields, in the final phase
/// one value field per aggregate; `None` where some aggregate's model
/// does not resolve.
pub open spec fn spec_payload_fields<A: AggregateExpr>(
    aggr_expr: Seq<A>,
    mode: AggregateMode,
) -> Option<Seq<FieldV>> {
    match mode {
        AggregateMode::Partial => if forall|i: int|
            0 <= i < aggr_expr.len() ==> (#[trigger] aggr_expr[i].spec_state_fields()) is Some {
            Some(
                Seq::new(
                    aggr_expr.len(),
                    |i: int| aggr_expr[i].spec_state_fields()->Some_0,
                ).flatten_alt(),
            )
        } else {
            None
        },
        AggregateMode::Final => if forall|i: int|
            0 <= i < aggr_expr.len() ==> (#[trigger] aggr_expr[i].spec_field()) is Some {
            Some(Seq::new(aggr_expr.len(), |i: int| aggr_expr[i].spec_field()->Some_0))
        } else {
            None
        },
    }
}

/// The operator's output schema: grouping fields first, then payload
/// fields; `None` where either does not resolve.
pub open spec fn spec_output_schema<E: PhysicalExpr, A: AggregateExpr>(
    input: Seq<FieldV>,
    group_expr: Seq<(E, String)>,
    aggr_expr: Seq<A>,
    mode: AggregateMode,
) -> Option<Seq<FieldV>> {
    match (spec_group_fields(input, group_expr), spec_payload_fields(aggr_expr, mode)) {
        (Some(g), Some(p)) => Some(g + p),
        _ => None,
    }
}

/// The schema of the aggregate's output, exactly as the expressions'
/// models give it: the grouping columns first, in declared order and
/// under their declared names with their modeled types and
/// nullability, then per aggregate either its state fields (partial
/// phase) or its value field (final phase).
///
/// Succeeds exactly when every expression's model resolves; the
/// expressions' own errors pass through.
pub fn create_schema<E: PhysicalExpr, A: AggregateExpr>(
    input_schema: &Schema,
    group_expr: &Vec<(E, String)>,
    aggr_expr: &Vec<A>,
    mode: AggregateMode,
) -> (r: Result<Schema, DataFusionError>)
    ensures
        (r is Ok) <==> spec_output_schema(input_schema@, group_expr@, aggr_expr@, mode) is Some,
        r matches Ok(s) ==> Some(s@) == spec_output_schema(
            input_schema@,
            group_expr@,
            aggr_expr@,
            mode,
        ),
        r matches Ok(s) ==> s@.len() >= group_expr@.len() && (forall|j: int|
            0 <= j < group_expr@.len() ==> (#[trigger] s@[j]).name == group_expr@[j].1@),
        r matches Ok(s) ==> ((mode matches AggregateMode::Final) ==> s@.len() == group_expr@.len()
            + aggr_expr@.len()),
{
    let ghost input_v = input_schema@;
    let mut fields: Vec<Field> = Vec::new();
    let mut i: usize = 0;
    while i < group_expr.len()
        invariant
            i <= group_expr@.len(),
            input_v == input_schema@,
            fields@.len() == i as int,
            forall|j: int|
                0 <= j < i ==> (#[trigger] group_expr@[j].0.spec_data_type(input_v)) is Some
                    && group_expr@[j].0.spec_nullable(input_v) is Some,
            forall|j: int|
                0 <= j < i ==> (#[trigger] fields@[j])@ == (FieldV {
                    name: group_expr@[j].1@,
                    data_type: group_expr@[j].0.spec_data_type(input_v)->Some_0,
                    nullable: group_expr@[j].0.spec_nullable(input_v)->Some_0,
                }),
        decreases group_expr@.len() - i,
    {
        let dt = match group_expr[i].0.data_type(input_schema) {
            Ok(d) => d,
            Err(e) => {
                proof {
                    assert(spec_group_fields(input_v, group_expr@) is None);
                }
                return Err(e);
            },
        };
        let nullable = match group_expr[i].0.nullable(input_schema) {
            Ok(b) => b,
            Err(e) => {
                proof {
                    assert(spec_group_fields(input_v, group_expr@) is None);
                }
                return Err(e);
            },
        };
        fields.push(Field::new(group_expr[i].1.clone(), dt, nullable));
        i = i + 1;
    }
    proof {
        assert(spec_group_fields(input_v, group_expr@) matches Some(g) && g =~= fields@.map_values(
            |f: Field| f@,
        ));
    }
    let ghost group_fields_v = fields@.map_values(|f: Field| f@);
    let mut k: usize = 0;
    while k < aggr_expr.len()
        invariant
            k <= aggr_expr@.len(),
            input_v == input_schema@,
            spec_group_fields(input_v, group_expr@) == Some(group_fields_v),
            group_fields_v.len() == group_expr@.len(),
            forall|j: int|
                0 <= j < group_expr@.len() ==> (#[trigger] group_fields_v[j]).name
                    == group_expr@[j].1@,
            (mode matches AggregateMode::Partial) ==> (forall|j: int|
                0 <= j < k ==> (#[trigger] aggr_expr@[j].spec_state_fields()) is Some)
                && fields@.map_values(|f: Field| f@) == group_fields_v + Seq::new(
                k as nat,
                |j: int| aggr_expr@[j].spec_state_fields()->Some_0,
            ).flatten_alt(),
            (mode matches AggregateMode::Final) ==> (forall|j: int|
                0 <= j < k ==> (#[trigger] aggr_expr@[j].spec_field()) is Some)
                && fields@.map_values(|f: Field| f@) == group_fields_v + Seq::new(
                k as nat,
                |j: int| aggr_expr@[j].spec_field()->Some_0,
            ),
        decreases aggr_expr@.len() - k,
    {
        let ghost pre_view = fields@.map_values(|f: Field| f@);
        match mode {
            AggregateMode::Partial => {
                let state = match aggr_expr[k].state_fields() {
                    Ok(f) => f,
                    Err(e) => {
                        proof {
                            assert(spec_payload_fields(aggr_expr@, mode) is None);
                        }
                        return Err(e);
                    },
                };
                let ghost sv = state@.map_values(|f: Field| f@);
                proof {
                    assert(fields@.map_values(|f: Field| f@) =~= pre_view + sv.take(0));
                }
                let mut m: usize = 0;
                while m < state.len()
                    invariant
                        m <= state@.len(),
                        sv == state@.map_values(|f: Field| f@),
                        fields@.map_values(|f: Field| f@) == pre_view + sv.take(m as int),
                    decreases state@.len() - m,
                {
                    let ghost pre_map = fields@.map_values(|f: Field| f@);
                    let fld = state[m].clone();
                    proof {
                        assert(fld@ == sv[m as int]);
                    }
                    fields.push(fld);
                    proof {
                        assert(fields@.map_values(|f: Field| f@) =~= pre_map.push(sv[m as int]));
                        assert((pre_view + sv.take(m as int)).push(sv[m as int]) =~= pre_view
                            + sv.take(m + 1));
                    }
                    m = m + 1;
                }
                proof {
                    assert(sv.take(state@.len() as int) =~= sv);
                    assert(Seq::new(
                        (k + 1) as nat,
                        |j: int| aggr_expr@[j].spec_state_fields()->Some_0,
                    ).drop_last() =~= Seq::new(
                        k as nat,
                        |j: int| aggr_expr@[j].spec_state_fields()->Some_0,
                    ));
                    assert(Seq::new(
                        (k + 1) as nat,
                        |j: int| aggr_expr@[j].spec_state_fields()->Some_0,
                    ).flatten_alt() =~= Seq::new(
                        k as nat,
                        |j: int| aggr_expr@[j].spec_state_fields()->Some_0,
                    ).flatten_alt() + sv);
                    assert(fields@.map_values(|f: Field| f@) =~= group_fields_v + Seq::new(
                        (k + 1) as nat,
                        |j: int| aggr_expr@[j].spec_state_fields()->Some_0,
                    ).flatten_alt());
                }
            },
            AggregateMode::Final => {
                match aggr_expr[k].field() {
                    Ok(f) => {
                        let ghost pre_map = fields@.map_values(|f2: Field| f2@);
                        let ghost fv = f@;
                        fields.push(f);
                        proof {
                            assert(fv == aggr_expr@[k as int].spec_field()->Some_0);
                            assert(fields@.map_values(|f2: Field| f2@) =~= pre_map.push(fv));
                            assert(pre_map.push(fv) =~= group_fields_v + Seq::new(
                                (k + 1) as nat,
                                |j: int| aggr_expr@[j].spec_field()->Some_0,
                            ));
                        }
                    },
                    Err(e) => {
                        proof {
                            assert(spec_payload_fields(aggr_expr@, mode) is None);
                        }
                        return Err(e);
                    },
                }
            },
        }
        k = k + 1;
    }
    let s = Schema::new(fields);
    proof {
        match mode {
            AggregateMode::Partial => {
                assert(Seq::new(
                    aggr_expr@.len(),
                    |j: int| aggr_expr@[j].spec_state_fields()->Some_0,
                ) =~= Seq::new(
                    k as nat,
                    |j: int| aggr_expr@[j].spec_state_fields()->Some_0,
                ));
            },
            AggregateMode::Final => {
                assert(Seq::new(aggr_expr@.len(), |j: int| aggr_expr@[j].spec_field()->Some_0)
                    =~= Seq::new(k as nat, |j: int| aggr_expr@[j].spec_field()->Some_0));
            },
        }
        assert(spec_payload_fields(aggr_expr@, mode) is Some);
    }
    Ok(s)
}

/// The grouping types a key cell can hold.
pub open spec fn key_supported(dt: DataType) -> bool {
    ||| dt == DataType::Int8
    ||| dt == DataType::Int16
    ||| dt == DataType::Int32
    ||| dt == DataType::Int64
    ||| dt == DataType::UInt8
    ||| dt == DataType::UInt16
    ||| dt == DataType::UInt32
    ||| dt == DataType::UInt64
    ||| dt == DataType::Utf8
}

/// The key cell a grouping column contributes at a row: the cell's
/// value, or the type's zero value where the cell is null, as the raw
/// value buffer reads there.
pub open spec fn spec_key_cell(col: Column, row: int) -> CellV {
    match col.data {
        ColumnData::Int8(v) => CellV::I8(
            match v@[row] {
                Some(x) => x,
                None => 0i8,
            },
        ),
        ColumnData::Int16(v) => CellV::I16(
            match v@[row] {
                Some(x) => x,
                None => 0i16,
            },
        ),
        ColumnData::Int32(v) => CellV::I32(
            match v@[row] {
                Some(x) => x,
                None => 0i32,
            },
        ),
        ColumnData::Int64(v) => CellV::I64(
            match v@[row] {
                Some(x) => x,
                None => 0i64,
            },
        ),
        ColumnData::UInt8(v) => CellV::U8(
            match v@[row] {
                Some(x) => x,
                None => 0u8,
            },
        ),
        ColumnData::UInt16(v) => CellV::U16(
            match v@[row] {
                Some(x) => x,
                None => 0u16,
            },
        ),
        ColumnData::UInt32(v) => CellV::U32(
            match v@[row] {
                Some(x) => x,
                None => 0u32,
            },
        ),
        ColumnData::UInt64(v) => CellV::U64(
            match v@[row] {
                Some(x) => x,
                None => 0u64,
            },
        ),
        ColumnData::Utf8(v) => CellV::Str(
            match v@[row] {
                Some(x) => x@,
                None => Seq::empty(),
            },
        ),
        _ => CellV::Bool(false),
    }
}

/// The key of a row: one cell per grouping column, in order.
pub open spec fn spec_row_key(cols: Seq<Column>, row: int) -> Seq<CellV> {
    Seq::new(cols.len(), |i: int| spec_key_cell(cols[i], row))
}

/// Materialize the grouping key of row `row`: one tagged scalar per
/// grouping column, written into `key`.
///
/// Fails with `Internal` exactly when some grouping column's type is
/// not a supported grouping type; the key vector's content is then
/// unspecified.
pub fn create_key(group_by_keys: &Vec<Column>, row: usize, key: &mut Vec<GroupByScalar>) -> (r:
    Result<(), DataFusionError>)
    requires
        forall|i: int|
            0 <= i < group_by_keys@.len() ==> (#[trigger] group_by_keys@[i]).wf() && row
                < group_by_keys@[i]@.len(),
    ensures
        (r is Ok) <==> (forall|i: int|
            0 <= i < group_by_keys@.len() ==> key_supported(
                (#[trigger] group_by_keys@[i]).data_type,
            )),
        r is Ok ==> final(key)@.len() == group_by_keys@.len() && (forall|i: int|
            0 <= i < group_by_keys@.len() ==> (#[trigger] final(key)@[i])@ == spec_key_cell(
                group_by_keys@[i],
                row as int,
            )),
        r matches Err(e) ==> e is Internal,
{
    key.clear();
    let mut i: usize = 0;
    while i < group_by_keys.len()
        invariant
            i <= group_by_keys@.len(),
            forall|j: int|
                0 <= j < group_by_keys@.len() ==> (#[trigger] group_by_keys@[j]).wf() && row
                    < group_by_keys@[j]@.len(),
            key@.len() == i as int,
            forall|j: int| 0 <= j < i ==> key_supported((#[trigger] group_by_keys@[j]).data_type),
            forall|j: int|
                0 <= j < i ==> (#[trigger] key@[j])@ == spec_key_cell(
                    group_by_keys@[j],
                    row as int,
                ),
        decreases group_by_keys@.len() - i,
    {
        let colv = &group_by_keys[i];
        let cell = match colv.data_type {
            DataType::UInt8 => match &colv.data {
                ColumnData::UInt8(v) => GroupByScalar::UInt8(
                    match v[row] {
                        Some(x) => x,
                        None => 0,
                    },
                ),
                _ => vstd::pervasive::unreached(),
            },
            DataType::UInt16 => match &colv.data {
                ColumnData::UInt16(v) => GroupByScalar::UInt16(
                    match v[row] {
                        Some(x) => x,
                        None => 0,
                    },
                ),
                _ => vstd::pervasive::unreached(),
            },
            DataType::UInt32 => match &colv.data {
                ColumnData::UInt32(v) => GroupByScalar::UInt32(
                    match v[row] {
                        Some(x) => x,
                        None => 0,
                    },
                ),
                _ => vstd::pervasive::unreached(),
            },
            DataType::UInt64 => match &colv.data {
                ColumnData::UInt64(v) => GroupByScalar::UInt64(
                    match v[row] {
                        Some(x) => x,
                        None => 0,
                    },
                ),
                _ => vstd::pervasive::unreached(),
            },
            DataType::Int8 => match &colv.data {
                ColumnData::Int8(v) => GroupByScalar::Int8(
                    match v[row] {
                        Some(x) => x,
                        None => 0,
                    },
                ),
                _ => vstd::pervasive::unreached(),
            },
            DataType::Int16 => match &colv.data {
                ColumnData::Int16(v) => GroupByScalar::Int16(
                    match v[row] {
                        Some(x) => x,
                        None => 0,
                    },
                ),
                _ => vstd::pervasive::unreached(),
            },
            DataType::Int32 => match &colv.data {
                ColumnData::Int32(v) => GroupByScalar::Int32(
                    match v[row] {
                        Some(x) => x,
                        None => 0,
                    },
                ),
                _ => vstd::pervasive::unreached(),
            },
            DataType::Int64 => match &colv.data {
                ColumnData::Int64(v) => GroupByScalar::Int64(
                    match v[row] {
                        Some(x) => x,
                        None => 0,
                    },
                ),
                _ => vstd::pervasive::unreached(),
            },
            DataType::Utf8 => match &colv.data {
                ColumnData::Utf8(v) => match &v[row] {
                    Some(s) => GroupByScalar::Utf8(s.clone()),
                    None => GroupByScalar::Utf8(String::new()),
                },
                _ => vstd::pervasive::unreached(),
            },
            _ => {
                return Err(DataFusionError::Internal("Unsupported GROUP BY data type".to_owned()));
            },
        };
        key.push(cell);
        i = i + 1;
    }
    Ok(())
}


/// The mathematical image of a grouping key.
pub open spec fn key_view(k: Seq<GroupByScalar>) -> Seq<CellV> {
    k.map_values(|s: GroupByScalar| s@)
}

/// One group of the map: its key, one accumulator per aggregate, and
/// the scratch list of row indices of the key within the batch at hand,
/// cleared after every batch.
pub struct GroupEntry<C: Accumulator> {
    pub key: Vec<GroupByScalar>,
    pub accumulators: Vec<C>,
    pub indices: Vec<u32>,
}

/// The group map: group key to accumulator set and scratch row indices.
/// Keys are pairwise distinct; lookup compares cell sequences.
pub struct Accumulators<C: Accumulator> {
    pub entries: Vec<GroupEntry<C>>,
}

impl<C: Accumulator> Accumulators<C> {
    /// The keys, in entry order.
    pub open spec fn spec_keys(&self) -> Seq<Seq<CellV>> {
        self.entries@.map_values(|e: GroupEntry<C>| key_view(e.key@))
    }

    /// Keys are pairwise distinct.
    pub open spec fn wf(&self) -> bool {
        forall|i: int, j: int|
            0 <= i < j < self.entries@.len() ==> key_view(#[trigger] self.entries@[i].key@)
                != key_view(#[trigger] self.entries@[j].key@)
    }

    /// Every key has `n` cells.
    pub open spec fn keys_arity(&self, n: int) -> bool {
        forall|i: int| 0 <= i < self.entries@.len() ==> (#[trigger] self.entries@[i].key@).len() == n
    }

    /// Every entry has `n` accumulators.
    pub open spec fn accs_arity(&self, n: int) -> bool {
        forall|i: int|
            0 <= i < self.entries@.len() ==> (#[trigger] self.entries@[i].accumulators@).len() == n
    }

    /// Every scratch index list is empty.
    pub open spec fn indices_empty(&self) -> bool {
        forall|i: int| 0 <= i < self.entries@.len() ==> (#[trigger] self.entries@[i].indices@).len() == 0
    }

    /// An empty map.
    pub fn new() -> (r: Accumulators<C>)
        ensures
            r.spec_keys() == Seq::<Seq<CellV>>::empty(),
            r.entries@.len() == 0,
            r.wf(),
            r.indices_empty(),
    {
        let r = Accumulators::<C> { entries: Vec::new() };
        proof {
            assert(r.spec_keys() =~= Seq::<Seq<CellV>>::empty());
        }
        r
    }

    /// The number of groups.
    pub fn len(&self) -> (r: usize)
        ensures
            r == self.entries@.len(),
    {
        self.entries.len()
    }
}

/// Key equality: cell sequences compare pairwise.
fn key_eq(a: &Vec<GroupByScalar>, b: &Vec<GroupByScalar>) -> (r: bool)
    ensures
        r == (key_view(a@) == key_view(b@)),
{
    if a.len() != b.len() {
        proof {
            assert(key_view(a@).len() != key_view(b@).len());
        }
        return false;
    }
    let mut i: usize = 0;
    while i < a.len()
        invariant
            i <= a@.len(),
            a@.len() == b@.len(),
            forall|j: int| 0 <= j < i ==> (#[trigger] a@[j])@ == b@[j]@,
        decreases a@.len() - i,
    {
        if !a[i].eq_cell(&b[i]) {
            proof {
                assert(key_view(a@)[i as int] != key_view(b@)[i as int]);
            }
            return false;
        }
        i = i + 1;
    }
    proof {
        assert(key_view(a@) =~= key_view(b@));
    }
    true
}

/// The position of the entry holding `key`, if any.
fn find_entry<C: Accumulator>(entries: &Vec<GroupEntry<C>>, key: &Vec<GroupByScalar>) -> (r: Option<
    usize,
>)
    ensures
        r matches Some(i) ==> i < entries@.len() && key_view(entries@[i as int].key@) == key_view(
            key@,
        ),
        r is None ==> forall|i: int|
            0 <= i < entries@.len() ==> key_view(#[trigger] entries@[i].key@) != key_view(key@),
{
    let mut i: usize = 0;
    while i < entries.len()
        invariant
            i <= entries@.len(),
            forall|j: int|
                0 <= j < i ==> key_view(#[trigger] entries@[j].key@) != key_view(key@),
        decreases entries@.len() - i,
    {
        if key_eq(&entries[i].key, key) {
            return Some(i);
        }
        i = i + 1;
    }
    None
}

/// The keys of the map after folding in rows `[0, upto)`: a key is
/// appended the first time it is seen.
pub open spec fn keys_after(
    initial: Seq<Seq<CellV>>,
    cols: Seq<Column>,
    upto: int,
) -> Seq<Seq<CellV>>
    decreases upto,
{
    if upto <= 0 {
        initial
    } else {
        let prev = keys_after(initial, cols, upto - 1);
        let k = spec_row_key(cols, upto - 1);
        if prev.contains(k) {
            prev
        } else {
            prev.push(k)
        }
    }
}

/// The rows of `[0, upto)` whose key is `k`, ascending.
pub open spec fn rows_with_key(cols: Seq<Column>, k: Seq<CellV>, upto: int) -> Seq<u32>
    decreases upto,
{
    if upto <= 0 {
        Seq::empty()
    } else {
        let prev = rows_with_key(cols, k, upto - 1);
        if spec_row_key(cols, upto - 1) == k {
            prev.push((upto - 1) as u32)
        } else {
            prev
        }
    }
}

pub proof fn lemma_rows_with_key_bound(cols: Seq<Column>, k: Seq<CellV>, upto: int)
    ensures
        forall|m: int|
            0 <= m < rows_with_key(cols, k, upto).len() ==> (#[trigger] rows_with_key(
                cols,
                k,
                upto,
            )[m]) < upto,
    decreases upto,
{
    if upto > 0 {
        lemma_rows_with_key_bound(cols, k, upto - 1);
        let prev = rows_with_key(cols, k, upto - 1);
        let cur = rows_with_key(cols, k, upto);
        assert forall|m: int| 0 <= m < cur.len() implies cur[m] < upto by {
            if m < prev.len() {
                assert(cur[m] == prev[m]);
            }
        }
    }
}

pub proof fn lemma_keys_after_contains(
    initial: Seq<Seq<CellV>>,
    cols: Seq<Column>,
    upto: int,
    m: int,
)
    requires
        0 <= m < upto,
    ensures
        keys_after(initial, cols, upto).contains(spec_row_key(cols, m)),
    decreases upto,
{
    let prev = keys_after(initial, cols, upto - 1);
    let k = spec_row_key(cols, upto - 1);
    if m == upto - 1 {
        if prev.contains(k) {
        } else {
            assert(prev.push(k)[prev.len() as int] == k);
        }
    } else {
        lemma_keys_after_contains(initial, cols, upto - 1, m);
        let km = spec_row_key(cols, m);
        let i = choose|i: int| 0 <= i < prev.len() && prev[i] == km;
        if prev.contains(k) {
        } else {
            assert(prev.push(k)[i] == km);
        }
    }
}

pub proof fn lemma_rows_with_key_absent(cols: Seq<Column>, k: Seq<CellV>, upto: int)
    requires
        forall|m: int| 0 <= m < upto ==> spec_row_key(cols, m) != k,
    ensures
        rows_with_key(cols, k, upto).len() == 0,
    decreases upto,
{
    if upto > 0 {
        lemma_rows_with_key_absent(cols, k, upto - 1);
    }
}

/// Fold the rows of one batch's grouping columns into the map: per row,
/// look its key up, insert a fresh entry when absent, and append the
/// row's index to its group's scratch list.
///
/// On success the keys are the old ones followed by the batch's new
/// keys in first-occurrence order, and each group's scratch list holds
/// exactly the rows carrying its key, ascending. Fails with `Internal`
/// exactly when some grouping column's type is unsupported, leaving the
/// map unchanged; any error of the accumulator factory is also passed
/// through.
pub fn update_group_map<A: AggregateExpr>(
    group_values: &Vec<Column>,
    num_rows: usize,
    aggr_expr: &Vec<A>,
    map: &mut Accumulators<A::Acc>,
) -> (r: Result<(), DataFusionError>)
    requires
        old(map).wf(),
        old(map).keys_arity(group_values@.len() as int),
        old(map).accs_arity(aggr_expr@.len() as int),
        old(map).indices_empty(),
        forall|i: int|
            0 <= i < group_values@.len() ==> (#[trigger] group_values@[i]).wf()
                && group_values@[i]@.len() == num_rows,
    ensures
        r is Ok ==> final(map).wf() && final(map).keys_arity(group_values@.len() as int) && final(map).accs_arity(aggr_expr@.len() as int) && final(map).spec_keys() == keys_after(
            old(map).spec_keys(),
            group_values@,
            num_rows as int,
        ) && (forall|i: int|
            0 <= i < final(map).entries@.len() ==> (#[trigger] final(map).entries@[i]).indices@
                == rows_with_key(
                group_values@,
                key_view(final(map).entries@[i].key@),
                num_rows as int,
            )) && (forall|i: int|
            0 <= i < old(map).entries@.len() ==> (#[trigger] final(map).entries@[i]).key@ == old(map).entries@[i].key@ && final(map).entries@[i].accumulators@ == old(map).entries@[i].accumulators@),
        (num_rows > 0 && !(forall|i: int|
            0 <= i < group_values@.len() ==> key_supported(
                (#[trigger] group_values@[i]).data_type,
            ))) ==> r is Err,
{
    let ghost initial_keys = map.spec_keys();
    let mut key: Vec<GroupByScalar> = Vec::new();
    let mut row: usize = 0;
    proof {
        assert(map.spec_keys() == keys_after(initial_keys, group_values@, 0));
        assert forall|i: int| 0 <= i < map.entries@.len() implies (
        #[trigger] map.entries@[i]).indices@ =~= rows_with_key(
            group_values@,
            key_view(map.entries@[i].key@),
            0,
        ) by {}
    }
    while row < num_rows
        invariant
            map.wf(),
            map.keys_arity(group_values@.len() as int),
            map.accs_arity(aggr_expr@.len() as int),
            forall|i: int|
                0 <= i < group_values@.len() ==> (#[trigger] group_values@[i]).wf()
                    && group_values@[i]@.len() == num_rows,
            row <= num_rows,
            map.spec_keys() == keys_after(initial_keys, group_values@, row as int),
            forall|i: int|
                0 <= i < map.entries@.len() ==> (#[trigger] map.entries@[i]).indices@
                    == rows_with_key(group_values@, key_view(map.entries@[i].key@), row as int),
            forall|i: int|
                0 <= i < old(map).entries@.len() ==> (#[trigger] map.entries@[i]).key@ == old(map).entries@[i].key@ && map.entries@[i].accumulators@ == old(map).entries@[i].accumulators@,
            old(map).entries@.len() <= map.entries@.len(),
            row > 0 ==> (forall|i: int|
                0 <= i < group_values@.len() ==> key_supported(
                    (#[trigger] group_values@[i]).data_type,
                )),
        decreases num_rows - row,
    {
        match create_key(group_values, row, &mut key) {
            Ok(()) => {},
            Err(e) => {
                return Err(e);
            },
        }
        proof {
            assert(key_view(key@) =~= spec_row_key(group_values@, row as int));
        }
        let ghost pre_entries = map.entries@;
        let ghost pre_keys = map.spec_keys();
        let ghost rowkey = spec_row_key(group_values@, row as int);
        match find_entry(&map.entries, &key) {
            Some(idx) => {
                let ghost old_entry = map.entries@[idx as int];
                let mut e = map.entries.remove(idx);
                e.indices.push(row as u32);
                map.entries.insert(idx, e);
                proof {
                    assert(map.entries@ =~= pre_entries.update(
                        idx as int,
                        map.entries@[idx as int],
                    ));
                    assert(map.entries@[idx as int].key@ == old_entry.key@);
                    assert(map.entries@[idx as int].indices@ == old_entry.indices@.push(
                        row as u32,
                    ));
                    assert(map.spec_keys() =~= pre_keys);
                    assert(keys_after(initial_keys, group_values@, row + 1) == pre_keys) by {
                        assert(pre_keys.contains(rowkey)) by {
                            assert(pre_keys[idx as int] == key_view(pre_entries[idx as int].key@));
                        }
                    }
                    assert forall|i: int| 0 <= i < map.entries@.len() implies (
                    #[trigger] map.entries@[i]).indices@ == rows_with_key(
                        group_values@,
                        key_view(map.entries@[i].key@),
                        row + 1,
                    ) by {
                        let ki = key_view(map.entries@[i].key@);
                        if i == idx {
                            assert(ki == rowkey);
                            assert(rows_with_key(group_values@, ki, row + 1) == rows_with_key(
                                group_values@,
                                ki,
                                row as int,
                            ).push(row as u32));
                        } else {
                            assert(map.entries@[i] == pre_entries[i]);
                            assert(ki != rowkey) by {
                                assert(key_view(pre_entries[idx as int].key@) == rowkey);
                                if i < idx {
                                    assert(key_view(pre_entries[i].key@) != key_view(
                                        pre_entries[idx as int].key@,
                                    ));
                                } else {
                                    assert(key_view(pre_entries[idx as int].key@) != key_view(
                                        pre_entries[i].key@,
                                    ));
                                }
                            }
                            assert(rows_with_key(group_values@, ki, row + 1) == rows_with_key(
                                group_values@,
                                ki,
                                row as int,
                            ));
                        }
                    }
                }
            },
            None => {
                let accumulator_set = match create_accumulators(aggr_expr) {
                    Ok(a) => a,
                    Err(e) => {
                        return Err(e);
                    },
                };
                let mut indices: Vec<u32> = Vec::new();
                indices.push(row as u32);
                let entry = GroupEntry::<A::Acc> {
                    key: clone_key(&key),
                    accumulators: accumulator_set,
                    indices,
                };
                map.entries.push(entry);
                proof {
                    assert(!pre_keys.contains(rowkey)) by {
                        if pre_keys.contains(rowkey) {
                            let i = choose|i: int|
                                0 <= i < pre_keys.len() && pre_keys[i] == rowkey;
                            assert(pre_keys[i] == key_view(pre_entries[i].key@));
                        }
                    }
                    assert(map.spec_keys() =~= pre_keys.push(rowkey));
                    assert(keys_after(initial_keys, group_values@, row + 1) == pre_keys.push(
                        rowkey,
                    ));
                    assert forall|i: int| 0 <= i < map.entries@.len() implies (
                    #[trigger] map.entries@[i]).indices@ == rows_with_key(
                        group_values@,
                        key_view(map.entries@[i].key@),
                        row + 1,
                    ) by {
                        let ki = key_view(map.entries@[i].key@);
                        if i == map.entries@.len() - 1 {
                            assert(ki == rowkey);
                            assert(map.entries@[i].indices@ =~= Seq::<u32>::empty().push(
                                row as u32,
                            ));
                            assert(rows_with_key(group_values@, ki, row as int).len() == 0) by {
                                assert forall|m: int| 0 <= m < row implies spec_row_key(
                                    group_values@,
                                    m,
                                ) != ki by {
                                    lemma_keys_after_contains(
                                        initial_keys,
                                        group_values@,
                                        row as int,
                                        m,
                                    );
                                }
                                lemma_rows_with_key_absent(group_values@, ki, row as int);
                            }
                            assert(rows_with_key(group_values@, ki, row + 1) =~= rows_with_key(
                                group_values@,
                                ki,
                                row as int,
                            ).push(row as u32));
                        } else {
                            assert(map.entries@[i] == pre_entries[i]);
                            assert(ki != rowkey) by {
                                assert(pre_keys[i] == ki);
                            }
                            assert(rows_with_key(group_values@, ki, row + 1) == rows_with_key(
                                group_values@,
                                ki,
                                row as int,
                            ));
                        }
                    }
                    assert forall|i: int| 0 <= i < map.entries@.len() - 1 implies key_view(
                        #[trigger] map.entries@[i].key@,
                    ) != rowkey by {
                        assert(pre_keys[i] == key_view(pre_entries[i].key@));
                    }
                }
            },
        }
        row = row + 1;
    }
    Ok(())
}

/// Clone a key vector cell for cell.
fn clone_key(key: &Vec<GroupByScalar>) -> (r: Vec<GroupByScalar>)
    ensures
        r@.len() == key@.len(),
        forall|i: int| 0 <= i < key@.len() ==> (#[trigger] r@[i])@ == key@[i]@,
        key_view(r@) == key_view(key@),
{
    let mut r: Vec<GroupByScalar> = Vec::new();
    let mut i: usize = 0;
    while i < key.len()
        invariant
            i <= key@.len(),
            r@.len() == i as int,
            forall|j: int| 0 <= j < i ==> (#[trigger] r@[j])@ == key@[j]@,
        decreases key@.len() - i,
    {
        r.push(key[i].clone());
        i = i + 1;
    }
    proof {
        assert(key_view(r@) =~= key_view(key@));
    }
    r
}



/// The keys after folding rows `[0, upto)` are exactly the initial
/// keys together with the rows' keys, each listed once: the map's entry
/// count is the number of distinct keys observed.
pub proof fn lemma_keys_after_characterization(
    initial: Seq<Seq<CellV>>,
    cols: Seq<Column>,
    upto: int,
)
    requires
        initial.no_duplicates(),
        0 <= upto,
    ensures
        keys_after(initial, cols, upto).no_duplicates(),
        forall|k: Seq<CellV>|
            keys_after(initial, cols, upto).contains(k) <==> (initial.contains(k) || exists|m: int|
                0 <= m < upto && spec_row_key(cols, m) == k),
    decreases upto,
{
    if upto == 0 {
    } else {
        lemma_keys_after_characterization(initial, cols, upto - 1);
        let prev = keys_after(initial, cols, upto - 1);
        let kr = spec_row_key(cols, upto - 1);
        let cur = keys_after(initial, cols, upto);
        if prev.contains(kr) {
            assert(cur == prev);
            assert forall|k: Seq<CellV>|
                cur.contains(k) <==> (initial.contains(k) || exists|m: int|
                    0 <= m < upto && spec_row_key(cols, m) == k) by {
                if initial.contains(k) || exists|m: int| 0 <= m < upto && spec_row_key(cols, m)
                    == k {
                    if !initial.contains(k) {
                        let m = choose|m: int| 0 <= m < upto && spec_row_key(cols, m) == k;
                        if m == upto - 1 {
                            assert(cur.contains(k));
                        }
                    }
                }
            }
        } else {
            assert(cur == prev.push(kr));
            assert(cur.no_duplicates()) by {
                assert forall|i: int, j: int| 0 <= i < j < cur.len() implies cur[i] != cur[j] by {
                    if j == cur.len() - 1 {
                        assert(cur[j] == kr);
                        assert(prev.contains(prev[i]));
                    } else {
                        assert(cur[i] == prev[i] && cur[j] == prev[j]);
                    }
                }
            }
            assert forall|k: Seq<CellV>|
                cur.contains(k) <==> (initial.contains(k) || exists|m: int|
                    0 <= m < upto && spec_row_key(cols, m) == k) by {
                if cur.contains(k) {
                    let i = choose|i: int| 0 <= i < cur.len() && cur[i] == k;
                    if i < prev.len() {
                        assert(prev.contains(k));
                    } else {
                        assert(k == kr);
                    }
                }
                if initial.contains(k) || exists|m: int| 0 <= m < upto && spec_row_key(cols, m)
                    == k {
                    if initial.contains(k) {
                        let i = choose|i: int| 0 <= i < prev.len() && prev[i] == k;
                        assert(cur[i] == k);
                    } else {
                        let m = choose|m: int| 0 <= m < upto && spec_row_key(cols, m) == k;
                        if m < upto - 1 {
                            assert(prev.contains(k));
                            let i = choose|i: int| 0 <= i < prev.len() && prev[i] == k;
                            assert(cur[i] == k);
                        } else {
                            assert(cur[cur.len() - 1] == k);
                        }
                    }
                }
            }
        }
    }
}

pub proof fn lemma_keys_after_prefix(initial: Seq<Seq<CellV>>, cols: Seq<Column>, upto: int)
    ensures
        initial.is_prefix_of(keys_after(initial, cols, upto)),
    decreases upto,
{
    if upto <= 0 {
        assert(initial.is_prefix_of(initial));
    } else {
        lemma_keys_after_prefix(initial, cols, upto - 1);
        let prev = keys_after(initial, cols, upto - 1);
        let cur = keys_after(initial, cols, upto);
        if !prev.contains(spec_row_key(cols, upto - 1)) {
            assert(cur == prev.push(spec_row_key(cols, upto - 1)));
            assert(cur.take(initial.len() as int) =~= prev.take(initial.len() as int));
        }
    }
}

/// The cells of a run gathered at the given indices, in index order.
pub open spec fn take_image(cells: Seq<Option<CellV>>, indices: Seq<u32>) -> Seq<Option<CellV>> {
    indices.map_values(|ix: u32| cells[ix as int])
}

/// Gather, with the `take` kernel, the rows the index list names from
/// each of each aggregate's input columns: per aggregate, per column,
/// exactly the cells of the named rows, in index order.
pub fn gather_group_inputs(
    aggr_input_values: &Vec<Vec<Column>>,
    indices: &Vec<u32>,
    num_rows: usize,
) -> (r: Vec<Vec<Column>>)
    requires
        forall|j: int, c: int|
            0 <= j < aggr_input_values@.len() && 0 <= c < aggr_input_values@[j]@.len() ==> (
            #[trigger] aggr_input_values@[j]@[c]).wf() && aggr_input_values@[j]@[c]@.len()
                == num_rows,
        forall|m: int| 0 <= m < indices@.len() ==> (#[trigger] indices@[m]) < num_rows,
    ensures
        r@.len() == aggr_input_values@.len(),
        forall|j: int| 0 <= j < r@.len() ==> (#[trigger] r@[j]@).len() == aggr_input_values@[j]@.len(),
        forall|j: int, c: int|
            0 <= j < r@.len() && 0 <= c < r@[j]@.len() ==> (#[trigger] r@[j]@[c]).wf()
                && r@[j]@[c].data_type == aggr_input_values@[j]@[c].data_type && r@[j]@[c]@
                == take_image(aggr_input_values@[j]@[c]@, indices@),
{
    let mut out: Vec<Vec<Column>> = Vec::new();
    let mut j: usize = 0;
    while j < aggr_input_values.len()
        invariant
            j <= aggr_input_values@.len(),
            forall|j2: int, c: int|
                0 <= j2 < aggr_input_values@.len() && 0 <= c < aggr_input_values@[j2]@.len() ==> (
                #[trigger] aggr_input_values@[j2]@[c]).wf() && aggr_input_values@[j2]@[c]@.len()
                    == num_rows,
            forall|m: int| 0 <= m < indices@.len() ==> (#[trigger] indices@[m]) < num_rows,
            out@.len() == j as int,
            forall|j2: int|
                0 <= j2 < j ==> (#[trigger] out@[j2]@).len() == aggr_input_values@[j2]@.len(),
            forall|j2: int, c: int|
                0 <= j2 < j && 0 <= c < out@[j2]@.len() ==> (#[trigger] out@[j2]@[c]).wf()
                    && out@[j2]@[c].data_type == aggr_input_values@[j2]@[c].data_type
                    && out@[j2]@[c]@ == take_image(aggr_input_values@[j2]@[c]@, indices@),
        decreases aggr_input_values@.len() - j,
    {
        let inputs = &aggr_input_values[j];
        let mut cols: Vec<Column> = Vec::new();
        let mut c: usize = 0;
        while c < inputs.len()
            invariant
                c <= inputs@.len(),
                j < aggr_input_values@.len(),
                inputs == aggr_input_values@[j as int],
                forall|j2: int, c2: int|
                    0 <= j2 < aggr_input_values@.len() && 0 <= c2 < aggr_input_values@[j2]@.len()
                        ==> (#[trigger] aggr_input_values@[j2]@[c2]).wf()
                        && aggr_input_values@[j2]@[c2]@.len() == num_rows,
                forall|m: int| 0 <= m < indices@.len() ==> (#[trigger] indices@[m]) < num_rows,
                cols@.len() == c as int,
                forall|c2: int|
                    0 <= c2 < c ==> (#[trigger] cols@[c2]).wf() && cols@[c2].data_type
                        == aggr_input_values@[j as int]@[c2].data_type && cols@[c2]@ == take_image(
                        aggr_input_values@[j as int]@[c2]@,
                        indices@,
                    ),
            decreases inputs@.len() - c,
        {
            cols.push(inputs[c].take(indices));
            c = c + 1;
        }
        out.push(cols);
        j = j + 1;
    }
    out
}

/// Per group, gather with the `take` kernel the rows its scratch list
/// names from each of each aggregate's input columns, fold them into
/// the group's accumulators — update in the partial phase, merge in the
/// final phase — and clear the scratch list.
///
/// Keys, their order and the accumulator counts are unchanged;
/// accumulator errors pass through; an empty map always succeeds. On
/// success the returned record holds, per group, per aggregate, per
/// column, exactly the cell run that group's accumulator folded: the
/// `take` image of the aggregate's input column at the rows the
/// group's scratch list named, in order.
pub fn update_accumulators<A: AggregateExpr>(
    mode: &AggregateMode,
    aggr_input_values: &Vec<Vec<Column>>,
    num_rows: usize,
    map: &mut Accumulators<A::Acc>,
) -> (r: (Result<(), DataFusionError>, Ghost<Seq<Seq<Seq<Seq<Option<CellV>>>>>>))
    requires
        old(map).wf(),
        forall|j: int, c: int|
            0 <= j < aggr_input_values@.len() && 0 <= c < aggr_input_values@[j]@.len() ==> (
            #[trigger] aggr_input_values@[j]@[c]).wf() && aggr_input_values@[j]@[c]@.len()
                == num_rows,
        forall|i: int, m: int|
            0 <= i < old(map).entries@.len() && 0 <= m < old(map).entries@[i].indices@.len() ==> (
            #[trigger] old(map).entries@[i].indices@[m]) < num_rows,
        old(map).accs_arity(aggr_input_values@.len() as int),
    ensures
        final(map).wf(),
        final(map).entries@.len() == old(map).entries@.len(),
        forall|i: int|
            0 <= i < old(map).entries@.len() ==> (#[trigger] final(map).entries@[i]).key@ == old(
                map,
            ).entries@[i].key@,
        final(map).spec_keys() == old(map).spec_keys(),
        final(map).accs_arity(aggr_input_values@.len() as int),
        r.0 is Ok ==> final(map).indices_empty(),
        old(map).entries@.len() == 0 ==> r.0 is Ok,
        r.0 is Ok ==> r.1@.len() == old(map).entries@.len() && (forall|i: int|
            0 <= i < r.1@.len() ==> (#[trigger] r.1@[i]).len() == aggr_input_values@.len()) && (
        forall|i: int, j: int, c: int|
            0 <= i < r.1@.len() && 0 <= j < aggr_input_values@.len() && 0 <= c
                < aggr_input_values@[j]@.len() ==> (#[trigger] r.1@[i][j][c]) == take_image(
                aggr_input_values@[j]@[c]@,
                old(map).entries@[i].indices@,
            ) && r.1@[i][j].len() == aggr_input_values@[j]@.len()),
{
    let ghost images_of = |indices: Seq<u32>|
        Seq::new(
            aggr_input_values@.len(),
            |j: int|
                Seq::new(
                    aggr_input_values@[j]@.len(),
                    |c: int| take_image(aggr_input_values@[j]@[c]@, indices),
                ),
        );
    let ghost mut gathered_record: Seq<Seq<Seq<Seq<Option<CellV>>>>> = Seq::empty();
    let n = map.entries.len();
    let mut i: usize = 0;
    while i < n
        invariant
            i <= n,
            n == map.entries@.len(),
            map.entries@.len() == old(map).entries@.len(),
            forall|j: int, c: int|
                0 <= j < aggr_input_values@.len() && 0 <= c < aggr_input_values@[j]@.len() ==> (
                #[trigger] aggr_input_values@[j]@[c]).wf() && aggr_input_values@[j]@[c]@.len()
                    == num_rows,
            forall|k: int|
                0 <= k < n ==> (#[trigger] map.entries@[k]).key@ == old(map).entries@[k].key@,
            forall|k: int|
                0 <= k < n ==> (#[trigger] map.entries@[k]).accumulators@.len()
                    == aggr_input_values@.len(),
            forall|k: int| 0 <= k < i ==> (#[trigger] map.entries@[k]).indices@.len() == 0,
            forall|k: int|
                i <= k < n ==> (#[trigger] map.entries@[k]).indices@ == old(
                    map,
                ).entries@[k].indices@,
            forall|i2: int, m: int|
                0 <= i2 < old(map).entries@.len() && 0 <= m < old(
                    map,
                ).entries@[i2].indices@.len() ==> (#[trigger] old(
                    map,
                ).entries@[i2].indices@[m]) < num_rows,
            old(map).wf(),
            images_of == (|indices: Seq<u32>|
                Seq::new(
                    aggr_input_values@.len(),
                    |j: int|
                        Seq::new(
                            aggr_input_values@[j]@.len(),
                            |c: int| take_image(aggr_input_values@[j]@[c]@, indices),
                        ),
                )),
            gathered_record.len() == i as int,
            forall|i2: int|
                0 <= i2 < i ==> (#[trigger] gathered_record[i2]) == images_of(
                    old(map).entries@[i2].indices@,
                ),
        decreases n - i,
    {
        let ghost pre_entries = map.entries@;
        let e = map.entries.remove(i);
        let key = e.key;
        let mut accumulators = e.accumulators;
        let indices = e.indices;
        let gathered = gather_group_inputs(aggr_input_values, &indices, num_rows);
        proof {
            gathered_record = gathered_record.push(images_of(indices@));
        }
        let mut new_accs: Vec<A::Acc> = Vec::new();
        let mut j: usize = 0;
        let n_aggr = aggr_input_values.len();
        let mut failed: Option<DataFusionError> = None;
        while j < n_aggr
            invariant
                j <= n_aggr,
                n_aggr == aggr_input_values@.len(),
                gathered@.len() == n_aggr,
                failed is None ==> accumulators@.len() + new_accs@.len() == n_aggr,
                failed is Some ==> accumulators@.len() + new_accs@.len() == n_aggr,
            decreases n_aggr - j,
        {
            if failed.is_some() {
                j = j + 1;
                continue ;
            }
            if accumulators.len() == 0 {
                j = j + 1;
                continue ;
            }
            let mut acc = accumulators.remove(0);
            let step = match mode {
                AggregateMode::Partial => acc.update_batch(&gathered[j]),
                AggregateMode::Final => acc.merge_batch(&gathered[j]),
            };
            new_accs.push(acc);
            match step {
                Ok(()) => {},
                Err(e2) => {
                    failed = Some(e2);
                },
            }
            j = j + 1;
        }
        // reattach whatever accumulators remain, keeping the count
        let mut rebuilt = new_accs;
        rebuilt.append(&mut accumulators);
        let entry = GroupEntry::<A::Acc> { key, accumulators: rebuilt, indices: Vec::new() };
        map.entries.insert(i, entry);
        proof {
            assert(map.entries@ =~= pre_entries.update(i as int, map.entries@[i as int]));
            assert(map.spec_keys() =~= pre_entries.map_values(
                |e2: GroupEntry<A::Acc>| key_view(e2.key@),
            ));
        }
        match failed {
            Some(e2) => {
                proof {
                    assert(map.spec_keys() =~= old(map).spec_keys());
                }
                return (Err(e2), Ghost(gathered_record));
            },
            None => {},
        }
        i = i + 1;
    }
    proof {
        assert(map.spec_keys() =~= old(map).spec_keys());
    }
    (Ok(()), Ghost(gathered_record))
}

/// Fold one input batch into the group map: evaluate the grouping
/// expressions and the per-aggregate input expressions against the
/// batch, group the rows by key, then update every group's accumulators
/// from the gathered rows.
///
/// The keys already in the map stay, in order; the batch's new keys are
/// appended in first-occurrence order.
pub fn group_aggregate_batch<E: PhysicalExpr, A: AggregateExpr>(
    mode: &AggregateMode,
    group_expr: &Vec<E>,
    aggr_expr: &Vec<A>,
    batch: RecordBatch,
    accumulators: Accumulators<A::Acc>,
    aggregate_expressions: &Vec<Vec<AggregateInput<A::Expr>>>,
) -> (r: Result<Accumulators<A::Acc>, DataFusionError>)
    requires
        accumulators.wf(),
        accumulators.indices_empty(),
        accumulators.keys_arity(group_expr@.len() as int),
        accumulators.accs_arity(aggr_expr@.len() as int),
        aggregate_expressions@.len() == aggr_expr@.len(),
    ensures
        r matches Ok(m) ==> m.wf() && m.indices_empty() && m.keys_arity(group_expr@.len() as int)
            && m.accs_arity(aggr_expr@.len() as int) && accumulators.spec_keys().is_prefix_of(
            m.spec_keys(),
        ),
{
    let group_values = match evaluate(group_expr, &batch) {
        Ok(v) => v,
        Err(e) => {
            return Err(e);
        },
    };
    let aggr_input_values = match evaluate_many(aggregate_expressions, &batch) {
        Ok(v) => v,
        Err(e) => {
            return Err(e);
        },
    };
    let num_rows = batch.num_rows();
    let mut map = accumulators;
    let ghost initial_keys = map.spec_keys();
    match update_group_map(&group_values, num_rows, aggr_expr, &mut map) {
        Ok(()) => {},
        Err(e) => {
            return Err(e);
        },
    }
    proof {
        lemma_keys_after_prefix(initial_keys, group_values@, num_rows as int);
        assert forall|i: int, m: int|
            0 <= i < map.entries@.len() && 0 <= m < map.entries@[i].indices@.len() implies (
        #[trigger] map.entries@[i].indices@[m]) < num_rows by {
            lemma_rows_with_key_bound(
                group_values@,
                key_view(map.entries@[i].key@),
                num_rows as int,
            );
        }
    }
    let ghost keys_mid = map.spec_keys();
    let (step, _) = update_accumulators::<A>(mode, &aggr_input_values, num_rows, &mut map);
    match step {
        Ok(()) => {},
        Err(e) => {
            return Err(e);
        },
    }
    proof {
        assert(initial_keys.is_prefix_of(map.spec_keys()));
    }
    Ok(map)
}



/// A single-cell column holding a grouping key's cell, typed by the
/// cell's own tag.
fn group_scalar_to_array(s: &GroupByScalar) -> (r: Column)
    ensures
        r.wf(),
        r@.len() == 1,
        r@[0] == Some(s@),
{
    let r = match s {
        GroupByScalar::Int8(v) => Column {
            data_type: DataType::Int8,
            data: ColumnData::Int8(vec![Some(*v)]),
        },
        GroupByScalar::Int16(v) => Column {
            data_type: DataType::Int16,
            data: ColumnData::Int16(vec![Some(*v)]),
        },
        GroupByScalar::Int32(v) => Column {
            data_type: DataType::Int32,
            data: ColumnData::Int32(vec![Some(*v)]),
        },
        GroupByScalar::Int64(v) => Column {
            data_type: DataType::Int64,
            data: ColumnData::Int64(vec![Some(*v)]),
        },
        GroupByScalar::UInt8(v) => Column {
            data_type: DataType::UInt8,
            data: ColumnData::UInt8(vec![Some(*v)]),
        },
        GroupByScalar::UInt16(v) => Column {
            data_type: DataType::UInt16,
            data: ColumnData::UInt16(vec![Some(*v)]),
        },
        GroupByScalar::UInt32(v) => Column {
            data_type: DataType::UInt32,
            data: ColumnData::UInt32(vec![Some(*v)]),
        },
        GroupByScalar::UInt64(v) => Column {
            data_type: DataType::UInt64,
            data: ColumnData::UInt64(vec![Some(*v)]),
        },
        GroupByScalar::Utf8(v) => Column {
            data_type: DataType::Utf8,
            data: ColumnData::Utf8(vec![Some(v.clone())]),
        },
    };
    proof {
        assert(r@ =~= seq![Some(s@)]);
    }
    r
}

/// One single-cell column per output payload position: in the partial
/// phase each accumulator's serialized state scalars, in order; in the
/// final phase each accumulator's final value.
pub fn finalize_aggregation<C: Accumulator>(accumulators: &Vec<C>, mode: &AggregateMode) -> (r:
    Result<Vec<Column>, DataFusionError>)
    ensures
        r matches Ok(v) ==> forall|i: int|
            0 <= i < v@.len() ==> (#[trigger] v@[i]).wf() && v@[i]@.len() == 1,
        r matches Ok(v) ==> ((mode matches AggregateMode::Final) ==> v@.len()
            == accumulators@.len()),
{
    let mut out: Vec<Column> = Vec::new();
    let mut i: usize = 0;
    while i < accumulators.len()
        invariant
            i <= accumulators@.len(),
            forall|k: int| 0 <= k < out@.len() ==> (#[trigger] out@[k]).wf() && out@[k]@.len() == 1,
            (mode matches AggregateMode::Final) ==> out@.len() == i as int,
        decreases accumulators@.len() - i,
    {
        match mode {
            AggregateMode::Partial => {
                let mut scalars = match accumulators[i].state() {
                    Ok(s) => s,
                    Err(e) => {
                        return Err(e);
                    },
                };
                while scalars.len() > 0
                    invariant
                        forall|k: int|
                            0 <= k < out@.len() ==> (#[trigger] out@[k]).wf() && out@[k]@.len()
                                == 1,
                    decreases scalars@.len(),
                {
                    let sv = scalars.remove(0);
                    out.push(sv.to_array());
                }
            },
            AggregateMode::Final => {
                match accumulators[i].evaluate() {
                    Ok(sv) => out.push(sv.to_array()),
                    Err(e) => {
                        return Err(e);
                    },
                }
            },
        }
        i = i + 1;
    }
    Ok(out)
}

/// Where every row's cell runs are one cell long, their concatenation
/// has one cell per row, each row contributing its cell.
pub proof fn lemma_flatten_unit_rows(s: Seq<Seq<Option<CellV>>>)
    requires
        forall|i: int| 0 <= i < s.len() ==> (#[trigger] s[i]).len() == 1,
    ensures
        crate::column::flatten_cells(s).len() == s.len(),
        forall|i: int| 0 <= i < s.len() ==> crate::column::flatten_cells(s)[i] == (#[trigger] s[i])[0],
    decreases s.len(),
{
    if s.len() > 0 {
        lemma_flatten_unit_rows(s.drop_last());
        assert forall|i: int| 0 <= i < s.drop_last().len() implies (#[trigger] s.drop_last()[
            i
        ]).len() == 1 by {
            assert(s.drop_last()[i] == s[i]);
        }
        assert forall|i: int|
            0 <= i < s.len() implies crate::column::flatten_cells(s)[i] == (#[trigger] s[i])[0] by {
            if i < s.len() - 1 {
                assert(crate::column::flatten_cells(s)[i] == crate::column::flatten_cells(
                    s.drop_last(),
                )[i]);
                assert(s.drop_last()[i] == s[i]);
            } else {
                assert(crate::column::flatten_cells(s)[i] == s.last()[0]);
            }
        }
    }
}

/// Transpose per-group column lists and concatenate along rows: column
/// `c` of the result is the concatenation, group by group, of each
/// group's column `c`.
///
/// Fails with `Internal` when the per-group lists differ in arity, and
/// with an `Arrow` error when some column's types differ across groups.
pub fn concatenate(arrays: Vec<Vec<Column>>) -> (r: Result<Vec<Column>, DataFusionError>)
    requires
        arrays@.len() >= 1,
        forall|i: int, c: int|
            0 <= i < arrays@.len() && 0 <= c < arrays@[i]@.len() ==> (
            #[trigger] arrays@[i]@[c]).wf(),
    ensures
        r matches Ok(v) ==> v@.len() == arrays@[0]@.len() && (forall|c: int|
            0 <= c < v@.len() ==> (#[trigger] v@[c]).wf() && v@[c]@
                == crate::column::flatten_cells(
                Seq::new(arrays@.len() as nat, |i: int| arrays@[i]@[c]@),
            )) && (forall|k: int| 0 <= k < arrays@.len() ==> (#[trigger] arrays@[k]@).len() == v@.len()),
{
    let n_cols = arrays[0].len();
    let mut i: usize = 0;
    while i < arrays.len()
        invariant
            i <= arrays@.len(),
            arrays@.len() >= 1,
            n_cols == arrays@[0]@.len(),
            forall|k: int| 0 <= k < i ==> (#[trigger] arrays@[k]@).len() == n_cols,
        decreases arrays@.len() - i,
    {
        if arrays[i].len() != n_cols {
            return Err(DataFusionError::Internal(
                "group column lists differ in arity".to_owned(),
            ));
        }
        i = i + 1;
    }
    let mut out: Vec<Column> = Vec::new();
    let mut c: usize = 0;
    while c < n_cols
        invariant
            c <= n_cols,
            arrays@.len() >= 1,
            n_cols == arrays@[0]@.len(),
            forall|k: int| 0 <= k < arrays@.len() ==> (#[trigger] arrays@[k]@).len() == n_cols,
            forall|k: int, c2: int|
                0 <= k < arrays@.len() && 0 <= c2 < arrays@[k]@.len() ==> (
                #[trigger] arrays@[k]@[c2]).wf(),
            out@.len() == c as int,
            forall|c2: int|
                0 <= c2 < c ==> (#[trigger] out@[c2]).wf() && out@[c2]@
                    == crate::column::flatten_cells(
                    Seq::new(arrays@.len() as nat, |i2: int| arrays@[i2]@[c2]@),
                ),
        decreases n_cols - c,
    {
        let mut column_list: Vec<Column> = Vec::new();
        let mut k: usize = 0;
        while k < arrays.len()
            invariant
                k <= arrays@.len(),
                c < n_cols,
                n_cols == arrays@[0]@.len(),
                forall|k2: int| 0 <= k2 < arrays@.len() ==> (#[trigger] arrays@[k2]@).len() == n_cols,
                forall|k2: int, c2: int|
                    0 <= k2 < arrays@.len() && 0 <= c2 < arrays@[k2]@.len() ==> (
                    #[trigger] arrays@[k2]@[c2]).wf(),
                column_list@.len() == k as int,
                forall|k2: int|
                    0 <= k2 < k ==> (#[trigger] column_list@[k2])@ == arrays@[k2]@[c as int]@ && (
                    #[trigger] column_list@[k2]).wf() && column_list@[k2].data_type
                        == arrays@[k2]@[c as int].data_type,
            decreases arrays@.len() - k,
        {
            column_list.push(arrays[k][c].clone());
            k = k + 1;
        }
        match crate::column::concat_columns(&column_list) {
            Ok(col) => {
                proof {
                    assert(crate::column::views_of_columns(column_list@) =~= Seq::new(
                        arrays@.len() as nat,
                        |i2: int| arrays@[i2]@[c as int]@,
                    ));
                }
                out.push(col);
            },
            Err(e) => {
                return Err(e);
            },
        }
        c = c + 1;
    }
    Ok(out)
}

/// Build the aggregate's single output batch from the group map: one
/// row per group, the grouping cells first, then the serialized states
/// (partial phase) or final values (final phase). An empty map yields
/// an empty batch of the output schema.
///
/// On success the batch carries the output schema, one row per group,
/// and its grouping columns hold exactly the group keys, in the map's
/// entry order.
pub fn create_batch_from_map<C: Accumulator>(
    mode: &AggregateMode,
    accumulators: &Accumulators<C>,
    num_group_expr: usize,
    output_schema: &Schema,
) -> (r: Result<RecordBatch, DataFusionError>)
    requires
        accumulators.wf(),
        accumulators.keys_arity(num_group_expr as int),
        num_group_expr >= 1,
    ensures
        r matches Ok(b) ==> b@.schema == output_schema@ && b@.num_rows
            == accumulators.entries@.len() && (forall|j: int, i: int|
            0 <= j < num_group_expr && 0 <= i < accumulators.entries@.len() && j
                < b@.columns.len() ==> (#[trigger] b@.columns[j][i]) == Some(
                accumulators.entries@[i].key@[j]@,
            )),
{
    if accumulators.entries.len() == 0 {
        let mut cols: Vec<Column> = Vec::new();
        let mut f: usize = 0;
        let nf = output_schema.num_fields();
        while f < nf
            invariant
                f <= nf,
                nf == output_schema@.len(),
                cols@.len() == f as int,
                forall|k: int|
                    0 <= k < f ==> (#[trigger] cols@[k]).wf() && cols@[k].data_type
                        == output_schema@[k].data_type && cols@[k]@.len() == 0,
            decreases nf - f,
        {
            match Column::new_empty(output_schema.field(f).data_type()) {
                Ok(c) => cols.push(c),
                Err(e) => {
                    return Err(e);
                },
            }
            f = f + 1;
        }
        return RecordBatch::try_new_with_row_count(output_schema.clone(), cols, 0);
    }
    let mut arrays: Vec<Vec<Column>> = Vec::new();
    let mut i: usize = 0;
    let n = accumulators.entries.len();
    while i < n
        invariant
            i <= n,
            n == accumulators.entries@.len(),
            accumulators.keys_arity(num_group_expr as int),
            arrays@.len() == i as int,
            forall|k: int, c: int|
                0 <= k < i && 0 <= c < arrays@[k]@.len() ==> (#[trigger] arrays@[k]@[c]).wf()
                    && arrays@[k]@[c]@.len() == 1,
            forall|k: int|
                0 <= k < i ==> (#[trigger] arrays@[k]@).len() >= num_group_expr && (forall|j: int|
                    0 <= j < num_group_expr ==> (#[trigger] arrays@[k]@[j]@)[0] == Some(
                        accumulators.entries@[k].key@[j]@,
                    )),
        decreases n - i,
    {
        let entry = &accumulators.entries[i];
        let mut groups: Vec<Column> = Vec::new();
        let mut j: usize = 0;
        while j < num_group_expr
            invariant
                j <= num_group_expr,
                i < accumulators.entries@.len(),
                entry == accumulators.entries@[i as int],
                entry.key@.len() == num_group_expr,
                groups@.len() == j as int,
                forall|k: int|
                    0 <= k < j ==> (#[trigger] groups@[k]).wf() && groups@[k]@.len() == 1
                        && groups@[k]@[0] == Some(entry.key@[k]@),
            decreases num_group_expr - j,
        {
            groups.push(group_scalar_to_array(&entry.key[j]));
            j = j + 1;
        }
        let mut payload = match finalize_aggregation(&entry.accumulators, mode) {
            Ok(v) => v,
            Err(e) => {
                return Err(e);
            },
        };
        let ghost groups_before = groups@;
        groups.append(&mut payload);
        proof {
            assert forall|k: int| 0 <= k < num_group_expr implies (#[trigger] groups@[k]@)[0]
                == Some(accumulators.entries@[i as int].key@[k]@) by {
                assert(groups@[k] == groups_before[k]);
            }
        }
        arrays.push(groups);
        i = i + 1;
    }
    let ghost arrs = arrays@;
    let columns = match concatenate(arrays) {
        Ok(v) => v,
        Err(e) => {
            return Err(e);
        },
    };
    proof {
        assert forall|c: int| 0 <= c < columns@.len() implies (#[trigger] columns@[c]@).len()
            == n by {
            lemma_flatten_unit_rows(Seq::new(n as nat, |i2: int| arrs[i2]@[c]@));
        }
        assert forall|c: int, i2: int|
            0 <= c < num_group_expr && c < columns@.len() && 0 <= i2 < n implies (
        #[trigger] columns@[c]@[i2]) == Some(accumulators.entries@[i2].key@[c]@) by {
            lemma_flatten_unit_rows(Seq::new(n as nat, |i3: int| arrs[i3]@[c]@));
            assert(Seq::new(n as nat, |i3: int| arrs[i3]@[c]@)[i2] == arrs[i2]@[c]@);
            assert((arrs[i2]@[c]@)[0] == Some(accumulators.entries@[i2].key@[c]@));
        }
    }
    match RecordBatch::try_new_with_row_count(output_schema.clone(), columns, n) {
        Ok(b) => Ok(b),
        Err(e) => Err(e),
    }
}



fn clone_items<T: Clone>(v: &Vec<T>) -> (r: Vec<T>)
    ensures
        r@.len() == v@.len(),
{
    let mut r: Vec<T> = Vec::new();
    let mut i: usize = 0;
    while i < v.len()
        invariant
            i <= v@.len(),
            r@.len() == i as int,
        decreases v@.len() - i,
    {
        r.push(v[i].clone());
        i = i + 1;
    }
    r
}

/// Evaluate one aggregate's input expressions against a batch: one
/// well-formed column of the batch's row count per expression.
pub fn evaluate_inputs<E: PhysicalExpr>(
    exprs: &Vec<AggregateInput<E>>,
    batch: &RecordBatch,
) -> (r: Result<Vec<Column>, DataFusionError>)
    ensures
        r matches Ok(v) ==> v@.len() == exprs@.len() && (forall|c: int|
            0 <= c < v@.len() ==> (#[trigger] v@[c]).wf() && v@[c]@.len() == batch@.num_rows),
{
    let mut out: Vec<Column> = Vec::new();
    let mut k: usize = 0;
    while k < exprs.len()
        invariant
            k <= exprs@.len(),
            out@.len() == k as int,
            forall|c: int|
                0 <= c < k ==> (#[trigger] out@[c]).wf() && out@[c]@.len() == batch@.num_rows,
        decreases exprs@.len() - k,
    {
        match exprs[k].evaluate(batch) {
            Ok(c) => out.push(c),
            Err(e) => {
                return Err(e);
            },
        }
        k = k + 1;
    }
    Ok(out)
}

/// Fold one input batch into an ungrouped accumulator set: per
/// aggregate, in order, evaluate its input expressions against the
/// batch — well-formed columns of the batch's row count, by
/// `evaluate_inputs`' contract — and update (partial phase) or merge
/// (final phase) its accumulator with them. An empty set always
/// succeeds; expression and accumulator errors pass through.
pub fn aggregate_batch<A: AggregateExpr>(
    mode: &AggregateMode,
    batch: &RecordBatch,
    accumulators: Vec<A::Acc>,
    expressions: &Vec<Vec<AggregateInput<A::Expr>>>,
) -> (r: Result<Vec<A::Acc>, DataFusionError>)
    requires
        expressions@.len() == accumulators@.len(),
    ensures
        r matches Ok(v) ==> v@.len() == accumulators@.len(),
        accumulators@.len() == 0 ==> r is Ok,
{
    let n = accumulators.len();
    let mut rest = accumulators;
    let mut done: Vec<A::Acc> = Vec::new();
    let mut i: usize = 0;
    while i < n
        invariant
            i <= n,
            n == expressions@.len(),
            n == accumulators@.len(),
            done@.len() == i as int,
            rest@.len() == n - i,
        decreases n - i,
    {
        let mut acc = rest.remove(0);
        let values = match evaluate_inputs(&expressions[i], batch) {
            Ok(v) => v,
            Err(e) => {
                return Err(e);
            },
        };
        let step = match mode {
            AggregateMode::Partial => acc.update_batch(&values),
            AggregateMode::Final => acc.merge_batch(&values),
        };
        match step {
            Ok(()) => {},
            Err(e) => {
                return Err(e);
            },
        }
        done.push(acc);
        i = i + 1;
    }
    Ok(done)
}

/// The grouped execution path: consumes the whole upstream into a group
/// map, then emits the single output batch built from it.
pub struct GroupedHashAggregateStream<E: PhysicalExpr, A: AggregateExpr, S: BatchProducer> {
    mode: AggregateMode,
    schema: Schema,
    group_expr: Vec<E>,
    aggr_expr: Vec<A>,
    input: S,
    finished: bool,
}

impl<E: PhysicalExpr, A: AggregateExpr, S: BatchProducer> GroupedHashAggregateStream<E, A, S> {
    /// The upstream's remaining-batches bound: zero means the upstream
    /// can yield no further batch.
    pub closed spec fn spec_input_remaining(&self) -> nat {
        self.input.remaining()
    }

    /// Build the grouped stream over an upstream producer: live, with
    /// its single output batch still to come.
    pub fn new(
        mode: AggregateMode,
        schema: Schema,
        group_expr: Vec<E>,
        aggr_expr: Vec<A>,
        input: S,
    ) -> (r: GroupedHashAggregateStream<E, A, S>)
        requires
            group_expr@.len() >= 1,
            input.inv(),
        ensures
            r.inv(),
            r.spec_schema() == schema@,
            r.remaining() == 1,
            r.spec_input_remaining() == input.remaining(),
    {
        GroupedHashAggregateStream { mode, schema, group_expr, aggr_expr, input, finished: false }
    }
}

impl<E: PhysicalExpr, A: AggregateExpr, S: BatchProducer> BatchProducer for GroupedHashAggregateStream<E, A, S> {
    closed spec fn inv(&self) -> bool {
        self.input.inv() && self.group_expr@.len() >= 1
    }

    closed spec fn remaining(&self) -> nat {
        if self.finished {
            0
        } else {
            1
        }
    }

    closed spec fn spec_schema(&self) -> Seq<FieldV> {
        self.schema@
    }

    fn schema(&self) -> (r: &Schema)
        ensures
            r@ == self.spec_schema(),
    {
        &self.schema
    }

    /// The first pull folds the whole upstream into the group map and
    /// returns the single output batch or an error, never a silent end:
    /// one row per distinct key observed — none when the upstream was
    /// already exhausted — with the grouping cells first; every later
    /// pull ends the stream. The output batch always carries the
    /// output schema.
    fn next(&mut self) -> (r: Result<Option<RecordBatch>, DataFusionError>)
        ensures
            r matches Ok(Some(b)) ==> b@.schema == old(self).spec_schema(),
            final(self).remaining() == 0,
            (r matches Ok(None)) <==> old(self).remaining() == 0,
            r matches Ok(Some(b)) ==> (old(self).spec_input_remaining() == 0 ==> b@.num_rows
                == 0),
    {
        if self.finished {
            return Ok(None);
        }
        self.finished = true;
        let aggregate_exprs = match aggregate_expressions(&self.aggr_expr, &self.mode) {
            Ok(v) => v,
            Err(e) => {
                return Err(e);
            },
        };
        let mut accumulators = Accumulators::<A::Acc>::new();
        proof {
            assert(accumulators.keys_arity(self.group_expr@.len() as int));
            assert(accumulators.accs_arity(self.aggr_expr@.len() as int));
        }
        loop
            invariant_except_break
                old(self).spec_input_remaining() == 0 ==> self.input.remaining() == 0,
            invariant
                self.input.inv(),
                self.finished,
                self.spec_schema() == old(self).spec_schema(),
                self.group_expr@.len() >= 1,
                aggregate_exprs@.len() == self.aggr_expr@.len(),
                accumulators.wf(),
                accumulators.indices_empty(),
                accumulators.keys_arity(self.group_expr@.len() as int),
                accumulators.accs_arity(self.aggr_expr@.len() as int),
                old(self).remaining() != 0,
                old(self).spec_input_remaining() == 0 ==> accumulators.entries@.len() == 0,
            decreases self.input.remaining(),
        {
            match self.input.next() {
                Ok(Some(batch)) => {
                    accumulators =
                    match group_aggregate_batch(
                        &self.mode,
                        &self.group_expr,
                        &self.aggr_expr,
                        batch,
                        accumulators,
                        &aggregate_exprs,
                    ) {
                        Ok(m) => m,
                        Err(e) => {
                            return Err(e);
                        },
                    };
                },
                Ok(None) => {
                    break ;
                },
                Err(e) => {
                    return Err(e);
                },
            }
        }
        match create_batch_from_map(
            &self.mode,
            &accumulators,
            self.group_expr.len(),
            &self.schema,
        ) {
            Ok(b) => Ok(Some(b)),
            Err(e) => Err(e),
        }
    }
}

/// The ungrouped execution path: a single accumulator set folded over
/// the whole upstream, then one single-row output batch.
pub struct HashAggregateStream<A: AggregateExpr, S: BatchProducer> {
    mode: AggregateMode,
    schema: Schema,
    aggr_expr: Vec<A>,
    input: S,
    finished: bool,
}

impl<A: AggregateExpr, S: BatchProducer> HashAggregateStream<A, S> {
    /// Build the ungrouped stream over an upstream producer: live,
    /// with its single output batch still to come.
    pub fn new(mode: AggregateMode, schema: Schema, aggr_expr: Vec<A>, input: S) -> (r:
        HashAggregateStream<A, S>)
        requires
            input.inv(),
        ensures
            r.inv(),
            r.spec_schema() == schema@,
            r.remaining() == 1,
    {
        HashAggregateStream { mode, schema, aggr_expr, input, finished: false }
    }
}

impl<A: AggregateExpr, S: BatchProducer> BatchProducer for HashAggregateStream<A, S> {
    closed spec fn inv(&self) -> bool {
        self.input.inv()
    }

    closed spec fn remaining(&self) -> nat {
        if self.finished {
            0
        } else {
            1
        }
    }

    closed spec fn spec_schema(&self) -> Seq<FieldV> {
        self.schema@
    }

    fn schema(&self) -> (r: &Schema)
        ensures
            r@ == self.spec_schema(),
    {
        &self.schema
    }

    /// The first pull folds the whole upstream into one accumulator set
    /// and returns the single-row output batch of serialized states
    /// (partial phase) or final values (final phase), or an error,
    /// never a silent end; every later pull ends the stream.
    fn next(&mut self) -> (r: Result<Option<RecordBatch>, DataFusionError>)
        ensures
            r matches Ok(Some(b)) ==> b@.schema == old(self).spec_schema() && b@.num_rows == 1,
            final(self).remaining() == 0,
            (r matches Ok(None)) <==> old(self).remaining() == 0,
    {
        if self.finished {
            return Ok(None);
        }
        self.finished = true;
        let mut accumulators = match create_accumulators(&self.aggr_expr) {
            Ok(v) => v,
            Err(e) => {
                return Err(e);
            },
        };
        let expressions = match aggregate_expressions(&self.aggr_expr, &self.mode) {
            Ok(v) => v,
            Err(e) => {
                return Err(e);
            },
        };
        loop
            invariant
                self.input.inv(),
                self.finished,
                self.spec_schema() == old(self).spec_schema(),
                expressions@.len() == accumulators@.len(),
                old(self).remaining() != 0,
            decreases self.input.remaining(),
        {
            match self.input.next() {
                Ok(Some(batch)) => {
                    accumulators =
                    match aggregate_batch::<A>(&self.mode, &batch, accumulators, &expressions) {
                        Ok(v) => v,
                        Err(e) => {
                            return Err(e);
                        },
                    };
                },
                Ok(None) => {
                    break ;
                },
                Err(e) => {
                    return Err(e);
                },
            }
        }
        let columns = match finalize_aggregation(&accumulators, &self.mode) {
            Ok(v) => v,
            Err(e) => {
                return Err(e);
            },
        };
        match RecordBatch::try_new(self.schema.clone(), columns) {
            Ok(b) => Ok(Some(b)),
            Err(e) => Err(e),
        }
    }
}

/// The stream an executed hash aggregate yields: grouped or ungrouped.
pub enum AggregateStream<E: PhysicalExpr, A: AggregateExpr, S: BatchProducer> {
    Grouped(GroupedHashAggregateStream<E, A, S>),
    Ungrouped(HashAggregateStream<A, S>),
}

impl<E: PhysicalExpr, A: AggregateExpr, S: BatchProducer> BatchProducer for AggregateStream<E, A, S> {
    closed spec fn inv(&self) -> bool {
        match self {
            AggregateStream::Grouped(g) => g.inv(),
            AggregateStream::Ungrouped(u) => u.inv(),
        }
    }

    closed spec fn remaining(&self) -> nat {
        match self {
            AggregateStream::Grouped(g) => g.remaining(),
            AggregateStream::Ungrouped(u) => u.remaining(),
        }
    }

    closed spec fn spec_schema(&self) -> Seq<FieldV> {
        match self {
            AggregateStream::Grouped(g) => g.spec_schema(),
            AggregateStream::Ungrouped(u) => u.spec_schema(),
        }
    }

    fn schema(&self) -> (r: &Schema)
        ensures
            r@ == self.spec_schema(),
    {
        match self {
            AggregateStream::Grouped(g) => g.schema(),
            AggregateStream::Ungrouped(u) => u.schema(),
        }
    }

    fn next(&mut self) -> (r: Result<Option<RecordBatch>, DataFusionError>) {
        match self {
            AggregateStream::Grouped(g) => g.next(),
            AggregateStream::Ungrouped(u) => u.next(),
        }
    }
}

/// The hash aggregate plan node: a phase, grouping expressions with
/// their output names, aggregate expressions, and the input plan.
pub struct HashAggregateExec<E: PhysicalExpr, A: AggregateExpr, P: ExecutionPlan> {
    mode: AggregateMode,
    group_expr: Vec<(E, String)>,
    aggr_expr: Vec<A>,
    input: P,
    schema: Schema,
}

impl<E: PhysicalExpr, A: AggregateExpr, P: ExecutionPlan> HashAggregateExec<E, A, P> {
    /// The aggregate's phase.
    pub closed spec fn spec_mode(&self) -> AggregateMode {
        self.mode
    }

    /// The grouping output names, in declared order.
    pub closed spec fn spec_group_names(&self) -> Seq<Seq<char>> {
        self.group_expr@.map_values(|g: (E, String)| g.1@)
    }

    /// The number of aggregate expressions.
    pub closed spec fn spec_num_aggr(&self) -> nat {
        self.aggr_expr@.len()
    }

    /// The input plan.
    pub closed spec fn spec_input(&self) -> P {
        self.input
    }

    /// Build a hash aggregate over an input plan, deriving the output
    /// schema from the expressions' models against the input's schema:
    /// the grouping fields first, under their declared names with
    /// their modeled types and nullability, then the aggregates' state
    /// fields (partial phase) or value fields (final phase).
    ///
    /// Succeeds exactly when every expression's model resolves; the
    /// expressions' own errors pass through.
    pub fn try_new(
        mode: AggregateMode,
        group_expr: Vec<(E, String)>,
        aggr_expr: Vec<A>,
        input: P,
    ) -> (r: Result<HashAggregateExec<E, A, P>, DataFusionError>)
        requires
            input.plan_inv(),
        ensures
            (r is Ok) <==> spec_output_schema(
                input.spec_plan_schema(),
                group_expr@,
                aggr_expr@,
                mode,
            ) is Some,
            r matches Ok(x) ==> Some(x.spec_plan_schema()) == spec_output_schema(
                input.spec_plan_schema(),
                group_expr@,
                aggr_expr@,
                mode,
            ),
            r matches Ok(x) ==> x.plan_inv() && x.spec_mode() == mode && x.spec_input() == input
                && x.spec_group_names() == group_expr@.map_values(|g: (E, String)| g.1@)
                && x.spec_num_aggr() == aggr_expr@.len() && x.spec_plan_schema().len()
                >= group_expr@.len() && (forall|j: int|
                0 <= j < group_expr@.len() ==> (#[trigger] x.spec_plan_schema()[j]).name
                    == group_expr@[j].1@) && ((mode matches AggregateMode::Final)
                ==> x.spec_plan_schema().len() == group_expr@.len() + aggr_expr@.len()),
    {
        let schema = match create_schema(input.schema(), &group_expr, &aggr_expr, mode) {
            Ok(s) => s,
            Err(e) => {
                return Err(e);
            },
        };
        Ok(HashAggregateExec { mode, group_expr, aggr_expr, input, schema })
    }

    /// The aggregate's phase.
    pub fn mode(&self) -> (r: &AggregateMode)
        ensures
            *r == self.spec_mode(),
    {
        &self.mode
    }

    /// The single input plan.
    pub fn children(&self) -> (r: Vec<&P>)
        ensures
            r@.len() == 1,
            *r@[0] == self.spec_input(),
    {
        vec![&self.input]
    }

    /// Rebuild this node over exactly one new child: the phase, the
    /// grouping names and the aggregate count carry over, and the
    /// schema is derived anew against the child's schema.
    ///
    /// Fails with `Internal` exactly when not exactly one child is
    /// given; errors of the expressions pass through.
    pub fn with_new_children(&self, children: Vec<P>) -> (r: Result<
        HashAggregateExec<E, A, P>,
        DataFusionError,
    >)
        requires
            forall|i: int| 0 <= i < children@.len() ==> (#[trigger] children@[i]).plan_inv(),
        ensures
            (r is Ok) ==> children@.len() == 1,
            children@.len() != 1 ==> (r matches Err(e) && e is Internal),
            r matches Ok(x) ==> x.plan_inv() && x.spec_mode() == self.spec_mode()
                && x.spec_input() == children@[0] && x.spec_group_names()
                == self.spec_group_names() && x.spec_num_aggr() == self.spec_num_aggr(),
    {
        if children.len() != 1 {
            return Err(DataFusionError::Internal(
                "HashAggregateExec wrong number of children".to_owned(),
            ));
        }
        let mut children = children;
        let child = match children.pop() {
            Some(c) => c,
            None => {
                return Err(DataFusionError::Internal(
                    "HashAggregateExec wrong number of children".to_owned(),
                ));
            },
        };
        let mut group_expr: Vec<(E, String)> = Vec::new();
        let mut i: usize = 0;
        while i < self.group_expr.len()
            invariant
                i <= self.group_expr@.len(),
                group_expr@.len() == i as int,
                forall|j: int| 0 <= j < i ==> (#[trigger] group_expr@[j]).1@ == self.group_expr@[j].1@,
            decreases self.group_expr@.len() - i,
        {
            group_expr.push((self.group_expr[i].0.clone(), self.group_expr[i].1.clone()));
            i = i + 1;
        }
        proof {
            assert(group_expr@.map_values(|g: (E, String)| g.1@) =~= self.spec_group_names());
        }
        HashAggregateExec::try_new(self.mode, group_expr, clone_items(&self.aggr_expr), child)
    }
}

impl<E: PhysicalExpr, A: AggregateExpr, P: ExecutionPlan> ExecutionPlan for HashAggregateExec<E, A, P> {
    type Stream = AggregateStream<E, A, P::Stream>;

    closed spec fn plan_inv(&self) -> bool {
        self.input.plan_inv()
    }

    closed spec fn spec_plan_schema(&self) -> Seq<FieldV> {
        self.schema@
    }

    /// The aggregate mirrors its input's partitioning.
    closed spec fn spec_partitioning(&self) -> Partitioning {
        self.input.spec_partitioning()
    }

    fn schema(&self) -> (r: &Schema)
        ensures
            r@ == self.spec_plan_schema(),
    {
        &self.schema
    }

    /// The input's partitioning, mirrored unchanged.
    fn output_partitioning(&self) -> (r: Partitioning)
        ensures
            r == self.spec_partitioning(),
            r == self.spec_input().spec_partitioning(),
    {
        self.input.output_partitioning()
    }

    /// The partial phase accepts any input distribution; the final
    /// phase requires a single input partition.
    fn required_child_distribution(&self) -> (r: Distribution)
        ensures
            r == (match self.spec_mode() {
                AggregateMode::Partial => Distribution::UnspecifiedDistribution,
                AggregateMode::Final => Distribution::SinglePartition,
            }),
    {
        match &self.mode {
            AggregateMode::Partial => Distribution::UnspecifiedDistribution,
            AggregateMode::Final => Distribution::SinglePartition,
        }
    }

    /// Execute one partition: the stream carries the node's schema, is
    /// live with its single output batch still to come, and takes the
    /// grouped path exactly when grouping expressions are present.
    /// Errors of the input plan pass through.
    fn execute(&self, partition: usize) -> (r: Result<Self::Stream, DataFusionError>)
        ensures
            r matches Ok(s) ==> s.inv() && s.spec_schema() == self.spec_plan_schema(),
            r matches Ok(s) ==> s.remaining() == 1,
            r matches Ok(s) ==> ((s is Grouped) <==> self.spec_group_names().len() >= 1),
    {
        let input = match self.input.execute(partition) {
            Ok(s) => s,
            Err(e) => {
                return Err(e);
            },
        };
        if self.group_expr.len() == 0 {
            Ok(
                AggregateStream::Ungrouped(
                    HashAggregateStream::new(
                        self.mode,
                        self.schema.clone(),
                        clone_items(&self.aggr_expr),
                        input,
                    ),
                ),
            )
        } else {
            let mut group_exprs: Vec<E> = Vec::new();
            let mut i: usize = 0;
            while i < self.group_expr.len()
                invariant
                    i <= self.group_expr@.len(),
                    group_exprs@.len() == i as int,
                decreases self.group_expr@.len() - i,
            {
                group_exprs.push(self.group_expr[i].0.clone());
                i = i + 1;
            }
            Ok(
                AggregateStream::Grouped(
                    GroupedHashAggregateStream::new(
                        self.mode,
                        self.schema.clone(),
                        group_exprs,
                        clone_items(&self.aggr_expr),
                        input,
                    ),
                ),
            )
        }
    }
}

} // verus!
