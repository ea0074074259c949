use vstd::prelude::*;
use crate::batch::RecordBatch;
use crate::column::Column;
use crate::datatypes::{DataType, Field, FieldV, Schema};
use crate::error::DataFusionError;
use crate::producer::BatchProducer;
use crate::scalar::ScalarValue;

verus! {

/// How an operator requires its input to be distributed across
/// partitions.
#[derive(Debug, Clone, Copy, PartialEq, Eq, Structural)]
pub enum Distribution {
    /// Any distribution is acceptable.
    UnspecifiedDistribution,
    /// A single input partition is required.
    SinglePartition,
}

/// How an operator's output is partitioned.
#[derive(Debug, Clone, Copy, PartialEq, Eq, Structural)]
pub enum Partitioning {
    /// Partitioning of a known count but unknown scheme.
    UnknownPartitioning(usize),
}

impl Partitioning {
    /// The number of partitions.
    pub fn partition_count(&self) -> (r: usize)
        ensures
            self matches Partitioning::UnknownPartitioning(n) && r == n,
    {
        match self {
            Partitioning::UnknownPartitioning(n) => *n,
        }
    }
}

/// A physical expression: evaluated against a record batch, it produces
/// a single well-formed column with one cell per input row. Its result
/// type and nullability against a schema are spec-level models, so that
/// consumers can state derived schemas exactly.
pub trait PhysicalExpr: Sized + Clone {
    /// The type the expression produces against an input schema;
    /// `None` where it does not resolve. An implementation overrides
    /// this model to match its `data_type`; the default describes an
    /// expression that never resolves.
    open spec fn spec_data_type(&self, input_schema: Seq<FieldV>) -> Option<DataType> {
        None
    }

    /// Whether the produced column may hold nulls against an input
    /// schema; `None` where it does not resolve. An implementation
    /// overrides this model to match its `nullable`; the default
    /// describes an expression that never resolves.
    open spec fn spec_nullable(&self, input_schema: Seq<FieldV>) -> Option<bool> {
        None
    }

    /// The type of column the expression produces against an input
    /// schema: the model's answer.
    fn data_type(&self, input_schema: &Schema) -> (r: Result<DataType, DataFusionError>)
        ensures
            (r is Ok) <==> self.spec_data_type(input_schema@) is Some,
            r matches Ok(dt) ==> self.spec_data_type(input_schema@) == Some(dt),
    ;

    /// Whether the produced column may hold nulls, against an input
    /// schema: the model's answer.
    fn nullable(&self, input_schema: &Schema) -> (r: Result<bool, DataFusionError>)
        ensures
            (r is Ok) <==> self.spec_nullable(input_schema@) is Some,
            r matches Ok(b) ==> self.spec_nullable(input_schema@) == Some(b),
    ;

    /// Evaluate against a batch.
    fn evaluate(&self, batch: &RecordBatch) -> (r: Result<Column, DataFusionError>)
        ensures
            r matches Ok(c) ==> c.wf() && c@.len() == batch@.num_rows,
    ;
}

/// Per-group aggregation state plus the update / merge / serialize /
/// evaluate contract. An accumulator folds batches of input values
/// (partial phase) or batches of serialized partial states (final
/// phase), serializes its state as one scalar per state field, and
/// evaluates to the final aggregate value.
pub trait Accumulator: Sized {
    /// Fold one batch of input values into the state.
    fn update_batch(&mut self, values: &Vec<Column>) -> Result<(), DataFusionError>;

    /// Fold one batch of previously serialized partial states into the
    /// state; the column layout matches `state_fields`.
    fn merge_batch(&mut self, states: &Vec<Column>) -> Result<(), DataFusionError>;

    /// Serialize the state, one scalar per state field.
    fn state(&self) -> Result<Vec<ScalarValue>, DataFusionError>;

    /// The final aggregate value.
    fn evaluate(&self) -> Result<ScalarValue, DataFusionError>;
}

/// An aggregate expression: its input expressions, the fields its
/// serialized state travels in, the field of its final value, and a
/// factory for fresh accumulators. The expressions and fields are
/// spec-level models, so that the operator's derived schemas and
/// state references can be stated exactly; the accumulator itself
/// stays opaque.
pub trait AggregateExpr: Sized + Clone {
    /// The input expressions' type.
    type Expr: PhysicalExpr;

    /// The accumulator type.
    type Acc: Accumulator;

    /// The input expressions evaluated in the partial phase. An
    /// implementation overrides this model to match its `expressions`.
    open spec fn spec_expressions(&self) -> Seq<Self::Expr> {
        Seq::empty()
    }

    /// The images of the serialized state's fields; `None` where they
    /// do not resolve. An implementation overrides this model to match
    /// its `state_fields`; the default describes fields that never
    /// resolve.
    open spec fn spec_state_fields(&self) -> Option<Seq<FieldV>> {
        None
    }

    /// The image of the final value's field; `None` where it does not
    /// resolve. An implementation overrides this model to match its
    /// `field`; the default describes a field that never resolves.
    open spec fn spec_field(&self) -> Option<FieldV> {
        None
    }

    /// Input expressions evaluated against each input batch in the
    /// partial phase: the model's expressions.
    fn expressions(&self) -> (r: Vec<Self::Expr>)
        ensures
            r@ == self.spec_expressions(),
    ;

    /// Fields describing the accumulator's serialized state: the
    /// model's fields.
    fn state_fields(&self) -> (r: Result<Vec<Field>, DataFusionError>)
        ensures
            (r is Ok) <==> self.spec_state_fields() is Some,
            r matches Ok(v) ==> Some(v@.map_values(|f: Field| f@)) == self.spec_state_fields(),
    ;

    /// Field of the final aggregate value: the model's field.
    fn field(&self) -> (r: Result<Field, DataFusionError>)
        ensures
            (r is Ok) <==> self.spec_field() is Some,
            r matches Ok(f) ==> Some(f@) == self.spec_field(),
    ;

    /// A fresh accumulator.
    fn create_accumulator(&self) -> Result<Self::Acc, DataFusionError>;
}

/// A node of a physical plan: a schema, a partitioning, and per
/// partition an executable batch stream.
pub trait ExecutionPlan: Sized {
    /// The stream type `execute` yields.
    type Stream: BatchProducer;

    /// The plan node's internal consistency.
    spec fn plan_inv(&self) -> bool;

    /// The image of the schema that `schema` returns.
    spec fn spec_plan_schema(&self) -> Seq<crate::datatypes::FieldV>;

    /// The partitioning that `output_partitioning` returns.
    spec fn spec_partitioning(&self) -> Partitioning;

    /// The schema of the node's output batches.
    fn schema(&self) -> (r: &Schema)
        ensures
            r@ == self.spec_plan_schema(),
    ;

    /// How the node's output is partitioned.
    fn output_partitioning(&self) -> (r: Partitioning)
        ensures
            r == self.spec_partitioning(),
    ;

    /// The distribution the node requires of its input.
    fn required_child_distribution(&self) -> Distribution;

    /// Start execution of one partition: a consistent stream carrying
    /// the node's schema.
    fn execute(&self, partition: usize) -> (r: Result<Self::Stream, DataFusionError>)
        requires
            self.plan_inv(),
        ensures
            r matches Ok(s) ==> s.inv() && s.spec_schema() == self.spec_plan_schema(),
    ;
}

} // verus!
