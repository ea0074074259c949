use datafusion::batch::RecordBatch;
use datafusion::column::{Column, ColumnData};
use datafusion::datatypes::{DataType, Field, Schema};
use datafusion::error::DataFusionError;
use datafusion::expressions::{col, Count};
use datafusion::hash_aggregate::{AggregateMode, HashAggregateExec};
use datafusion::memory::MemoryExec;
use datafusion::physical_plan::{Accumulator, AggregateExpr, Distribution, ExecutionPlan, Partitioning, PhysicalExpr};
use datafusion::producer::BatchProducer;
use datafusion::scalar::ScalarValue;

use datafusion::expressions::ColumnRef;

/// The AVG aggregate as an embedder would implement it: state is
/// `(count, sum)`, the final value their quotient.
#[derive(Clone)]
struct Avg {
    expr: ColumnRef,
    name: String,
}

impl Avg {
    fn new(expr: ColumnRef, name: String) -> Self {
        Avg { expr, name }
    }
}

#[derive(Clone)]
struct AvgAccumulator {
    count: u64,
    sum: f64,
}

fn f64_cells(column: &Column) -> Vec<Option<f64>> {
    match &column.data {
        ColumnData::Float64(cells) => cells.iter().map(|c| c.map(f64::from_bits)).collect(),
        other => panic!("expected a float column, got {:?}", other),
    }
}

fn u64_cells(column: &Column) -> Vec<Option<u64>> {
    match &column.data {
        ColumnData::UInt64(cells) => cells.clone(),
        other => panic!("expected an unsigned column, got {:?}", other),
    }
}

impl Accumulator for AvgAccumulator {
    fn update_batch(&mut self, values: &Vec<Column>) -> Result<(), DataFusionError> {
        for cell in f64_cells(&values[0]) {
            if let Some(v) = cell {
                self.count += 1;
                self.sum += v;
            }
        }
        Ok(())
    }

    fn merge_batch(&mut self, states: &Vec<Column>) -> Result<(), DataFusionError> {
        let counts = u64_cells(&states[0]);
        let sums = f64_cells(&states[1]);
        for (count, sum) in counts.into_iter().zip(sums.into_iter()) {
            if let (Some(c), Some(s)) = (count, sum) {
                self.count += c;
                self.sum += s;
            }
        }
        Ok(())
    }

    fn state(&self) -> Result<Vec<ScalarValue>, DataFusionError> {
        Ok(vec![
            ScalarValue::UInt64(Some(self.count)),
            ScalarValue::Float64Bits(Some(self.sum.to_bits())),
        ])
    }

    fn evaluate(&self) -> Result<ScalarValue, DataFusionError> {
        if self.count == 0 {
            Ok(ScalarValue::Float64Bits(None))
        } else {
            Ok(ScalarValue::Float64Bits(Some(
                (self.sum / self.count as f64).to_bits(),
            )))
        }
    }
}

impl AggregateExpr for Avg {
    type Expr = ColumnRef;
    type Acc = AvgAccumulator;

    fn expressions(&self) -> Vec<ColumnRef> {
        vec![self.expr.clone()]
    }

    fn state_fields(&self) -> Result<Vec<Field>, DataFusionError> {
        Ok(vec![
            Field::new(format!("{}[count]", self.name), DataType::UInt64, true),
            Field::new(format!("{}[sum]", self.name), DataType::Float64, true),
        ])
    }

    fn field(&self) -> Result<Field, DataFusionError> {
        Ok(Field::new(self.name.clone(), DataType::Float64, true))
    }

    fn create_accumulator(&self) -> Result<AvgAccumulator, DataFusionError> {
        Ok(AvgAccumulator { count: 0, sum: 0.0 })
    }
}

fn u32_column(values: Vec<u32>) -> Column {
    Column {
        data_type: DataType::UInt32,
        data: ColumnData::UInt32(values.into_iter().map(Some).collect()),
    }
}

fn f64_column(values: Vec<f64>) -> Column {
    Column {
        data_type: DataType::Float64,
        data: ColumnData::Float64(values.into_iter().map(|f| Some(f.to_bits())).collect()),
    }
}

fn some_data() -> (Schema, Vec<RecordBatch>) {
    // define a schema.
    let schema = Schema::new(vec![
        Field::new("a".to_string(), DataType::UInt32, false),
        Field::new("b".to_string(), DataType::Float64, false),
    ]);

    // define data.
    (
        schema.clone(),
        vec![
            RecordBatch::try_new(
                schema.clone(),
                vec![u32_column(vec![2, 3, 4, 4]), f64_column(vec![1.0, 2.0, 3.0, 4.0])],
            )
            .unwrap(),
            RecordBatch::try_new(
                schema.clone(),
                vec![u32_column(vec![2, 3, 3, 4]), f64_column(vec![1.0, 2.0, 3.0, 4.0])],
            )
            .unwrap(),
        ],
    )
}

fn collect<P: BatchProducer>(mut stream: P) -> Vec<RecordBatch> {
    let mut out = vec![];
    while let Some(batch) = stream.next().unwrap() {
        out.push(batch);
    }
    out
}

fn u32_values(column: &Column) -> Vec<u32> {
    match &column.data {
        ColumnData::UInt32(cells) => cells.iter().map(|c| c.unwrap()).collect(),
        other => panic!("expected an unsigned column, got {:?}", other),
    }
}

#[test]
fn aggregate() {
    let (schema, batches) = some_data();

    let input = MemoryExec::try_new(vec![batches.clone(), batches], schema, None).unwrap();

    let groups: Vec<(ColumnRef, String)> = vec![(col("a"), "a".to_string())];

    let aggregates: Vec<Avg> = vec![Avg::new(col("b"), "AVG(b)".to_string())];

    let partial_aggregate = HashAggregateExec::try_new(
        AggregateMode::Partial,
        groups.clone(),
        aggregates.clone(),
        input,
    )
    .unwrap();

    let result = collect(partial_aggregate.execute(0).unwrap());

    let keys = u32_values(result[0].column(0));
    assert_eq!(keys, vec![2, 3, 4]);

    let ns = u64_cells(result[0].column(1));
    assert_eq!(ns, vec![Some(2), Some(3), Some(3)]);

    let sums = f64_cells(result[0].column(2));
    assert_eq!(sums, vec![Some(2.0), Some(7.0), Some(11.0)]);

    // merge the two partial partitions into a single one, as the final
    // phase requires a single input partition
    let partial_schema = partial_aggregate.schema().clone();
    let mut merged = collect(partial_aggregate.execute(0).unwrap());
    merged.extend(collect(partial_aggregate.execute(1).unwrap()));
    let merge = MemoryExec::try_new(vec![merged], partial_schema, None).unwrap();

    let final_group: Vec<ColumnRef> = (0..groups.len()).map(|i| col(&groups[i].1)).collect();

    let merged_aggregate = HashAggregateExec::try_new(
        AggregateMode::Final,
        final_group
            .iter()
            .enumerate()
            .map(|(i, expr)| (expr.clone(), groups[i].1.clone()))
            .collect(),
        aggregates,
        merge,
    )
    .unwrap();

    let result = collect(merged_aggregate.execute(0).unwrap());
    assert_eq!(result.len(), 1);

    let batch = &result[0];
    assert_eq!(batch.num_columns(), 2);
    assert_eq!(batch.num_rows(), 3);

    let a = u32_values(batch.column(0));
    let b = f64_cells(batch.column(1));

    assert_eq!(a, vec![2, 3, 4]);
    assert_eq!(
        b,
        vec![
            Some(1.0),
            Some((2.0 + 3.0 + 2.0) / 3.0),
            Some((3.0 + 4.0 + 4.0) / 3.0)
        ]
    );
}

#[test]
fn grouped_aggregate_over_empty_input_yields_empty_batch() {
    let (schema, _) = some_data();
    let input = MemoryExec::try_new(vec![vec![]], schema, None).unwrap();
    let groups: Vec<(ColumnRef, String)> = vec![(col("a"), "a".to_string())];
    let aggregates: Vec<Avg> = vec![Avg::new(col("b"), "AVG(b)".to_string())];

    let partial =
        HashAggregateExec::try_new(AggregateMode::Partial, groups, aggregates, input).unwrap();
    let result = collect(partial.execute(0).unwrap());
    assert_eq!(result.len(), 1);
    assert_eq!(result[0].num_rows(), 0);
    assert_eq!(result[0].num_columns(), 3);
    let names: Vec<String> =
        result[0].schema().fields().iter().map(|f| f.name().clone()).collect();
    assert_eq!(names, vec!["a", "AVG(b)[count]", "AVG(b)[sum]"]);
}

#[test]
fn ungrouped_count_partial_then_final() {
    let (schema, batches) = some_data();
    let input = MemoryExec::try_new(vec![batches], schema, None).unwrap();
    let aggregates: Vec<Count> = vec![Count::new(col("b"), "COUNT(b)".to_string())];

    let partial = HashAggregateExec::try_new(
        AggregateMode::Partial,
        Vec::<(ColumnRef, String)>::new(),
        aggregates.clone(),
        input,
    )
    .unwrap();
    let partial_schema = partial.schema().clone();
    let partial_out = collect(partial.execute(0).unwrap());
    assert_eq!(partial_out.len(), 1);
    assert_eq!(partial_out[0].num_rows(), 1);
    assert_eq!(u64_cells(partial_out[0].column(0)), vec![Some(8)]);

    let merge = MemoryExec::try_new(vec![partial_out], partial_schema, None).unwrap();
    let final_agg =
        HashAggregateExec::try_new(AggregateMode::Final, Vec::<(ColumnRef, String)>::new(), aggregates, merge).unwrap();
    let out = collect(final_agg.execute(0).unwrap());
    assert_eq!(out.len(), 1);
    assert_eq!(out[0].num_rows(), 1);
    assert_eq!(u64_cells(out[0].column(0)), vec![Some(8)]);
}

#[test]
fn count_skips_nulls() {
    let schema = Schema::new(vec![Field::new("v".to_string(), DataType::Int64, true)]);
    let column = Column {
        data_type: DataType::Int64,
        data: ColumnData::Int64(vec![Some(5), None, Some(6), None, None]),
    };
    let batch = RecordBatch::try_new(schema.clone(), vec![column]).unwrap();
    let input = MemoryExec::try_new(vec![vec![batch]], schema, None).unwrap();
    let aggregates: Vec<Count> = vec![Count::new(col("v"), "COUNT(v)".to_string())];

    let partial =
        HashAggregateExec::try_new(AggregateMode::Partial, Vec::<(ColumnRef, String)>::new(), aggregates, input).unwrap();
    let out = collect(partial.execute(0).unwrap());
    assert_eq!(u64_cells(out[0].column(0)), vec![Some(2)]);
}

#[test]
fn grouped_count_by_string_key() {
    let schema = Schema::new(vec![
        Field::new("k".to_string(), DataType::Utf8, false),
        Field::new("v".to_string(), DataType::Int32, true),
    ]);
    let keys = Column {
        data_type: DataType::Utf8,
        data: ColumnData::Utf8(
            vec!["x", "y", "x", "z", "y", "x"]
                .into_iter()
                .map(|s| Some(s.to_string()))
                .collect(),
        ),
    };
    let vals = Column {
        data_type: DataType::Int32,
        data: ColumnData::Int32(vec![Some(1), Some(2), None, Some(4), Some(5), Some(6)]),
    };
    let batch = RecordBatch::try_new(schema.clone(), vec![keys, vals]).unwrap();
    let input = MemoryExec::try_new(vec![vec![batch]], schema, None).unwrap();
    let groups: Vec<(ColumnRef, String)> = vec![(col("k"), "k".to_string())];
    let aggregates: Vec<Count> = vec![Count::new(col("v"), "COUNT(v)".to_string())];

    let partial =
        HashAggregateExec::try_new(AggregateMode::Partial, groups.clone(), aggregates.clone(), input).unwrap();
    let partial_schema = partial.schema().clone();
    let out = collect(partial.execute(0).unwrap());
    assert_eq!(out[0].num_rows(), 3);
    let key_cells = match &out[0].column(0).data {
        ColumnData::Utf8(cells) => cells.clone(),
        other => panic!("expected text keys, got {:?}", other),
    };
    assert_eq!(
        key_cells,
        vec![
            Some("x".to_string()),
            Some("y".to_string()),
            Some("z".to_string())
        ]
    );
    assert_eq!(
        u64_cells(out[0].column(1)),
        vec![Some(2), Some(2), Some(1)]
    );

    // the final phase over the partial output yields the same per-group
    // counts as the single partial stage did
    let merge = MemoryExec::try_new(vec![out], partial_schema, None).unwrap();
    let final_agg =
        HashAggregateExec::try_new(AggregateMode::Final, groups, aggregates, merge).unwrap();
    let merged = collect(final_agg.execute(0).unwrap());
    assert_eq!(merged[0].num_rows(), 3);
    assert_eq!(
        u64_cells(merged[0].column(1)),
        vec![Some(2), Some(2), Some(1)]
    );
}

#[test]
fn float_group_keys_are_rejected() {
    let schema = Schema::new(vec![
        Field::new("k".to_string(), DataType::Float64, false),
        Field::new("v".to_string(), DataType::Float64, false),
    ]);
    let batch = RecordBatch::try_new(
        schema.clone(),
        vec![f64_column(vec![1.0, 2.0]), f64_column(vec![3.0, 4.0])],
    )
    .unwrap();
    let input = MemoryExec::try_new(vec![vec![batch]], schema, None).unwrap();
    let groups: Vec<(ColumnRef, String)> = vec![(col("k"), "k".to_string())];
    let aggregates: Vec<Avg> = vec![Avg::new(col("v"), "AVG(v)".to_string())];

    let partial =
        HashAggregateExec::try_new(AggregateMode::Partial, groups, aggregates, input).unwrap();
    let mut stream = partial.execute(0).unwrap();
    let r = stream.next();
    assert!(matches!(r, Err(DataFusionError::Internal(_))));
}

#[test]
fn missing_column_surfaces_as_error() {
    let (schema, batches) = some_data();
    let input = MemoryExec::try_new(vec![batches], schema, None).unwrap();
    let groups: Vec<(ColumnRef, String)> = vec![(col("a"), "a".to_string())];
    let aggregates: Vec<Count> = vec![Count::new(col("nope"), "COUNT(nope)".to_string())];

    let partial =
        HashAggregateExec::try_new(AggregateMode::Partial, groups, aggregates, input).unwrap();
    let mut stream = partial.execute(0).unwrap();
    let r = stream.next();
    assert!(matches!(r, Err(DataFusionError::General(_))));
}

#[test]
fn required_distribution_follows_the_mode() {
    let (schema, batches) = some_data();
    let aggregates: Vec<Count> = vec![Count::new(col("b"), "COUNT(b)".to_string())];
    let input = MemoryExec::try_new(vec![batches.clone()], schema.clone(), None).unwrap();
    let partial =
        HashAggregateExec::try_new(AggregateMode::Partial, Vec::<(ColumnRef, String)>::new(), aggregates.clone(), input)
            .unwrap();
    assert_eq!(
        partial.required_child_distribution(),
        Distribution::UnspecifiedDistribution
    );
    let input = MemoryExec::try_new(vec![batches], schema, None).unwrap();
    let final_agg =
        HashAggregateExec::try_new(AggregateMode::Final, Vec::<(ColumnRef, String)>::new(), aggregates, input).unwrap();
    assert_eq!(
        final_agg.required_child_distribution(),
        Distribution::SinglePartition
    );
}

#[test]
fn partitioning_mirrors_the_input() {
    let (schema, batches) = some_data();
    let input = MemoryExec::try_new(vec![batches.clone(), batches], schema, None).unwrap();
    let aggregates: Vec<Count> = vec![Count::new(col("b"), "COUNT(b)".to_string())];
    let agg = HashAggregateExec::try_new(
        AggregateMode::Partial,
        Vec::<(ColumnRef, String)>::new(),
        aggregates,
        input,
    )
    .unwrap();
    assert_eq!(agg.output_partitioning(), Partitioning::UnknownPartitioning(2));
    assert_eq!(agg.output_partitioning().partition_count(), 2);
}

#[test]
fn errors_carry_a_message() {
    let err = DataFusionError::Internal("the sky fell".to_string());
    assert_eq!("the sky fell", err.message());
}

#[test]
fn with_new_children_requires_exactly_one() {
    let (schema, batches) = some_data();
    let input = MemoryExec::try_new(vec![batches], schema, None).unwrap();
    let aggregates: Vec<Count> = vec![Count::new(col("b"), "COUNT(b)".to_string())];
    let agg =
        HashAggregateExec::try_new(AggregateMode::Partial, Vec::<(ColumnRef, String)>::new(), aggregates, input).unwrap();
    assert_eq!(agg.children().len(), 1);
    let r = agg.with_new_children(vec![]);
    assert!(matches!(r, Err(DataFusionError::Internal(_))));
}
