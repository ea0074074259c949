use datafusion::batch::RecordBatch;
use datafusion::column::{concat_columns, Column, ColumnData};
use datafusion::datatypes::{schema_projection, DataType, Field, Schema};
use datafusion::error::DataFusionError;
use datafusion::hash_aggregate::gather_group_inputs;
use datafusion::partition::ParquetScanPartition;
use datafusion::producer::{BatchProducer, MemoryStream};

fn i32_column(values: Vec<i32>) -> Column {
    Column {
        data_type: DataType::Int32,
        data: ColumnData::Int32(values.into_iter().map(Some).collect()),
    }
}

fn i32_schema() -> Schema {
    Schema::new(vec![Field::new("v".to_string(), DataType::Int32, false)])
}

fn i32_batch(values: Vec<i32>) -> RecordBatch {
    RecordBatch::try_new(i32_schema(), vec![i32_column(values)]).unwrap()
}

fn i32_values(batch: &RecordBatch) -> Vec<i32> {
    match &batch.column(0).data {
        ColumnData::Int32(cells) => cells.iter().map(|c| c.unwrap()).collect(),
        other => panic!("expected an integer column, got {:?}", other),
    }
}

#[test]
fn partition_stream_replies_in_pull_order() {
    // the worker's half of the handshake, played back without a thread:
    // replies are queued before the pulls arrive
    let (request_tx, request_rx) = crossbeam::channel::unbounded::<()>();
    let (response_tx, response_rx) =
        crossbeam::channel::unbounded::<Result<Option<RecordBatch>, DataFusionError>>();
    response_tx.send(Ok(Some(i32_batch(vec![1, 2])))).unwrap();
    response_tx.send(Ok(Some(i32_batch(vec![3])))).unwrap();
    response_tx.send(Ok(None)).unwrap();

    let mut stream = ParquetScanPartition::new(i32_schema(), request_tx, response_rx);
    assert_eq!(vec![1, 2], i32_values(&stream.next().unwrap().unwrap()));
    assert_eq!(vec![3], i32_values(&stream.next().unwrap().unwrap()));
    assert!(stream.next().unwrap().is_none());
    // one pull message went out per call
    assert_eq!(3, request_rx.len());
    assert_eq!("v", stream.schema().field(0).name());
}

#[test]
fn partition_stream_reports_worker_errors() {
    let (request_tx, _request_rx) = crossbeam::channel::unbounded::<()>();
    let (response_tx, response_rx) =
        crossbeam::channel::unbounded::<Result<Option<RecordBatch>, DataFusionError>>();
    response_tx
        .send(Err(DataFusionError::Io("worker failed to open the file".to_string())))
        .unwrap();

    let mut stream = ParquetScanPartition::new(i32_schema(), request_tx, response_rx);
    assert!(matches!(stream.next(), Err(DataFusionError::Io(_))));
}

#[test]
fn partition_stream_fails_when_the_worker_is_gone() {
    let (request_tx, request_rx) = crossbeam::channel::unbounded::<()>();
    let (response_tx, response_rx) =
        crossbeam::channel::unbounded::<Result<Option<RecordBatch>, DataFusionError>>();
    drop(response_tx);

    let mut stream = ParquetScanPartition::new(i32_schema(), request_tx, response_rx);
    assert!(matches!(stream.next(), Err(DataFusionError::General(_))));

    drop(request_rx);
    let (_response_tx2, response_rx2) =
        crossbeam::channel::unbounded::<Result<Option<RecordBatch>, DataFusionError>>();
    let (request_tx2, request_rx2) = crossbeam::channel::unbounded::<()>();
    drop(request_rx2);
    let mut stream = ParquetScanPartition::new(i32_schema(), request_tx2, response_rx2);
    assert!(matches!(stream.next(), Err(DataFusionError::General(_))));
}

#[test]
fn memory_stream_hands_batches_out_in_order() {
    let batches = vec![i32_batch(vec![1]), i32_batch(vec![2, 3])];
    let mut stream = MemoryStream::new(i32_schema(), batches);
    assert_eq!(vec![1], i32_values(&stream.next().unwrap().unwrap()));
    assert_eq!(vec![2, 3], i32_values(&stream.next().unwrap().unwrap()));
    assert!(stream.next().unwrap().is_none());
}

#[test]
fn schema_projection_selects_and_validates() {
    let schema = Schema::new(vec![
        Field::new("a".to_string(), DataType::Int32, false),
        Field::new("b".to_string(), DataType::Utf8, true),
        Field::new("c".to_string(), DataType::Boolean, false),
    ]);
    let projected = schema_projection(&schema, &vec![2, 0]).unwrap();
    let names: Vec<String> = projected.fields().iter().map(|f| f.name().clone()).collect();
    assert_eq!(names, vec!["c", "a"]);
    assert!(matches!(
        schema_projection(&schema, &vec![3]),
        Err(DataFusionError::InvalidColumn(_))
    ));
}

#[test]
fn take_gathers_rows_in_index_order() {
    let col = i32_column(vec![10, 20, 30, 40]);
    let taken = col.take(&vec![3, 0, 0, 2]);
    match &taken.data {
        ColumnData::Int32(cells) => {
            assert_eq!(&vec![Some(40), Some(10), Some(10), Some(30)], cells);
        }
        other => panic!("expected an integer column, got {:?}", other),
    }
}

#[test]
fn gather_group_inputs_takes_named_rows_in_order() {
    let inputs = vec![vec![i32_column(vec![10, 20, 30, 40])]];
    let gathered = gather_group_inputs(&inputs, &vec![3, 1, 1], 4);
    assert_eq!(gathered.len(), 1);
    match &gathered[0][0].data {
        ColumnData::Int32(cells) => {
            assert_eq!(&vec![Some(40), Some(20), Some(20)], cells);
        }
        other => panic!("expected an integer column, got {:?}", other),
    }
}

#[test]
fn concat_joins_columns_and_rejects_mixed_types() {
    let joined =
        concat_columns(&vec![i32_column(vec![1, 2]), i32_column(vec![]), i32_column(vec![3])])
            .unwrap();
    match &joined.data {
        ColumnData::Int32(cells) => {
            assert_eq!(&vec![Some(1), Some(2), Some(3)], cells);
        }
        other => panic!("expected an integer column, got {:?}", other),
    }
    let mixed = concat_columns(&vec![
        i32_column(vec![1]),
        Column { data_type: DataType::Int64, data: ColumnData::Int64(vec![Some(2)]) },
    ]);
    assert!(matches!(mixed, Err(DataFusionError::Arrow(_))));
}

#[test]
fn batches_validate_their_columns() {
    // wrong column count
    let r = RecordBatch::try_new(i32_schema(), vec![]);
    assert!(matches!(r, Err(DataFusionError::Arrow(_))));
    // type mismatch against the schema
    let r = RecordBatch::try_new(
        i32_schema(),
        vec![Column { data_type: DataType::Int64, data: ColumnData::Int64(vec![Some(1)]) }],
    );
    assert!(matches!(r, Err(DataFusionError::Arrow(_))));
    // ragged lengths
    let two_fields = Schema::new(vec![
        Field::new("a".to_string(), DataType::Int32, false),
        Field::new("b".to_string(), DataType::Int32, false),
    ]);
    let r = RecordBatch::try_new(
        two_fields,
        vec![i32_column(vec![1, 2]), i32_column(vec![3])],
    );
    assert!(matches!(r, Err(DataFusionError::Arrow(_))));
}
