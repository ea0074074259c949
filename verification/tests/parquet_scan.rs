use datafusion::batch::RecordBatch;
use datafusion::column::ColumnData;
use datafusion::datatypes::{DataType, Field, Schema, TimeUnit};
use datafusion::error::DataFusionError;
use datafusion::parquet::{
    convert_int96_timestamp, ColumnChunk, Int96, ParquetData, ParquetFile, ParquetTable, RowGroup,
    JULIAN_DAY_OF_EPOCH,
};
use datafusion::producer::BatchProducer;

const NANOS_PER_DAY_I64: i64 = 86_400_000_000_000;

fn int96_of_nanos(nanos: i64) -> Int96 {
    let day = nanos.div_euclid(NANOS_PER_DAY_I64) + JULIAN_DAY_OF_EPOCH as i64;
    let in_day = nanos.rem_euclid(NANOS_PER_DAY_I64) as u64;
    Int96 {
        nanos_lo: (in_day & 0xFFFF_FFFF) as u32,
        nanos_hi: (in_day >> 32) as u32,
        julian_day: day as u32,
    }
}

fn all_valid(n: usize) -> Option<Vec<i16>> {
    Some(vec![1i16; n])
}

fn fixture_timestamps() -> Vec<i64> {
    vec![
        1235865600000000000,
        1235865660000000000,
        1238544000000000000,
        1238544060000000000,
        1233446400000000000,
        1233446460000000000,
        1230768000000000000,
        1230768060000000000,
    ]
}

/// The well-known 8-row, 11-column file of one row group, rebuilt as
/// decoded buffers.
fn alltypes_plain() -> ParquetData {
    let fields = vec![
        Field::new("id".to_string(), DataType::Int32, true),
        Field::new("bool_col".to_string(), DataType::Boolean, true),
        Field::new("tinyint_col".to_string(), DataType::Int32, true),
        Field::new("smallint_col".to_string(), DataType::Int32, true),
        Field::new("int_col".to_string(), DataType::Int32, true),
        Field::new("bigint_col".to_string(), DataType::Int64, true),
        Field::new("float_col".to_string(), DataType::Float32, true),
        Field::new("double_col".to_string(), DataType::Float64, true),
        Field::new("date_string_col".to_string(), DataType::Utf8, true),
        Field::new("string_col".to_string(), DataType::Utf8, true),
        Field::new(
            "timestamp_col".to_string(),
            DataType::Timestamp(TimeUnit::Nanosecond),
            true,
        ),
    ];
    let schema = Schema::new(fields);
    let strings = |v: Vec<&str>| v.into_iter().map(|s| s.to_string()).collect::<Vec<String>>();
    let columns = vec![
        ColumnChunk::Int32 { values: vec![4, 5, 6, 7, 2, 3, 0, 1], def_levels: all_valid(8) },
        ColumnChunk::Boolean {
            values: vec![true, false, true, false, true, false, true, false],
            def_levels: all_valid(8),
        },
        ColumnChunk::Int32 { values: vec![0, 1, 0, 1, 0, 1, 0, 1], def_levels: all_valid(8) },
        ColumnChunk::Int32 { values: vec![0, 1, 0, 1, 0, 1, 0, 1], def_levels: all_valid(8) },
        ColumnChunk::Int32 { values: vec![0, 1, 0, 1, 0, 1, 0, 1], def_levels: all_valid(8) },
        ColumnChunk::Int64 { values: vec![0, 10, 0, 10, 0, 10, 0, 10], def_levels: all_valid(8) },
        ColumnChunk::Float {
            values: vec![0.0f32, 1.1, 0.0, 1.1, 0.0, 1.1, 0.0, 1.1]
                .into_iter()
                .map(|f| f.to_bits())
                .collect(),
            def_levels: all_valid(8),
        },
        ColumnChunk::Double {
            values: vec![0.0f64, 10.1, 0.0, 10.1, 0.0, 10.1, 0.0, 10.1]
                .into_iter()
                .map(|f| f.to_bits())
                .collect(),
            def_levels: all_valid(8),
        },
        ColumnChunk::ByteArray {
            values: strings(vec![
                "03/01/09", "03/01/09", "04/01/09", "04/01/09", "02/01/09", "02/01/09",
                "01/01/09", "01/01/09",
            ]),
            def_levels: all_valid(8),
        },
        ColumnChunk::ByteArray {
            values: strings(vec!["0", "1", "0", "1", "0", "1", "0", "1"]),
            def_levels: all_valid(8),
        },
        ColumnChunk::Int96 {
            values: fixture_timestamps().into_iter().map(int96_of_nanos).collect(),
            def_levels: all_valid(8),
        },
    ];
    ParquetData::try_new(schema, vec![RowGroup { columns }]).unwrap()
}

fn load_table() -> ParquetTable {
    ParquetTable::try_new(vec![alltypes_plain()]).unwrap()
}

#[test]
fn read_small_batches() {
    let table = load_table();

    let projection = None;
    let scan = table.scan(&projection, 2).unwrap();
    let mut it = scan.into_iter().next().unwrap();

    let mut count = 0;
    while let Some(batch) = it.next().unwrap() {
        assert_eq!(11, batch.num_columns());
        assert_eq!(2, batch.num_rows());
        count += 1;
    }

    // we should have seen 4 batches of 2 rows
    assert_eq!(4, count);
}

#[test]
fn read_alltypes_plain_parquet() {
    let table = load_table();

    let x: Vec<String> = table
        .schema()
        .fields()
        .iter()
        .map(|f| format!("{}: {:?}", f.name(), f.data_type()))
        .collect();
    let y = x.join("\n");
    assert_eq!(
        "id: Int32\n\
         bool_col: Boolean\n\
         tinyint_col: Int32\n\
         smallint_col: Int32\n\
         int_col: Int32\n\
         bigint_col: Int64\n\
         float_col: Float32\n\
         double_col: Float64\n\
         date_string_col: Utf8\n\
         string_col: Utf8\n\
         timestamp_col: Timestamp(Nanosecond)",
        y
    );

    let projection = None;
    let scan = table.scan(&projection, 1024).unwrap();
    let mut it = scan.into_iter().next().unwrap();
    let batch = it.next().unwrap().unwrap();

    assert_eq!(11, batch.num_columns());
    assert_eq!(8, batch.num_rows());
}

fn single_column_batch(table: &ParquetTable, column: usize) -> RecordBatch {
    let projection = Some(vec![column]);
    let scan = table.scan(&projection, 1024).unwrap();
    let mut it = scan.into_iter().next().unwrap();
    let batch = it.next().unwrap().unwrap();
    assert_eq!(1, batch.num_columns());
    assert_eq!(8, batch.num_rows());
    batch
}

#[test]
fn read_bool_alltypes_plain_parquet() {
    let table = load_table();
    let batch = single_column_batch(&table, 1);

    let mut values: Vec<bool> = vec![];
    match &batch.column(0).data {
        ColumnData::Boolean(cells) => {
            for cell in cells {
                values.push(cell.unwrap());
            }
        }
        other => panic!("unexpected storage {:?}", other),
    }

    assert_eq!(
        "[true, false, true, false, true, false, true, false]",
        format!("{:?}", values)
    );
}

#[test]
fn read_i32_alltypes_plain_parquet() {
    let table = load_table();
    let batch = single_column_batch(&table, 0);

    let mut values: Vec<i32> = vec![];
    match &batch.column(0).data {
        ColumnData::Int32(cells) => {
            for cell in cells {
                values.push(cell.unwrap());
            }
        }
        other => panic!("unexpected storage {:?}", other),
    }

    assert_eq!("[4, 5, 6, 7, 2, 3, 0, 1]", format!("{:?}", values));
}

#[test]
fn read_i96_alltypes_plain_parquet() {
    let table = load_table();
    let batch = single_column_batch(&table, 10);

    assert_eq!(
        DataType::Timestamp(TimeUnit::Nanosecond),
        batch.column(0).data_type
    );
    let mut values: Vec<i64> = vec![];
    match &batch.column(0).data {
        ColumnData::Int64(cells) => {
            for cell in cells {
                values.push(cell.unwrap());
            }
        }
        other => panic!("unexpected storage {:?}", other),
    }

    assert_eq!("[1235865600000000000, 1235865660000000000, 1238544000000000000, 1238544060000000000, 1233446400000000000, 1233446460000000000, 1230768000000000000, 1230768060000000000]", format!("{:?}", values));
}

#[test]
fn read_f32_alltypes_plain_parquet() {
    let table = load_table();
    let batch = single_column_batch(&table, 6);

    let mut values: Vec<f32> = vec![];
    match &batch.column(0).data {
        ColumnData::Float32(cells) => {
            for cell in cells {
                values.push(f32::from_bits(cell.unwrap()));
            }
        }
        other => panic!("unexpected storage {:?}", other),
    }

    assert_eq!(
        "[0.0, 1.1, 0.0, 1.1, 0.0, 1.1, 0.0, 1.1]",
        format!("{:?}", values)
    );
}

#[test]
fn read_f64_alltypes_plain_parquet() {
    let table = load_table();
    let batch = single_column_batch(&table, 7);

    let mut values: Vec<f64> = vec![];
    match &batch.column(0).data {
        ColumnData::Float64(cells) => {
            for cell in cells {
                values.push(f64::from_bits(cell.unwrap()));
            }
        }
        other => panic!("unexpected storage {:?}", other),
    }

    assert_eq!(
        "[0.0, 10.1, 0.0, 10.1, 0.0, 10.1, 0.0, 10.1]",
        format!("{:?}", values)
    );
}

#[test]
fn read_utf8_alltypes_plain_parquet() {
    let table = load_table();
    let batch = single_column_batch(&table, 9);

    let mut values: Vec<String> = vec![];
    match &batch.column(0).data {
        ColumnData::Utf8(cells) => {
            for cell in cells {
                values.push(cell.clone().unwrap());
            }
        }
        other => panic!("unexpected storage {:?}", other),
    }

    assert_eq!(
        "[\"0\", \"1\", \"0\", \"1\", \"0\", \"1\", \"0\", \"1\"]",
        format!("{:?}", values)
    );
}

#[test]
fn exact_batch_size_then_end() {
    // a single row group of exactly `batch_size` rows: one non-empty
    // batch, then the end of the stream
    let mut reader = ParquetFile::open(alltypes_plain(), None, 8).unwrap();
    let first = reader.next().unwrap().unwrap();
    assert_eq!(8, first.num_rows());
    assert!(reader.next().unwrap().is_none());
    assert!(reader.next().unwrap().is_none());
}

#[test]
fn empty_file_ends_immediately() {
    let fields = vec![Field::new("v".to_string(), DataType::Int32, false)];
    let data = ParquetData::try_new(Schema::new(fields), vec![]).unwrap();
    let mut reader = ParquetFile::open(data, None, 4).unwrap();
    assert!(reader.next().unwrap().is_none());
}

#[test]
fn zero_projection_keeps_row_count() {
    let mut reader = ParquetFile::open(alltypes_plain(), Some(vec![]), 3).unwrap();
    let first = reader.next().unwrap().unwrap();
    assert_eq!(0, first.num_columns());
    assert_eq!(3, first.num_rows());
}

#[test]
fn invalid_projection_is_rejected() {
    let r = ParquetFile::open(alltypes_plain(), Some(vec![0, 11]), 4);
    assert!(matches!(r, Err(DataFusionError::InvalidColumn(_))));
}

#[test]
fn nulls_follow_definition_levels() {
    let fields = vec![Field::new("v".to_string(), DataType::Int32, true)];
    let columns = vec![ColumnChunk::Int32 {
        values: vec![7, 9],
        def_levels: Some(vec![1, 0, 1, 0]),
    }];
    let data = ParquetData::try_new(Schema::new(fields), vec![RowGroup { columns }]).unwrap();
    let mut reader = ParquetFile::open(data, None, 16).unwrap();
    let batch = reader.next().unwrap().unwrap();
    match &batch.column(0).data {
        ColumnData::Int32(cells) => {
            assert_eq!(&vec![Some(7), None, Some(9), None], cells);
        }
        other => panic!("unexpected storage {:?}", other),
    }
    assert!(reader.next().unwrap().is_none());
}

#[test]
fn text_nulls_follow_definition_levels() {
    let fields = vec![Field::new("s".to_string(), DataType::Utf8, true)];
    let columns = vec![ColumnChunk::ByteArray {
        values: vec!["left".to_string(), "right".to_string()],
        def_levels: Some(vec![1, 0, 1]),
    }];
    let data = ParquetData::try_new(Schema::new(fields), vec![RowGroup { columns }]).unwrap();
    let mut reader = ParquetFile::open(data, None, 8).unwrap();
    let batch = reader.next().unwrap().unwrap();
    match &batch.column(0).data {
        ColumnData::Utf8(cells) => {
            assert_eq!(
                &vec![Some("left".to_string()), None, Some("right".to_string())],
                cells
            );
        }
        other => panic!("unexpected storage {:?}", other),
    }
}

#[test]
fn mismatched_chunk_is_rejected() {
    // a value buffer shorter than its definition levels promise
    let fields = vec![Field::new("v".to_string(), DataType::Int32, true)];
    let columns = vec![ColumnChunk::Int32 { values: vec![7], def_levels: Some(vec![1, 1]) }];
    let r = ParquetData::try_new(Schema::new(fields), vec![RowGroup { columns }]);
    assert!(matches!(r, Err(DataFusionError::Io(_))));
}

#[test]
fn batches_split_at_row_group_boundaries() {
    // two row groups of 3 and 2 rows with batch_size 2: batches of
    // 2, 1 (group boundary), then 2
    let fields = vec![Field::new("v".to_string(), DataType::Int32, false)];
    let g1 = RowGroup {
        columns: vec![ColumnChunk::Int32 { values: vec![1, 2, 3], def_levels: None }],
    };
    let g2 = RowGroup {
        columns: vec![ColumnChunk::Int32 { values: vec![4, 5], def_levels: None }],
    };
    let data = ParquetData::try_new(Schema::new(fields), vec![g1, g2]).unwrap();
    let mut reader = ParquetFile::open(data, None, 2).unwrap();
    let mut seen: Vec<Vec<i32>> = vec![];
    while let Some(batch) = reader.next().unwrap() {
        match &batch.column(0).data {
            ColumnData::Int32(cells) => {
                seen.push(cells.iter().map(|c| c.unwrap()).collect());
            }
            other => panic!("unexpected storage {:?}", other),
        }
    }
    assert_eq!(vec![vec![1, 2], vec![3], vec![4, 5]], seen);
}

#[test]
fn read_all_concatenates_the_file() {
    let mut reader = ParquetFile::open(alltypes_plain(), Some(vec![0]), 3).unwrap();
    let batches = reader.read_all().unwrap();
    let mut values: Vec<i32> = vec![];
    for batch in &batches {
        match &batch.column(0).data {
            ColumnData::Int32(cells) => {
                for cell in cells {
                    values.push(cell.unwrap());
                }
            }
            other => panic!("unexpected storage {:?}", other),
        }
    }
    assert_eq!(vec![4, 5, 6, 7, 2, 3, 0, 1], values);
    assert_eq!(vec![3, 3, 2], batches.iter().map(|b| b.num_rows()).collect::<Vec<usize>>());
}

#[test]
fn int96_conversion_is_exact() {
    let v = Int96 { nanos_lo: 0, nanos_hi: 0, julian_day: JULIAN_DAY_OF_EPOCH };
    assert_eq!(0, convert_int96_timestamp(v));
    let one_minute = Int96 {
        nanos_lo: (60_000_000_000u64 & 0xFFFF_FFFF) as u32,
        nanos_hi: (60_000_000_000u64 >> 32) as u32,
        julian_day: JULIAN_DAY_OF_EPOCH,
    };
    assert_eq!(60_000_000_000, convert_int96_timestamp(one_minute));
    let day_before = Int96 { nanos_lo: 0, nanos_hi: 0, julian_day: JULIAN_DAY_OF_EPOCH - 1 };
    assert_eq!(-NANOS_PER_DAY_I64, convert_int96_timestamp(day_before));
    for nanos in fixture_timestamps() {
        assert_eq!(nanos, convert_int96_timestamp(int96_of_nanos(nanos)));
    }
}

#[test]
fn table_requires_a_file() {
    let r = ParquetTable::try_new(vec![]);
    assert!(matches!(r, Err(DataFusionError::General(_))));
}
