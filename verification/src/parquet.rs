use vstd::prelude::*;
use crate::column::{
    opt_bool, opt_f32, opt_f64, opt_i32, opt_i64, opt_str, Column, ColumnData,
};
use crate::datatypes::{DataType, DateUnit, FieldV, Schema, TimeUnit};
use crate::batch::RecordBatch;
use crate::error::DataFusionError;
use crate::scalar::CellV;

verus! {

/// The Julian day number of the Unix epoch, 1970-01-01.
pub const JULIAN_DAY_OF_EPOCH: u32 = 2_440_588;

/// Nanoseconds in one day.
pub const NANOS_PER_DAY: u64 = 86_400_000_000_000;

/// A 96-bit value as the columnar file format stores legacy timestamps:
/// a nanosecond count within the day in two 32-bit halves, low half
/// first, then a Julian day number.
#[derive(Clone, Copy, Debug, PartialEq, Eq, Structural)]
pub struct Int96 {
    pub nanos_lo: u32,
    pub nanos_hi: u32,
    pub julian_day: u32,
}

impl Int96 {
    /// The nanosecond count within the day.
    pub open spec fn spec_nanos_in_day(&self) -> int {
        self.nanos_hi * 0x1_0000_0000 + self.nanos_lo
    }

    /// Nanoseconds since the Unix epoch.
    pub open spec fn spec_epoch_nanos(&self) -> int {
        (self.julian_day - JULIAN_DAY_OF_EPOCH) * 86_400_000_000_000 + self.spec_nanos_in_day()
    }

    /// The value denotes an instant that fits a signed 64-bit nanosecond
    /// count: the day lies within about 292 years of the epoch and the
    /// in-day count is below one day.
    pub open spec fn spec_in_range(&self) -> bool {
        &&& self.spec_nanos_in_day() < NANOS_PER_DAY
        &&& JULIAN_DAY_OF_EPOCH - 106_750 <= self.julian_day <= JULIAN_DAY_OF_EPOCH + 106_750
    }

    /// Runtime check of `spec_in_range`.
    pub fn in_range(&self) -> (r: bool)
        ensures
            r == self.spec_in_range(),
    {
        let nanos: u64 = (self.nanos_hi as u64) * 0x1_0000_0000u64 + (self.nanos_lo as u64);
        nanos < NANOS_PER_DAY && JULIAN_DAY_OF_EPOCH - 106_750 <= self.julian_day
            && self.julian_day <= JULIAN_DAY_OF_EPOCH + 106_750
    }
}

/// Convert a 96-bit timestamp into nanoseconds since the Unix epoch:
/// `(julian_day - epoch_day) * 86'400e9` plus the in-day count.
pub fn convert_int96_timestamp(v: Int96) -> (r: i64)
    requires
        v.spec_in_range(),
    ensures
        r == v.spec_epoch_nanos(),
{
    let day = v.julian_day as i64;
    let nanoseconds = ((v.nanos_hi as i64) * 0x1_0000_0000i64) + (v.nanos_lo as i64);
    let seconds = (day - JULIAN_DAY_OF_EPOCH as i64) * 86_400;
    seconds * 1_000_000_000 + nanoseconds
}

/// The number of strictly positive entries of a definition-level run:
/// how many rows of the run carry a value.
pub open spec fn count_pos(levels: Seq<i16>) -> nat
    decreases levels.len(),
{
    if levels.len() == 0 {
        0
    } else {
        count_pos(levels.drop_last()) + (if levels.last() > 0 {
            1nat
        } else {
            0nat
        })
    }
}

pub proof fn lemma_count_pos_take_succ(levels: Seq<i16>, i: int)
    requires
        0 <= i < levels.len(),
    ensures
        count_pos(levels.take(i + 1)) == count_pos(levels.take(i)) + (if levels[i] > 0 {
            1nat
        } else {
            0nat
        }),
{
    assert(levels.take(i + 1).drop_last() =~= levels.take(i));
    assert(levels.take(i + 1).last() == levels[i]);
}

pub proof fn lemma_count_pos_mono(levels: Seq<i16>, i: int)
    requires
        0 <= i <= levels.len(),
    ensures
        count_pos(levels.take(i)) <= count_pos(levels),
    decreases levels.len() - i,
{
    if i == levels.len() {
        assert(levels.take(i) =~= levels);
    } else {
        lemma_count_pos_take_succ(levels, i);
        lemma_count_pos_mono(levels, i + 1);
    }
}

/// Count the rows of a definition-level run that carry a value.
pub fn count_positive(levels: &Vec<i16>) -> (r: usize)
    ensures
        r == count_pos(levels@),
{
    let mut count: usize = 0;
    let mut i: usize = 0;
    while i < levels.len()
        invariant
            i <= levels@.len(),
            count <= i,
            count == count_pos(levels@.take(i as int)),
        decreases levels@.len() - i,
    {
        if levels[i] > 0 {
            count = count + 1;
        }
        proof {
            lemma_count_pos_take_succ(levels@, i as int);
        }
        i = i + 1;
    }
    proof {
        assert(levels@.take(levels@.len() as int) =~= levels@);
    }
    count
}

/// The logical cells a value run and an optional definition-level run
/// denote: without levels every row carries the next value; with levels
/// a row carries the next value exactly when its level is positive.
pub open spec fn run_cells<T>(values: Seq<T>, levels: Option<Seq<i16>>) -> Seq<Option<T>> {
    match levels {
        Some(l) => Seq::new(
            l.len(),
            |i: int|
                if l[i] > 0 {
                    Some(values[count_pos(l.take(i)) as int])
                } else {
                    None
                },
        ),
        None => values.map_values(|v: T| Some(v)),
    }
}

/// The run is consistent: with levels, there are exactly as many values
/// as rows with a positive level.
pub open spec fn run_wf<T>(values: Seq<T>, levels: Option<Seq<i16>>) -> bool {
    match levels {
        Some(l) => values.len() == count_pos(l),
        None => true,
    }
}

/// The number of rows the run denotes.
pub open spec fn run_rows<T>(values: Seq<T>, levels: Option<Seq<i16>>) -> nat {
    match levels {
        Some(l) => l.len(),
        None => values.len(),
    }
}

pub open spec fn opt_view(levels: &Option<Vec<i16>>) -> Option<Seq<i16>> {
    match levels {
        Some(l) => Some(l@),
        None => None,
    }
}

/// Read rows `[start, start + n)` of a run of copyable values.
fn read_run_copy<T: Copy>(values: &Vec<T>, levels: &Option<Vec<i16>>, start: usize, n: usize) -> (r:
    Vec<Option<T>>)
    requires
        run_wf(values@, opt_view(levels)),
        start + n <= run_rows(values@, opt_view(levels)),
    ensures
        r@ == run_cells(values@, opt_view(levels)).subrange(start as int, start + n),
{
    let mut out: Vec<Option<T>> = Vec::new();
    match levels {
        None => {
            let nvals = values.len();
            let mut k: usize = 0;
            while k < n
                invariant
                    k <= n,
                    start + n <= values@.len(),
                    values@.len() <= usize::MAX,
                    out@.len() == k as int,
                    forall|m: int| 0 <= m < k ==> out@[m] == Some(values@[start + m]),
                decreases n - k,
            {
                out.push(Some(values[start + k]));
                k = k + 1;
            }
            proof {
                assert(out@ =~= run_cells(values@, opt_view(levels)).subrange(
                    start as int,
                    start + n,
                ));
            }
        },
        Some(l) => {
            let nrows = l.len();
            let nvals = values.len();
            let mut vpos: usize = 0;
            let mut i: usize = 0;
            while i < start
                invariant
                    i <= start,
                    start <= l@.len(),
                    l@.len() <= usize::MAX,
                    vpos <= i,
                    vpos == count_pos(l@.take(i as int)),
                decreases start - i,
            {
                if l[i] > 0 {
                    vpos = vpos + 1;
                }
                proof {
                    lemma_count_pos_take_succ(l@, i as int);
                }
                i = i + 1;
            }
            let mut k: usize = 0;
            while k < n
                invariant
                    k <= n,
                    start + n <= l@.len(),
                    l@.len() <= usize::MAX,
                    values@.len() <= usize::MAX,
                    values@.len() == count_pos(l@),
                    vpos == count_pos(l@.take(start + k)),
                    out@.len() == k as int,
                    forall|m: int|
                        0 <= m < k ==> out@[m] == run_cells(values@, Some(l@))[start + m],
                decreases n - k,
            {
                proof {
                    lemma_count_pos_mono(l@, start + k + 1);
                    lemma_count_pos_take_succ(l@, start + k);
                }
                if l[start + k] > 0 {
                    out.push(Some(values[vpos]));
                    vpos = vpos + 1;
                } else {
                    out.push(None);
                }
                k = k + 1;
            }
            proof {
                assert(out@ =~= run_cells(values@, opt_view(levels)).subrange(
                    start as int,
                    start + n,
                ));
            }
        },
    }
    out
}

/// Read rows `[start, start + n)` of a run of text values.
fn read_run_str(values: &Vec<String>, levels: &Option<Vec<i16>>, start: usize, n: usize) -> (r: Vec<
    Option<String>,
>)
    requires
        run_wf(values@, opt_view(levels)),
        start + n <= run_rows(values@, opt_view(levels)),
    ensures
        r@.len() == n,
        forall|m: int|
            0 <= m < n ==> opt_str(#[trigger] r@[m]) == opt_str(
                run_cells(values@, opt_view(levels))[start + m],
            ),
{
    let mut out: Vec<Option<String>> = Vec::new();
    match levels {
        None => {
            let nvals = values.len();
            let mut k: usize = 0;
            while k < n
                invariant
                    k <= n,
                    start + n <= values@.len(),
                    values@.len() <= usize::MAX,
                    out@.len() == k as int,
                    forall|m: int|
                        0 <= m < k ==> opt_str(#[trigger] out@[m]) == opt_str(
                            Some(values@[start + m]),
                        ),
                decreases n - k,
            {
                out.push(Some(values[start + k].clone()));
                k = k + 1;
            }
        },
        Some(l) => {
            let nrows = l.len();
            let nvals = values.len();
            let mut vpos: usize = 0;
            let mut i: usize = 0;
            while i < start
                invariant
                    i <= start,
                    start <= l@.len(),
                    l@.len() <= usize::MAX,
                    vpos <= i,
                    vpos == count_pos(l@.take(i as int)),
                decreases start - i,
            {
                if l[i] > 0 {
                    vpos = vpos + 1;
                }
                proof {
                    lemma_count_pos_take_succ(l@, i as int);
                }
                i = i + 1;
            }
            let mut k: usize = 0;
            while k < n
                invariant
                    k <= n,
                    start + n <= l@.len(),
                    l@.len() <= usize::MAX,
                    values@.len() <= usize::MAX,
                    values@.len() == count_pos(l@),
                    vpos == count_pos(l@.take(start + k)),
                    out@.len() == k as int,
                    forall|m: int|
                        0 <= m < k ==> opt_str(#[trigger] out@[m]) == opt_str(
                            run_cells(values@, Some(l@))[start + m],
                        ),
                decreases n - k,
            {
                proof {
                    lemma_count_pos_mono(l@, start + k + 1);
                    lemma_count_pos_take_succ(l@, start + k);
                }
                if l[start + k] > 0 {
                    out.push(Some(values[vpos].clone()));
                    vpos = vpos + 1;
                } else {
                    out.push(None);
                }
                k = k + 1;
            }
        },
    }
    out
}


/// One column chunk of a row group, as the underlying decoder hands it
/// over: a per-physical-type value buffer, plus one definition level per
/// row when the column is nullable. A row carries a value exactly when
/// its level is positive. Text values arrive already checked as UTF-8.
#[derive(Debug)]
pub enum ColumnChunk {
    Boolean { values: Vec<bool>, def_levels: Option<Vec<i16>> },
    Int32 { values: Vec<i32>, def_levels: Option<Vec<i16>> },
    Int64 { values: Vec<i64>, def_levels: Option<Vec<i16>> },
    Int96 { values: Vec<Int96>, def_levels: Option<Vec<i16>> },
    Float { values: Vec<u32>, def_levels: Option<Vec<i16>> },
    Double { values: Vec<u64>, def_levels: Option<Vec<i16>> },
    ByteArray { values: Vec<String>, def_levels: Option<Vec<i16>> },
}

/// A 96-bit timestamp as a signed 64-bit nanosecond count.
pub open spec fn int96_to_i64(v: Int96) -> i64 {
    v.spec_epoch_nanos() as i64
}

impl ColumnChunk {
    /// The number of rows the chunk denotes.
    pub open spec fn spec_rows(&self) -> nat {
        match self {
            ColumnChunk::Boolean { values, def_levels } => run_rows(values@, opt_view(def_levels)),
            ColumnChunk::Int32 { values, def_levels } => run_rows(values@, opt_view(def_levels)),
            ColumnChunk::Int64 { values, def_levels } => run_rows(values@, opt_view(def_levels)),
            ColumnChunk::Int96 { values, def_levels } => run_rows(values@, opt_view(def_levels)),
            ColumnChunk::Float { values, def_levels } => run_rows(values@, opt_view(def_levels)),
            ColumnChunk::Double { values, def_levels } => run_rows(values@, opt_view(def_levels)),
            ColumnChunk::ByteArray { values, def_levels } => run_rows(values@, opt_view(def_levels)),
        }
    }

    /// The chunk carries definition levels.
    pub open spec fn spec_has_levels(&self) -> bool {
        match self {
            ColumnChunk::Boolean { def_levels, .. } => def_levels is Some,
            ColumnChunk::Int32 { def_levels, .. } => def_levels is Some,
            ColumnChunk::Int64 { def_levels, .. } => def_levels is Some,
            ColumnChunk::Int96 { def_levels, .. } => def_levels is Some,
            ColumnChunk::Float { def_levels, .. } => def_levels is Some,
            ColumnChunk::Double { def_levels, .. } => def_levels is Some,
            ColumnChunk::ByteArray { def_levels, .. } => def_levels is Some,
        }
    }

    /// The chunk's buffers are consistent, and 96-bit timestamps denote
    /// instants that fit a 64-bit nanosecond count.
    pub open spec fn spec_wf(&self) -> bool {
        match self {
            ColumnChunk::Boolean { values, def_levels } => run_wf(values@, opt_view(def_levels)),
            ColumnChunk::Int32 { values, def_levels } => run_wf(values@, opt_view(def_levels)),
            ColumnChunk::Int64 { values, def_levels } => run_wf(values@, opt_view(def_levels)),
            ColumnChunk::Int96 { values, def_levels } => run_wf(values@, opt_view(def_levels))
                && (forall|k: int|
                0 <= k < values@.len() ==> (#[trigger] values@[k]).spec_in_range()),
            ColumnChunk::Float { values, def_levels } => run_wf(values@, opt_view(def_levels)),
            ColumnChunk::Double { values, def_levels } => run_wf(values@, opt_view(def_levels)),
            ColumnChunk::ByteArray { values, def_levels } => run_wf(values@, opt_view(def_levels)),
        }
    }

    /// The logical cells the chunk denotes, after conversion: integer
    /// widths kept, 96-bit timestamps rebased to epoch nanoseconds,
    /// floating-point cells as bits, byte arrays as text.
    pub open spec fn spec_cells(&self) -> Seq<Option<CellV>> {
        match self {
            ColumnChunk::Boolean { values, def_levels } => run_cells(
                values@,
                opt_view(def_levels),
            ).map_values(|o: Option<bool>| opt_bool(o)),
            ColumnChunk::Int32 { values, def_levels } => run_cells(
                values@,
                opt_view(def_levels),
            ).map_values(|o: Option<i32>| opt_i32(o)),
            ColumnChunk::Int64 { values, def_levels } => run_cells(
                values@,
                opt_view(def_levels),
            ).map_values(|o: Option<i64>| opt_i64(o)),
            ColumnChunk::Int96 { values, def_levels } => run_cells(
                values@.map_values(|v: Int96| int96_to_i64(v)),
                opt_view(def_levels),
            ).map_values(|o: Option<i64>| opt_i64(o)),
            ColumnChunk::Float { values, def_levels } => run_cells(
                values@,
                opt_view(def_levels),
            ).map_values(|o: Option<u32>| opt_f32(o)),
            ColumnChunk::Double { values, def_levels } => run_cells(
                values@,
                opt_view(def_levels),
            ).map_values(|o: Option<u64>| opt_f64(o)),
            ColumnChunk::ByteArray { values, def_levels } => run_cells(
                values@,
                opt_view(def_levels),
            ).map_values(|o: Option<String>| opt_str(o)),
        }
    }

    /// The two-axis dispatch table: which logical types each physical
    /// chunk kind may decode to.
    pub open spec fn spec_fits(&self, dt: DataType) -> bool {
        match self {
            ColumnChunk::Boolean { .. } => dt == DataType::Boolean,
            ColumnChunk::Int32 { .. } => dt == DataType::Int32 || dt == DataType::Date32(
                DateUnit::Day,
            ) || dt == DataType::Time32(TimeUnit::Millisecond),
            ColumnChunk::Int64 { .. } => dt == DataType::Int64 || dt == DataType::Time64(
                TimeUnit::Microsecond,
            ) || dt == DataType::Time64(TimeUnit::Nanosecond) || dt == DataType::Timestamp(
                TimeUnit::Millisecond,
            ) || dt == DataType::Timestamp(TimeUnit::Microsecond) || dt == DataType::Timestamp(
                TimeUnit::Nanosecond,
            ),
            ColumnChunk::Int96 { .. } => dt == DataType::Timestamp(TimeUnit::Nanosecond),
            ColumnChunk::Float { .. } => dt == DataType::Float32,
            ColumnChunk::Double { .. } => dt == DataType::Float64,
            ColumnChunk::ByteArray { .. } => dt == DataType::Utf8,
        }
    }

    /// Runtime check of `spec_wf`, `spec_fits` against the field type,
    /// and agreement of levels with the field nullability and of the row
    /// count with `rows`.
    fn check(&self, dt: DataType, nullable: bool, rows: usize) -> (r: bool)
        ensures
            r == (self.spec_wf() && self.spec_fits(dt) && (self.spec_has_levels() == nullable)
                && self.spec_rows() == rows),
    {
        let fits = match self {
            ColumnChunk::Boolean { .. } => dt == DataType::Boolean,
            ColumnChunk::Int32 { .. } => dt == DataType::Int32 || dt == DataType::Date32(
                DateUnit::Day,
            ) || dt == DataType::Time32(TimeUnit::Millisecond),
            ColumnChunk::Int64 { .. } => dt == DataType::Int64 || dt == DataType::Time64(
                TimeUnit::Microsecond,
            ) || dt == DataType::Time64(TimeUnit::Nanosecond) || dt == DataType::Timestamp(
                TimeUnit::Millisecond,
            ) || dt == DataType::Timestamp(TimeUnit::Microsecond) || dt == DataType::Timestamp(
                TimeUnit::Nanosecond,
            ),
            ColumnChunk::Int96 { .. } => dt == DataType::Timestamp(TimeUnit::Nanosecond),
            ColumnChunk::Float { .. } => dt == DataType::Float32,
            ColumnChunk::Double { .. } => dt == DataType::Float64,
            ColumnChunk::ByteArray { .. } => dt == DataType::Utf8,
        };
        if !fits {
            return false;
        }
        match self {
            ColumnChunk::Boolean { values, def_levels } => check_run(
                values.len(),
                def_levels,
                nullable,
                rows,
            ),
            ColumnChunk::Int32 { values, def_levels } => check_run(
                values.len(),
                def_levels,
                nullable,
                rows,
            ),
            ColumnChunk::Int64 { values, def_levels } => check_run(
                values.len(),
                def_levels,
                nullable,
                rows,
            ),
            ColumnChunk::Int96 { values, def_levels } => check_run(
                values.len(),
                def_levels,
                nullable,
                rows,
            ) && check_int96_values(values),
            ColumnChunk::Float { values, def_levels } => check_run(
                values.len(),
                def_levels,
                nullable,
                rows,
            ),
            ColumnChunk::Double { values, def_levels } => check_run(
                values.len(),
                def_levels,
                nullable,
                rows,
            ),
            ColumnChunk::ByteArray { values, def_levels } => check_run(
                values.len(),
                def_levels,
                nullable,
                rows,
            ),
        }
    }
}

/// Runtime check that every 96-bit timestamp of a buffer is in range.
fn check_int96_values(values: &Vec<Int96>) -> (r: bool)
    ensures
        r == (forall|m: int| 0 <= m < values@.len() ==> (#[trigger] values@[m]).spec_in_range()),
{
    let mut k: usize = 0;
    while k < values.len()
        invariant
            k <= values@.len(),
            forall|m: int| 0 <= m < k ==> (#[trigger] values@[m]).spec_in_range(),
        decreases values@.len() - k,
    {
        if !values[k].in_range() {
            return false;
        }
        k = k + 1;
    }
    true
}

/// Runtime check that a run of `num_values` values with the given levels
/// is consistent, has levels exactly when `nullable`, and denotes `rows`
/// rows.
fn check_run(num_values: usize, def_levels: &Option<Vec<i16>>, nullable: bool, rows: usize) -> (r:
    bool)
    ensures
        r == ({
            &&& match opt_view(def_levels) {
                Some(l) => num_values == count_pos(l),
                None => true,
            }
            &&& (opt_view(def_levels) is Some) == nullable
            &&& (match opt_view(def_levels) {
                Some(l) => l.len(),
                None => num_values as nat,
            }) == rows
        }),
{
    match def_levels {
        Some(l) => nullable && num_values == count_positive(l) && l.len() == rows,
        None => !nullable && num_values == rows,
    }
}



impl ColumnChunk {
    /// The number of rows the chunk denotes.
    pub fn num_rows(&self) -> (r: usize)
        ensures
            r == self.spec_rows(),
    {
        match self {
            ColumnChunk::Boolean { values, def_levels } => match def_levels {
                Some(l) => l.len(),
                None => values.len(),
            },
            ColumnChunk::Int32 { values, def_levels } => match def_levels {
                Some(l) => l.len(),
                None => values.len(),
            },
            ColumnChunk::Int64 { values, def_levels } => match def_levels {
                Some(l) => l.len(),
                None => values.len(),
            },
            ColumnChunk::Int96 { values, def_levels } => match def_levels {
                Some(l) => l.len(),
                None => values.len(),
            },
            ColumnChunk::Float { values, def_levels } => match def_levels {
                Some(l) => l.len(),
                None => values.len(),
            },
            ColumnChunk::Double { values, def_levels } => match def_levels {
                Some(l) => l.len(),
                None => values.len(),
            },
            ColumnChunk::ByteArray { values, def_levels } => match def_levels {
                Some(l) => l.len(),
                None => values.len(),
            },
        }
    }
}

pub proof fn lemma_chunk_cells_len(c: &ColumnChunk)
    ensures
        c.spec_cells().len() == c.spec_rows(),
{
}

/// A contiguous horizontal chunk of the file: one column chunk per
/// schema field.
#[derive(Debug)]
pub struct RowGroup {
    pub columns: Vec<ColumnChunk>,
}

impl RowGroup {
    /// The number of rows, read off the first column chunk.
    pub open spec fn spec_rows(&self) -> nat {
        if self.columns@.len() == 0 {
            0
        } else {
            self.columns@[0].spec_rows()
        }
    }
}

/// One field's chunk is consistent with the field and the group's row
/// count.
pub open spec fn chunk_ok(f: FieldV, c: ColumnChunk, rows: nat) -> bool {
    &&& c.spec_wf()
    &&& c.spec_fits(f.data_type)
    &&& c.spec_has_levels() == f.nullable
    &&& c.spec_rows() == rows
}

/// A row group is consistent with the schema: one fitting chunk per
/// field, all with one positive row count.
pub open spec fn group_ok(schema: Seq<FieldV>, g: RowGroup) -> bool {
    &&& g.columns@.len() == schema.len()
    &&& g.spec_rows() >= 1
    &&& forall|c: int| 0 <= c < schema.len() ==> chunk_ok(schema[c], #[trigger] g.columns@[c], g.spec_rows())
}

/// Mathematical image of a decoded columnar file: the derived schema,
/// and per row group, per field, the logical cells.
pub struct PFileV {
    pub schema: Seq<FieldV>,
    pub groups: Seq<Seq<Seq<Option<CellV>>>>,
}

/// The image is coherent: at least one field, per group one cell run
/// per field, all of the group's positive row count.
pub open spec fn file_view_wf(fv: PFileV) -> bool {
    &&& fv.schema.len() >= 1
    &&& forall|g: int|
        0 <= g < fv.groups.len() ==> (#[trigger] fv.groups[g]).len() == fv.schema.len()
            && fv.groups[g][0].len() >= 1 && (forall|c: int|
            0 <= c < fv.groups[g].len() ==> (#[trigger] fv.groups[g][c]).len()
                == fv.groups[g][0].len())
}

/// A decoded columnar file: a schema derived from the file metadata and
/// the decoded row groups. Consistency is a type invariant: every value
/// of this type satisfies it.
#[derive(Debug)]
pub struct ParquetData {
    schema: Schema,
    row_groups: Vec<RowGroup>,
}

impl View for ParquetData {
    type V = PFileV;

    closed spec fn view(&self) -> PFileV {
        PFileV {
            schema: self.schema@,
            groups: self.row_groups@.map_values(
                |g: RowGroup| g.columns@.map_values(|c: ColumnChunk| c.spec_cells()),
            ),
        }
    }
}

impl ParquetData {
    #[verifier::type_invariant]
    closed spec fn inv(&self) -> bool {
        &&& self.schema@.len() >= 1
        &&& forall|g: int|
            0 <= g < self.row_groups@.len() ==> group_ok(self.schema@, #[trigger] self.row_groups@[g])
    }

    /// Build a decoded file from a schema and row groups, validating
    /// their consistency.
    ///
    /// Fails with an `Io` error exactly when the schema is empty, some
    /// group's chunk count differs from the field count, a group is
    /// empty, or some chunk does not fit its field.
    pub fn try_new(schema: Schema, row_groups: Vec<RowGroup>) -> (r: Result<
        ParquetData,
        DataFusionError,
    >)
        ensures
            (r is Ok) <==> (schema@.len() >= 1 && forall|g: int|
                0 <= g < row_groups@.len() ==> group_ok(schema@, #[trigger] row_groups@[g])),
            r matches Ok(d) ==> d@ == (PFileV {
                schema: schema@,
                groups: row_groups@.map_values(
                    |g: RowGroup| g.columns@.map_values(|c: ColumnChunk| c.spec_cells()),
                ),
            }) && file_view_wf(d@),
            r matches Err(e) ==> e is Io,
    {
        if schema.num_fields() == 0 {
            return Err(DataFusionError::Io("file has no columns".to_owned()));
        }
        let mut g: usize = 0;
        while g < row_groups.len()
            invariant
                g <= row_groups@.len(),
                schema@.len() >= 1,
                forall|j: int| 0 <= j < g ==> group_ok(schema@, #[trigger] row_groups@[j]),
            decreases row_groups@.len() - g,
        {
            let group = &row_groups[g];
            if group.columns.len() != schema.num_fields() {
                return Err(DataFusionError::Io("row group has wrong column count".to_owned()));
            }
            let rows = group.columns[0].num_rows();
            if rows == 0 {
                return Err(DataFusionError::Io("row group has no rows".to_owned()));
            }
            let mut c: usize = 0;
            while c < group.columns.len()
                invariant
                    c <= group.columns@.len(),
                    g < row_groups@.len(),
                    *group == row_groups@[g as int],
                    group.columns@.len() == schema@.len(),
                    rows == group.spec_rows(),
                    rows >= 1,
                    forall|j: int|
                        0 <= j < c ==> chunk_ok(
                            schema@[j],
                            #[trigger] group.columns@[j],
                            group.spec_rows(),
                        ),
                decreases group.columns@.len() - c,
            {
                let f = schema.field(c);
                if !group.columns[c].check(f.data_type(), f.is_nullable(), rows) {
                    return Err(DataFusionError::Io("column chunk does not fit its field".to_owned()));
                }
                c = c + 1;
            }
            g = g + 1;
        }
        let d = ParquetData { schema, row_groups };
        proof {
            use_type_invariant(&d);
            d.lemma_view_wf();
        }
        Ok(d)
    }

    /// From the type invariant: the image is coherent and uniform.
    proof fn lemma_view_wf(&self)
        requires
            self.inv(),
        ensures
            file_view_wf(self@),
            groups_uniform(self@.groups, self@.schema.len() as int),
    {
        assert forall|gi: int| 0 <= gi < self@.groups.len() implies (#[trigger] self@.groups[gi]).len()
            == self@.schema.len() && self@.groups[gi][0].len() >= 1 && (forall|c: int|
            0 <= c < self@.groups[gi].len() ==> (#[trigger] self@.groups[gi][c]).len()
                == self@.groups[gi][0].len()) by {
            let grp = self.row_groups@[gi];
            assert(group_ok(self.schema@, grp));
            assert forall|c: int| 0 <= c < self@.groups[gi].len() implies (
            #[trigger] self@.groups[gi][c]).len() == self@.groups[gi][0].len() by {
                assert(chunk_ok(self.schema@[c], grp.columns@[c], grp.spec_rows()));
                lemma_chunk_cells_len(&grp.columns@[c]);
                lemma_chunk_cells_len(&grp.columns@[0]);
            }
        }
        assert forall|gi: int| 0 <= gi < self@.groups.len() implies (#[trigger] self@.groups[gi]).len()
            == self@.schema.len() as int && (forall|c: int|
            0 <= c < self@.schema.len() as int ==> (#[trigger] self@.groups[gi][c]).len()
                == self@.groups[gi][0].len()) by {
        }
    }

    /// The schema derived from the file.
    pub fn schema(&self) -> (r: &Schema)
        ensures
            r@ == self@.schema,
    {
        &self.schema
    }

    /// The number of row groups.
    pub fn num_row_groups(&self) -> (r: usize)
        ensures
            r == self@.groups.len(),
            file_view_wf(self@),
    {
        proof {
            use_type_invariant(self);
            self.lemma_view_wf();
        }
        self.row_groups.len()
    }

    /// The number of rows of row group `g`.
    pub fn group_num_rows(&self, g: usize) -> (r: usize)
        requires
            g < self@.groups.len(),
        ensures
            r == self@.groups[g as int][0].len(),
            r >= 1,
    {
        proof {
            use_type_invariant(self);
            assert(group_ok(self.schema@, self.row_groups@[g as int]));
            assert(chunk_ok(
                self.schema@[0],
                self.row_groups@[g as int].columns@[0],
                self.row_groups@[g as int].spec_rows(),
            ));
            lemma_chunk_cells_len(&self.row_groups@[g as int].columns@[0]);
        }
        self.row_groups[g].columns[0].num_rows()
    }
}



/// Column `c` of the whole file: the concatenation, in row-group order,
/// of each group's cells for that column.
pub open spec fn col_of_groups(groups: Seq<Seq<Seq<Option<CellV>>>>, c: int) -> Seq<Option<CellV>>
    decreases groups.len(),
{
    if groups.len() == 0 {
        Seq::empty()
    } else {
        groups.first()[c] + col_of_groups(groups.drop_first(), c)
    }
}

/// The number of rows of the groups before group `g`.
pub open spec fn rows_before_group(groups: Seq<Seq<Seq<Option<CellV>>>>, g: int) -> nat
    decreases g,
{
    if g <= 0 || groups.len() == 0 {
        0
    } else {
        groups.first()[0].len() + rows_before_group(groups.drop_first(), g - 1)
    }
}

/// The number of rows of the whole file.
pub open spec fn total_file_rows(groups: Seq<Seq<Seq<Option<CellV>>>>) -> nat {
    rows_before_group(groups, groups.len() as int)
}

/// Per group, one cell run per column, all of one length.
pub open spec fn groups_uniform(groups: Seq<Seq<Seq<Option<CellV>>>>, ncols: int) -> bool {
    forall|g: int|
        0 <= g < groups.len() ==> (#[trigger] groups[g]).len() == ncols && (forall|c: int|
            0 <= c < ncols ==> (#[trigger] groups[g][c]).len() == groups[g][0].len())
}

pub proof fn lemma_rows_before_succ(groups: Seq<Seq<Seq<Option<CellV>>>>, g: int)
    requires
        0 <= g < groups.len(),
    ensures
        rows_before_group(groups, g + 1) == rows_before_group(groups, g) + groups[g][0].len(),
    decreases g,
{
    let tail = groups.drop_first();
    if g == 0 {
        assert(rows_before_group(groups, 1) == groups.first()[0].len() + rows_before_group(
            tail,
            0,
        ));
        assert(rows_before_group(tail, 0) == 0);
        assert(groups.first() == groups[0]);
    } else {
        lemma_rows_before_succ(tail, g - 1);
        assert(tail[g - 1] == groups[g]);
        assert(rows_before_group(groups, g + 1) == groups.first()[0].len() + rows_before_group(
            tail,
            g,
        ));
        assert(rows_before_group(groups, g) == groups.first()[0].len() + rows_before_group(
            tail,
            g - 1,
        ));
    }
}

pub proof fn lemma_rows_before_monotone(groups: Seq<Seq<Seq<Option<CellV>>>>, a: int, b: int)
    requires
        0 <= a <= b <= groups.len(),
    ensures
        rows_before_group(groups, a) <= rows_before_group(groups, b),
    decreases b - a,
{
    if a < b {
        lemma_rows_before_succ(groups, a);
        lemma_rows_before_monotone(groups, a + 1, b);
    }
}

pub proof fn lemma_rows_before_le_total(groups: Seq<Seq<Seq<Option<CellV>>>>, g: int)
    requires
        0 <= g <= groups.len(),
    ensures
        rows_before_group(groups, g) <= total_file_rows(groups),
    decreases groups.len() - g,
{
    if g < groups.len() {
        lemma_rows_before_succ(groups, g);
        lemma_rows_before_le_total(groups, g + 1);
    }
}

pub proof fn lemma_col_of_groups_len(groups: Seq<Seq<Seq<Option<CellV>>>>, ncols: int, c: int)
    requires
        groups_uniform(groups, ncols),
        0 <= c < ncols,
    ensures
        col_of_groups(groups, c).len() == total_file_rows(groups),
    decreases groups.len(),
{
    if groups.len() > 0 {
        let tail = groups.drop_first();
        assert(groups_uniform(tail, ncols)) by {
            assert forall|g: int| 0 <= g < tail.len() implies (#[trigger] tail[g]).len() == ncols
                && (forall|c2: int|
                0 <= c2 < ncols ==> (#[trigger] tail[g][c2]).len() == tail[g][0].len()) by {
                assert(tail[g] == groups[g + 1]);
            }
        }
        lemma_col_of_groups_len(tail, ncols, c);
        lemma_rows_before_succ_shift(groups, groups.len() as int);
    }
}

/// `rows_before_group` over the whole sequence steps through the first
/// group then the tail.
pub proof fn lemma_rows_before_succ_shift(groups: Seq<Seq<Seq<Option<CellV>>>>, g: int)
    requires
        1 <= g <= groups.len(),
    ensures
        rows_before_group(groups, g) == groups.first()[0].len() + rows_before_group(
            groups.drop_first(),
            g - 1,
        ),
{
}

/// A slice of one group's column, read at the matching global offset of
/// the whole file's column.
pub proof fn lemma_group_slice(
    groups: Seq<Seq<Seq<Option<CellV>>>>,
    ncols: int,
    c: int,
    g: int,
    a: int,
    b: int,
)
    requires
        groups_uniform(groups, ncols),
        0 <= c < ncols,
        0 <= g < groups.len(),
        0 <= a <= b <= groups[g][0].len(),
    ensures
        col_of_groups(groups, c).subrange(
            rows_before_group(groups, g) + a,
            rows_before_group(groups, g) + b,
        ) == groups[g][c].subrange(a, b),
    decreases g,
{
    lemma_col_of_groups_len(groups, ncols, c);
    lemma_rows_before_succ(groups, g);
    lemma_rows_before_le_total(groups, g + 1);
    let tail = groups.drop_first();
    assert(groups_uniform(tail, ncols)) by {
        assert forall|g2: int| 0 <= g2 < tail.len() implies (#[trigger] tail[g2]).len() == ncols
            && (forall|c2: int|
            0 <= c2 < ncols ==> (#[trigger] tail[g2][c2]).len() == tail[g2][0].len()) by {
            assert(tail[g2] == groups[g2 + 1]);
        }
    }
    if g == 0 {
        assert(col_of_groups(groups, c).subrange(a, b) =~= groups[0][c].subrange(a, b)) by {
            lemma_col_of_groups_len(tail, ncols, c);
        }
    } else {
        lemma_group_slice(tail, ncols, c, g - 1, a, b);
        lemma_col_of_groups_len(tail, ncols, c);
        lemma_rows_before_succ_shift(groups, g);
        assert(tail[g - 1] == groups[g]);
        let o = rows_before_group(groups, g);
        let o2 = rows_before_group(tail, g - 1);
        assert(col_of_groups(groups, c).subrange(o + a, o + b) =~= col_of_groups(
            tail,
            c,
        ).subrange(o2 + a, o2 + b)) by {
            lemma_rows_before_le_total(tail, g);
            lemma_rows_before_succ(tail, g - 1);
        }
    }
}



/// Where a cell run has a value, relate it to the backing buffer, and
/// to the run over a rebased buffer.
pub proof fn lemma_run_cell_source(values: Seq<Int96>, levels: Option<Seq<i16>>, i: int)
    requires
        run_wf(values, levels),
        0 <= i < run_rows(values, levels),
    ensures
        ({
            let mapped = values.map_values(|v: Int96| int96_to_i64(v));
            match run_cells(values, levels)[i] {
                Some(v) => run_cells(mapped, levels)[i] == Some(int96_to_i64(v)) && (exists|k: int|
                    0 <= k < values.len() && values[k] == v),
                None => run_cells(mapped, levels)[i] is None,
            }
        }),
{
    let mapped = values.map_values(|v: Int96| int96_to_i64(v));
    match levels {
        Some(l) => {
            if l[i] > 0 {
                lemma_count_pos_take_succ(l, i);
                lemma_count_pos_mono(l, i + 1);
                let k = count_pos(l.take(i)) as int;
                assert(0 <= k < values.len());
                assert(run_cells(values, levels)[i] == Some(values[k]));
                assert(run_cells(mapped, levels)[i] == Some(mapped[k]));
            }
        },
        None => {
            assert(run_cells(values, levels)[i] == Some(values[i]));
            assert(run_cells(mapped, levels)[i] == Some(mapped[i]));
        },
    }
}

impl ParquetData {
    /// Decode rows `[start, start + n)` of column `c` of row group `g`
    /// into a typed column: the two-axis dispatch over the physical
    /// buffer kind and the field's logical type.
    pub fn decode(&self, g: usize, c: usize, start: usize, n: usize) -> (r: Column)
        requires
            g < self@.groups.len(),
            c < self@.schema.len(),
            start + n <= self@.groups[g as int][0].len(),
        ensures
            r.wf(),
            r.data_type == self@.schema[c as int].data_type,
            r@ == self@.groups[g as int][c as int].subrange(start as int, start + n),
            r@.len() == n,
    {
        proof {
            use_type_invariant(self);
            assert(group_ok(self.schema@, self.row_groups@[g as int]));
            assert(chunk_ok(
                self.schema@[c as int],
                self.row_groups@[g as int].columns@[c as int],
                self.row_groups@[g as int].spec_rows(),
            ));
            lemma_chunk_cells_len(&self.row_groups@[g as int].columns@[c as int]);
            lemma_chunk_cells_len(&self.row_groups@[g as int].columns@[0]);
            assert(chunk_ok(
                self.schema@[0],
                self.row_groups@[g as int].columns@[0],
                self.row_groups@[g as int].spec_rows(),
            ));
            assert(self@.groups[g as int][c as int] == self.row_groups@[g as int].columns@[
                c as int
            ].spec_cells());
        }
        let dt = self.schema.field(c).data_type();
        let chunk = &self.row_groups[g].columns[c];
        let ghost target = self@.groups[g as int][c as int].subrange(start as int, start + n);
        let r = match chunk {
            ColumnChunk::Boolean { values, def_levels } => {
                let cells = read_run_copy(values, def_levels, start, n);
                Column { data_type: dt, data: ColumnData::Boolean(cells) }
            },
            ColumnChunk::Int32 { values, def_levels } => {
                let cells = read_run_copy(values, def_levels, start, n);
                Column { data_type: dt, data: ColumnData::Int32(cells) }
            },
            ColumnChunk::Int64 { values, def_levels } => {
                let cells = read_run_copy(values, def_levels, start, n);
                Column { data_type: dt, data: ColumnData::Int64(cells) }
            },
            ColumnChunk::Int96 { values, def_levels } => {
                let cells96 = read_run_copy(values, def_levels, start, n);
                let ghost mapped = values@.map_values(|v: Int96| int96_to_i64(v));
                let mut out: Vec<Option<i64>> = Vec::new();
                let mut m: usize = 0;
                while m < cells96.len()
                    invariant
                        m <= cells96@.len(),
                        cells96@.len() == n,
                        start + n <= run_rows(values@, opt_view(def_levels)),
                        run_wf(values@, opt_view(def_levels)),
                        forall|k: int|
                            0 <= k < values@.len() ==> (#[trigger] values@[k]).spec_in_range(),
                        cells96@ == run_cells(values@, opt_view(def_levels)).subrange(
                            start as int,
                            start + n,
                        ),
                        mapped == values@.map_values(|v: Int96| int96_to_i64(v)),
                        out@.len() == m as int,
                        forall|i: int|
                            0 <= i < m ==> out@[i] == run_cells(mapped, opt_view(def_levels))[start
                                + i],
                    decreases cells96@.len() - m,
                {
                    proof {
                        lemma_run_cell_source(values@, opt_view(def_levels), start + m);
                    }
                    match cells96[m] {
                        Some(v) => {
                            proof {
                                let k = choose|k: int|
                                    0 <= k < values@.len() && values@[k] == v;
                                assert(values@[k].spec_in_range());
                            }
                            out.push(Some(convert_int96_timestamp(v)));
                        },
                        None => {
                            out.push(None);
                        },
                    }
                    m = m + 1;
                }
                Column { data_type: dt, data: ColumnData::Int64(out) }
            },
            ColumnChunk::Float { values, def_levels } => {
                let cells = read_run_copy(values, def_levels, start, n);
                Column { data_type: dt, data: ColumnData::Float32(cells) }
            },
            ColumnChunk::Double { values, def_levels } => {
                let cells = read_run_copy(values, def_levels, start, n);
                Column { data_type: dt, data: ColumnData::Float64(cells) }
            },
            ColumnChunk::ByteArray { values, def_levels } => {
                let cells = read_run_str(values, def_levels, start, n);
                Column { data_type: dt, data: ColumnData::Utf8(cells) }
            },
        };
        proof {
            assert(r@ =~= target);
        }
        r
    }
}



/// A batch reader over a decoded columnar file: a row-group cursor, a
/// projection, and a batch size. Created by `open`; driven by `next`.
#[derive(Debug)]
pub struct ParquetFile {
    data: ParquetData,
    projection: Vec<usize>,
    projection_schema: Schema,
    batch_size: usize,
    row_group_index: usize,
    current_row_group: Option<usize>,
    row_pos: usize,
}

impl ParquetFile {
    /// The reader's internal consistency.
    pub closed spec fn wf(&self) -> bool {
        &&& self.batch_size >= 1
        &&& forall|j: int|
            0 <= j < self.projection@.len() ==> (#[trigger] self.projection@[j]) < self.data@.schema.len()
        &&& self.projection_schema@ == self.projection@.map_values(
            |i: usize| self.data@.schema[i as int],
        )
        &&& self.row_group_index <= self.data@.groups.len()
        &&& match self.current_row_group {
            Some(g) => g < self.data@.groups.len() && self.row_group_index == g + 1
                && self.row_pos <= self.data@.groups[g as int][0].len(),
            None => self.row_group_index == 0 && self.row_pos == 0,
        }
    }

    /// The image of the decoded file.
    pub closed spec fn spec_file(&self) -> PFileV {
        self.data@
    }

    /// The projection: one file column index per output column.
    pub closed spec fn spec_projection(&self) -> Seq<usize> {
        self.projection@
    }

    /// The projected schema every batch carries.
    pub closed spec fn spec_schema(&self) -> Seq<FieldV> {
        self.projection_schema@
    }

    /// The batch size.
    pub closed spec fn spec_batch_size(&self) -> nat {
        self.batch_size as nat
    }

    /// Output column `j` over the whole file, in row-group order.
    pub closed spec fn spec_col(&self, j: int) -> Seq<Option<CellV>> {
        col_of_groups(self.data@.groups, self.projection@[j] as int)
    }

    /// The number of the file's rows already handed out.
    pub closed spec fn spec_consumed(&self) -> nat {
        match self.current_row_group {
            Some(g) => (rows_before_group(self.data@.groups, g as int) + self.row_pos) as nat,
            None => 0,
        }
    }

    /// The number of the file's rows in all.
    pub closed spec fn spec_total_rows(&self) -> nat {
        total_file_rows(self.data@.groups)
    }

    /// How many rows the next pull can take without crossing a
    /// row-group boundary: zero exactly at the end of the stream.
    pub closed spec fn spec_group_remaining(&self) -> nat {
        match self.current_row_group {
            Some(g) => if self.row_pos < self.data@.groups[g as int][0].len() {
                (self.data@.groups[g as int][0].len() - self.row_pos) as nat
            } else if g + 1 < self.data@.groups.len() {
                self.data@.groups[g + 1][0].len()
            } else {
                0
            },
            None => if self.data@.groups.len() > 0 {
                self.data@.groups[0][0].len()
            } else {
                0
            },
        }
    }

    /// The reader's configuration: everything `next` leaves unchanged.
    pub open spec fn spec_same_config(&self, other: &Self) -> bool {
        &&& self.spec_file() == other.spec_file()
        &&& self.spec_projection() == other.spec_projection()
        &&& self.spec_schema() == other.spec_schema()
        &&& self.spec_batch_size() == other.spec_batch_size()
    }

    /// Definitional bridges from the reader's abstract state to the
    /// decoded file's image: what the reading contracts mean in terms
    /// of `spec_file` and `spec_projection`, and how the producer
    /// trait's abstract state maps onto the reader's.
    pub proof fn lemma_reader_model(&self)
        ensures
            forall|j: int|
                0 <= j < self.spec_projection().len() ==> #[trigger] self.spec_col(j)
                    == col_of_groups(
                    self.spec_file().groups,
                    self.spec_projection()[j] as int,
                ),
            self.spec_total_rows() == total_file_rows(self.spec_file().groups),
            crate::producer::BatchProducer::spec_schema(self) == self.spec_schema(),
            crate::producer::BatchProducer::inv(self) == self.wf(),
            crate::producer::BatchProducer::remaining(self) == (if self.spec_consumed()
                <= self.spec_total_rows() {
                (self.spec_total_rows() - self.spec_consumed()) as nat
            } else {
                0nat
            }),
    {
    }

    /// Exhaustion in one step: under the reader's invariant over a
    /// coherent file, the next pull can take no row exactly when every
    /// row has been handed out.
    pub proof fn lemma_end_of_stream(&self)
        requires
            self.wf(),
            file_view_wf(self.spec_file()),
        ensures
            (self.spec_group_remaining() == 0) <==> (self.spec_consumed()
                == self.spec_total_rows()),
    {
        let groups = self.data@.groups;
        match self.current_row_group {
            Some(g) => {
                lemma_rows_before_succ(groups, g as int);
                lemma_rows_before_le_total(groups, g + 1);
                if self.row_pos < groups[g as int][0].len() {
                } else if g + 1 < groups.len() {
                    lemma_rows_before_succ(groups, g + 1);
                    lemma_rows_before_le_total(groups, g + 2);
                    assert(groups[g + 1][0].len() >= 1);
                } else {
                }
            },
            None => {
                if groups.len() > 0 {
                    lemma_rows_before_succ(groups, 0);
                    lemma_rows_before_le_total(groups, 1);
                    assert(groups[0][0].len() >= 1);
                }
            },
        }
    }

    /// A fresh reader's reach: before anything is consumed, the next
    /// pull draws on the first row group, whole.
    pub proof fn lemma_fresh_reader_remaining(&self)
        requires
            self.wf(),
            file_view_wf(self.spec_file()),
            self.spec_consumed() == 0,
        ensures
            self.spec_group_remaining() == (if self.spec_file().groups.len() > 0 {
                self.spec_file().groups[0][0].len()
            } else {
                0nat
            }),
    {
        let groups = self.data@.groups;
        match self.current_row_group {
            Some(g) => {
                if g >= 1 {
                    lemma_rows_before_succ(groups, 0);
                    lemma_rows_before_monotone(groups, 1, g as int);
                    assert(rows_before_group(groups, g as int) >= groups[0][0].len());
                    assert(false);
                }
                assert(self.row_pos == 0);
                assert(self.row_pos < groups[0][0].len());
            },
            None => {},
        }
    }

    /// Open a reader over a decoded file with an optional projection,
    /// normalized to all columns when absent, and a batch size. A batch
    /// size of zero is excluded up front: with it the stream could
    /// never make progress, so an exhausted stream and an unread one
    /// would be indistinguishable.
    ///
    /// Fails with `InvalidColumn` exactly when some projection index is
    /// out of range.
    pub fn open(data: ParquetData, projection: Option<Vec<usize>>, batch_size: usize) -> (r: Result<
        ParquetFile,
        DataFusionError,
    >)
        requires
            batch_size >= 1,
        ensures
            (r is Ok) <==> (match projection {
                Some(p) => forall|j: int| 0 <= j < p@.len() ==> (#[trigger] p@[j]) < data@.schema.len(),
                None => true,
            }),
            r matches Ok(f) ==> f.wf() && crate::producer::BatchProducer::inv(&f)
                && f.spec_file() == data@ && f.spec_consumed() == 0
                && f.spec_batch_size() == batch_size && f.spec_projection() == (match projection {
                Some(p) => p@,
                None => Seq::new(data@.schema.len(), |i: int| i as usize),
            }) && f.spec_schema() == f.spec_projection().map_values(
                |i: usize| data@.schema[i as int],
            ),
            r matches Err(e) ==> e is InvalidColumn,
    {
        let n_fields = data.schema().num_fields();
        let proj: Vec<usize> = match projection {
            Some(p) => p,
            None => {
                let mut p: Vec<usize> = Vec::new();
                let mut i: usize = 0;
                while i < n_fields
                    invariant
                        i <= n_fields,
                        p@.len() == i as int,
                        forall|j: int| 0 <= j < i ==> p@[j] == j,
                    decreases n_fields - i,
                {
                    p.push(i);
                    i = i + 1;
                }
                proof {
                    assert(p@ =~= Seq::new(data@.schema.len(), |i: int| i as usize));
                }
                p
            },
        };
        let projected = match crate::datatypes::schema_projection(data.schema(), &proj) {
            Ok(s) => s,
            Err(e) => {
                return Err(e);
            },
        };
        let f = ParquetFile {
            data,
            projection: proj,
            projection_schema: projected,
            batch_size,
            row_group_index: 0,
            current_row_group: None,
            row_pos: 0,
        };
        Ok(f)
    }

    /// Advance the cursor to the next row group and reset the row
    /// position; per-column read state starts over with each group.
    fn load_next_row_group(&mut self)
        requires
            old(self).wf(),
            old(self).row_group_index < old(self).data@.groups.len(),
            match old(self).current_row_group {
                Some(g) => old(self).row_pos == old(self).data@.groups[g as int][0].len(),
                None => true,
            },
        ensures
            final(self).wf(),
            final(self).spec_same_config(old(self)),
            final(self).current_row_group == Some(old(self).row_group_index),
            final(self).row_pos == 0,
            final(self).spec_consumed() == old(self).spec_consumed(),
    {
        let num = self.data.num_row_groups();
        proof {
            match self.current_row_group {
                Some(g) => {
                    lemma_rows_before_succ(self.data@.groups, g as int);
                },
                None => {},
            }
        }
        self.current_row_group = Some(self.row_group_index);
        self.row_pos = 0;
        self.row_group_index = self.row_group_index + 1;
    }

    /// Decode one batch of up to `batch_size` rows from the loaded row
    /// group; `None` when no row group is loaded or it is exhausted.
    fn load_batch(&mut self) -> (r: Result<Option<RecordBatch>, DataFusionError>)
        requires
            old(self).wf(),
        ensures
            final(self).wf(),
            final(self).spec_same_config(old(self)),
            final(self).current_row_group == old(self).current_row_group,
            r is Ok,
            ({
                let more = match old(self).current_row_group {
                    Some(g) => old(self).row_pos < old(self).data@.groups[g as int][0].len(),
                    None => false,
                };
                if more {
                    r matches Ok(Some(b)) && b@.schema == old(self).spec_schema()
                        && b@.columns.len() == old(self).spec_projection().len() && 1 <= b@.num_rows
                        && b@.num_rows <= old(self).spec_batch_size() && b@.num_rows == (if old(
                        self,
                    ).spec_batch_size() <= old(self).spec_group_remaining() {
                        old(self).spec_batch_size()
                    } else {
                        old(self).spec_group_remaining()
                    }) && final(self).spec_consumed() == old(self).spec_consumed() + b@.num_rows
                        && (forall|j: int|
                        0 <= j < old(self).spec_projection().len()
                            ==> #[trigger] b@.columns[j] == old(self).spec_col(j).subrange(
                            old(self).spec_consumed() as int,
                            old(self).spec_consumed() + b@.num_rows as int,
                        ))
                } else {
                    r matches Ok(None) && final(self).spec_consumed() == old(self).spec_consumed()
                        && final(self).row_pos == old(self).row_pos
                }
            }),
    {
        let g = match self.current_row_group {
            Some(g) => g,
            None => {
                return Ok(None);
            },
        };
        proof {
            use_type_invariant(&self.data);
        }
        let rows = self.data.group_num_rows(g);
        if self.row_pos >= rows {
            return Ok(None);
        }
        let avail = rows - self.row_pos;
        let n = if self.batch_size <= avail {
            self.batch_size
        } else {
            avail
        };
        let ghost fv = self.data@;
        let ghost start = self.row_pos as int;
        let mut cols: Vec<Column> = Vec::new();
        let mut j: usize = 0;
        while j < self.projection.len()
            invariant
                j <= self.projection@.len(),
                self.wf(),
                self.current_row_group == Some(g),
                g < self.data@.groups.len(),
                start == self.row_pos as int,
                n >= 1,
                start + n <= self.data@.groups[g as int][0].len(),
                cols@.len() == j as int,
                forall|m: int|
                    0 <= m < j ==> (#[trigger] cols@[m]).wf() && cols@[m].data_type
                        == self.spec_schema()[m].data_type && cols@[m]@ == self.data@.groups[
                        g as int
                    ][self.projection@[m] as int].subrange(start, start + n) && cols@[m]@.len()
                        == n,
            decreases self.projection@.len() - j,
        {
            let col = self.data.decode(g, self.projection[j], self.row_pos, n);
            cols.push(col);
            j = j + 1;
        }
        let batch = match RecordBatch::try_new_with_row_count(
            self.projection_schema.clone(),
            cols,
            n,
        ) {
            Ok(b) => b,
            Err(_) => {
                proof {
                    assert(false);
                }
                return Ok(None);
            },
        };
        proof {
            let groups = self.data@.groups;
            let ncols = self.data@.schema.len() as int;
            use_type_invariant(&self.data);
        }
        let ghost old_consumed = old(self).spec_consumed() as int;
        proof {
            assert forall|m: int| 0 <= m < self.spec_projection().len()
                implies #[trigger] batch@.columns[m] == self.spec_col(m).subrange(
                old_consumed,
                old_consumed + n,
            ) by {
                lemma_group_slice(
                    self.data@.groups,
                    self.data@.schema.len() as int,
                    self.projection@[m] as int,
                    g as int,
                    start,
                    start + n,
                );
            }
        }
        self.row_pos = self.row_pos + n;
        Ok(Some(batch))
    }
}



impl crate::producer::BatchProducer for ParquetFile {
    closed spec fn inv(&self) -> bool {
        self.wf()
    }

    closed spec fn remaining(&self) -> nat {
        if self.spec_consumed() <= self.spec_total_rows() {
            (self.spec_total_rows() - self.spec_consumed()) as nat
        } else {
            0
        }
    }

    closed spec fn spec_schema(&self) -> Seq<FieldV> {
        self.projection_schema@
    }

    fn schema(&self) -> (r: &Schema)
        ensures
            r@ == ParquetFile::spec_schema(self),
    {
        &self.projection_schema
    }

    /// Produce the next batch: ensure a row group is loaded, read up to
    /// `batch_size` rows; at a group boundary advance the cursor and
    /// retry once; `None` exactly when the file is exhausted.
    fn next(&mut self) -> (r: Result<Option<RecordBatch>, DataFusionError>)
        ensures
            final(self).wf(),
            final(self).spec_same_config(old(self)),
            r is Ok,
            final(self).spec_consumed() <= final(self).spec_total_rows(),
            (r matches Ok(None)) ==> old(self).spec_consumed() == old(self).spec_total_rows()
                && final(self).spec_consumed() == old(self).spec_consumed(),
            r matches Ok(Some(b)) ==> b@.schema == ParquetFile::spec_schema(old(self))
                && b@.columns.len() == old(self).spec_projection().len() && 1 <= b@.num_rows
                && b@.num_rows <= old(self).spec_batch_size() && b@.num_rows == (if old(
                self,
            ).spec_batch_size() <= old(self).spec_group_remaining() {
                old(self).spec_batch_size()
            } else {
                old(self).spec_group_remaining()
            }) && final(self).spec_consumed() == old(self).spec_consumed() + b@.num_rows && (forall|
                j: int,
            |
                0 <= j < old(self).spec_projection().len() ==> #[trigger] b@.columns[j] == old(
                    self,
                ).spec_col(j).subrange(
                    old(self).spec_consumed() as int,
                    old(self).spec_consumed() + b@.num_rows as int,
                )),
    {
        let num = self.data.num_row_groups();
        proof {
            match self.current_row_group {
                Some(g) => {
                    lemma_rows_before_succ(self.data@.groups, g as int);
                    lemma_rows_before_le_total(self.data@.groups, g + 1);
                },
                None => {},
            }
        }
        let r = if self.current_row_group.is_none() {
            if self.row_group_index < num {
                self.load_next_row_group();
                self.load_batch()
            } else {
                Ok(None)
            }
        } else {
            match self.load_batch() {
                Ok(Some(b)) => Ok(Some(b)),
                Ok(None) => {
                    if self.row_group_index < num {
                        self.load_next_row_group();
                        self.load_batch()
                    } else {
                        Ok(None)
                    }
                },
                Err(e) => Err(e),
            }
        };
        proof {
            match self.current_row_group {
                Some(g) => {
                    lemma_rows_before_succ(self.data@.groups, g as int);
                    lemma_rows_before_le_total(self.data@.groups, g + 1);
                },
                None => {},
            }
        }
        r
    }
}

/// Concatenation, first to last, of column `j` of a run of batches.
pub open spec fn concat_batch_col(batches: Seq<crate::batch::BatchV>, j: int) -> Seq<Option<CellV>>
    decreases batches.len(),
{
    if batches.len() == 0 {
        Seq::empty()
    } else {
        concat_batch_col(batches.drop_last(), j) + batches.last().columns[j]
    }
}

impl ParquetFile {
    /// Drain the reader: pull batches until the end of the stream.
    ///
    /// Column for column, the concatenation of the returned batches is
    /// exactly the file's logical rows under the projection, in
    /// row-group order.
    pub fn read_all(&mut self) -> (r: Result<Vec<RecordBatch>, DataFusionError>)
        requires
            old(self).wf(),
            old(self).spec_consumed() == 0,
        ensures
            final(self).wf(),
            final(self).spec_same_config(old(self)),
            r is Ok,
            r matches Ok(v) ==> (forall|j: int|
                0 <= j < old(self).spec_projection().len() ==> concat_batch_col(
                    v@.map_values(|b: RecordBatch| b@),
                    j,
                ) == old(self).spec_col(j)) && (forall|i: int|
                0 <= i < v@.len() ==> (#[trigger] v@[i])@.schema == ParquetFile::spec_schema(
                    old(self),
                ) && 1 <= v@[i]@.num_rows <= old(self).spec_batch_size()),
    {
        let mut out: Vec<RecordBatch> = Vec::new();
        proof {
            use_type_invariant(&self.data);
            assert forall|j: int| 0 <= j < self.spec_projection().len() implies concat_batch_col(
                out@.map_values(|b: RecordBatch| b@),
                j,
            ) == self.spec_col(j).subrange(0, self.spec_consumed() as int) by {
                assert(self.spec_col(j).subrange(0, 0) =~= Seq::<Option<CellV>>::empty());
            }
        }
        loop
            invariant
                self.wf(),
                self.spec_same_config(old(self)),
                self.spec_consumed() <= self.spec_total_rows(),
                forall|j: int|
                    0 <= j < self.spec_projection().len() ==> concat_batch_col(
                        out@.map_values(|b: RecordBatch| b@),
                        j,
                    ) == self.spec_col(j).subrange(0, self.spec_consumed() as int),
                forall|i: int|
                    0 <= i < out@.len() ==> (#[trigger] out@[i])@.schema
                        == ParquetFile::spec_schema(old(self)) && 1 <= out@[i]@.num_rows <= old(
                        self,
                    ).spec_batch_size(),
            decreases self.spec_total_rows() - self.spec_consumed(),
        {
            let ghost pre = *self;
            let ghost pre_out = out@;
            let step = crate::producer::BatchProducer::next(self);
            match step {
                Ok(Some(b)) => {
                    out.push(b);
                    proof {
                        use_type_invariant(&self.data);
                        self.data.lemma_view_wf();
                        assert forall|j: int|
                            0 <= j < self.spec_projection().len() implies concat_batch_col(
                            out@.map_values(|b2: RecordBatch| b2@),
                            j,
                        ) == self.spec_col(j).subrange(0, self.spec_consumed() as int) by {
                            lemma_col_of_groups_len(
                                self.data@.groups,
                                self.data@.schema.len() as int,
                                self.projection@[j] as int,
                            );
                            let mapped = out@.map_values(|b2: RecordBatch| b2@);
                            assert(mapped.drop_last() =~= pre_out.map_values(
                                |b2: RecordBatch| b2@,
                            ));
                            assert(mapped.last() == out@.last()@);
                            assert(self.spec_col(j).subrange(0, self.spec_consumed() as int)
                                =~= self.spec_col(j).subrange(0, pre.spec_consumed() as int)
                                + self.spec_col(j).subrange(
                                pre.spec_consumed() as int,
                                self.spec_consumed() as int,
                            ));
                        }
                        match self.current_row_group {
                            Some(g) => {
                                lemma_rows_before_succ(self.data@.groups, g as int);
                                lemma_rows_before_le_total(self.data@.groups, g + 1);
                            },
                            None => {},
                        }
                    }
                },
                Ok(None) => {
                    proof {
                        use_type_invariant(&self.data);
                        self.data.lemma_view_wf();
                        assert(self.spec_consumed() == self.spec_total_rows());
                        assert forall|j: int|
                            0 <= j < self.spec_projection().len() implies concat_batch_col(
                            out@.map_values(|b2: RecordBatch| b2@),
                            j,
                        ) == old(self).spec_col(j) by {
                            assert(old(self).spec_col(j) == self.spec_col(j));
                            lemma_col_of_groups_len(
                                self.data@.groups,
                                self.data@.schema.len() as int,
                                self.projection@[j] as int,
                            );
                            assert(self.spec_col(j).len() == self.spec_total_rows());
                            assert(self.spec_col(j) == pre.spec_col(j));
                            assert(concat_batch_col(out@.map_values(|b2: RecordBatch| b2@), j)
                                == pre.spec_col(j).subrange(0, pre.spec_consumed() as int));
                            assert(self.spec_col(j).subrange(
                                0,
                                self.spec_consumed() as int,
                            ) =~= self.spec_col(j));
                        }
                        assert(out@.map_values(|b2: RecordBatch| b2@) =~= out@.map_values(
                            |b: RecordBatch| b@,
                        ));
                    }
                    return Ok(out);
                },
                Err(e) => {
                    return Err(e);
                },
            }
        }
    }
}



fn clone_vec_copy<T: Copy>(v: &Vec<T>) -> (r: Vec<T>)
    ensures
        r@ == v@,
{
    let mut r: Vec<T> = Vec::new();
    let mut i: usize = 0;
    while i < v.len()
        invariant
            i <= v@.len(),
            r@ == v@.take(i as int),
        decreases v@.len() - i,
    {
        r.push(v[i]);
        proof {
            assert(r@ =~= v@.take(i + 1 as int));
        }
        i = i + 1;
    }
    proof {
        assert(v@.take(v@.len() as int) =~= v@);
    }
    r
}

fn clone_vec_string(v: &Vec<String>) -> (r: Vec<String>)
    ensures
        r@ =~= v@,
{
    let mut r: Vec<String> = Vec::new();
    let mut i: usize = 0;
    while i < v.len()
        invariant
            i <= v@.len(),
            r@.len() == i as int,
            forall|j: int| 0 <= j < i ==> r@[j] == v@[j],
        decreases v@.len() - i,
    {
        r.push(v[i].clone());
        i = i + 1;
    }
    r
}

fn clone_levels(l: &Option<Vec<i16>>) -> (r: Option<Vec<i16>>)
    ensures
        opt_view(&r) == opt_view(l),
{
    match l {
        Some(v) => Some(clone_vec_copy(v)),
        None => None,
    }
}

impl Clone for ColumnChunk {
    fn clone(&self) -> (r: Self)
        ensures
            r.spec_cells() == self.spec_cells(),
            r.spec_rows() == self.spec_rows(),
            r.spec_has_levels() == self.spec_has_levels(),
            r.spec_wf() == self.spec_wf(),
            forall|dt: DataType| r.spec_fits(dt) == self.spec_fits(dt),
    {
        match self {
            ColumnChunk::Boolean { values, def_levels } => ColumnChunk::Boolean {
                values: clone_vec_copy(values),
                def_levels: clone_levels(def_levels),
            },
            ColumnChunk::Int32 { values, def_levels } => ColumnChunk::Int32 {
                values: clone_vec_copy(values),
                def_levels: clone_levels(def_levels),
            },
            ColumnChunk::Int64 { values, def_levels } => ColumnChunk::Int64 {
                values: clone_vec_copy(values),
                def_levels: clone_levels(def_levels),
            },
            ColumnChunk::Int96 { values, def_levels } => ColumnChunk::Int96 {
                values: clone_vec_copy(values),
                def_levels: clone_levels(def_levels),
            },
            ColumnChunk::Float { values, def_levels } => ColumnChunk::Float {
                values: clone_vec_copy(values),
                def_levels: clone_levels(def_levels),
            },
            ColumnChunk::Double { values, def_levels } => ColumnChunk::Double {
                values: clone_vec_copy(values),
                def_levels: clone_levels(def_levels),
            },
            ColumnChunk::ByteArray { values, def_levels } => {
                let cloned_values = clone_vec_string(values);
                let r = ColumnChunk::ByteArray {
                    values: cloned_values,
                    def_levels: clone_levels(def_levels),
                };
                proof {
                    assert(r.spec_cells() =~= self.spec_cells());
                }
                r
            },
        }
    }
}

impl Clone for RowGroup {
    fn clone(&self) -> (r: Self)
        ensures
            r.spec_rows() == self.spec_rows(),
            r.columns@.len() == self.columns@.len(),
            forall|c: int|
                0 <= c < self.columns@.len() ==> (#[trigger] r.columns@[c]).spec_cells()
                    == self.columns@[c].spec_cells(),
            forall|schema: Seq<FieldV>| group_ok(schema, r) == group_ok(schema, *self),
    {
        let mut columns: Vec<ColumnChunk> = Vec::new();
        let mut i: usize = 0;
        while i < self.columns.len()
            invariant
                i <= self.columns@.len(),
                columns@.len() == i as int,
                forall|c: int|
                    0 <= c < i ==> (#[trigger] columns@[c]).spec_cells()
                        == self.columns@[c].spec_cells() && columns@[c].spec_rows()
                        == self.columns@[c].spec_rows() && columns@[c].spec_has_levels()
                        == self.columns@[c].spec_has_levels() && columns@[c].spec_wf()
                        == self.columns@[c].spec_wf() && (forall|dt: DataType|
                        (#[trigger] columns@[c].spec_fits(dt)) == self.columns@[c].spec_fits(dt)),
            decreases self.columns@.len() - i,
        {
            columns.push(self.columns[i].clone());
            i = i + 1;
        }
        let r = RowGroup { columns };
        proof {
            assert forall|schema: Seq<FieldV>| group_ok(schema, r) == group_ok(
                schema,
                *self,
            ) by {
                if group_ok(schema, r) {
                    assert forall|c: int| 0 <= c < schema.len() implies chunk_ok(
                        schema[c],
                        #[trigger] self.columns@[c],
                        self.spec_rows(),
                    ) by {
                        assert(chunk_ok(schema[c], r.columns@[c], r.spec_rows()));
                    }
                }
                if group_ok(schema, *self) {
                    assert forall|c: int| 0 <= c < schema.len() implies chunk_ok(
                        schema[c],
                        #[trigger] r.columns@[c],
                        r.spec_rows(),
                    ) by {
                        assert(chunk_ok(schema[c], self.columns@[c], self.spec_rows()));
                    }
                }
            }
        }
        r
    }
}

impl Clone for ParquetData {
    fn clone(&self) -> (r: Self)
        ensures
            r@ == self@,
    {
        proof {
            use_type_invariant(self);
        }
        let mut row_groups: Vec<RowGroup> = Vec::new();
        let mut i: usize = 0;
        while i < self.row_groups.len()
            invariant
                i <= self.row_groups@.len(),
                row_groups@.len() == i as int,
                forall|g: int|
                    0 <= g < self.row_groups@.len() ==> group_ok(
                        self.schema@,
                        #[trigger] self.row_groups@[g],
                    ),
                forall|g: int|
                    0 <= g < i ==> group_ok(self.schema@, #[trigger] row_groups@[g]) && (
                    #[trigger] row_groups@[g]).columns@.len() == self.row_groups@[g].columns@.len()
                        && (forall|c: int|
                        0 <= c < row_groups@[g].columns@.len()
                            ==> (#[trigger] row_groups@[g].columns@[c]).spec_cells()
                            == self.row_groups@[g].columns@[c].spec_cells()),
            decreases self.row_groups@.len() - i,
        {
            row_groups.push(self.row_groups[i].clone());
            i = i + 1;
        }
        let r = ParquetData { schema: self.schema.clone(), row_groups };
        proof {
            assert(r@.groups =~= self@.groups) by {
                assert forall|g: int| 0 <= g < r@.groups.len() implies r@.groups[g]
                    =~= self@.groups[g] by {
                }
            }
            assert(r@ == self@);
        }
        r
    }
}

/// A table over a list of decoded columnar files, one scan partition
/// per file.
#[derive(Debug)]
pub struct ParquetTable {
    files: Vec<ParquetData>,
    schema: Schema,
}

impl ParquetTable {
    /// Images of the table's files.
    pub closed spec fn spec_files(&self) -> Seq<PFileV> {
        self.files@.map_values(|d: ParquetData| d@)
    }

    /// Build a table from decoded files. The table's schema is the
    /// first file's.
    ///
    /// Fails with a `General` error exactly when no file is given.
    pub fn try_new(files: Vec<ParquetData>) -> (r: Result<ParquetTable, DataFusionError>)
        ensures
            (r is Ok) <==> files@.len() >= 1,
            r matches Ok(t) ==> t.spec_files() == files@.map_values(|d: ParquetData| d@)
                && t.spec_schema() == files@[0]@.schema,
            r matches Err(e) ==> e is General,
    {
        if files.len() == 0 {
            return Err(DataFusionError::General("No files found".to_owned()));
        }
        let schema = files[0].schema().clone();
        Ok(ParquetTable { files, schema })
    }

    /// The image of the table's schema.
    pub closed spec fn spec_schema(&self) -> Seq<FieldV> {
        self.schema@
    }

    /// The full schema shared by the table's files.
    pub fn schema(&self) -> (r: &Schema)
        ensures
            r@ == self.spec_schema(),
    {
        &self.schema
    }

    /// Scan the table: one reader per file, each over the given
    /// projection and batch size.
    ///
    /// Fails with `InvalidColumn` exactly when some projection index is
    /// out of range for some file.
    pub fn scan(&self, projection: &Option<Vec<usize>>, batch_size: usize) -> (r: Result<
        Vec<ParquetFile>,
        DataFusionError,
    >)
        requires
            batch_size >= 1,
        ensures
            (r is Ok) <==> (match projection {
                Some(p) => forall|i: int, j: int|
                    0 <= i < self.spec_files().len() && 0 <= j < p@.len() ==> (#[trigger] p@[j]
                        as nat) < (#[trigger] self.spec_files()[i]).schema.len(),
                None => true,
            }),
            r matches Ok(v) ==> v@.len() == self.spec_files().len() && (forall|i: int|
                0 <= i < v@.len() ==> (#[trigger] v@[i]).wf()
                    && crate::producer::BatchProducer::inv(&v@[i]) && v@[i].spec_file()
                    == self.spec_files()[i] && v@[i].spec_consumed() == 0 && v@[i].spec_batch_size()
                    == batch_size && v@[i].spec_projection() == (match projection {
                    Some(p) => p@,
                    None => Seq::new(self.spec_files()[i].schema.len(), |k: int| k as usize),
                })),
            r matches Err(e) ==> e is InvalidColumn,
    {
        let mut parts: Vec<ParquetFile> = Vec::new();
        let mut i: usize = 0;
        while i < self.files.len()
            invariant
                i <= self.files@.len(),
                batch_size >= 1,
                parts@.len() == i as int,
                (match projection {
                    Some(p) => forall|k: int, j: int|
                        0 <= k < i && 0 <= j < p@.len() ==> (#[trigger] p@[j] as nat) < (
                        #[trigger] self.spec_files()[k]).schema.len(),
                    None => true,
                }),
                forall|k: int|
                    0 <= k < i ==> (#[trigger] parts@[k]).wf() && parts@[k].spec_file()
                        == self.spec_files()[k] && parts@[k].spec_consumed() == 0
                        && parts@[k].spec_batch_size() == batch_size && parts@[k].spec_projection()
                        == (match projection {
                        Some(p) => p@,
                        None => Seq::new(self.spec_files()[k].schema.len(), |m: int| m as usize),
                    }),
            decreases self.files@.len() - i,
        {
            let proj: Option<Vec<usize>> = match projection {
                Some(p) => Some(clone_vec_copy(p)),
                None => None,
            };
            let file = self.files[i].clone();
            match ParquetFile::open(file, proj, batch_size) {
                Ok(part) => {
                    parts.push(part);
                },
                Err(e) => {
                    proof {
                        match projection {
                            Some(p) => {
                                assert(!(forall|j: int|
                                    0 <= j < p@.len() ==> (#[trigger] p@[j] as nat)
                                        < self.spec_files()[i as int].schema.len()));
                                let j = choose|j: int|
                                    0 <= j < p@.len() && !((p@[j] as nat) < self.spec_files()[
                                        i as int
                                    ].schema.len());
                                assert(0 <= i < self.spec_files().len() && 0 <= j < p@.len() && !((
                                p@[j] as nat) < self.spec_files()[i as int].schema.len()));
                            },
                            None => {
                                assert(false);
                            },
                        }
                    }
                    return Err(e);
                },
            }
            i = i + 1;
        }
        Ok(parts)
    }
}


} // verus!
