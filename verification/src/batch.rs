use vstd::prelude::*;
use crate::column::Column;
use crate::datatypes::{FieldV, Schema};
use crate::error::DataFusionError;
use crate::scalar::CellV;

verus! {

/// Mathematical image of a record batch: a schema, one cell sequence per
/// field, and a row count shared by every column.
pub struct BatchV {
    pub schema: Seq<FieldV>,
    pub columns: Seq<Seq<Option<CellV>>>,
    pub num_rows: nat,
}

/// An immutable record batch: a schema plus equally-long typed columns,
/// one per field. Well-formedness is a type invariant: every value of
/// this type satisfies it.
#[derive(Debug)]
pub struct RecordBatch {
    schema: Schema,
    columns: Vec<Column>,
    row_count: usize,
}

impl View for RecordBatch {
    type V = BatchV;

    closed spec fn view(&self) -> BatchV {
        BatchV {
            schema: self.schema@,
            columns: self.columns@.map_values(|c: Column| c@),
            num_rows: self.row_count as nat,
        }
    }
}

impl Clone for RecordBatch {
    fn clone(&self) -> (r: Self)
        ensures
            r@ == self@,
    {
        proof {
            use_type_invariant(self);
        }
        let r = RecordBatch {
            schema: self.schema.clone(),
            columns: self.clone_columns(),
            row_count: self.row_count,
        };
        proof {
            assert(r@.columns =~= self@.columns);
            assert(r@ == self@);
        }
        r
    }
}

impl RecordBatch {
    #[verifier::type_invariant]
    closed spec fn inv(&self) -> bool {
        &&& self.columns@.len() == self.schema@.len()
        &&& forall|i: int|
            0 <= i < self.columns@.len() ==> (#[trigger] self.columns@[i]).wf()
                && self.columns@[i].data_type == self.schema@[i].data_type
                && self.columns@[i]@.len() == self.row_count
    }


    /// Build a batch from a schema and at least one column, taking the
    /// row count from the first column.
    ///
    /// Fails with an `Arrow` error exactly when the columns are empty,
    /// their number differs from the field count, some column's storage
    /// does not fit its field's type, or the lengths disagree.
    pub fn try_new(schema: Schema, columns: Vec<Column>) -> (r: Result<
        RecordBatch,
        DataFusionError,
    >)
        ensures
            (r is Ok) <==> (columns@.len() >= 1 && columns@.len() == schema@.len() && (forall|
                i: int,
            |
                0 <= i < columns@.len() ==> (#[trigger] columns@[i]).wf()
                    && columns@[i].data_type == schema@[i].data_type && columns@[i]@.len()
                    == columns@[0]@.len())),
            r matches Ok(b) ==> b@ == (BatchV {
                schema: schema@,
                columns: columns@.map_values(|c: Column| c@),
                num_rows: columns@[0]@.len(),
            }),
            r matches Err(e) ==> e is Arrow,
    {
        if columns.len() == 0 {
            return Err(DataFusionError::Arrow("batch must have at least one column".to_owned()));
        }
        let row_count = columns[0].len();
        match Self::try_new_with_row_count(schema, columns, row_count) {
            Ok(b) => Ok(b),
            Err(e) => Err(e),
        }
    }

    /// Build a batch from a schema, columns and an explicit row count;
    /// this admits batches with zero columns.
    ///
    /// Fails with an `Arrow` error exactly when the number of columns
    /// differs from the field count, some column's storage does not fit
    /// its field's type, or some column's length is not `row_count`.
    pub fn try_new_with_row_count(schema: Schema, columns: Vec<Column>, row_count: usize) -> (r:
        Result<RecordBatch, DataFusionError>)
        ensures
            (r is Ok) <==> (columns@.len() == schema@.len() && (forall|i: int|
                0 <= i < columns@.len() ==> (#[trigger] columns@[i]).wf()
                    && columns@[i].data_type == schema@[i].data_type && columns@[i]@.len()
                    == row_count)),
            r matches Ok(b) ==> b@ == (BatchV {
                schema: schema@,
                columns: columns@.map_values(|c: Column| c@),
                num_rows: row_count as nat,
            }),
            r matches Err(e) ==> e is Arrow,
    {
        if columns.len() != schema.num_fields() {
            return Err(DataFusionError::Arrow(
                "number of columns must match number of fields".to_owned(),
            ));
        }
        let mut i: usize = 0;
        while i < columns.len()
            invariant
                i <= columns@.len(),
                columns@.len() == schema@.len(),
                forall|j: int|
                    0 <= j < i ==> (#[trigger] columns@[j]).wf() && columns@[j].data_type
                        == schema@[j].data_type && columns@[j]@.len() == row_count,
            decreases columns@.len() - i,
        {
            if !columns[i].check_wf() {
                return Err(DataFusionError::Arrow("column storage does not fit its type".to_owned()));
            }
            if !(columns[i].data_type == schema.field(i).data_type()) {
                return Err(DataFusionError::Arrow("column type does not match field type".to_owned()));
            }
            if columns[i].len() != row_count {
                return Err(DataFusionError::Arrow("columns must share one length".to_owned()));
            }
            i = i + 1;
        }
        Ok(RecordBatch { schema, columns, row_count })
    }

    /// The column at position `i`, by value.
    fn clone_columns(&self) -> (r: Vec<Column>)
        ensures
            r@.len() == self@.columns.len(),
            forall|i: int|
                0 <= i < r@.len() ==> (#[trigger] r@[i])@ == self@.columns[i] && r@[i].data_type
                    == self.columns@[i].data_type && r@[i].wf() == self.columns@[i].wf(),
    {
        let mut cols: Vec<Column> = Vec::new();
        let mut i: usize = 0;
        while i < self.columns.len()
            invariant
                i <= self.columns@.len(),
                cols@.len() == i as int,
                forall|j: int|
                    0 <= j < i ==> (#[trigger] cols@[j])@ == self@.columns[j] && cols@[j].data_type
                        == self.columns@[j].data_type && cols@[j].wf() == self.columns@[j].wf(),
            decreases self.columns@.len() - i,
        {
            cols.push(self.columns[i].clone());
            i = i + 1;
        }
        cols
    }

    /// The batch's schema.
    pub fn schema(&self) -> (r: &Schema)
        ensures
            r@ == self@.schema,
    {
        &self.schema
    }

    /// The number of rows. Every column of the batch has this length.
    pub fn num_rows(&self) -> (r: usize)
        ensures
            r == self@.num_rows,
            forall|i: int|
                0 <= i < self@.columns.len() ==> (#[trigger] self@.columns[i]).len()
                    == self@.num_rows,
    {
        proof {
            use_type_invariant(self);
        }
        self.row_count
    }

    /// The number of columns, which equals the number of schema fields.
    pub fn num_columns(&self) -> (r: usize)
        ensures
            r == self@.columns.len(),
            r == self@.schema.len(),
    {
        proof {
            use_type_invariant(self);
        }
        self.columns.len()
    }

    /// The column at position `i`, well-formed, typed as the schema's
    /// field `i`, and `num_rows` long.
    pub fn column(&self, i: usize) -> (r: &Column)
        requires
            i < self@.columns.len(),
        ensures
            r@ == self@.columns[i as int],
            r.wf(),
            i < self@.schema.len() && r.data_type == self@.schema[i as int].data_type,
            r@.len() == self@.num_rows,
    {
        proof {
            use_type_invariant(self);
        }
        &self.columns[i]
    }
}

} // verus!
