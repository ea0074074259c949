use vstd::prelude::*;
use crate::batch::{BatchV, RecordBatch};
use crate::column::Column;
use crate::datatypes::{schema_projection, FieldV, Schema};
use crate::error::DataFusionError;
use crate::physical_plan::{Distribution, ExecutionPlan, Partitioning};
use crate::producer::{BatchProducer, MemoryStream};

verus! {

/// The image of a batch under a column projection: the projected
/// schema, the selected columns in projection order, the row count.
pub open spec fn project_batch_view(bv: BatchV, p: Seq<usize>, schema: Seq<FieldV>) -> BatchV {
    BatchV {
        schema,
        columns: p.map_values(|i: usize| bv.columns[i as int]),
        num_rows: bv.num_rows,
    }
}

/// Every batch has every projected column, typed as the projected
/// schema expects.
pub open spec fn projection_fits(batches: Seq<BatchV>, p: Seq<usize>, schema: Seq<FieldV>) -> bool {
    forall|i: int, j: int|
        0 <= i < batches.len() && 0 <= j < p.len() ==> (#[trigger] p[j] as int) < (
        #[trigger] batches[i]).schema.len() && batches[i].schema[p[j] as int].data_type
            == schema[j].data_type
}

/// A plan node over in-memory batches: one partition per batch list,
/// with an optional column projection applied at execution.
pub struct MemoryExec {
    partitions: Vec<Vec<RecordBatch>>,
    schema: Schema,
    projection: Option<Vec<usize>>,
    projected_schema: Schema,
}

impl MemoryExec {
    /// Images of the stored batches, per partition.
    pub closed spec fn spec_partitions(&self) -> Seq<Seq<BatchV>> {
        self.partitions@.map_values(
            |p: Vec<RecordBatch>| p@.map_values(|b: RecordBatch| b@),
        )
    }

    /// The image of the projection, where one is set.
    pub closed spec fn spec_projection(&self) -> Option<Seq<usize>> {
        match self.projection {
            Some(p) => Some(p@),
            None => None,
        }
    }

    /// Build an in-memory node from partitioned batches, their schema,
    /// and an optional projection.
    ///
    /// Fails with `InvalidColumn` exactly when some projection index is
    /// out of range for the schema.
    pub fn try_new(
        partitions: Vec<Vec<RecordBatch>>,
        schema: Schema,
        projection: Option<Vec<usize>>,
    ) -> (r: Result<MemoryExec, DataFusionError>)
        ensures
            (r is Ok) <==> (match projection {
                Some(p) => forall|j: int| 0 <= j < p@.len() ==> (#[trigger] p@[j]) < schema@.len(),
                None => true,
            }),
            r matches Ok(m) ==> m.plan_inv() && m.spec_partitions() == partitions@.map_values(
                |p: Vec<RecordBatch>| p@.map_values(|b: RecordBatch| b@),
            ) && m.spec_projection() == (match projection {
                Some(p) => Some(p@),
                None => None::<Seq<usize>>,
            }) && m.spec_plan_schema() == (match projection {
                Some(p) => p@.map_values(|i: usize| schema@[i as int]),
                None => schema@,
            }),
            r matches Err(e) ==> e is InvalidColumn,
    {
        let projected_schema = match &projection {
            Some(p) => match schema_projection(&schema, p) {
                Ok(s) => s,
                Err(e) => {
                    return Err(e);
                },
            },
            None => schema.clone(),
        };
        Ok(MemoryExec { partitions, schema, projection, projected_schema })
    }
}

impl ExecutionPlan for MemoryExec {
    type Stream = MemoryStream;

    /// The stored projected schema is the projection of the stored
    /// schema.
    closed spec fn plan_inv(&self) -> bool {
        match self.projection {
            Some(p) => (forall|j: int|
                0 <= j < p@.len() ==> (#[trigger] p@[j]) < self.schema@.len())
                && self.projected_schema@ == p@.map_values(|i: usize| self.schema@[i as int]),
            None => self.projected_schema@ == self.schema@,
        }
    }

    closed spec fn spec_plan_schema(&self) -> Seq<FieldV> {
        self.projected_schema@
    }

    closed spec fn spec_partitioning(&self) -> Partitioning {
        Partitioning::UnknownPartitioning(self.partitions@.len() as usize)
    }

    /// The schema after the projection.
    fn schema(&self) -> (r: &Schema)
        ensures
            r@ == self.spec_plan_schema(),
    {
        &self.projected_schema
    }

    fn output_partitioning(&self) -> (r: Partitioning)
        ensures
            r == self.spec_partitioning(),
    {
        Partitioning::UnknownPartitioning(self.partitions.len())
    }

    fn required_child_distribution(&self) -> Distribution {
        Distribution::UnspecifiedDistribution
    }

    /// Hand out one partition's batches, applying the projection to
    /// each: the stream yields exactly the partition's batches, in
    /// order, each restricted to the projected columns.
    ///
    /// Fails with `Internal` exactly on an out-of-range partition, and
    /// with an `Arrow` error exactly when some batch lacks a projected
    /// column or disagrees with the projected schema's types.
    fn execute(&self, partition: usize) -> (r: Result<MemoryStream, DataFusionError>)
        ensures
            r matches Ok(s) ==> s.inv() && s.spec_schema() == self.spec_plan_schema(),
            (r is Ok) <==> (partition < self.spec_partitions().len() && (match self
                .spec_projection() {
                Some(p) => projection_fits(
                    self.spec_partitions()[partition as int],
                    p,
                    self.spec_plan_schema(),
                ),
                None => true,
            })),
            r matches Ok(s) ==> s.spec_batches() == (match self.spec_projection() {
                Some(p) => self.spec_partitions()[partition as int].map_values(
                    |bv: BatchV| project_batch_view(bv, p, self.spec_plan_schema()),
                ),
                None => self.spec_partitions()[partition as int],
            }),
    {
        if partition >= self.partitions.len() {
            return Err(DataFusionError::Internal("invalid partition index".to_owned()));
        }
        let source = &self.partitions[partition];
        let ghost source_views = self.spec_partitions()[partition as int];
        proof {
            assert(source_views == source@.map_values(|b: RecordBatch| b@));
        }
        let mut out: Vec<RecordBatch> = Vec::new();
        let mut i: usize = 0;
        while i < source.len()
            invariant
                i <= source@.len(),
                self.plan_inv(),
                partition < self.spec_partitions().len(),
                source_views == self.spec_partitions()[partition as int],
                source_views == source@.map_values(|b: RecordBatch| b@),
                source_views.len() == source@.len(),
                out@.len() == i as int,
                forall|k: int|
                    0 <= k < i ==> (#[trigger] out@[k])@ == (match self.spec_projection() {
                        Some(p) => project_batch_view(source_views[k], p, self.spec_plan_schema()),
                        None => source_views[k],
                    }),
                match self.spec_projection() {
                    Some(p) => projection_fits(
                        source_views.take(i as int),
                        p,
                        self.spec_plan_schema(),
                    ),
                    None => true,
                },
            decreases source@.len() - i,
        {
            let batch = &source[i];
            proof {
                assert(source_views.take(i as int).push(source_views[i as int]) =~= source_views
                    .take(i + 1));
            }
            match &self.projection {
                None => {
                    out.push(batch.clone());
                },
                Some(p) => {
                    let n_cols = batch.num_columns();
                    let mut cols: Vec<Column> = Vec::new();
                    let mut j: usize = 0;
                    while j < p.len()
                        invariant
                            j <= p@.len(),
                            i < source@.len(),
                            batch == source@[i as int],
                            partition < self.spec_partitions().len(),
                            source_views == self.spec_partitions()[partition as int],
                            source_views == source@.map_values(|b: RecordBatch| b@),
                            self.plan_inv(),
                            self.spec_projection() == Some(p@),
                            n_cols == batch@.columns.len(),
                            n_cols == batch@.schema.len(),
                            cols@.len() == j as int,
                            forall|m: int|
                                0 <= m < j ==> (#[trigger] cols@[m]).wf() && cols@[m]@
                                    == batch@.columns[p@[m] as int] && cols@[m].data_type
                                    == batch@.schema[p@[m] as int].data_type && cols@[m]@.len()
                                    == batch@.num_rows,
                            forall|m: int| 0 <= m < j ==> (#[trigger] p@[m] as int) < batch@.schema.len(),
                        decreases p@.len() - j,
                    {
                        if p[j] >= n_cols {
                            proof {
                                assert(source_views[i as int] == batch@);
                                assert(!((p@[j as int] as int) < source_views[i as int].schema.len()));
                                assert(!projection_fits(
                                    source_views,
                                    p@,
                                    self.spec_plan_schema(),
                                ));
                            }
                            return Err(
                                DataFusionError::Arrow(
                                    "projection index out of range for batch".to_owned(),
                                ),
                            );
                        }
                        cols.push(batch.column(p[j]).clone());
                        j = j + 1;
                    }
                    let ghost cols_view = cols@;
                    match RecordBatch::try_new_with_row_count(
                        self.projected_schema.clone(),
                        cols,
                        batch.num_rows(),
                    ) {
                        Ok(b) => {
                            proof {
                                assert(b@ == project_batch_view(
                                    source_views[i as int],
                                    p@,
                                    self.spec_plan_schema(),
                                )) by {
                                    assert(source_views[i as int] == batch@);
                                    assert(b@.columns =~= p@.map_values(
                                        |ix: usize| batch@.columns[ix as int],
                                    ));
                                }
                                assert(projection_fits(
                                    source_views.take(i + 1),
                                    p@,
                                    self.spec_plan_schema(),
                                )) by {
                                    assert forall|k: int, j2: int|
                                        0 <= k < i + 1 && 0 <= j2 < p@.len() implies (
                                    #[trigger] p@[j2] as int) < (#[trigger] source_views.take(
                                        i + 1,
                                    )[k]).schema.len() && source_views.take(i + 1)[k].schema[
                                        p@[j2] as int
                                    ].data_type == self.spec_plan_schema()[j2].data_type by {
                                        assert(source_views.take(i + 1)[k] == source_views[k]);
                                        if k < i {
                                            assert(source_views.take(i as int)[k]
                                                == source_views[k]);
                                        } else {
                                            assert(source_views[k] == batch@);
                                            assert(cols_view[j2].data_type == batch@.schema[
                                                p@[j2] as int
                                            ].data_type);
                                            assert(cols_view[j2].data_type
                                                == self.spec_plan_schema()[j2].data_type);
                                        }
                                    }
                                }
                            }
                            out.push(b);
                        },
                        Err(_) => {
                            proof {
                                // with in-range, type-matching columns the
                                // batch constructor could not refuse, so a
                                // mismatched column type exists
                                let sch = self.spec_plan_schema();
                                assert(cols_view.len() == sch.len());
                                assert(!(forall|m: int|
                                    0 <= m < cols_view.len() ==> (#[trigger] cols_view[m]).wf()
                                        && cols_view[m].data_type == sch[m].data_type
                                        && cols_view[m]@.len() == batch@.num_rows));
                                let m = choose|m: int|
                                    0 <= m < cols_view.len() && !(cols_view[m].wf()
                                        && cols_view[m].data_type == sch[m].data_type
                                        && cols_view[m]@.len() == batch@.num_rows);
                                assert(cols_view[m].data_type != sch[m].data_type);
                                assert(source_views[i as int] == batch@);
                                assert(batch@.schema[p@[m] as int].data_type != sch[m].data_type);
                                assert(!projection_fits(source_views, p@, sch));
                            }
                            return Err(
                                DataFusionError::Arrow(
                                    "batch does not fit the projected schema".to_owned(),
                                ),
                            );
                        },
                    }
                },
            }
            i = i + 1;
        }
        proof {
            assert(source_views.take(source_views.len() as int) =~= source_views);
        }
        let stream = MemoryStream::new(self.projected_schema.clone(), out);
        proof {
            assert(stream.spec_batches() =~= (match self.spec_projection() {
                Some(p) => source_views.map_values(
                    |bv: BatchV| project_batch_view(bv, p, self.spec_plan_schema()),
                ),
                None => source_views,
            }));
        }
        Ok(stream)
    }
}

} // verus!
