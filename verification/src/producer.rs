use vstd::prelude::*;
use crate::batch::RecordBatch;
use crate::datatypes::{FieldV, Schema};
use crate::error::DataFusionError;

verus! {

/// A pull-based source of record batches: a schema, and `next` yielding
/// batches until `None` terminates the stream. A caller must treat
/// `None` as terminal and not pull again after it.
///
/// `remaining` is an abstract bound on how many more batches the source
/// can still yield; it strictly decreases on every successful pull, so
/// that consuming loops terminate.
pub trait BatchProducer: Sized {
    /// The producer's internal consistency, established by its
    /// constructor and kept by every pull.
    spec fn inv(&self) -> bool;

    /// Abstract bound on the number of batches still to come.
    spec fn remaining(&self) -> nat;

    /// The image of the schema that `schema` returns.
    spec fn spec_schema(&self) -> Seq<FieldV>;

    /// The schema every produced batch carries.
    fn schema(&self) -> (r: &Schema)
        requires
            self.inv(),
        ensures
            r@ == self.spec_schema(),
    ;

    /// Pull the next batch. `Ok(None)` signals the end of the stream.
    fn next(&mut self) -> (r: Result<Option<RecordBatch>, DataFusionError>)
        requires
            old(self).inv(),
        ensures
            final(self).inv(),
            r matches Ok(Some(_)) ==> final(self).remaining() < old(self).remaining(),
            final(self).spec_schema() == old(self).spec_schema(),
    ;
}

/// An in-memory batch producer: hands out a fixed list of batches in
/// order, then ends.
pub struct MemoryStream {
    schema: Schema,
    batches: Vec<RecordBatch>,
    index: usize,
}

impl MemoryStream {
    /// Wrap a list of batches as a producer. The batches are yielded in
    /// order; the schema is the one the consumer will be told.
    pub fn new(schema: Schema, batches: Vec<RecordBatch>) -> (r: MemoryStream)
        ensures
            r.inv(),
            r.remaining() == batches@.len(),
            r.spec_schema() == schema@,
            r.spec_batches() == batches@.map_values(|b: RecordBatch| b@),
    {
        let r = MemoryStream { schema, batches, index: 0 };
        proof {
            assert(r.spec_batches() =~= r.batches@.map_values(|b: RecordBatch| b@));
        }
        r
    }

    /// Images of the batches not yet handed out.
    pub closed spec fn spec_batches(&self) -> Seq<crate::batch::BatchV> {
        self.batches@.skip(self.index as int).map_values(|b: RecordBatch| b@)
    }
}

impl BatchProducer for MemoryStream {
    closed spec fn inv(&self) -> bool {
        true
    }

    closed spec fn remaining(&self) -> nat {
        if self.index <= self.batches@.len() {
            (self.batches@.len() - self.index) as nat
        } else {
            0
        }
    }

    closed spec fn spec_schema(&self) -> Seq<FieldV> {
        self.schema@
    }

    fn schema(&self) -> (r: &Schema)
        ensures
            r@ == self.spec_schema(),
    {
        &self.schema
    }

    fn next(&mut self) -> (r: Result<Option<RecordBatch>, DataFusionError>)
        ensures
            r matches Ok(Some(_)) ==> final(self).remaining() < old(self).remaining(),
            final(self).spec_schema() == old(self).spec_schema(),
            old(self).remaining() == 0 ==> r matches Ok(None),
            old(self).remaining() > 0 ==> (r matches Ok(Some(b)) && b@ == old(
                self,
            ).spec_batches()[0] && final(self).spec_batches() == old(self).spec_batches().skip(1)),
    {
        if self.index < self.batches.len() {
            let b = self.batches[self.index].clone();
            self.index = self.index + 1;
            proof {
                assert(b@ == old(self).spec_batches()[0]);
                assert(final(self).spec_batches() =~= old(self).spec_batches().skip(1));
            }
            Ok(Some(b))
        } else {
            Ok(None)
        }
    }
}

} // verus!
