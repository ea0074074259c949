use vstd::prelude::*;
use crate::batch::RecordBatch;
use crate::datatypes::{FieldV, Schema};
use crate::error::DataFusionError;
use crate::producer::BatchProducer;

verus! {

/// Declares crossbeam's channel `Sender` so it can stand in fields and
/// signatures; its values are opaque here and touched only through the
/// wrappers below.
#[verifier::external_type_specification]
#[verifier::external_body]
#[verifier::reject_recursive_types(T)]
pub struct ExSender<T>(crossbeam::channel::Sender<T>);

/// Declares crossbeam's channel `Receiver`, as for `Sender`.
#[verifier::external_type_specification]
#[verifier::external_body]
#[verifier::reject_recursive_types(T)]
pub struct ExReceiver<T>(crossbeam::channel::Receiver<T>);

/// Relies on crossbeam's `Sender::send`: hands the message over and
/// returns whether the receiving side was still connected; on a
/// disconnected channel the message is given back, not queued. It
/// blocks only on a bounded channel at capacity and never panics.
#[verifier::external_body]
fn channel_send<T>(tx: &crossbeam::channel::Sender<T>, value: T) -> (r: bool) {
    tx.send(value).is_ok()
}

/// Relies on crossbeam's `Receiver::recv`: blocks until a message
/// arrives, `None` once the channel is empty and disconnected. It never
/// panics.
#[verifier::external_body]
fn channel_recv<T>(rx: &crossbeam::channel::Receiver<T>) -> (r: Option<T>) {
    rx.recv().ok()
}

/// Thread-safe pull-based handle over a columnar file reader that is
/// itself not safe to share: a worker owns the reader, and this handle
/// exchanges one pull message for one reply over a pair of channels, in
/// strict first-in-first-out order.
///
/// The worker is started by the embedder, which moves the reader onto
/// it; dropping this handle closes the pull channel, which the worker
/// observes as its signal to stop.
pub struct ParquetScanPartition {
    schema: Schema,
    request_tx: crossbeam::channel::Sender<()>,
    response_rx: crossbeam::channel::Receiver<Result<Option<RecordBatch>, DataFusionError>>,
    pulls_left: usize,
}

impl ParquetScanPartition {
    /// Wrap the handle's half of the worker handshake: the schema the
    /// stream will report, the pull sender and the reply receiver.
    pub fn new(
        schema: Schema,
        request_tx: crossbeam::channel::Sender<()>,
        response_rx: crossbeam::channel::Receiver<Result<Option<RecordBatch>, DataFusionError>>,
    ) -> (r: ParquetScanPartition)
        ensures
            r.inv(),
            r.spec_schema() == schema@,
            r.remaining() == usize::MAX,
    {
        ParquetScanPartition { schema, request_tx, response_rx, pulls_left: usize::MAX }
    }
}

impl BatchProducer for ParquetScanPartition {
    closed spec fn inv(&self) -> bool {
        true
    }

    /// The handle refuses further pulls only after `usize::MAX`
    /// delivered batches, which bounds every consuming loop.
    closed spec fn remaining(&self) -> nat {
        self.pulls_left as nat
    }

    closed spec fn spec_schema(&self) -> Seq<FieldV> {
        self.schema@
    }

    fn schema(&self) -> (r: &Schema)
        ensures
            r@ == self.spec_schema(),
    {
        &self.schema
    }

    /// Send one pull and block for the worker's reply: the batch or
    /// error the underlying reader produced, in pull order. A broken
    /// channel on either side surfaces as a `General` error, as does an
    /// exhausted pull budget.
    fn next(&mut self) -> (r: Result<Option<RecordBatch>, DataFusionError>)
        ensures
            old(self).remaining() == 0 ==> (r matches Err(e) && e is General),
            final(self).remaining() <= old(self).remaining(),
    {
        if self.pulls_left == 0 {
            return Err(
                DataFusionError::General("partition stream exhausted its pull budget".to_owned()),
            );
        }
        if !channel_send(&self.request_tx, ()) {
            return Err(
                DataFusionError::General("Error sending request for next batch".to_owned()),
            );
        }
        match channel_recv(&self.response_rx) {
            Some(reply) => match reply {
                Ok(Some(b)) => {
                    self.pulls_left = self.pulls_left - 1;
                    Ok(Some(b))
                },
                Ok(None) => Ok(None),
                Err(e) => Err(e),
            },
            None => Err(DataFusionError::General("Error receiving batch".to_owned())),
        }
    }
}

} // verus!
