//! The logical streams of the IBD protocols: what each arrival on the incoming route yields, and
//! when the next batch is requested from the syncer.

use vstd::prelude::*;

verus! {

/// Items per requested batch.
pub const IBD_BATCH_SIZE: usize = 99;

/// Why a stream stops with an error.
#[derive(Debug, Clone, Copy, PartialEq, Eq, Structural)]
pub enum StreamError {
    /// A trusted entry carried a header-only block.
    HeaderOnlyTrustedEntry,
    /// A headers message held no header.
    EmptyHeadersMessage,
    /// The syncer's pruning point moved during the UTXO-set download.
    UnexpectedPruningPoint,
    /// A message of another kind arrived.
    UnexpectedMessage,
    /// The route was closed.
    ConnectionClosed,
    /// Nothing arrived within the timeout.
    Timeout,
}

/// What arrived on the route of a stream (after the message was decoded).
#[derive(Debug, Clone, Copy, PartialEq, Eq, Structural)]
pub enum Arrival {
    /// A trusted entry; `header_only` when its block carries no body.
    TrustedEntry { header_only: bool },
    /// A chunk of `len` items (headers or UTXOs).
    Chunk { len: usize },
    /// The syncer's end-of-stream message.
    Done,
    /// The syncer reports that its pruning point moved.
    UnexpectedPruningPoint,
    /// A message the stream does not expect.
    Other,
    /// The route was closed.
    Closed,
    /// The receive timed out.
    TimedOut,
}

/// The outcome of one arrival: `Ok(true)` for an item, `Ok(false)` for the end of the stream, or
/// the error; and whether the next batch is to be requested.
#[derive(Debug, Clone, Copy)]
pub struct StreamStep {
    pub outcome: Result<bool, StreamError>,
    pub request_next: bool,
}

/// The error of an arrival that carries neither an item nor the end of the stream.
pub open spec fn arrival_error(a: Arrival) -> StreamError {
    match a {
        Arrival::Closed => StreamError::ConnectionClosed,
        Arrival::TimedOut => StreamError::Timeout,
        _ => StreamError::UnexpectedMessage,
    }
}

fn route_error(a: Arrival) -> (r: StreamError)
    ensures
        r == arrival_error(a),
{
    match a {
        Arrival::Closed => StreamError::ConnectionClosed,
        Arrival::TimedOut => StreamError::Timeout,
        _ => StreamError::UnexpectedMessage,
    }
}

/// The stream of the pruning point and its anticone, as trusted entries.
pub struct TrustedEntryStream {
    i: usize,
}

impl TrustedEntryStream {
    /// The number of entries received.
    pub closed spec fn received(&self) -> usize {
        self.i
    }

    pub fn new() -> (r: Self)
        ensures
            r.received() == 0,
    {
        TrustedEntryStream { i: 0 }
    }

    /// Takes one arrival: an entry with a body is an item (every `IBD_BATCH_SIZE`-th one asks for
    /// the next batch), a header-only entry is an error, the end message ends the stream, anything
    /// else is an error.
    pub fn next(&mut self, arrival: Arrival) -> (r: StreamStep)
        requires
            old(self).received() < usize::MAX,
        ensures
            match arrival {
                Arrival::TrustedEntry { header_only } => if header_only {
                    r == (StreamStep { outcome: Err(StreamError::HeaderOnlyTrustedEntry), request_next: false })
                        && final(self).received() == old(self).received()
                } else {
                    final(self).received() == old(self).received() + 1 && r == (StreamStep {
                        outcome: Ok(true),
                        request_next: final(self).received() % IBD_BATCH_SIZE == 0,
                    })
                },
                Arrival::Done => r == (StreamStep { outcome: Ok(false), request_next: false }) && final(self).received()
                    == old(self).received(),
                _ => r == (StreamStep { outcome: Err(arrival_error(arrival)), request_next: false })
                    && final(self).received() == old(self).received(),
            },
    {
        match arrival {
            Arrival::TrustedEntry { header_only } => {
                if header_only {
                    StreamStep { outcome: Err(StreamError::HeaderOnlyTrustedEntry), request_next: false }
                } else {
                    self.i = self.i + 1;
                    StreamStep { outcome: Ok(true), request_next: self.i % IBD_BATCH_SIZE == 0 }
                }
            },
            Arrival::Done => StreamStep { outcome: Ok(false), request_next: false },
            _ => StreamStep { outcome: Err(route_error(arrival)), request_next: false },
        }
    }
}

/// The stream of header chunks.
pub struct HeadersChunkStream {
    i: usize,
}

impl HeadersChunkStream {
    /// The number of chunks received.
    pub closed spec fn received(&self) -> usize {
        self.i
    }

    pub fn new() -> (r: Self)
        ensures
            r.received() == 0,
    {
        HeadersChunkStream { i: 0 }
    }

    /// Takes one arrival: a non-empty chunk is an item and always asks for the next one, an empty
    /// chunk is an error, the end message ends the stream, anything else is an error.
    pub fn next(&mut self, arrival: Arrival) -> (r: StreamStep)
        requires
            old(self).received() < usize::MAX,
        ensures
            match arrival {
                Arrival::Chunk { len } => if len == 0 {
                    r == (StreamStep { outcome: Err(StreamError::EmptyHeadersMessage), request_next: false })
                        && final(self).received() == old(self).received()
                } else {
                    r == (StreamStep { outcome: Ok(true), request_next: true }) && final(self).received() == old(
                        self,
                    ).received() + 1
                },
                Arrival::Done => r == (StreamStep { outcome: Ok(false), request_next: false }) && final(self).received()
                    == old(self).received(),
                _ => r == (StreamStep { outcome: Err(arrival_error(arrival)), request_next: false })
                    && final(self).received() == old(self).received(),
            },
    {
        match arrival {
            Arrival::Chunk { len } => {
                if len == 0 {
                    StreamStep { outcome: Err(StreamError::EmptyHeadersMessage), request_next: false }
                } else {
                    self.i = self.i + 1;
                    StreamStep { outcome: Ok(true), request_next: true }
                }
            },
            Arrival::Done => StreamStep { outcome: Ok(false), request_next: false },
            _ => StreamStep { outcome: Err(route_error(arrival)), request_next: false },
        }
    }
}

/// The stream of the pruning point's UTXO-set chunks.
pub struct PruningPointUtxosetChunkStream {
    i: usize,
    utxo_count: usize,
}

impl PruningPointUtxosetChunkStream {
    /// The number of chunks received.
    pub closed spec fn received(&self) -> usize {
        self.i
    }

    /// The number of UTXOs received.
    pub closed spec fn utxos(&self) -> usize {
        self.utxo_count
    }

    pub fn new() -> (r: Self)
        ensures
            r.received() == 0,
            r.utxos() == 0,
    {
        PruningPointUtxosetChunkStream { i: 0, utxo_count: 0 }
    }

    /// The number of UTXOs received so far.
    pub fn utxo_count(&self) -> (r: usize)
        ensures
            r == self.utxos(),
    {
        self.utxo_count
    }

    /// Takes one arrival: a chunk is an item counted with its UTXOs (every
    /// `IBD_BATCH_SIZE`-th chunk asks for the next batch), the end message ends the stream, a
    /// moved pruning point is refused, anything else is an error.
    pub fn next(&mut self, arrival: Arrival) -> (r: StreamStep)
        requires
            old(self).received() < usize::MAX,
            arrival matches Arrival::Chunk { len } ==> old(self).utxos() + len <= usize::MAX,
        ensures
            match arrival {
                Arrival::Chunk { len } => final(self).received() == old(self).received() + 1 && final(self).utxos()
                    == old(self).utxos() + len && r == (StreamStep {
                    outcome: Ok(true),
                    request_next: final(self).received() % IBD_BATCH_SIZE == 0,
                }),
                Arrival::Done => r == (StreamStep { outcome: Ok(false), request_next: false }) && final(self).received()
                    == old(self).received() && final(self).utxos() == old(self).utxos(),
                Arrival::UnexpectedPruningPoint => r == (StreamStep {
                    outcome: Err(StreamError::UnexpectedPruningPoint),
                    request_next: false,
                }) && final(self).received() == old(self).received() && final(self).utxos() == old(self).utxos(),
                _ => r == (StreamStep { outcome: Err(arrival_error(arrival)), request_next: false })
                    && final(self).received() == old(self).received() && final(self).utxos() == old(self).utxos(),
            },
    {
        match arrival {
            Arrival::Chunk { len } => {
                self.i = self.i + 1;
                self.utxo_count = self.utxo_count + len;
                StreamStep { outcome: Ok(true), request_next: self.i % IBD_BATCH_SIZE == 0 }
            },
            Arrival::Done => StreamStep { outcome: Ok(false), request_next: false },
            Arrival::UnexpectedPruningPoint => StreamStep {
                outcome: Err(StreamError::UnexpectedPruningPoint),
                request_next: false,
            },
            _ => StreamStep { outcome: Err(route_error(arrival)), request_next: false },
        }
    }
}

} // verus!
