//! Transmitting a signed transaction to its holder account, chunk by chunk.
use crate::rome::TxBuilder;
use vstd::bytes::{spec_u64_to_le_bytes, u64_to_le_bytes};
use vstd::prelude::*;

verus! {

/// The most bytes of a transaction that one instruction carries.
pub const TRANSMIT_TX_SIZE: usize = 800;

/// The holder account and the fee recipient of a transaction, as the bytes
/// by which instruction data names them.
#[derive(Clone, Debug, PartialEq, Eq)]
pub struct Resource {
    pub holder: Vec<u8>,
    pub fee_recipient: Vec<u8>,
}

/// By how many bytes one instruction may grow an account, as
/// `solana_sdk::entrypoint::MAX_PERMITTED_DATA_INCREASE` gives it: ten times
/// 1024.
#[verifier::external_body]
fn max_permitted_data_increase() -> (bytes: usize)
    ensures
        bytes == 10240,
{
    solana_sdk::entrypoint::MAX_PERMITTED_DATA_INCREASE
}

/// The data of one outgoing instruction: the opcode, the holder, the offset
/// of the chunk, the transaction hash, the chain id, then the chunk. Both
/// numbers are little-endian.
pub open spec fn transmit_frame(
    opcode: u8,
    holder: Seq<u8>,
    offset: u64,
    hash: Seq<u8>,
    chain_id: u64,
    bin: Seq<u8>,
) -> Seq<u8> {
    seq![opcode] + holder + spec_u64_to_le_bytes(offset) + hash + spec_u64_to_le_bytes(chain_id)
        + bin
}

/// The pieces of `data`, each of `size` items but the last, which holds what
/// is left.
pub open spec fn chunks_of<T>(data: Seq<T>, size: int) -> Seq<Seq<T>>
    decreases data.len(),
{
    if data.len() == 0 || size <= 0 {
        Seq::empty()
    } else if data.len() <= size {
        seq![data]
    } else {
        seq![data.take(size)] + chunks_of(data.skip(size), size)
    }
}

/// The contents of a list of vectors.
pub open spec fn contents<T>(pieces: Seq<Vec<T>>) -> Seq<Seq<T>> {
    pieces.map_values(|piece: Vec<T>| piece@)
}

proof fn lemma_chunks_step<T>(head: Seq<T>, rest: Seq<T>, size: int)
    requires
        head.len() == size,
        size > 0,
    ensures
        chunks_of(head + rest, size) == seq![head] + chunks_of(rest, size),
{
    let all = head + rest;
    if rest.len() == 0 {
        assert(all == head);
    } else {
        assert(all.take(size) == head);
        assert(all.skip(size) == rest);
    }
}

/// Cuts a vector into pieces of `chunk_size` items; the last piece holds what
/// is left. An empty vector has no piece.
pub fn into_chunks<T>(data: Vec<T>, chunk_size: usize) -> (chunks: Vec<Vec<T>>)
    requires
        chunk_size > 0,
    ensures
        contents(chunks@) == chunks_of(data@, chunk_size as int),
{
    let ghost all = data@;
    let mut chunks: Vec<Vec<T>> = Vec::new();
    let mut current: Vec<T> = Vec::new();
    proof {
        assert(current@ + all.skip(0) == all);
        assert(contents(chunks@) + chunks_of(all, chunk_size as int) == chunks_of(
            all,
            chunk_size as int,
        ));
    }
    for item in it: data
        invariant
            it.seq() == all,
            chunk_size > 0,
            current@.len() < chunk_size,
            chunks_of(all, chunk_size as int) == contents(chunks@) + chunks_of(
                current@ + all.skip(it.index() as int),
                chunk_size as int,
            ),
    {
        let ghost before = current@;
        let ghost rest = all.skip(it.index() as int);
        let ghost done = contents(chunks@);
        current.push(item);
        proof {
            assert(rest.len() > 0);
            assert(before + rest == current@ + all.skip(it.index() + 1));
        }
        if current.len() == chunk_size {
            proof {
                lemma_chunks_step(current@, all.skip(it.index() + 1), chunk_size as int);
            }
            let mut full: Vec<T> = Vec::new();
            std::mem::swap(&mut full, &mut current);
            chunks.push(full);
            proof {
                assert(contents(chunks@) == done.push(full@));
                assert(current@ + all.skip(it.index() + 1) == all.skip(it.index() + 1));
            }
        }
    }
    proof {
        assert(all.skip(all.len() as int) == Seq::<T>::empty());
        assert(current@ + Seq::<T>::empty() == current@);
    }
    if current.len() > 0 {
        let ghost done = contents(chunks@);
        chunks.push(current);
        assert(contents(chunks@) == done.push(current@));
    }
    chunks
}

proof fn lemma_chunks_of_contents<T>(pieces: Seq<Vec<T>>, size: int)
    ensures
        chunks_of(contents(pieces), size) == chunks_of(pieces, size).map_values(
            |chunk: Seq<Vec<T>>| contents(chunk),
        ),
    decreases pieces.len(),
{
    let lifted = |chunk: Seq<Vec<T>>| contents(chunk);
    if pieces.len() == 0 || size <= 0 {
        assert(chunks_of(pieces, size).map_values(lifted) == Seq::<Seq<Seq<T>>>::empty());
    } else if pieces.len() <= size {
        assert(chunks_of(pieces, size).map_values(lifted) == seq![contents(pieces)]);
    } else {
        lemma_chunks_of_contents(pieces.skip(size), size);
        assert(contents(pieces).take(size) == contents(pieces.take(size)));
        assert(contents(pieces).skip(size) == contents(pieces.skip(size)));
        assert(chunks_of(pieces, size).map_values(lifted) == seq![contents(pieces.take(size))]
            + chunks_of(pieces.skip(size), size).map_values(lifted));
    }
}

/// Copies the bytes from `start` up to `end`.
pub(crate) fn copy_range(bytes: &Vec<u8>, start: usize, end: usize) -> (copy: Vec<u8>)
    requires
        start <= end <= bytes.len(),
    ensures
        copy@ == bytes@.subrange(start as int, end as int),
{
    let mut copy: Vec<u8> = Vec::new();
    let mut i: usize = start;
    while i < end
        invariant
            start <= i <= end <= bytes.len(),
            copy@ == bytes@.subrange(start as int, i as int),
        decreases end - i,
    {
        copy.push(bytes[i]);
        i = i + 1;
    }
    copy
}

/// Appends the 32 bytes of a hash.
pub(crate) fn with_hash(data: Vec<u8>, hash: &[u8; 32]) -> (longer: Vec<u8>)
    ensures
        longer@ == data@ + hash@,
{
    let ghost head = data@;
    let mut data = data;
    let mut i: usize = 0;
    while i < 32
        invariant
            i <= 32,
            data@ == head + hash@.take(i as int),
        decreases 32 - i,
    {
        data.push(hash[i]);
        i = i + 1;
    }
    assert(hash@.take(32) == hash@);
    data
}

/// Turns a list around.
pub(crate) fn reversed<T>(items: Vec<T>) -> (turned: Vec<T>)
    ensures
        turned@ == items@.reverse(),
{
    let ghost all = items@;
    let mut items = items;
    let mut turned: Vec<T> = Vec::new();
    while items.len() > 0
        invariant
            items@.len() + turned@.len() == all.len(),
            items@ == all.take(items@.len() as int),
            forall|j: int| 0 <= j < turned@.len() ==> turned@[j] == all[all.len() - 1 - j],
        decreases items.len(),
    {
        let item = items.pop();
        match item {
            Some(item) => {
                turned.push(item);
            },
            None => {},
        }
    }
    assert(turned@ =~= all.reverse());
    turned
}

/// How far the transmission has come.
#[derive(Clone, Debug, PartialEq, Eq)]
pub enum Steps {
    /// Nothing has gone out; the chunks are yet to be made.
    Init,
    /// The batches that are still to go out, the next one last.
    Execute(Vec<Vec<Vec<u8>>>),
    /// Every batch has gone out.
    Complete,
}

impl Steps {
    /// The batches that are still to go out, the next one first.
    pub open spec fn pending(self) -> Seq<Vec<Vec<u8>>> {
        match self {
            Steps::Execute(batches) => batches@.reverse(),
            _ => Seq::empty(),
        }
    }
}

/// The contents of a list of batches.
pub open spec fn batch_contents(batches: Seq<Vec<Vec<u8>>>) -> Seq<Seq<Seq<u8>>> {
    batches.map_values(|batch: Vec<Vec<u8>>| contents(batch@))
}

/// A signed transaction on its way to the holder account.
#[derive(Clone, Debug, PartialEq, Eq)]
pub struct TransmitTx {
    pub tx_builder: TxBuilder,
    /// The signed transaction, RLP-encoded.
    pub rlp: Vec<u8>,
    /// The hash of the transaction.
    pub hash: [u8; 32],
    pub resource: Resource,
    /// The opcode of the instruction that writes a chunk to the holder.
    pub opcode: u8,
    pub step: Steps,
}

/// What goes out next.
#[derive(Clone, Debug, PartialEq, Eq)]
pub enum TransmitAction {
    /// Emulate an instruction with this data; the chunks are made once the
    /// emulation has succeeded.
    Emulate { data: Vec<u8> },
    /// Execute in parallel one instruction for each of these payloads.
    Parallel { payloads: Vec<Vec<u8>> },
    /// Nothing is left to do.
    End,
}

impl TransmitTx {
    /// The data that carries the chunk `bin` at `offset`.
    pub open spec fn frame(&self, offset: u64, bin: Seq<u8>) -> Seq<u8> {
        transmit_frame(
            self.opcode,
            self.resource.holder@,
            offset,
            self.hash@,
            self.tx_builder.chain_id,
            bin,
        )
    }

    /// The data of every instruction from the byte `start` of the transaction
    /// on: one for each chunk of at most `TRANSMIT_TX_SIZE` bytes, each with
    /// the offset at which its chunk starts.
    pub open spec fn frames_from(&self, start: int) -> Seq<Seq<u8>>
        decreases self.rlp@.len() - start,
    {
        if start < 0 || start >= self.rlp@.len() {
            Seq::empty()
        } else {
            let end = if start + TRANSMIT_TX_SIZE <= self.rlp@.len() {
                start + TRANSMIT_TX_SIZE
            } else {
                self.rlp@.len() as int
            };
            seq![self.frame(start as u64, self.rlp@.subrange(start, end))] + self.frames_from(end)
        }
    }

    /// The batches in which the instructions go out: twelve instructions to a
    /// batch, as many as fit the growth that one account is permitted.
    pub open spec fn planned(&self) -> Seq<Seq<Seq<u8>>> {
        chunks_of(self.frames_from(0), 10240int / (TRANSMIT_TX_SIZE as int))
    }

    /// No field but the step differs between `self` and `next`.
    pub open spec fn same_transaction(&self, next: TransmitTx) -> bool {
        next == (TransmitTx { step: next.step, ..*self })
    }

    /// Wraps a signed transaction for transmission.
    pub fn new(tx_builder: TxBuilder, resource: Resource, rlp: Vec<u8>, hash: [u8; 32], opcode: u8) -> (tx:
        Self)
        ensures
            tx == (TransmitTx { tx_builder, rlp, hash, resource, opcode, step: Steps::Init }),
    {
        Self { tx_builder, rlp, hash, resource, opcode, step: Steps::Init }
    }

    /// Frames one chunk of the transaction as instruction data.
    pub fn tx_data(&self, offset: u64, bin: Vec<u8>) -> (data: Vec<u8>)
        ensures
            data@ == self.frame(offset, bin@),
    {
        let mut data: Vec<u8> = Vec::new();
        data.push(self.opcode);
        data.extend_from_slice(self.resource.holder.as_slice());
        let mut offset_bytes = u64_to_le_bytes(offset);
        data.append(&mut offset_bytes);
        let mut data = with_hash(data, &self.hash);
        let mut chain_bytes = u64_to_le_bytes(self.tx_builder.chain_id);
        data.append(&mut chain_bytes);
        let mut bin = bin;
        data.append(&mut bin);
        data
    }

    /// Makes the data of every instruction that carries a chunk of the
    /// transaction, in the order of the chunks.
    pub fn ixs(&self) -> (payloads: Vec<Vec<u8>>)
        ensures
            contents(payloads@) == self.frames_from(0),
    {
        let mut payloads: Vec<Vec<u8>> = Vec::new();
        let mut start: usize = 0;
        while start < self.rlp.len()
            invariant
                start <= self.rlp.len(),
                contents(payloads@) + self.frames_from(start as int) == self.frames_from(0),
            decreases self.rlp.len() - start,
        {
            let end = if self.rlp.len() - start >= TRANSMIT_TX_SIZE {
                start + TRANSMIT_TX_SIZE
            } else {
                self.rlp.len()
            };
            let chunk = copy_range(&self.rlp, start, end);
            let ghost done = contents(payloads@);
            let data = self.tx_data(start as u64, chunk);
            payloads.push(data);
            proof {
                assert(contents(payloads@) == done.push(data@));
                assert(done.push(data@) + self.frames_from(end as int) == done + self.frames_from(
                    start as int,
                ));
            }
            start = end;
        }
        assert(contents(payloads@) + Seq::<Seq<u8>>::empty() == contents(payloads@));
        payloads
    }

    /// What an advance does once the chunks are made: the next batch goes
    /// out, or, when none is left, the transmission is complete.
    pub open spec fn proceeds(
        &self,
        pending: Seq<Vec<Vec<u8>>>,
        next: TransmitTx,
        action: TransmitAction,
    ) -> bool {
        &&& self.same_transaction(next)
        &&& if pending.len() > 0 {
            &&& next.step is Execute
            &&& next.step.pending() == pending.drop_first()
            &&& action == (TransmitAction::Parallel { payloads: pending[0] })
        } else {
            &&& next.step is Complete
            &&& action is End
        }
    }

    fn proceed(self, batches: Vec<Vec<Vec<u8>>>) -> (r: (TransmitTx, TransmitAction))
        ensures
            self.proceeds(batches@.reverse(), r.0, r.1),
    {
        let TransmitTx { tx_builder, rlp, hash, resource, opcode, step: _ } = self;
        let ghost pending = batches@.reverse();
        let mut batches = batches;
        match batches.pop() {
            Some(payloads) => {
                assert(batches@.reverse() =~= pending.drop_first());
                (
                    TransmitTx { tx_builder, rlp, hash, resource, opcode, step: Steps::Execute(batches) },
                    TransmitAction::Parallel { payloads },
                )
            },
            None => (
                TransmitTx { tx_builder, rlp, hash, resource, opcode, step: Steps::Complete },
                TransmitAction::End,
            ),
        }
    }

    /// Decides what goes out next. Before the chunks are made it asks for the
    /// emulation of the whole transaction at offset 0, and changes nothing.
    pub fn advance(self) -> (r: (TransmitTx, TransmitAction))
        ensures
            match self.step {
                Steps::Init => {
                    &&& r.0 == self
                    &&& r.1 matches TransmitAction::Emulate { data }
                    &&& data@ == self.frame(0, self.rlp@)
                },
                Steps::Execute(_) => self.proceeds(self.step.pending(), r.0, r.1),
                Steps::Complete => r.0 == self && r.1 is End,
            },
    {
        match &self.step {
            Steps::Init => {
                let whole = copy_range(&self.rlp, 0, self.rlp.len());
                assert(whole@ == self.rlp@);
                let data = self.tx_data(0, whole);
                (self, TransmitAction::Emulate { data })
            },
            Steps::Execute(_) => {
                let TransmitTx { tx_builder, rlp, hash, resource, opcode, step } = self;
                match step {
                    Steps::Execute(batches) => (TransmitTx {
                        tx_builder,
                        rlp,
                        hash,
                        resource,
                        opcode,
                        step: Steps::Init,
                    }).proceed(batches),
                    _ => (
                        TransmitTx { tx_builder, rlp, hash, resource, opcode, step: Steps::Complete },
                        TransmitAction::End,
                    ),
                }
            },
            Steps::Complete => (self, TransmitAction::End),
        }
    }

    /// Takes note that the emulation has succeeded. The chunks are made and
    /// put into batches, and the first batch goes out. Later on this is an
    /// advance like any other.
    pub fn emulated(self) -> (r: (TransmitTx, TransmitAction))
        ensures
            match self.step {
                Steps::Init => exists|pending: Seq<Vec<Vec<u8>>>|
                    {
                        &&& #[trigger] batch_contents(pending) == self.planned()
                        &&& self.proceeds(pending, r.0, r.1)
                    },
                Steps::Execute(_) => self.proceeds(self.step.pending(), r.0, r.1),
                Steps::Complete => r.0 == self && r.1 is End,
            },
    {
        match &self.step {
            Steps::Init => {
                let payloads = self.ixs();
                let limit = max_permitted_data_increase() / TRANSMIT_TX_SIZE;
                let ghost made = payloads@;
                let batches = into_chunks(payloads, limit);
                let ghost pending = batches@;
                proof {
                    lemma_chunks_of_contents(made, limit as int);
                    assert(batch_contents(pending) =~= chunks_of(made, limit as int).map_values(
                        |chunk: Seq<Vec<u8>>| contents(chunk),
                    )) by {
                        assert(contents(batches@) == chunks_of(made, limit as int));
                        assert forall|i: int| 0 <= i < pending.len() implies batch_contents(
                            pending,
                        )[i] == contents(chunks_of(made, limit as int)[i]) by {
                            assert(contents(batches@)[i] == pending[i]@);
                        }
                    }
                }
                let turned = reversed(batches);
                assert(turned@.reverse() =~= pending);
                self.proceed(turned)
            },
            _ => self.advance(),
        }
    }
}

} // verus!
