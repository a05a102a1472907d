//! Executing a transmitted transaction from its holder account, iteration by
//! iteration, and confirming it.
use crate::transmit_tx::{
    batch_contents, contents, with_hash, Steps as TransmitSteps, TransmitAction, TransmitTx,
};
use vstd::bytes::{spec_u64_to_le_bytes, u64_to_le_bytes};
use vstd::prelude::*;

verus! {

/// How far the execution has come.
#[derive(Clone, Copy, Debug, PartialEq, Eq, Structural)]
pub enum Steps {
    /// The transaction is on its way to the holder account.
    Transmit,
    /// The iterations are to go out.
    Execute,
    /// The outcome is to be confirmed.
    Confirm,
    /// Nothing is left to do.
    End,
}

/// A transaction that is executed from its holder account in iterations.
#[derive(Clone, Debug, PartialEq, Eq)]
pub struct IterativeTxHolder {
    pub transmit_tx: TransmitTx,
    /// The opcode of the instruction that runs one iteration.
    pub opcode: u8,
    pub step: Steps,
    /// The number that tells this execution from every other.
    pub session: u64,
}

/// What goes out next.
#[derive(Clone, Debug, PartialEq, Eq)]
pub enum HolderAction {
    /// A step of the transmission.
    Transmit(TransmitAction),
    /// Emulate an instruction with this data, then send the iterations.
    Emulate { data: Vec<u8> },
    /// Ask whether the execution of this session is confirmed.
    Confirm { session: u64 },
    /// Nothing is left to do.
    End,
}

/// Draws a session number with `rand::random`. Nothing is known of it.
#[verifier::external_body]
fn random_session() -> u64 {
    rand::random()
}

impl IterativeTxHolder {
    /// What follows the opcode and the numbers in every instruction of this
    /// execution: the holder, the transaction hash, the chain id as
    /// little-endian bytes, and the fee recipient.
    pub open spec fn tail(&self) -> Seq<u8> {
        self.transmit_tx.resource.holder@ + self.transmit_tx.hash@ + spec_u64_to_le_bytes(
            self.transmit_tx.tx_builder.chain_id,
        ) + self.transmit_tx.resource.fee_recipient@
    }

    /// The data with which the execution is emulated: the opcode, the
    /// session, and the tail.
    pub open spec fn emulation_frame(&self) -> Seq<u8> {
        seq![self.opcode] + spec_u64_to_le_bytes(self.session) + self.tail()
    }

    /// The data of the iteration `unique`: the opcode, the number of the
    /// iteration, the session, the tail, and the lock overrides that the
    /// emulation gave.
    pub open spec fn iteration_frame(&self, unique: u64, lock_overrides: Seq<u8>) -> Seq<u8> {
        seq![self.opcode] + spec_u64_to_le_bytes(unique) + spec_u64_to_le_bytes(self.session)
            + self.tail() + lock_overrides
    }

    /// The data of the first `count` iterations, in order.
    pub open spec fn iteration_frames(&self, count: u64, lock_overrides: Seq<u8>) -> Seq<Seq<u8>> {
        Seq::new(count as nat, |unique: int| self.iteration_frame(unique as u64, lock_overrides))
    }

    /// No field but the step and the transmission's step differs between
    /// `self` and `next`.
    pub open spec fn same_execution(&self, next: IterativeTxHolder) -> bool {
        &&& next.opcode == self.opcode
        &&& next.session == self.session
        &&& self.transmit_tx.same_transaction(next.transmit_tx)
    }

    /// Wraps a transmission for an execution of the given session. With an
    /// address lookup table in use nothing is transmitted, and the execution
    /// starts with the iterations.
    pub fn with_session(transmit_tx: TransmitTx, use_alt: bool, opcode: u8, session: u64) -> (holder:
        Self)
        ensures
            holder == (IterativeTxHolder {
                transmit_tx,
                opcode,
                step: if use_alt {
                    Steps::Execute
                } else {
                    Steps::Transmit
                },
                session,
            }),
    {
        let step = if use_alt {
            Steps::Execute
        } else {
            Steps::Transmit
        };
        Self { transmit_tx, opcode, step, session }
    }

    /// Wraps a transmission for an execution of a session drawn at random.
    pub fn new(transmit_tx: TransmitTx, use_alt: bool, opcode: u8) -> (holder: Self)
        ensures
            holder == (IterativeTxHolder {
                transmit_tx,
                opcode,
                step: if use_alt {
                    Steps::Execute
                } else {
                    Steps::Transmit
                },
                session: holder.session,
            }),
    {
        Self::with_session(transmit_tx, use_alt, opcode, random_session())
    }

    fn with_tail(&self, data: Vec<u8>) -> (longer: Vec<u8>)
        ensures
            longer@ == data@ + self.tail(),
    {
        let mut data = data;
        data.extend_from_slice(self.transmit_tx.resource.holder.as_slice());
        let mut data = with_hash(data, &self.transmit_tx.hash);
        let mut chain_bytes = u64_to_le_bytes(self.transmit_tx.tx_builder.chain_id);
        data.append(&mut chain_bytes);
        data.extend_from_slice(self.transmit_tx.resource.fee_recipient.as_slice());
        data
    }

    /// Frames the instruction with which the execution is emulated.
    pub fn emulation_data(&self) -> (data: Vec<u8>)
        ensures
            data@ == self.emulation_frame(),
    {
        let mut data: Vec<u8> = Vec::new();
        data.push(self.opcode);
        let mut session_bytes = u64_to_le_bytes(self.session);
        data.append(&mut session_bytes);
        self.with_tail(data)
    }

    /// Frames the instruction of one iteration. The data of an iteration
    /// differs from the data of the emulation.
    pub fn tx_data(&self, lock_overrides: &Vec<u8>, unique: u64) -> (data: Vec<u8>)
        ensures
            data@ == self.iteration_frame(unique, lock_overrides@),
    {
        let mut data: Vec<u8> = Vec::new();
        data.push(self.opcode);
        let mut unique_bytes = u64_to_le_bytes(unique);
        data.append(&mut unique_bytes);
        let mut session_bytes = u64_to_le_bytes(self.session);
        data.append(&mut session_bytes);
        let mut data = self.with_tail(data);
        data.extend_from_slice(lock_overrides.as_slice());
        data
    }

    /// Makes the data of `count` iterations, numbered from 0.
    pub fn ixs(&self, lock_overrides: &Vec<u8>, count: u64) -> (payloads: Vec<Vec<u8>>)
        ensures
            contents(payloads@) == self.iteration_frames(count, lock_overrides@),
    {
        let mut payloads: Vec<Vec<u8>> = Vec::new();
        let mut unique: u64 = 0;
        while unique < count
            invariant
                unique <= count,
                contents(payloads@) == self.iteration_frames(unique, lock_overrides@),
            decreases count - unique,
        {
            let ghost done = contents(payloads@);
            let data = self.tx_data(lock_overrides, unique);
            payloads.push(data);
            assert(contents(payloads@) == done.push(data@));
            unique = unique + 1;
        }
        payloads
    }

    /// What the execution does once the transmission has nothing left to
    /// send: the emulation of the iterations is asked for, and the step that
    /// follows is the confirmation, also when the emulation should fail.
    pub open spec fn executes(&self, next: IterativeTxHolder, action: HolderAction) -> bool {
        &&& next.step == Steps::Confirm
        &&& action matches HolderAction::Emulate { data }
        &&& data@ == self.emulation_frame()
    }

    /// What a step of the transmission means for the execution: an action of
    /// the transmission is handed on; its end starts the iterations.
    pub open spec fn transmits(
        &self,
        sent: TransmitAction,
        next: IterativeTxHolder,
        action: HolderAction,
    ) -> bool {
        if sent is End {
            self.executes(next, action)
        } else {
            next.step == Steps::Transmit && action == HolderAction::Transmit(sent)
        }
    }

    fn execute(self) -> (r: (IterativeTxHolder, HolderAction))
        ensures
            self.executes(r.0, r.1),
            r.0 == (IterativeTxHolder { step: Steps::Confirm, ..self }),
    {
        let data = self.emulation_data();
        (IterativeTxHolder { step: Steps::Confirm, ..self }, HolderAction::Emulate { data })
    }

    fn send(transmit_tx: TransmitTx, opcode: u8, session: u64, sent: TransmitAction) -> (r: (
        IterativeTxHolder,
        HolderAction,
    ))
        ensures
            (IterativeTxHolder { transmit_tx, opcode, step: Steps::Transmit, session }).transmits(
                sent,
                r.0,
                r.1,
            ),
            r.0.transmit_tx == transmit_tx,
            r.0.opcode == opcode,
            r.0.session == session,
    {
        let moved = IterativeTxHolder { transmit_tx, opcode, step: Steps::Transmit, session };
        match sent {
            TransmitAction::End => moved.execute(),
            other => (moved, HolderAction::Transmit(other)),
        }
    }

    /// What an advance does.
    ///
    /// While the transaction is on its way, it is an advance of the
    /// transmission; when the transmission ends, the iterations start at
    /// once. After the iterations comes the confirmation, then the end.
    pub open spec fn advances(&self, next: IterativeTxHolder, action: HolderAction) -> bool {
        &&& self.same_execution(next)
        &&& match self.step {
            Steps::Transmit => match self.transmit_tx.step {
                TransmitSteps::Init => {
                    &&& next == *self
                    &&& action matches HolderAction::Transmit(TransmitAction::Emulate { data })
                    &&& data@ == self.transmit_tx.frame(0, self.transmit_tx.rlp@)
                },
                TransmitSteps::Execute(_) => exists|sent: TransmitAction|
                    {
                        &&& #[trigger] self.transmit_tx.proceeds(
                            self.transmit_tx.step.pending(),
                            next.transmit_tx,
                            sent,
                        )
                        &&& self.transmits(sent, next, action)
                    },
                TransmitSteps::Complete => {
                    &&& next.transmit_tx == self.transmit_tx
                    &&& self.executes(next, action)
                },
            },
            Steps::Execute => next.transmit_tx == self.transmit_tx && self.executes(next, action),
            Steps::Confirm => {
                &&& next == (IterativeTxHolder { step: Steps::End, ..*self })
                &&& action == (HolderAction::Confirm { session: self.session })
            },
            Steps::End => next == *self && action is End,
        }
    }

    /// Decides what goes out next.
    pub fn advance(self) -> (r: (IterativeTxHolder, HolderAction))
        ensures
            self.advances(r.0, r.1),
    {
        match self.step {
            Steps::Transmit => {
                let IterativeTxHolder { transmit_tx, opcode, step: _, session } = self;
                let (transmit_tx, sent) = transmit_tx.advance();
                let ghost moved = IterativeTxHolder {
                    transmit_tx,
                    opcode,
                    step: Steps::Transmit,
                    session,
                };
                assert(moved.emulation_frame() == self.emulation_frame());
                Self::send(transmit_tx, opcode, session, sent)
            },
            Steps::Execute => self.execute(),
            Steps::Confirm => {
                let session = self.session;
                (IterativeTxHolder { step: Steps::End, ..self }, HolderAction::Confirm { session })
            },
            Steps::End => (self, HolderAction::End),
        }
    }

    /// Takes note that the emulation which the transmission asked for has
    /// succeeded: the chunks are made, and the first batch goes out. At any
    /// other time this is an advance.
    pub fn emulated(self) -> (r: (IterativeTxHolder, HolderAction))
        ensures
            if self.step == Steps::Transmit && self.transmit_tx.step is Init {
                &&& self.same_execution(r.0)
                &&& exists|pending: Seq<Vec<Vec<u8>>>, sent: TransmitAction|
                    {
                        &&& batch_contents(pending) == self.transmit_tx.planned()
                        &&& #[trigger] self.transmit_tx.proceeds(pending, r.0.transmit_tx, sent)
                        &&& self.transmits(sent, r.0, r.1)
                    }
            } else {
                self.advances(r.0, r.1)
            },
    {
        match (self.step, &self.transmit_tx.step) {
            (Steps::Transmit, TransmitSteps::Init) => {
                let IterativeTxHolder { transmit_tx, opcode, step: _, session } = self;
                let (transmit_tx, sent) = transmit_tx.emulated();
                let ghost moved = IterativeTxHolder {
                    transmit_tx,
                    opcode,
                    step: Steps::Transmit,
                    session,
                };
                assert(moved.emulation_frame() == self.emulation_frame());
                Self::send(transmit_tx, opcode, session, sent)
            },
            _ => self.advance(),
        }
    }

    /// What the confirmation step reports: the status that was read, and
    /// `false` where it could not be read.
    pub fn confirmed<E>(status: Result<bool, E>) -> (confirmed: bool)
        ensures
            confirmed == match status {
                Ok(confirmed) => confirmed,
                Err(_) => false,
            },
    {
        match status {
            Ok(confirmed) => confirmed,
            Err(_) => false,
        }
    }
}

} // verus!
