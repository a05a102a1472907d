//! Fetching one block and filtering its transactions down to those that
//! address the target program.
use crate::codec::{
    decode_outline, decoded_outline, parse_signature, signature_bytes, MessageOutline, OutlineView,
};
use crate::error::{all_ok, first_failure_at, LoaderError};
use crate::ledger::{
    signature_views, Block, BlockHeader, Commitment, Pubkey, Signature, Slot, Transaction,
};
use vstd::prelude::*;

verus! {

impl OutlineView {
    /// At least one instruction's program index resolves to `program`.
    pub open spec fn addresses(self, program: Seq<u8>) -> bool {
        exists|i: int|
            0 <= i < self.program_indexes.len() && (#[trigger] self.program_indexes[i] as int)
                < self.account_keys.len() && self.account_keys[self.program_indexes[i] as int]
                == program
    }
}

/// Whether some instruction of a decoded transaction addresses `program`. An
/// index that points past the account keys resolves to nothing.
pub fn addresses_program(outline: &MessageOutline, program: &Pubkey) -> (r: bool)
    ensures
        r == outline@.addresses(program@),
{
    let mut i: usize = 0;
    while i < outline.program_indexes.len()
        invariant
            i <= outline.program_indexes.len(),
            forall|j: int|
                0 <= j < i ==> !((#[trigger] outline@.program_indexes[j] as int)
                    < outline@.account_keys.len()
                    && outline@.account_keys[outline@.program_indexes[j] as int] == program.bytes@),
        decreases outline.program_indexes.len() - i,
    {
        let index = outline.program_indexes[i] as usize;
        if index < outline.account_keys.len() {
            if outline.account_keys[index].same(program) {
                assert((outline@.program_indexes[i as int] as int) < outline@.account_keys.len()
                    && outline@.account_keys[outline@.program_indexes[i as int] as int]
                    == program.bytes@);
                return true;
            }
        }
        i = i + 1;
    }
    false
}

/// Whether a fetched transaction is kept: its blob decodes and one of its
/// instructions addresses `program`.
pub open spec fn relevant(tx: Transaction, program: Seq<u8>) -> bool {
    match decoded_outline(tx.blob@, tx.encoding) {
        Some(outline) => outline.addresses(program),
        None => false,
    }
}

/// Decides whether a fetched transaction is kept.
pub fn is_relevant(tx: &Transaction, program: &Pubkey) -> (r: bool)
    ensures
        r == relevant(*tx, program@),
{
    match decode_outline(tx.blob.as_str(), tx.encoding) {
        Some(outline) => addresses_program(&outline, program),
        None => false,
    }
}

/// Keeps a fetched transaction only if it addresses `program`. A signature
/// that the ledger does not know, and a failed fetch, pass through.
pub fn load_transaction<E>(fetched: Result<Option<Transaction>, E>, program: &Pubkey) -> (r: Result<
    Option<Transaction>,
    E,
>)
    ensures
        r == match fetched {
            Ok(Some(tx)) => if relevant(tx, program@) {
                Ok::<Option<Transaction>, E>(Some(tx))
            } else {
                Ok(None)
            },
            Ok(None) => Ok(None),
            Err(e) => Err(e),
        },
{
    match fetched {
        Ok(Some(tx)) => {
            if is_relevant(&tx, program) {
                Ok(Some(tx))
            } else {
                Ok(None)
            }
        },
        Ok(None) => Ok(None),
        Err(e) => Err(e),
    }
}

/// The transactions among `fetched` that are kept for `program`, in the order
/// of `fetched`.
pub open spec fn kept<E>(fetched: Seq<Result<Option<Transaction>, E>>, program: Seq<u8>) -> Seq<
    Transaction,
>
    decreases fetched.len(),
{
    if fetched.len() == 0 {
        Seq::empty()
    } else {
        let rest = kept(fetched.drop_last(), program);
        match fetched.last() {
            Ok(Some(tx)) => if relevant(tx, program) {
                rest.push(tx)
            } else {
                rest
            },
            _ => rest,
        }
    }
}

/// No transaction that fails to address the target program is ever kept.
pub proof fn lemma_kept_are_relevant<E>(
    fetched: Seq<Result<Option<Transaction>, E>>,
    program: Seq<u8>,
)
    ensures
        forall|i: int|
            0 <= i < kept(fetched, program).len() ==> relevant(
                #[trigger] kept(fetched, program)[i],
                program,
            ),
    decreases fetched.len(),
{
    if fetched.len() > 0 {
        lemma_kept_are_relevant(fetched.drop_last(), program);
        let rest = kept(fetched.drop_last(), program);
        assert forall|i: int| 0 <= i < kept(fetched, program).len() implies relevant(
            #[trigger] kept(fetched, program)[i],
            program,
        ) by {
            if i < rest.len() {
                assert(kept(fetched, program)[i] == rest[i]);
            }
        }
    }
}

/// Filters the transactions fetched for one block. The first failed fetch, in
/// the order of `fetched`, fails the whole; otherwise the kept transactions
/// come back in order, or `None` where none is kept.
pub fn load_transactions<E>(fetched: Vec<Result<Option<Transaction>, E>>, program: &Pubkey) -> (r:
    Result<Option<Vec<Transaction>>, E>)
    ensures
        match r {
            Err(e) => exists|i: int|
                first_failure_at(fetched@, i) && fetched@[i] == Err::<Option<Transaction>, E>(e),
            Ok(Some(txs)) => all_ok(fetched@) && txs@ == kept(fetched@, program@) && txs@.len()
                > 0,
            Ok(None) => all_ok(fetched@) && kept(fetched@, program@).len() == 0,
        },
        r matches Ok(Some(txs)) ==> forall|i: int|
            0 <= i < txs@.len() ==> relevant(#[trigger] txs@[i], program@),
{
    let ghost all = fetched@;
    let mut txs: Vec<Transaction> = Vec::new();
    for item in it: fetched
        invariant
            it.seq() == all,
            forall|j: int| 0 <= j < it.index() ==> (#[trigger] all[j]) is Ok,
            txs@ == kept(all.take(it.index() as int), program@),
    {
        let ghost i = it.index() as int;
        proof {
            assert(all.take(i + 1).drop_last() == all.take(i));
            assert(all.take(i + 1).last() == all[i]);
        }
        match load_transaction(item, program) {
            Ok(Some(tx)) => {
                txs.push(tx);
            },
            Ok(None) => {},
            Err(e) => {
                assert(first_failure_at(all, i));
                return Err(e);
            },
        }
    }
    proof {
        assert(all.take(all.len() as int) == all);
        lemma_kept_are_relevant(all, program@);
    }
    if txs.len() == 0 {
        Ok(None)
    } else {
        Ok(Some(txs))
    }
}

/// The inclusive bounds of a block's signature range: the last signature that
/// the block reports, then the first. `None` where the block reports no
/// signature or one of the two is no signature.
pub open spec fn bounds_of(signatures: Option<Vec<String>>) -> Option<(Seq<u8>, Seq<u8>)> {
    match signatures {
        Some(texts) => if texts@.len() == 0 {
            None
        } else {
            match (signature_bytes(texts@.last()@), signature_bytes(texts@.first()@)) {
                (Some(before), Some(until)) => Some((before, until)),
                _ => None,
            }
        },
        None => None,
    }
}

/// Finds the bounds of a block's signature range: `(before, until)`, the last
/// and the first signature that the block reports.
pub fn signature_bounds(signatures: &Option<Vec<String>>) -> (r: Option<(Signature, Signature)>)
    ensures
        match r {
            Some((before, until)) => bounds_of(*signatures) == Some((before@, until@)),
            None => bounds_of(*signatures) is None,
        },
{
    match signatures {
        Some(texts) => {
            if texts.len() == 0 {
                return None;
            }
            let before = parse_signature(texts[texts.len() - 1].as_str());
            let until = parse_signature(texts[0].as_str());
            match (before, until) {
                (Some(before), Some(until)) => Some((before, until)),
                _ => None,
            }
        },
        None => None,
    }
}

/// A list with one more signature at its end, unless it holds it already.
pub open spec fn with_signature(list: Seq<Seq<u8>>, signature: Seq<u8>) -> Seq<Seq<u8>> {
    if list.contains(signature) {
        list
    } else {
        list.push(signature)
    }
}

/// A list joined with the signatures among `texts` that parse, in the order
/// of `texts`, each signature once.
pub open spec fn with_parsed(list: Seq<Seq<u8>>, texts: Seq<String>) -> Seq<Seq<u8>>
    decreases texts.len(),
{
    if texts.len() == 0 {
        list
    } else {
        let rest = with_parsed(list, texts.drop_last());
        match signature_bytes(texts.last()@) {
            Some(bytes) => with_signature(rest, bytes),
            None => rest,
        }
    }
}

/// The signatures whose transactions a block fetch asks for, oldest first:
/// the union of `before`, of what the program's index lists between the
/// bounds, and of `until`, the whole reversed. The index lists newest first.
/// No signature stands twice: a block with one signature has `before` and
/// `until` the same, and asks for it once.
pub open spec fn chronological(before: Seq<u8>, until: Seq<u8>, indexed: Seq<String>) -> Seq<
    Seq<u8>,
> {
    with_signature(with_parsed(seq![before], indexed), until).reverse()
}

proof fn lemma_with_parsed_is_distinct(list: Seq<Seq<u8>>, texts: Seq<String>)
    requires
        list.no_duplicates(),
    ensures
        with_parsed(list, texts).no_duplicates(),
        forall|s: Seq<u8>| list.contains(s) ==> with_parsed(list, texts).contains(s),
    decreases texts.len(),
{
    if texts.len() > 0 {
        lemma_with_parsed_is_distinct(list, texts.drop_last());
        let rest = with_parsed(list, texts.drop_last());
        assert forall|s: Seq<u8>| list.contains(s) implies with_parsed(list, texts).contains(
            s,
        ) by {
            let k = choose|k: int| 0 <= k < rest.len() && rest[k] == s;
            assert(with_parsed(list, texts)[k] == s);
        }
    }
}

/// No signature is asked for twice, and both bounds are asked for.
pub proof fn lemma_chronological_is_a_union(before: Seq<u8>, until: Seq<u8>, indexed: Seq<String>)
    ensures
        chronological(before, until, indexed).no_duplicates(),
        chronological(before, until, indexed).contains(before),
        chronological(before, until, indexed).contains(until),
        before == until && indexed.len() == 0 ==> chronological(before, until, indexed) == seq![
            before,
        ],
{
    let first = seq![before];
    assert(first.no_duplicates());
    assert(first[0] == before);
    assert(first.contains(before));
    lemma_with_parsed_is_distinct(first, indexed);
    let joined = with_parsed(first, indexed);
    assert(joined.contains(before));
    let all = with_signature(joined, until);
    assert(all.no_duplicates());
    assert(all.contains(until)) by {
        if joined.contains(until) {
        } else {
            assert(all[joined.len() as int] == until);
        }
    }
    assert(all.contains(before)) by {
        let k = choose|k: int| 0 <= k < joined.len() && joined[k] == before;
        assert(all[k] == before);
    }
    let turned = all.reverse();
    assert(turned.no_duplicates()) by {
        assert forall|i: int, j: int| 0 <= i < turned.len() && 0 <= j < turned.len() && i
            != j implies turned[i] != turned[j] by {
            assert(turned[i] == all[all.len() - 1 - i]);
            assert(turned[j] == all[all.len() - 1 - j]);
        }
    }
    assert forall|s: Seq<u8>| all.contains(s) implies turned.contains(s) by {
        let k = choose|k: int| 0 <= k < all.len() && all[k] == s;
        assert(turned[all.len() - 1 - k] == s);
    }
    if before == until && indexed.len() == 0 {
        assert(all == first);
        assert(turned =~= seq![before]);
    }
}

fn push_new(list: Vec<Signature>, signature: Signature) -> (joined: Vec<Signature>)
    ensures
        signature_views(joined@) == with_signature(signature_views(list@), signature@),
{
    let ghost views = signature_views(list@);
    let mut i: usize = 0;
    while i < list.len()
        invariant
            i <= list.len(),
            views == signature_views(list@),
            forall|j: int| 0 <= j < i ==> views[j] != signature@,
        decreases list.len() - i,
    {
        if list[i].same(&signature) {
            assert(views[i as int] == signature@);
            return list;
        }
        i = i + 1;
    }
    let mut list = list;
    list.push(signature);
    assert(signature_views(list@) == views.push(signature@));
    list
}

/// Puts a block's signatures of interest into chronological order, each
/// once. Entries of the index that are no signature are left out.
pub fn chronological_signatures(before: Signature, until: Signature, indexed: &Vec<String>) -> (out:
    Vec<Signature>)
    ensures
        signature_views(out@) == chronological(before@, until@, indexed@),
{
    let mut newest_first: Vec<Signature> = Vec::new();
    newest_first.push(before);
    assert(signature_views(newest_first@) == seq![before@]);
    let mut i: usize = 0;
    while i < indexed.len()
        invariant
            i <= indexed.len(),
            signature_views(newest_first@) == with_parsed(seq![before@], indexed@.take(i as int)),
        decreases indexed.len() - i,
    {
        proof {
            assert(indexed@.take(i + 1).drop_last() == indexed@.take(i as int));
            assert(indexed@.take(i + 1).last() == indexed@[i as int]);
        }
        match parse_signature(indexed[i].as_str()) {
            Some(s) => {
                newest_first = push_new(newest_first, s);
            },
            None => {},
        }
        i = i + 1;
    }
    proof {
        assert(indexed@.take(indexed@.len() as int) == indexed@);
    }
    let newest_first = push_new(newest_first, until);
    let ghost all = signature_views(newest_first@);
    let mut out: Vec<Signature> = Vec::new();
    let mut k: usize = newest_first.len();
    while k > 0
        invariant
            k <= newest_first.len(),
            out@.len() == newest_first.len() - k,
            forall|j: int| 0 <= j < out@.len() ==> out@[j] == newest_first@[newest_first.len() - 1 - j],
        decreases k,
    {
        k = k - 1;
        out.push(newest_first[k]);
    }
    assert(signature_views(out@) == all.reverse());
    out
}

/// Where the fetch of one block stands.
#[derive(Clone, Debug, PartialEq, Eq)]
pub enum FetchStage {
    /// The header and the block's signature list have been asked for.
    Header,
    /// The program's signature index has been asked for, between the bounds.
    Index { parent_slot: Slot, content_hash: String, before: Signature, until: Signature },
    /// The transactions of the signatures of interest have been asked for.
    Transactions { parent_slot: Slot, content_hash: String },
    /// The fetch has ended.
    Finished,
}

/// How often, and how far apart, the ledger client is to retry a call. The
/// engine retries nothing itself: it hands these on with every request.
#[derive(Clone, Copy, Debug, PartialEq, Eq)]
pub struct RetryPolicy {
    /// Retries of a block request.
    pub block_retries: usize,
    /// Retries of a transaction request.
    pub tx_retries: usize,
    /// The pause between two tries, in milliseconds.
    pub delay_ms: u64,
}

/// The fetch of one block at one commitment level, filtered for one program.
#[derive(Clone, Debug, PartialEq, Eq)]
pub struct BlockFetch {
    pub slot: Slot,
    pub commitment: Commitment,
    pub program: Pubkey,
    pub retry: RetryPolicy,
    pub stage: FetchStage,
}

/// What a block fetch asks of the ledger client next, or how it ended.
#[derive(Debug, PartialEq)]
pub enum FetchAction<E> {
    /// Fetch the header of `slot` together with its signature list.
    GetBlock { slot: Slot, commitment: Commitment, retries: usize, delay_ms: u64 },
    /// List the program's signatures between the two bounds, newest first.
    GetSignatures { program: Pubkey, before: Signature, until: Signature, commitment: Commitment },
    /// Fetch the transaction of each signature, all at once.
    GetTransactions {
        signatures: Vec<Signature>,
        commitment: Commitment,
        retries: usize,
        delay_ms: u64,
    },
    /// The fetch is over: the block, `None` for a slot without a block, or
    /// the failure.
    Done(Result<Option<Block>, LoaderError<E>>),
}

/// What the ledger client answered.
#[derive(Debug, PartialEq)]
pub enum FetchEvent<E> {
    /// The answer to `GetBlock`; `None` for a skipped slot.
    Header(Result<Option<BlockHeader>, E>),
    /// The answer to `GetSignatures`.
    Index(Result<Vec<String>, E>),
    /// The answers to `GetTransactions`, one for each signature, in order.
    Transactions(Vec<Result<Option<Transaction>, E>>),
}

impl BlockFetch {
    /// How one event takes a fetch from `self` to `next` and which action
    /// comes out.
    pub open spec fn step<E>(
        self,
        event: FetchEvent<E>,
        next: BlockFetch,
        action: FetchAction<E>,
    ) -> bool {
        &&& next.slot == self.slot
        &&& next.commitment == self.commitment
        &&& next.program == self.program
        &&& next.retry == self.retry
        &&& match (self.stage, event) {
            (FetchStage::Header, FetchEvent::Header(Err(e))) => {
                &&& next.stage is Finished
                &&& action == FetchAction::Done(Err(LoaderError::Upstream(e)))
            },
            (FetchStage::Header, FetchEvent::Header(Ok(None))) => {
                &&& next.stage is Finished
                &&& action == FetchAction::<E>::Done(Ok(None))
            },
            (FetchStage::Header, FetchEvent::Header(Ok(Some(header)))) => match bounds_of(
                header.signatures,
            ) {
                Some((b, u)) => {
                    &&& next.stage matches FetchStage::Index {
                        parent_slot,
                        content_hash,
                        before,
                        until,
                    }
                    &&& parent_slot == header.parent_slot
                    &&& content_hash == header.content_hash
                    &&& before@ == b
                    &&& until@ == u
                    &&& action == (FetchAction::<E>::GetSignatures {
                        program: self.program,
                        before,
                        until,
                        commitment: self.commitment,
                    })
                },
                None => {
                    &&& next.stage is Finished
                    &&& action == FetchAction::<E>::Done(
                        Ok(
                            Some(
                                Block {
                                    slot: self.slot,
                                    parent_slot: header.parent_slot,
                                    content_hash: header.content_hash,
                                    filtered_transactions: None,
                                },
                            ),
                        ),
                    )
                },
            },
            (FetchStage::Index { .. }, FetchEvent::Index(Err(e))) => {
                &&& next.stage is Finished
                &&& action == FetchAction::Done(Err(LoaderError::Upstream(e)))
            },
            (
                FetchStage::Index { parent_slot, content_hash, before, until },
                FetchEvent::Index(Ok(indexed)),
            ) => {
                &&& next.stage == (FetchStage::Transactions { parent_slot, content_hash })
                &&& action matches FetchAction::GetTransactions {
                    signatures,
                    commitment,
                    retries,
                    delay_ms,
                }
                &&& signature_views(signatures@) == chronological(before@, until@, indexed@)
                &&& commitment == self.commitment
                &&& retries == self.retry.tx_retries
                &&& delay_ms == self.retry.delay_ms
            },
            (
                FetchStage::Transactions { parent_slot, content_hash },
                FetchEvent::Transactions(fetched),
            ) => {
                &&& next.stage is Finished
                &&& match action {
                    FetchAction::Done(Err(LoaderError::Upstream(e))) => exists|i: int|
                        first_failure_at(fetched@, i) && fetched@[i] == Err::<
                            Option<Transaction>,
                            E,
                        >(e),
                    FetchAction::Done(Ok(Some(block))) => {
                        &&& all_ok(fetched@)
                        &&& block.slot == self.slot
                        &&& block.parent_slot == parent_slot
                        &&& block.content_hash == content_hash
                        &&& block.transactions() == kept(fetched@, self.program@)
                        &&& block.filtered_transactions is Some <==> block.transactions().len()
                            > 0
                    },
                    _ => false,
                }
            },
            _ => {
                &&& next.stage is Finished
                &&& action == FetchAction::<E>::Done(Err(LoaderError::UnexpectedEvent))
            },
        }
    }

    /// Starts the fetch of `slot`: the first action asks for the header.
    pub fn begin<E>(slot: Slot, commitment: Commitment, program: Pubkey, retry: RetryPolicy) -> (r: (
        BlockFetch,
        FetchAction<E>,
    ))
        ensures
            r.0 == (BlockFetch { slot, commitment, program, retry, stage: FetchStage::Header }),
            r.1 == (FetchAction::<E>::GetBlock {
                slot,
                commitment,
                retries: retry.block_retries,
                delay_ms: retry.delay_ms,
            }),
    {
        (
            BlockFetch { slot, commitment, program, retry, stage: FetchStage::Header },
            FetchAction::GetBlock {
                slot,
                commitment,
                retries: retry.block_retries,
                delay_ms: retry.delay_ms,
            },
        )
    }

    /// Takes the answer to the action that is out and decides what comes
    /// next. A block that comes out holds no transaction that fails to
    /// address the program.
    pub fn advance<E>(self, event: FetchEvent<E>) -> (r: (BlockFetch, FetchAction<E>))
        ensures
            self.step(event, r.0, r.1),
            r.1 matches FetchAction::Done(Ok(Some(block))) ==> forall|i: int|
                0 <= i < block.transactions().len() ==> relevant(
                    #[trigger] block.transactions()[i],
                    self.program@,
                ),
    {
        let BlockFetch { slot, commitment, program, retry, stage } = self;
        let ended = BlockFetch { slot, commitment, program, retry, stage: FetchStage::Finished };
        match (stage, event) {
            (FetchStage::Header, FetchEvent::Header(Err(e))) => (
                ended,
                FetchAction::Done(Err(LoaderError::Upstream(e))),
            ),
            (FetchStage::Header, FetchEvent::Header(Ok(None))) => (ended, FetchAction::Done(Ok(None))),
            (FetchStage::Header, FetchEvent::Header(Ok(Some(header)))) => {
                let bounds = signature_bounds(&header.signatures);
                let BlockHeader { parent_slot, content_hash, signatures: _ } = header;
                match bounds {
                    Some((before, until)) => (
                        BlockFetch {
                            slot,
                            commitment,
                            program,
                            retry,
                            stage: FetchStage::Index { parent_slot, content_hash, before, until },
                        },
                        FetchAction::GetSignatures { program, before, until, commitment },
                    ),
                    None => (
                        ended,
                        FetchAction::Done(
                            Ok(
                                Some(
                                    Block {
                                        slot,
                                        parent_slot,
                                        content_hash,
                                        filtered_transactions: None,
                                    },
                                ),
                            ),
                        ),
                    ),
                }
            },
            (FetchStage::Index { .. }, FetchEvent::Index(Err(e))) => (
                ended,
                FetchAction::Done(Err(LoaderError::Upstream(e))),
            ),
            (
                FetchStage::Index { parent_slot, content_hash, before, until },
                FetchEvent::Index(Ok(indexed)),
            ) => {
                let signatures = chronological_signatures(before, until, &indexed);
                (
                    BlockFetch {
                        slot,
                        commitment,
                        program,
                        retry,
                        stage: FetchStage::Transactions { parent_slot, content_hash },
                    },
                    FetchAction::GetTransactions {
                        signatures,
                        commitment,
                        retries: retry.tx_retries,
                        delay_ms: retry.delay_ms,
                    },
                )
            },
            (
                FetchStage::Transactions { parent_slot, content_hash },
                FetchEvent::Transactions(fetched),
            ) => {
                let ghost all = kept(fetched@, program@);
                match load_transactions(fetched, &program) {
                    Ok(filtered_transactions) => {
                        assert(filtered_transactions is None ==> all =~= Seq::empty());
                        (
                        ended,
                        FetchAction::Done(
                            Ok(Some(Block { slot, parent_slot, content_hash, filtered_transactions })),
                        ),
                    )
                    },
                    Err(e) => (ended, FetchAction::Done(Err(LoaderError::Upstream(e)))),
                }
            },
            _ => (ended, FetchAction::Done(Err(LoaderError::UnexpectedEvent))),
        }
    }
}

} // verus!
