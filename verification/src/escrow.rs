use vstd::prelude::*;

use crate::bytes::concat_bytes;
use crate::errors::EscrowError;
use crate::events::{Event, EventModel, EventSink};
use crate::executor::{apply_transfer, balance_in, can_transfer, TransferExecutor};
use crate::hashing::{blake2_256_hash, blake2_256_of, commit, commitment_of};
use crate::ids::{AccountId, Commitment};
use crate::kvmap::{
    lemma_pairs_to_map_contains, lemma_pairs_to_map_get, lemma_pairs_to_map_push,
    lemma_pairs_to_map_remove, lemma_map_values_push, lemma_map_values_remove,
    lemma_unique_keys_push, lemma_unique_keys_remove, pairs_to_map, unique_keys,
};

verus! {

/// The live record of one escrow: who locked the funds and how much is held.
/// It exists exactly while the funds are escrowed and unclaimed.
pub struct Deposit {
    pub remitter: AccountId,
    pub value: u128,
}

impl Deposit {
    /// The record as plain values: the remitter's bytes and the amount.
    pub open spec fn model(self) -> (Seq<u8>, u128) {
        (self.remitter@, self.value)
    }
}

/// The fixed namespace tag seeding escrow account derivation, keeping the
/// derived accounts apart from every other use of the address space: the
/// bytes of "remittan".
pub open spec fn namespace_tag() -> Seq<u8> {
    seq![0x72u8, 0x65u8, 0x6du8, 0x69u8, 0x74u8, 0x74u8, 0x61u8, 0x6eu8]
}

/// The escrow holding account for a commitment: the digest of the namespace
/// tag followed by the commitment. Deterministic, and collision-resistant as
/// far as the digest is.
pub open spec fn escrow_account_of(commitment: Seq<u8>) -> Seq<u8> {
    blake2_256_of(namespace_tag() + commitment)
}

/// The stateful core: the commitment-to-deposit map, with the operations that
/// move value in and out of escrow. This crate owns the map exclusively; the
/// currency ledger is only ever touched through the transfer executor handed
/// to each operation.
pub struct EscrowLedger {
    entries: Vec<(Commitment, Deposit)>,
}

impl View for EscrowLedger {
    type V = Map<Seq<u8>, (Seq<u8>, u128)>;

    closed spec fn view(&self) -> Map<Seq<u8>, (Seq<u8>, u128)> {
        pairs_to_map(self.seq_model())
    }
}

impl EscrowLedger {
    spec fn seq_model(&self) -> Seq<(Seq<u8>, (Seq<u8>, u128))> {
        self.entries@.map_values(|p: (Commitment, Deposit)| (p.0@, p.1.model()))
    }

    /// At most one live record per commitment.
    pub closed spec fn wf(&self) -> bool {
        unique_keys(self.seq_model())
    }

    pub fn new() -> (r: EscrowLedger)
        ensures
            r.wf(),
            r@ == Map::<Seq<u8>, (Seq<u8>, u128)>::empty(),
    {
        let r = EscrowLedger { entries: Vec::new() };
        proof {
            assert(r.seq_model() =~= Seq::<(Seq<u8>, (Seq<u8>, u128))>::empty());
        }
        r
    }

    /// The escrow holding account for a commitment, derived from the
    /// namespace tag and the commitment alone.
    pub fn account_id(commitment: &Commitment) -> (r: AccountId)
        ensures
            r@ == escrow_account_of(commitment@),
    {
        let mut tag: Vec<u8> = Vec::new();
        tag.push(0x72);
        tag.push(0x65);
        tag.push(0x6d);
        tag.push(0x69);
        tag.push(0x74);
        tag.push(0x74);
        tag.push(0x61);
        tag.push(0x6e);
        proof {
            assert(tag@ =~= namespace_tag());
        }
        let data = concat_bytes(&tag, commitment.as_bytes());
        let digest = blake2_256_hash(&data);
        AccountId::new(digest)
    }

    /// The position of a commitment's record, if one is live.
    fn find(&self, commitment: &Commitment) -> (r: Option<usize>)
        ensures
            (r matches Some(i) ==> i < self.entries@.len() && self.entries@[i as int].0@
                == commitment@),
            (r is None ==> forall|j: int|
                0 <= j < self.entries@.len() ==> self.entries@[j].0@ != commitment@),
    {
        let n = self.entries.len();
        let mut i: usize = 0;
        while i < n
            invariant
                n == self.entries@.len(),
                0 <= i <= n,
                forall|j: int| 0 <= j < i ==> self.entries@[j].0@ != commitment@,
            decreases n - i,
        {
            if self.entries[i].0.equals(commitment) {
                return Some(i);
            }
            i += 1;
        }
        None
    }

    /// The live record under a commitment, if any.
    pub fn deposit_record(&self, commitment: &Commitment) -> (r: Option<&Deposit>)
        requires
            self.wf(),
        ensures
            r is Some <==> self@.contains_key(commitment@),
            (r matches Some(d) ==> d.model() == self@[commitment@]),
    {
        match self.find(commitment) {
            Some(i) => {
                proof {
                    lemma_pairs_to_map_get(self.seq_model(), i as int);
                }
                Some(&self.entries[i].1)
            },
            None => {
                proof {
                    lemma_pairs_to_map_contains(self.seq_model(), commitment@);
                }
                None
            },
        }
    }

    /// Locks `value` under `commitment`: moves it from the remitter's account
    /// into the commitment's escrow account, records the deposit, and
    /// announces it. All-or-nothing: on any failure nothing moves and nothing
    /// is recorded.
    pub fn deposit(
        &mut self,
        executor: &mut TransferExecutor,
        sink: &mut EventSink,
        remitter: &AccountId,
        commitment: &Commitment,
        value: u128,
    ) -> (r: Result<(), EscrowError>)
        requires
            old(self).wf(),
            old(executor).wf(),
        ensures
            final(self).wf(),
            final(executor).wf(),
            r is Ok <==> (value > 0 && !old(self)@.contains_key(commitment@) && can_transfer(
                old(executor)@,
                remitter@,
                escrow_account_of(commitment@),
                value,
            )),
            (r is Ok ==> {
                &&& final(self)@ == old(self)@.insert(commitment@, (remitter@, value))
                &&& final(executor)@ == apply_transfer(
                    old(executor)@,
                    remitter@,
                    escrow_account_of(commitment@),
                    value,
                )
                &&& final(sink)@ == old(sink)@.push(
                    EventModel::Deposit { remitter: remitter@, commitment: commitment@, value },
                )
            }),
            (r matches Err(e) ==> {
                &&& final(self)@ == old(self)@
                &&& final(executor)@ == old(executor)@
                &&& final(sink)@ == old(sink)@
                &&& e == (if value == 0 {
                    EscrowError::InvalidValue
                } else if old(self)@.contains_key(commitment@) {
                    EscrowError::DuplicateCommitment
                } else if balance_in(old(executor)@, remitter@) < value {
                    EscrowError::InsufficientFunds
                } else {
                    EscrowError::Overflow
                })
            }),
    {
        if value == 0 {
            return Err(EscrowError::InvalidValue);
        }
        match self.find(commitment) {
            Some(i) => {
                proof {
                    lemma_pairs_to_map_contains(self.seq_model(), commitment@);
                    assert(self.seq_model()[i as int].0 == commitment@);
                }
                return Err(EscrowError::DuplicateCommitment);
            },
            None => {
                proof {
                    assert forall|j: int| 0 <= j < self.seq_model().len() implies self.seq_model()[j].0
                        != commitment@ by {
                        assert(self.seq_model()[j] == (
                            self.entries@[j].0@,
                            self.entries@[j].1.model(),
                        ));
                    }
                    lemma_pairs_to_map_contains(self.seq_model(), commitment@);
                }
            },
        }
        let escrow = Self::account_id(commitment);
        match executor.move_value(remitter, &escrow, value, true) {
            Err(e) => {
                return Err(e);
            },
            Ok(()) => {},
        }
        let ghost g = |p: (Commitment, Deposit)| (p.0@, p.1.model());
        let ghost pre = self.entries@;
        proof {
            lemma_pairs_to_map_push(self.seq_model(), (commitment@, (remitter@, value)));
            lemma_unique_keys_push(self.seq_model(), (commitment@, (remitter@, value)));
        }
        self.entries.push(
            (commitment.duplicate(), Deposit { remitter: remitter.duplicate(), value }),
        );
        proof {
            lemma_map_values_push(pre, g, self.entries@.last());
            assert(self.seq_model() =~= pre.map_values(g).push((commitment@, (remitter@, value))));
        }
        sink.emit(Event::Deposit(remitter.duplicate(), commitment.duplicate(), value));
        Ok(())
    }

    /// Redeems the escrow under `commitment` by revealing the pair that
    /// reproduces it: moves the held value from the escrow account to the
    /// recipient, deletes the record, announces the transfer, and returns the
    /// value. All-or-nothing: on any failure the record and every balance
    /// stay as they were.
    pub fn claim(
        &mut self,
        executor: &mut TransferExecutor,
        sink: &mut EventSink,
        commitment: &Commitment,
        recipient: &AccountId,
        secret: &Vec<u8>,
    ) -> (r: Result<u128, EscrowError>)
        requires
            old(self).wf(),
            old(executor).wf(),
        ensures
            final(self).wf(),
            final(executor).wf(),
            r is Ok <==> (old(self)@.contains_key(commitment@) && recipient@.len() > 0
                && secret@.len() > 0 && commitment_of(recipient@, secret@) == commitment@
                && can_transfer(
                old(executor)@,
                escrow_account_of(commitment@),
                recipient@,
                old(self)@[commitment@].1,
            )),
            (r matches Ok(v) ==> {
                &&& v == old(self)@[commitment@].1
                &&& final(self)@ == old(self)@.remove(commitment@)
                &&& final(executor)@ == apply_transfer(
                    old(executor)@,
                    escrow_account_of(commitment@),
                    recipient@,
                    v,
                )
                &&& final(sink)@ == old(sink)@.push(
                    EventModel::Transfer { commitment: commitment@, recipient: recipient@, value: v },
                )
            }),
            (r matches Err(e) ==> {
                &&& final(self)@ == old(self)@
                &&& final(executor)@ == old(executor)@
                &&& final(sink)@ == old(sink)@
                &&& e == (if !old(self)@.contains_key(commitment@) {
                    EscrowError::UnknownCommitment
                } else if recipient@.len() == 0 || secret@.len() == 0 {
                    EscrowError::InvalidRequest
                } else if commitment_of(recipient@, secret@) != commitment@ {
                    EscrowError::InvalidPuzzle
                } else if balance_in(old(executor)@, escrow_account_of(commitment@)) < old(
                    self,
                )@[commitment@].1 {
                    EscrowError::InsufficientFunds
                } else {
                    EscrowError::Overflow
                })
            }),
    {
        let idx = match self.find(commitment) {
            None => {
                proof {
                    assert forall|j: int| 0 <= j < self.seq_model().len() implies self.seq_model()[j].0
                        != commitment@ by {
                        assert(self.seq_model()[j] == (
                            self.entries@[j].0@,
                            self.entries@[j].1.model(),
                        ));
                    }
                    lemma_pairs_to_map_contains(self.seq_model(), commitment@);
                }
                return Err(EscrowError::UnknownCommitment);
            },
            Some(i) => i,
        };
        proof {
            lemma_pairs_to_map_get(self.seq_model(), idx as int);
        }
        let candidate = match commit(recipient.as_bytes(), secret) {
            Err(e) => {
                return Err(e);
            },
            Ok(c) => c,
        };
        if !candidate.equals(commitment) {
            return Err(EscrowError::InvalidPuzzle);
        }
        let value = self.entries[idx].1.value;
        let escrow = Self::account_id(commitment);
        match executor.move_value(&escrow, recipient, value, true) {
            Err(e) => {
                return Err(e);
            },
            Ok(()) => {},
        }
        let ghost g = |p: (Commitment, Deposit)| (p.0@, p.1.model());
        let ghost pre = self.entries@;
        proof {
            lemma_pairs_to_map_remove(self.seq_model(), idx as int);
            lemma_unique_keys_remove(self.seq_model(), idx as int);
            lemma_map_values_remove(pre, g, idx as int);
        }
        self.entries.remove(idx);
        proof {
            assert(self.seq_model() =~= pre.map_values(g).remove(idx as int));
        }
        sink.emit(Event::Transfer(commitment.duplicate(), recipient.duplicate(), value));
        Ok(value)
    }

    /// Reclaims the unclaimed escrow under `commitment` for its original
    /// remitter: moves the held value from the escrow account back to the
    /// caller, deletes the record, announces the withdrawal, and returns the
    /// value. All-or-nothing, and refused for every caller but the recorded
    /// remitter.
    pub fn withdraw(
        &mut self,
        executor: &mut TransferExecutor,
        sink: &mut EventSink,
        caller: &AccountId,
        commitment: &Commitment,
    ) -> (r: Result<u128, EscrowError>)
        requires
            old(self).wf(),
            old(executor).wf(),
        ensures
            final(self).wf(),
            final(executor).wf(),
            r is Ok <==> (old(self)@.contains_key(commitment@) && old(self)@[commitment@].0
                == caller@ && can_transfer(
                old(executor)@,
                escrow_account_of(commitment@),
                caller@,
                old(self)@[commitment@].1,
            )),
            (r matches Ok(v) ==> {
                &&& v == old(self)@[commitment@].1
                &&& final(self)@ == old(self)@.remove(commitment@)
                &&& final(executor)@ == apply_transfer(
                    old(executor)@,
                    escrow_account_of(commitment@),
                    caller@,
                    v,
                )
                &&& final(sink)@ == old(sink)@.push(
                    EventModel::Withdraw { remitter: caller@, value: v },
                )
            }),
            (r matches Err(e) ==> {
                &&& final(self)@ == old(self)@
                &&& final(executor)@ == old(executor)@
                &&& final(sink)@ == old(sink)@
                &&& e == (if !old(self)@.contains_key(commitment@) {
                    EscrowError::UnknownCommitment
                } else if old(self)@[commitment@].0 != caller@ {
                    EscrowError::NotOwner
                } else if balance_in(old(executor)@, escrow_account_of(commitment@)) < old(
                    self,
                )@[commitment@].1 {
                    EscrowError::InsufficientFunds
                } else {
                    EscrowError::Overflow
                })
            }),
    {
        let idx = match self.find(commitment) {
            None => {
                proof {
                    assert forall|j: int| 0 <= j < self.seq_model().len() implies self.seq_model()[j].0
                        != commitment@ by {
                        assert(self.seq_model()[j] == (
                            self.entries@[j].0@,
                            self.entries@[j].1.model(),
                        ));
                    }
                    lemma_pairs_to_map_contains(self.seq_model(), commitment@);
                }
                return Err(EscrowError::UnknownCommitment);
            },
            Some(i) => i,
        };
        proof {
            lemma_pairs_to_map_get(self.seq_model(), idx as int);
        }
        if !self.entries[idx].1.remitter.equals(caller) {
            return Err(EscrowError::NotOwner);
        }
        let value = self.entries[idx].1.value;
        let escrow = Self::account_id(commitment);
        match executor.move_value(&escrow, caller, value, true) {
            Err(e) => {
                return Err(e);
            },
            Ok(()) => {},
        }
        let ghost g = |p: (Commitment, Deposit)| (p.0@, p.1.model());
        let ghost pre = self.entries@;
        proof {
            lemma_pairs_to_map_remove(self.seq_model(), idx as int);
            lemma_unique_keys_remove(self.seq_model(), idx as int);
            lemma_map_values_remove(pre, g, idx as int);
        }
        self.entries.remove(idx);
        proof {
            assert(self.seq_model() =~= pre.map_values(g).remove(idx as int));
        }
        sink.emit(Event::Withdraw(caller.duplicate(), value));
        Ok(value)
    }
}

/// Law: settling an escrow is final. A successful claim or withdrawal leaves
/// the deposit map without the commitment's record, so by the contracts of
/// `claim` and `withdraw` every later claim or withdrawal on the same
/// commitment is answered with `UnknownCommitment`: whichever of the two
/// terminal transitions runs first wins, exactly once.
pub proof fn lemma_settlement_is_final(
    deposits: Map<Seq<u8>, (Seq<u8>, u128)>,
    commitment: Seq<u8>,
)
    ensures
        !deposits.remove(commitment).contains_key(commitment),
{
}

/// Law: operations are local to their commitment. Recording a deposit under
/// one commitment, or settling one, leaves the record of every other
/// commitment exactly as it was, so escrows under distinct commitments are
/// independent of one another.
pub proof fn lemma_escrows_are_independent(
    deposits: Map<Seq<u8>, (Seq<u8>, u128)>,
    commitment: Seq<u8>,
    record: (Seq<u8>, u128),
    other: Seq<u8>,
)
    requires
        other != commitment,
    ensures
        deposits.insert(commitment, record).contains_key(other) == deposits.contains_key(other),
        deposits.remove(commitment).contains_key(other) == deposits.contains_key(other),
        deposits.contains_key(other) ==> deposits.insert(commitment, record)[other]
            == deposits[other],
        deposits.contains_key(other) ==> deposits.remove(commitment)[other] == deposits[other],
{
}

} // verus!
