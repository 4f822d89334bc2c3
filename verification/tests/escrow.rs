use remittance::{
    commit, AccountId, Commitment, EscrowError, EscrowLedger, Event, EventSink, TransferExecutor,
};

fn account(name: &str) -> AccountId {
    AccountId::new(name.as_bytes().to_vec())
}

fn secret(text: &str) -> Vec<u8> {
    text.as_bytes().to_vec()
}

fn commitment_for(recipient: &str, password: &str) -> Commitment {
    commit(&recipient.as_bytes().to_vec(), &secret(password)).unwrap()
}

struct Setup {
    ledger: EscrowLedger,
    executor: TransferExecutor,
    sink: EventSink,
    bob: AccountId,
    commitment: Commitment,
}

fn funded_setup() -> Setup {
    let mut executor = TransferExecutor::new();
    let bob = account("bob");
    executor.set_balance(&bob, 1000);
    Setup {
        ledger: EscrowLedger::new(),
        executor,
        sink: EventSink::new(),
        bob,
        commitment: commitment_for("alice", "s3cret"),
    }
}

#[test]
fn deposit_locks_funds_in_the_escrow_account() {
    let mut s = funded_setup();
    let r = s.ledger.deposit(&mut s.executor, &mut s.sink, &s.bob, &s.commitment, 100);
    assert_eq!(r, Ok(()));
    let escrow = EscrowLedger::account_id(&s.commitment);
    assert_eq!(s.executor.balance_of(&escrow), 100);
    assert_eq!(s.executor.balance_of(&s.bob), 900);
    let record = s.ledger.deposit_record(&s.commitment).unwrap();
    assert_eq!(record.value, 100);
    assert!(record.remitter.equals(&s.bob));
    assert_eq!(s.sink.len(), 1);
    match s.sink.event_at(0) {
        Event::Deposit(who, c, value) => {
            assert!(who.equals(&s.bob));
            assert!(c.equals(&s.commitment));
            assert_eq!(*value, 100);
        }
        _ => panic!("expected a deposit event"),
    }
}

#[test]
fn second_deposit_under_the_same_commitment_is_refused() {
    let mut s = funded_setup();
    s.ledger
        .deposit(&mut s.executor, &mut s.sink, &s.bob, &s.commitment, 100)
        .unwrap();
    let mallory = account("mallory");
    let r = s.ledger.deposit(&mut s.executor, &mut s.sink, &mallory, &s.commitment, 5);
    assert_eq!(r, Err(EscrowError::DuplicateCommitment));
    let escrow = EscrowLedger::account_id(&s.commitment);
    assert_eq!(s.executor.balance_of(&escrow), 100);
    assert_eq!(s.ledger.deposit_record(&s.commitment).unwrap().value, 100);
    assert_eq!(s.sink.len(), 1);
}

#[test]
fn zero_value_deposit_is_refused_and_records_nothing() {
    let mut s = funded_setup();
    let r = s.ledger.deposit(&mut s.executor, &mut s.sink, &s.bob, &s.commitment, 0);
    assert_eq!(r, Err(EscrowError::InvalidValue));
    assert!(s.ledger.deposit_record(&s.commitment).is_none());
    assert_eq!(s.executor.balance_of(&s.bob), 1000);
    assert_eq!(s.sink.len(), 0);
}

#[test]
fn deposit_beyond_the_remitter_balance_is_refused() {
    let mut s = funded_setup();
    let r = s.ledger.deposit(&mut s.executor, &mut s.sink, &s.bob, &s.commitment, 2000);
    assert_eq!(r, Err(EscrowError::InsufficientFunds));
    assert!(s.ledger.deposit_record(&s.commitment).is_none());
    assert_eq!(s.executor.balance_of(&s.bob), 1000);
    assert_eq!(s.sink.len(), 0);
}

#[test]
fn deposit_overflowing_the_escrow_account_is_refused() {
    let mut s = funded_setup();
    let escrow = EscrowLedger::account_id(&s.commitment);
    s.executor.set_balance(&escrow, u128::MAX);
    let r = s.ledger.deposit(&mut s.executor, &mut s.sink, &s.bob, &s.commitment, 1);
    assert_eq!(r, Err(EscrowError::Overflow));
    assert!(s.ledger.deposit_record(&s.commitment).is_none());
    assert_eq!(s.executor.balance_of(&s.bob), 1000);
}

#[test]
fn claim_with_the_wrong_secret_changes_nothing() {
    let mut s = funded_setup();
    s.ledger
        .deposit(&mut s.executor, &mut s.sink, &s.bob, &s.commitment, 100)
        .unwrap();
    let alice = account("alice");
    let r = s.ledger.claim(
        &mut s.executor,
        &mut s.sink,
        &s.commitment,
        &alice,
        &secret("wrongsecret"),
    );
    assert_eq!(r, Err(EscrowError::InvalidPuzzle));
    let record = s.ledger.deposit_record(&s.commitment).unwrap();
    assert_eq!(record.value, 100);
    let escrow = EscrowLedger::account_id(&s.commitment);
    assert_eq!(s.executor.balance_of(&escrow), 100);
    assert_eq!(s.executor.balance_of(&alice), 0);
    assert_eq!(s.sink.len(), 1);
}

#[test]
fn claim_with_an_empty_secret_is_an_invalid_request() {
    let mut s = funded_setup();
    s.ledger
        .deposit(&mut s.executor, &mut s.sink, &s.bob, &s.commitment, 100)
        .unwrap();
    let alice = account("alice");
    let r = s.ledger.claim(&mut s.executor, &mut s.sink, &s.commitment, &alice, &Vec::new());
    assert_eq!(r, Err(EscrowError::InvalidRequest));
    assert_eq!(s.ledger.deposit_record(&s.commitment).unwrap().value, 100);
}

#[test]
fn claim_with_the_right_secret_succeeds_exactly_once() {
    let mut s = funded_setup();
    s.ledger
        .deposit(&mut s.executor, &mut s.sink, &s.bob, &s.commitment, 100)
        .unwrap();
    let alice = account("alice");
    let r = s.ledger.claim(
        &mut s.executor,
        &mut s.sink,
        &s.commitment,
        &alice,
        &secret("s3cret"),
    );
    assert_eq!(r, Ok(100));
    assert_eq!(s.executor.balance_of(&alice), 100);
    let escrow = EscrowLedger::account_id(&s.commitment);
    assert_eq!(s.executor.balance_of(&escrow), 0);
    assert!(s.ledger.deposit_record(&s.commitment).is_none());
    let again = s.ledger.claim(
        &mut s.executor,
        &mut s.sink,
        &s.commitment,
        &alice,
        &secret("s3cret"),
    );
    assert_eq!(again, Err(EscrowError::UnknownCommitment));
    let late_withdraw = s.ledger.withdraw(&mut s.executor, &mut s.sink, &s.bob, &s.commitment);
    assert_eq!(late_withdraw, Err(EscrowError::UnknownCommitment));
    assert_eq!(s.sink.len(), 2);
    match s.sink.event_at(1) {
        Event::Transfer(c, who, value) => {
            assert!(c.equals(&s.commitment));
            assert!(who.equals(&alice));
            assert_eq!(*value, 100);
        }
        _ => panic!("expected a transfer event"),
    }
}

#[test]
fn withdraw_is_refused_for_anyone_but_the_remitter() {
    let mut s = funded_setup();
    s.ledger
        .deposit(&mut s.executor, &mut s.sink, &s.bob, &s.commitment, 100)
        .unwrap();
    let mallory = account("mallory");
    let r = s.ledger.withdraw(&mut s.executor, &mut s.sink, &mallory, &s.commitment);
    assert_eq!(r, Err(EscrowError::NotOwner));
    assert_eq!(s.ledger.deposit_record(&s.commitment).unwrap().value, 100);
    let r = s.ledger.withdraw(&mut s.executor, &mut s.sink, &s.bob, &s.commitment);
    assert_eq!(r, Ok(100));
    assert_eq!(s.executor.balance_of(&s.bob), 1000);
    assert!(s.ledger.deposit_record(&s.commitment).is_none());
    assert_eq!(s.sink.len(), 2);
    match s.sink.event_at(1) {
        Event::Withdraw(who, value) => {
            assert!(who.equals(&s.bob));
            assert_eq!(*value, 100);
        }
        _ => panic!("expected a withdrawal event"),
    }
}

#[test]
fn claim_and_withdraw_on_an_empty_ledger_fail() {
    let mut s = funded_setup();
    let alice = account("alice");
    let r = s.ledger.claim(
        &mut s.executor,
        &mut s.sink,
        &s.commitment,
        &alice,
        &secret("s3cret"),
    );
    assert_eq!(r, Err(EscrowError::UnknownCommitment));
    let r = s.ledger.withdraw(&mut s.executor, &mut s.sink, &s.bob, &s.commitment);
    assert_eq!(r, Err(EscrowError::UnknownCommitment));
}

#[test]
fn distinct_commitments_escrow_independently() {
    let mut s = funded_setup();
    let other = commitment_for("carol", "pa55word");
    s.ledger
        .deposit(&mut s.executor, &mut s.sink, &s.bob, &s.commitment, 100)
        .unwrap();
    s.ledger
        .deposit(&mut s.executor, &mut s.sink, &s.bob, &other, 200)
        .unwrap();
    assert_eq!(s.executor.balance_of(&s.bob), 700);
    let carol = account("carol");
    let r = s.ledger.claim(&mut s.executor, &mut s.sink, &other, &carol, &secret("pa55word"));
    assert_eq!(r, Ok(200));
    assert_eq!(s.ledger.deposit_record(&s.commitment).unwrap().value, 100);
    assert!(s.ledger.deposit_record(&other).is_none());
}

#[test]
fn move_value_transfers_and_reports_failures_exactly() {
    let mut executor = TransferExecutor::new();
    let bob = account("bob");
    let alice = account("alice");
    executor.set_balance(&bob, 50);
    assert_eq!(executor.move_value(&bob, &alice, 60, true), Err(EscrowError::InsufficientFunds));
    assert_eq!(executor.move_value(&bob, &alice, 20, true), Ok(()));
    assert_eq!(executor.balance_of(&bob), 30);
    assert_eq!(executor.balance_of(&alice), 20);
    assert_eq!(executor.move_value(&bob, &bob, 30, true), Ok(()));
    assert_eq!(executor.balance_of(&bob), 30);
    executor.set_balance(&alice, u128::MAX);
    assert_eq!(executor.move_value(&bob, &alice, 1, true), Err(EscrowError::Overflow));
    assert_eq!(executor.balance_of(&bob), 30);
    assert_eq!(executor.balance_of(&alice), u128::MAX);
}
