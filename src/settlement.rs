//! Transfers into receiver contracts: the amount is credited to the receiver
//! at once, the receiver is told of it, and the part it reports as unused
//! goes back to the sender.
//!
//! A transfer intent runs through these phases: it is checked (pending), the
//! amount is moved to the receiver (`begin_transfer_and_notify`), the receiver
//! is invoked, and its response is reconciled (`resolve_transfer`). A failed
//! or malformed response counts as "nothing used", so the reconciliation
//! then undoes the optimistic move exactly.
use vstd::prelude::*;
use crate::amount::{parse_amount, parsed_amount};
use crate::error::LedgerError;
use crate::ledger::{Ledger, transfer_error};
use crate::model::{LedgerModel, lemma_index, lemma_move_funds};

verus! {

/// How a receiver answered a transfer.
pub enum ReceiverResponse {
    /// The receiver returned the decimal text of the amount it did not use.
    Returned(String),
    /// The receiver's logic failed.
    Failed,
    /// The receiver could not be invoked.
    Unreachable,
}

/// The response names, in decimal, an amount no larger than `amount`.
pub open spec fn claims_valid_amount(amount: nat, response: ReceiverResponse) -> bool {
    match response {
        ReceiverResponse::Returned(t) => parsed_amount(t@) is Some && parsed_amount(t@)->Some_0
            <= amount,
        _ => false,
    }
}

/// What the ledger takes as unused of `amount`: the amount that a valid
/// response names; the whole of `amount` after a failure or a response that
/// is not an amount within `[0, amount]`.
pub open spec fn unused_of(amount: nat, response: ReceiverResponse) -> nat {
    if claims_valid_amount(amount, response) {
        parsed_amount(response->Returned_0@)->Some_0
    } else {
        amount
    }
}

/// The unused part of `amount` according to `response`.
pub fn unused_amount(amount: u128, response: &ReceiverResponse) -> (r: u128)
    ensures
        r == unused_of(amount as nat, *response),
        r <= amount,
{
    match response {
        ReceiverResponse::Returned(t) => match parse_amount(t.as_str()) {
            Some(v) => if v <= amount {
                v
            } else {
                amount
            },
            None => amount,
        },
        _ => amount,
    }
}

/// A transfer that has been credited to its receiver and awaits the
/// receiver's response.
pub struct TransferIntent {
    pub sender: String,
    pub receiver: String,
    pub amount: u128,
    pub msg: String,
}

impl TransferIntent {
    /// The optimistic credit of this intent stands in the ledger `m`.
    pub open spec fn in_flight(&self, m: LedgerModel) -> bool {
        &&& m.is_registered(self.sender@)
        &&& m.is_registered(self.receiver@)
        &&& self.sender@ != self.receiver@
        &&& self.amount <= m.balance(self.receiver@)
    }
}

/// A contract that can be sent tokens together with a message.
pub trait Receiver {
    /// Told that `sender` sent it `amount` with `msg`; answers with the part
    /// of `amount` that it does not use.
    fn on_transfer(&mut self, sender: &String, amount: u128, msg: &String) -> ReceiverResponse;
}

impl Ledger {
    /// Checks a transfer of `amount` from `sender` to `receiver` as `transfer`
    /// does and, where it passes, credits the receiver at once and returns the
    /// intent to hand to the receiver.
    pub fn begin_transfer_and_notify(
        &mut self,
        sender: &String,
        receiver: &String,
        amount: u128,
        msg: &String,
    ) -> (r: Result<TransferIntent, LedgerError>)
        requires
            old(self).wf(),
        ensures
            final(self).wf(),
            match transfer_error(old(self)@, sender@, receiver@, amount as nat) {
                Some(e) => r is Err && r->Err_0 == e && final(self)@ == old(self)@,
                None => {
                    &&& r is Ok
                    &&& r->Ok_0.sender@ == sender@
                    &&& r->Ok_0.receiver@ == receiver@
                    &&& r->Ok_0.amount == amount
                    &&& r->Ok_0.msg@ == msg@
                    &&& r->Ok_0.in_flight(final(self)@)
                    &&& final(self)@ == old(self)@.move_funds(sender@, receiver@, amount as nat)
                    &&& final(self)@.balance(sender@) == old(self)@.balance(sender@) - amount
                    &&& final(self)@.balance(receiver@) == old(self)@.balance(receiver@) + amount
                    &&& final(self)@.same_elsewhere(old(self)@, set![sender@, receiver@])
                    &&& final(self)@.supply == old(self)@.supply
                },
            },
    {
        match self.transfer(sender, receiver, amount) {
            Err(e) => Err(e),
            Ok(()) => {
                proof {
                    old(self).lemma_supply_is_sum();
                    lemma_move_funds(old(self)@, sender@, receiver@, amount as nat);
                }
                Ok(
                    TransferIntent {
                        sender: sender.clone(),
                        receiver: receiver.clone(),
                        amount,
                        msg: msg.clone(),
                    },
                )
            },
        }
    }

    /// Reconciles an intent with the receiver's response: the unused part goes
    /// back from the receiver to the sender, and is returned.
    pub fn resolve_transfer(&mut self, intent: &TransferIntent, response: &ReceiverResponse) -> (u:
        u128)
        requires
            old(self).wf(),
            intent.in_flight(old(self)@),
        ensures
            final(self).wf(),
            u == unused_of(intent.amount as nat, *response),
            final(self)@ == old(self)@.move_funds(intent.receiver@, intent.sender@, u as nat),
            final(self)@.balance(intent.sender@) == old(self)@.balance(intent.sender@) + u,
            final(self)@.balance(intent.receiver@) == old(self)@.balance(intent.receiver@) - u,
            final(self)@.same_elsewhere(old(self)@, set![intent.receiver@, intent.sender@]),
            final(self)@.supply == old(self)@.supply,
    {
        proof {
            self.lemma_supply_is_sum();
            lemma_move_funds(self@, intent.receiver@, intent.sender@, 0);
        }
        let u = unused_amount(intent.amount, response);
        if u == 0 {
            proof {
                lemma_zero_move(self@, intent.receiver@, intent.sender@);
            }
            return 0;
        }
        proof {
            lemma_move_funds(self@, intent.receiver@, intent.sender@, u as nat);
        }
        let _ = self.transfer(&intent.receiver, &intent.sender, u);
        u
    }

    /// Sends `amount` from `sender` to `receiver` and lets the receiver's
    /// contract decide how much of it to keep: the first failing check of
    /// `transfer` is reported with nothing changed; otherwise the unused part
    /// that comes back to the sender is returned, and the receiver keeps the
    /// rest.
    pub fn transfer_and_notify<R: Receiver>(
        &mut self,
        contract: &mut R,
        sender: &String,
        receiver: &String,
        amount: u128,
        msg: &String,
    ) -> (r: Result<u128, LedgerError>)
        requires
            old(self).wf(),
        ensures
            final(self).wf(),
            match transfer_error(old(self)@, sender@, receiver@, amount as nat) {
                Some(e) => r == Err::<u128, LedgerError>(e) && final(self)@ == old(self)@,
                None => {
                    &&& r is Ok
                    &&& r->Ok_0 <= amount
                    &&& final(self)@ == old(self)@.move_funds(
                        sender@,
                        receiver@,
                        amount as nat,
                    ).move_funds(receiver@, sender@, r->Ok_0 as nat)
                    &&& final(self)@.balance(sender@) == old(self)@.balance(sender@) - amount
                        + r->Ok_0
                    &&& final(self)@.balance(receiver@) == old(self)@.balance(receiver@) + amount
                        - r->Ok_0
                    &&& final(self)@.supply == old(self)@.supply
                },
            },
    {
        let intent = match self.begin_transfer_and_notify(sender, receiver, amount, msg) {
            Err(e) => {
                return Err(e);
            },
            Ok(intent) => intent,
        };
        let response = contract.on_transfer(&intent.sender, intent.amount, &intent.msg);
        let u = self.resolve_transfer(&intent, &response);
        proof {
            old(self).lemma_supply_is_sum();
            lemma_partial_consumption(old(self)@, sender@, receiver@, amount as nat, u as nat);
        }
        Ok(u)
    }
}

/// Moving nothing between two registered accounts leaves the ledger as it was.
proof fn lemma_zero_move(m: LedgerModel, from: Seq<char>, to: Seq<char>)
    requires
        m.wf(),
        m.is_registered(from),
        m.is_registered(to),
        from != to,
    ensures
        m.move_funds(from, to, 0) == m,
{
    let i = m.index_of(from);
    let j = m.index_of(to);
    lemma_index(m, from, i);
    lemma_index(m, to, j);
    let d = m.with_balance(from, m.balance(from));
    assert(d.records =~= m.records);
    assert(d == m);
    assert(d.with_balance(to, d.balance(to)).records =~= m.records);
}

/// Reconciling a transfer of `n` with `u` unused, `u <= n`, leaves the
/// receiver `n - u` richer and the sender `n - u` poorer, every other account
/// as it was, and the supply unchanged.
pub proof fn lemma_partial_consumption(
    m: LedgerModel,
    sender: Seq<char>,
    receiver: Seq<char>,
    n: nat,
    u: nat,
)
    requires
        m.wf(),
        transfer_error(m, sender, receiver, n) is None,
        u <= n,
    ensures
        m.move_funds(sender, receiver, n).move_funds(receiver, sender, u).wf(),
        m.move_funds(sender, receiver, n).move_funds(receiver, sender, u).balance(receiver)
            == m.balance(receiver) + n - u,
        m.move_funds(sender, receiver, n).move_funds(receiver, sender, u).balance(sender)
            == m.balance(sender) - (n - u),
        m.move_funds(sender, receiver, n).move_funds(receiver, sender, u).same_elsewhere(
            m,
            set![sender, receiver],
        ),
        m.move_funds(sender, receiver, n).move_funds(receiver, sender, u).supply == m.supply,
{
    let m1 = m.move_funds(sender, receiver, n);
    lemma_move_funds(m, sender, receiver, n);
    lemma_move_funds(m1, receiver, sender, u);
    let m2 = m1.move_funds(receiver, sender, u);
    assert(set![receiver, sender] =~= set![sender, receiver]);
    assert forall|k: Seq<char>| !set![sender, receiver].contains(k) implies {
        &&& #[trigger] m.is_registered(k) == m2.is_registered(k)
        &&& m.balance(k) == m2.balance(k)
    } by {
        assert(m1.is_registered(k) == m2.is_registered(k));
        assert(m.is_registered(k) == m1.is_registered(k));
    }
}

/// Where the receiver answers with an amount `u` within `[0, n]`, `u` is
/// taken as unused, and after reconciliation the receiver is `n - u` richer,
/// the sender `n - u` poorer, and the supply is unchanged.
pub proof fn lemma_valid_response(
    m: LedgerModel,
    sender: Seq<char>,
    receiver: Seq<char>,
    n: nat,
    response: ReceiverResponse,
)
    requires
        m.wf(),
        transfer_error(m, sender, receiver, n) is None,
        claims_valid_amount(n, response),
    ensures
        ({
            let u = parsed_amount(response->Returned_0@)->Some_0;
            let after = m.move_funds(sender, receiver, n).move_funds(
                receiver,
                sender,
                unused_of(n, response),
            );
            &&& unused_of(n, response) == u
            &&& u <= n
            &&& after.balance(receiver) == m.balance(receiver) + (n - u)
            &&& after.balance(sender) == m.balance(sender) - (n - u)
            &&& after.supply == m.supply
        }),
{
    lemma_partial_consumption(m, sender, receiver, n, unused_of(n, response));
}

/// Where the receiver fails, cannot be reached, or answers with anything but
/// an amount within `[0, n]`, the whole of `n` is taken as unused, and
/// reconciling the transfer restores the ledger exactly as it was before.
pub proof fn lemma_full_refund(
    m: LedgerModel,
    sender: Seq<char>,
    receiver: Seq<char>,
    n: nat,
    response: ReceiverResponse,
)
    requires
        m.wf(),
        transfer_error(m, sender, receiver, n) is None,
        !claims_valid_amount(n, response),
    ensures
        unused_of(n, response) == n,
        m.move_funds(sender, receiver, n).move_funds(receiver, sender, unused_of(n, response))
            == m,
{
    let i = m.index_of(sender);
    let j = m.index_of(receiver);
    lemma_index(m, sender, i);
    lemma_index(m, receiver, j);
    let m1 = m.move_funds(sender, receiver, n);
    lemma_move_funds(m, sender, receiver, n);
    lemma_move_funds(m1, receiver, sender, n);
    let m2 = m1.move_funds(receiver, sender, n);
    assert forall|k: int| 0 <= k < m.records.len() implies m2.records[k] == m.records[k] by {
        let a = m.records[k].0;
        assert(m1.records[k].0 == a);
        assert(m2.records[k].0 == a);
        lemma_index(m2, a, k);
        lemma_index(m1, a, k);
        lemma_index(m, a, k);
        if a != sender && a != receiver {
            assert(!set![sender, receiver].contains(a));
            assert(!set![receiver, sender].contains(a));
            assert(m1.balance(a) == m.balance(a));
            assert(m2.balance(a) == m1.balance(a));
        }
    }
    assert(m2.records =~= m.records);
}

} // verus!
