//! Settling an exchange operation: a few ledger operations and one payment
//! of currency, carried out together or not at all.

use crate::assets::{Module, Op, State};
use crate::currency::{paid, Currency, Payment};
use crate::types::Error;
use vstd::prelude::*;

verus! {

/// What settling answers when it starts at position `at` of `ops`: the
/// ledger operations are tried in order, each on the ledger that the ones
/// before it left, and the payment is tried just before the operation at
/// position `pay_at`. The first refusal is the answer.
pub open spec fn check_from<C: Currency>(
    assets: State,
    currency: C,
    ops: Seq<Op>,
    payment: Payment,
    pay_at: int,
    at: int,
) -> Result<(), Error>
    decreases ops.len() - at,
{
    if at == pay_at && currency.transfer_check(payment) is Err {
        currency.transfer_check(payment)
    } else if at < 0 || at >= ops.len() {
        Ok(())
    } else if assets.check(ops[at]) is Err {
        assets.check(ops[at])
    } else {
        check_from(assets.applied(ops[at]), currency, ops, payment, pay_at, at + 1)
    }
}

/// The ledger after the operations from position `at` on.
pub open spec fn applied_from(assets: State, ops: Seq<Op>, at: int) -> State
    decreases ops.len() - at,
{
    if at < 0 || at >= ops.len() {
        assets
    } else {
        applied_from(assets.applied(ops[at]), ops, at + 1)
    }
}

/// What settling answers: see `check_from`.
pub open spec fn check<C: Currency>(
    assets: State,
    currency: C,
    ops: Seq<Op>,
    payment: Payment,
    pay_at: int,
) -> Result<(), Error> {
    check_from(assets, currency, ops, payment, pay_at, 0)
}

/// The ledger after all the operations.
pub open spec fn applied(assets: State, ops: Seq<Op>) -> State {
    applied_from(assets, ops, 0)
}

/// Whether each of the operations keeps the supply law.
pub open spec fn lawful(assets: State, ops: Seq<Op>) -> bool {
    forall|j: int| 0 <= j < ops.len() ==> assets.lawful(#[trigger] ops[j])
}

fn settle_from<C: Currency>(
    assets: &mut Module,
    currency: &mut C,
    ops: &Vec<Op>,
    payment: &Payment,
    pay_at: usize,
    at: usize,
) -> (r: Result<(), Error>)
    requires
        pay_at <= ops@.len(),
        at <= ops@.len(),
        at > pay_at ==> old(currency).transfer_check(*payment) is Ok,
    ensures
        r == check_from(old(assets)@, *old(currency), ops@, *payment, pay_at as int, at as int),
        r is Ok ==> final(assets)@ == applied_from(old(assets)@, ops@, at as int),
        r is Ok ==> paid(*old(currency), *final(currency), *payment),
        r is Err ==> final(assets)@ == old(assets)@,
        r is Err ==> *final(currency) == *old(currency),
        old(assets)@.conserved() && lawful(old(assets)@, ops@) ==> final(assets)@.conserved(),
    decreases ops@.len() - at,
{
    if at == pay_at {
        match currency.can_transfer(payment) {
            Err(e) => {
                return Err(e);
            },
            Ok(_) => {},
        }
    }
    if at >= ops.len() {
        let sent = currency.transfer(
            &payment.source,
            &payment.dest,
            payment.value,
            payment.requirement,
        );
        assert(sent is Ok);
        return Ok(());
    }
    let ghost before = assets@;
    proof {
        assets.lemma_view_is_total();
        before.lemma_applied_keeps_assets(ops@[at as int]);
    }
    match assets.apply(&ops[at]) {
        Err(e) => {
            return Err(e);
        },
        Ok(_) => {},
    }
    proof {
        assert forall|j: int| 0 <= j < ops@.len() && lawful(before, ops@) implies assets@.lawful(
            #[trigger] ops@[j],
        ) by {
            assert(before.lawful(ops@[j]));
        }
    }
    let rest = settle_from(assets, currency, ops, payment, pay_at, at + 1);
    if rest.is_err() {
        assets.revert(&ops[at], Ghost(before));
    }
    rest
}

/// Carries out the ledger operations `ops` in order and makes the payment,
/// or does nothing at all. The payment is tried after the first `pay_at`
/// operations; whatever is refused first is the error.
pub fn settle<C: Currency>(
    assets: &mut Module,
    currency: &mut C,
    ops: &Vec<Op>,
    payment: &Payment,
    pay_at: usize,
) -> (r: Result<(), Error>)
    requires
        pay_at <= ops@.len(),
    ensures
        r == check(old(assets)@, *old(currency), ops@, *payment, pay_at as int),
        r is Ok ==> final(assets)@ == applied(old(assets)@, ops@),
        r is Ok ==> paid(*old(currency), *final(currency), *payment),
        r is Err ==> final(assets)@ == old(assets)@,
        r is Err ==> *final(currency) == *old(currency),
        old(assets)@.conserved() && lawful(old(assets)@, ops@) ==> final(assets)@.conserved(),
{
    settle_from(assets, currency, ops, payment, pay_at, 0)
}

/// Operations that settling accepts leave the issued assets as they are,
/// and keep the supply law where each of them does.
pub proof fn lemma_applied_from_keeps_law<C: Currency>(
    assets: State,
    currency: C,
    ops: Seq<Op>,
    payment: Payment,
    pay_at: int,
    at: int,
)
    requires
        0 <= at,
        check_from(assets, currency, ops, payment, pay_at, at) is Ok,
    ensures
        applied_from(assets, ops, at).infos == assets.infos,
        applied_from(assets, ops, at).next_asset_id == assets.next_asset_id,
        assets.conserved() && lawful(assets, ops) ==> applied_from(assets, ops, at).conserved(),
    decreases ops.len() - at,
{
    if at < ops.len() {
        let next = assets.applied(ops[at]);
        assets.lemma_applied_keeps_assets(ops[at]);
        assert forall|j: int| 0 <= j < ops.len() && lawful(assets, ops) implies next.lawful(
            #[trigger] ops[j],
        ) by {
            assert(assets.lawful(ops[j]));
        }
        if assets.conserved() && lawful(assets, ops) {
            assert(assets.lawful(ops[at]));
            assets.lemma_applied_conserves(ops[at]);
        }
        lemma_applied_from_keeps_law(next, currency, ops, payment, pay_at, at + 1);
    }
}

} // verus!
