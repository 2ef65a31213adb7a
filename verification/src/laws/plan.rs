//! Laws of the plan by which a test sends its transactions.

use vstd::prelude::*;
use crate::cluster::{self, SendState};

verus! {

/// Each client sends as many transactions as are asked for.
pub proof fn lemma_plan_has_all_transactions(plan: SendState)
    ensures
        plan.size() == plan.counts.len() * plan.amount,
{
}

/// After every client has had its turn in all rounds before, and the clients before it have had
/// theirs in this one, it is a client's turn, with the nonce that follows from those that it has
/// used.
pub proof fn lemma_turns_go_round(plan: SendState, round: nat, client: nat)
    requires
        client < plan.counts.len() <= usize::MAX,
        round < plan.amount,
        forall|i: int|
            0 <= i < plan.counts.len() ==> (#[trigger] plan.counts[i]) + plan.amount - 1
                <= u64::MAX,
    ensures
        ({
            let planned = plan.planned(round * plan.counts.len() + client);
            &&& planned.client_index == client
            &&& planned.nonce == plan.counts[client as int] + round
        }),
        round * plan.counts.len() + client < plan.size(),
{
    cluster::lemma_nonces_of_client_are_consecutive(plan, client, round);
}

/// The nonces fit exactly where the last one of each client does.
pub proof fn lemma_last_nonce_fits(plan: SendState)
    requires
        plan.amount > 0,
    ensures
        plan.nonces_fit() <==> forall|i: int|
            0 <= i < plan.counts.len() ==> (#[trigger] plan.counts[i]) + plan.amount - 1
                <= u64::MAX,
{
}

/// A plan of nothing fits.
pub proof fn lemma_empty_plan_fits(plan: SendState)
    requires
        plan.amount == 0,
    ensures
        plan.nonces_fit(),
{
}

} // verus!
