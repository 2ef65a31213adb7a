//! Tests against a running cluster: their options, and the transactions that they send.

use vstd::prelude::*;

verus! {

/// The options of a test against a cluster.
#[derive(Debug)]
pub struct ClusterTestOpt {
    pub nodes: u8,
    pub chain: String,
    pub phrase: String,
    pub receiver_address: String,
    pub transaction_amount: u64,
    pub narwhal_port: Option<String>,
    pub instance: Option<u8>,
}

impl ClusterTestOpt {
    /// The phrase of the wallets.
    pub fn phrase(&self) -> (result: &str)
        ensures
            result@ == self.phrase@,
    {
        self.phrase.as_str()
    }

    /// The address that receives the transactions.
    pub fn receiver_address(&self) -> (result: &str)
        ensures
            result@ == self.receiver_address@,
    {
        self.receiver_address.as_str()
    }

    /// How many nodes the cluster has.
    pub fn nodes(&self) -> (result: u8)
        ensures
            result == self.nodes,
    {
        self.nodes
    }

    /// The chain of the cluster.
    pub fn chain(&self) -> (result: &str)
        ensures
            result@ == self.chain@,
    {
        self.chain.as_str()
    }

    /// How many transactions are sent to each node.
    pub fn transaction_amount(&self) -> (result: u64)
        ensures
            result == self.transaction_amount,
    {
        self.transaction_amount
    }

    /// The port of the consensus layer.
    pub fn narwhal_port(&self) -> (result: &Option<String>)
        ensures
            *result == self.narwhal_port,
    {
        &self.narwhal_port
    }

    /// Which instance of the cluster this is.
    pub fn instance(&self) -> (result: &Option<u8>)
        ensures
            *result == self.instance,
    {
        &self.instance
    }

    /// Sets which instance of the cluster this is.
    pub fn set_instance(&mut self, instance: u8)
        ensures
            *final(self) == (ClusterTestOpt { instance: Some(instance), ..*old(self) }),
    {
        self.instance = Some(instance);
    }
}

/// A test that sends raw transactions to the cluster.
#[derive(Clone, Copy, Debug)]
pub struct SendRawTransactionTest;

/// The amount that each transaction of the test transfers, in wei.
pub const TRANSFER_AMOUNT: u64 = 100_000;

impl SendRawTransactionTest {
    /// The name of the test.
    pub fn name(&self) -> (result: &'static str)
        ensures
            result@ == "SendRawTransaction"@,
    {
        "SendRawTransaction"
    }

    /// What the test does.
    pub fn description(&self) -> (result: &'static str)
        ensures
            result@ == "Test sending a raw transaction to the cluster."@,
    {
        "Test sending a raw transaction to the cluster."
    }
}

/// A transfer that a client makes.
#[derive(Clone, Copy, Debug)]
pub struct Transfer<'a> {
    pub receiver_address: &'a str,
    /// The amount, in wei.
    pub value: u64,
    pub nonce: u64,
}

/// The transfer that a client makes with a nonce.
pub fn transfer_with_nonce(options: &ClusterTestOpt, nonce: u64) -> (result: Transfer<'_>)
    ensures
        result.receiver_address@ == options.receiver_address@,
        result.value == 100_000,
        result.nonce == nonce,
{
    Transfer { receiver_address: options.receiver_address(), value: TRANSFER_AMOUNT, nonce }
}

/// A transaction that is to be sent: by which client, and with which nonce.
#[derive(Clone, Copy, Debug, PartialEq, Eq)]
pub struct PlannedTransaction {
    pub client_index: usize,
    pub nonce: u64,
}

/// The transactions of the test, in the order in which they are sent: round by round, one of each
/// client per round, and the nonces of a client count on from the transactions that it has sent
/// before.
#[derive(Debug)]
pub struct SendPlan {
    transaction_counts: Vec<u64>,
    transaction_amount: u64,
    round: u64,
    client_index: usize,
}

/// What is left of a plan, and what has been planned.
pub struct SendState {
    /// How many transactions each client had sent before the test.
    pub counts: Seq<u64>,
    /// How many transactions each client sends.
    pub amount: nat,
    /// How many transactions have been given out.
    pub given: nat,
}

impl SendState {
    /// The transaction that is given out after `given` others.
    pub open spec fn planned(self, given: nat) -> PlannedTransaction {
        let client = given as int % self.counts.len() as int;
        let round = given as int / self.counts.len() as int;
        PlannedTransaction {
            client_index: client as usize,
            nonce: (self.counts[client] + round) as u64,
        }
    }

    /// How many transactions there are in all.
    pub open spec fn size(self) -> nat {
        self.counts.len() * self.amount
    }

    /// No nonce leaves its range.
    pub open spec fn nonces_fit(self) -> bool {
        forall|i: int|
            0 <= i < self.counts.len() && self.amount > 0 ==> (#[trigger] self.counts[i])
                + self.amount - 1 <= u64::MAX
    }
}

impl View for SendPlan {
    type V = SendState;

    closed spec fn view(&self) -> SendState {
        SendState {
            counts: self.transaction_counts@,
            amount: self.transaction_amount as nat,
            given: (self.round * self.transaction_counts@.len() + self.client_index) as nat,
        }
    }
}

impl SendPlan {
    /// The plan stands at a client of a round, or at its end.
    pub closed spec fn wf(self) -> bool {
        &&& self@.nonces_fit()
        &&& self.round <= self.transaction_amount
        &&& if self.round < self.transaction_amount {
            self.client_index < self.transaction_counts@.len() || self.transaction_counts@.len()
                == 0 && self.client_index == 0
        } else {
            self.client_index == 0
        }
    }

    /// The plan for clients that have sent `transaction_counts` transactions before, of which each
    /// sends `transaction_amount` more.
    pub fn new(transaction_counts: Vec<u64>, transaction_amount: u64) -> (result: SendPlan)
        requires
            forall|i: int|
                0 <= i < transaction_counts@.len() && transaction_amount > 0 ==> (
                #[trigger] transaction_counts@[i]) + transaction_amount - 1 <= u64::MAX,
        ensures
            result.wf(),
            result@ == (SendState {
                counts: transaction_counts@,
                amount: transaction_amount as nat,
                given: 0,
            }),
    {
        SendPlan { transaction_counts, transaction_amount, round: 0, client_index: 0 }
    }

    /// The next transaction, while there is one.
    pub fn next_transaction(&mut self) -> (result: Option<PlannedTransaction>)
        requires
            old(self).wf(),
        ensures
            final(self).wf(),
            if old(self)@.given < old(self)@.size() {
                &&& result == Some(old(self)@.planned(old(self)@.given))
                &&& final(self)@ == (SendState { given: old(self)@.given + 1, ..old(self)@ })
            } else {
                &&& result is None
                &&& final(self)@ == old(self)@
            },
    {
        let clients: usize = self.transaction_counts.len();
        proof {
            lemma_position(
                self.round as nat,
                self.client_index as nat,
                clients as nat,
                self.transaction_amount as nat,
            );
        }
        if self.round >= self.transaction_amount || clients == 0 {
            return None;
        }
        assert(self@.counts[self.client_index as int] + self@.amount - 1 <= u64::MAX);
        let nonce: u64 = self.transaction_counts[self.client_index] + self.round;
        let planned = PlannedTransaction { client_index: self.client_index, nonce };
        if self.client_index + 1 < clients {
            self.client_index = self.client_index + 1;
        } else {
            self.client_index = 0;
            self.round = self.round + 1;
        }
        assert(self@.nonces_fit()) by {
            assert(old(self)@.nonces_fit());
            assert(self@.counts == old(self)@.counts);
        }
        Some(planned)
    }
}

/// Where a plan stands, by the number of transactions that it has given out.
proof fn lemma_position(round: nat, client: nat, clients: nat, amount: nat)
    requires
        round <= amount,
        if round < amount {
            client < clients || clients == 0 && client == 0
        } else {
            client == 0
        },
    ensures
        clients > 0 && round < amount ==> {
            &&& (round * clients + client) % clients == client
            &&& (round * clients + client) / clients == round
            &&& round * clients + client < clients * amount
        },
        round == amount || clients == 0 ==> round * clients + client >= clients * amount,
        (round + 1) * clients == round * clients + clients,
{
    assert((round + 1) * clients == round * clients + clients) by (nonlinear_arith);
    if clients > 0 && round < amount {
        vstd::arithmetic::div_mod::lemma_fundamental_div_mod_converse(
            (round * clients + client) as int,
            clients as int,
            round as int,
            client as int,
        );
        assert(round * clients + client < clients * amount) by (nonlinear_arith)
            requires
                round + 1 <= amount,
                client < clients,
        ;
    } else {
        assert(round * clients + client >= clients * amount) by (nonlinear_arith)
            requires
                round == amount || clients == 0,
        ;
    }
}

/// Each client sends as many transactions as it should, and their nonces count on from those that
/// it has sent before, without a gap.
pub proof fn lemma_nonces_of_client_are_consecutive(plan: SendState, client: nat, round: nat)
    requires
        plan.nonces_fit(),
        plan.counts.len() <= usize::MAX,
        client < plan.counts.len(),
        round < plan.amount,
    ensures
        round * plan.counts.len() + client < plan.size(),
        plan.planned(round * plan.counts.len() + client).client_index == client,
        plan.planned(round * plan.counts.len() + client).nonce == plan.counts[client as int]
            + round,
{
    lemma_position(round, client, plan.counts.len(), plan.amount);
    assert(plan.counts[client as int] + plan.amount - 1 <= u64::MAX);
}

/// No client uses a nonce twice.
pub proof fn lemma_no_nonce_is_used_twice(plan: SendState, one: nat, other: nat)
    requires
        plan.nonces_fit(),
        plan.counts.len() <= usize::MAX,
        one < other < plan.size(),
    ensures
        plan.planned(one) != plan.planned(other),
{
    let clients = plan.counts.len();
    assert(clients > 0 && plan.amount > 0) by (nonlinear_arith)
        requires
            0 < clients * plan.amount,
            clients >= 0,
            plan.amount >= 0,
    ;
    lemma_coordinates(one, clients, plan.amount);
    lemma_coordinates(other, clients, plan.amount);
    lemma_nonces_of_client_are_consecutive(plan, one % clients, one / clients);
    lemma_nonces_of_client_are_consecutive(plan, other % clients, other / clients);
}

/// A position in a plan is that of a client in a round.
proof fn lemma_coordinates(given: nat, clients: nat, amount: nat)
    requires
        clients > 0,
        given < clients * amount,
    ensures
        given % clients < clients,
        given / clients < amount,
        (given / clients) * clients + given % clients == given,
{
    vstd::arithmetic::div_mod::lemma_fundamental_div_mod(given as int, clients as int);
    assert((given / clients) * clients + given % clients == given) by (nonlinear_arith)
        requires
            given == clients * (given / clients) + given % clients,
    ;
    assert(given / clients < amount) by (nonlinear_arith)
        requires
            clients > 0,
            given < clients * amount,
            given == clients * (given / clients) + given % clients,
            given % clients >= 0,
    ;
}

/// Whether a text can be the hash of a transaction that was accepted: it starts with `0x`.
pub fn is_transaction_hash(text: &str) -> (result: bool)
    ensures
        result == (text@.len() >= 2 && text@[0] == '0' && text@[1] == 'x'),
{
    text.unicode_len() >= 2 && text.get_char(0) == '0' && text.get_char(1) == 'x'
}

} // verus!
