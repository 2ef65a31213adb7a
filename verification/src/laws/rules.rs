//! Laws of the rules of a chain: when a hardfork is active, which rules it brings, and what the
//! call of a system contract looks like.

use vstd::prelude::*;
use crate::config;
use crate::env::{Header, SpecId, TxEnv};
use crate::hardfork::{ChainSpec, EthereumHardfork, ForkCondition, Head};
use crate::primitives::{Address, TxKind, U256};

verus! {

/// A fork by number is active from its number on, and by nothing else. It sets in at the one block
/// where it is active and was not active at the block before.
pub proof fn lemma_fork_by_number(block: u64, head: Head)
    ensures
        ({
            let fork = ForkCondition::Block(block);
            &&& fork.is_active_at_block(head.number) <==> head.number >= block
            &&& !fork.is_active_at_timestamp(head.timestamp)
            &&& !fork.is_active_at_ttd(head.total_difficulty@, head.difficulty@)
            &&& fork.is_active_at_head(head) <==> head.number >= block
            &&& fork.is_transition(head.number) <==> head.number == block
            &&& head.number > 0 ==> (fork.is_transition(head.number) <==> fork.is_active_at_block(
                head.number,
            ) && !fork.is_active_at_block((head.number - 1) as u64))
        }),
{
}

/// A fork by time is active from its time on, and by nothing else.
pub proof fn lemma_fork_by_time(time: u64, head: Head)
    ensures
        ({
            let fork = ForkCondition::Timestamp(time);
            &&& fork.is_active_at_timestamp(head.timestamp) <==> head.timestamp >= time
            &&& !fork.is_active_at_block(head.number)
            &&& !fork.is_active_at_ttd(head.total_difficulty@, head.difficulty@)
            &&& fork.is_active_at_head(head) <==> head.timestamp >= time
            &&& !fork.is_transition(head.number)
        }),
{
}

/// A fork by difficulty is active once the chain before a block has reached it, and from its number
/// on where that is known.
pub proof fn lemma_fork_by_difficulty(fork_block: Option<u64>, threshold: U256, head: Head)
    ensures
        ({
            let fork = ForkCondition::TTD { fork_block, total_difficulty: threshold };
            let reached = threshold@ == 0 || head.total_difficulty@ >= head.difficulty@
                + threshold@;
            let passed = fork_block is Some && head.number >= fork_block->0;
            &&& fork.is_active_at_ttd(head.total_difficulty@, head.difficulty@) <==> reached
            &&& fork.is_active_at_block(head.number) <==> passed
            &&& !fork.is_active_at_timestamp(head.timestamp)
            &&& fork.is_active_at_head(head) <==> reached || passed
            &&& !fork.is_transition(head.number)
        }),
{
}

/// A fork that never comes is never active.
pub proof fn lemma_fork_that_never_comes(head: Head)
    ensures
        ({
            let fork = ForkCondition::Never;
            &&& !fork.is_active_at_block(head.number)
            &&& !fork.is_active_at_timestamp(head.timestamp)
            &&& !fork.is_active_at_ttd(head.total_difficulty@, head.difficulty@)
            &&& !fork.is_active_at_head(head)
            &&& !fork.is_transition(head.number)
        }),
{
}

/// A fork that is active at a block is active at every block that is later in number and time and
/// has no less difficulty before it.
pub proof fn lemma_fork_stays_active(fork: ForkCondition, head: Head, later: Head)
    requires
        fork.is_active_at_head(head),
        head.number <= later.number,
        head.timestamp <= later.timestamp,
        head.total_difficulty@ + later.difficulty@ <= later.total_difficulty@ + head.difficulty@,
        head.total_difficulty@ >= head.difficulty@,
    ensures
        fork.is_active_at_head(later),
{
}

/// The rules at a block are those of the newest fork that is active there, fork by fork.
pub proof fn lemma_rules_of_newest_fork(chain_spec: ChainSpec, head: Head, spec_id: SpecId)
    requires
        config::is_spec_at(chain_spec, head, spec_id),
    ensures
        ({
            let active = |fork: EthereumHardfork| chain_spec.condition(fork).is_active_at_head(head);
            if active(EthereumHardfork::Prague) {
                spec_id == SpecId::PRAGUE
            } else if active(EthereumHardfork::Cancun) {
                spec_id == SpecId::CANCUN
            } else if active(EthereumHardfork::Shanghai) {
                spec_id == SpecId::SHANGHAI
            } else if active(EthereumHardfork::Paris) {
                spec_id == SpecId::MERGE
            } else if active(EthereumHardfork::London) {
                spec_id == SpecId::LONDON
            } else if active(EthereumHardfork::Berlin) {
                spec_id == SpecId::BERLIN
            } else if active(EthereumHardfork::Istanbul) {
                spec_id == SpecId::ISTANBUL
            } else if active(EthereumHardfork::Petersburg) {
                spec_id == SpecId::PETERSBURG
            } else if active(EthereumHardfork::Byzantium) {
                spec_id == SpecId::BYZANTIUM
            } else if active(EthereumHardfork::SpuriousDragon) {
                spec_id == SpecId::SPURIOUS_DRAGON
            } else if active(EthereumHardfork::Tangerine) {
                spec_id == SpecId::TANGERINE
            } else if active(EthereumHardfork::Homestead) {
                spec_id == SpecId::HOMESTEAD
            } else {
                active(EthereumHardfork::Frontier) && spec_id == SpecId::FRONTIER
            }
        }),
{
    let rung = choose|rung: int| #[trigger]
        config::is_newest_active(chain_spec, head, rung) && spec_id == config::fork_ladder()[rung].1;
    assert forall|newer: int| 0 <= newer < rung implies !chain_spec.condition(
        #[trigger] config::fork_ladder()[newer].0,
    ).is_active_at_head(head) by {
        assert(!config::rung_is_active(chain_spec, head, newer));
    }
    assert(config::fork_ladder()[0].0 == EthereumHardfork::Prague);
    assert(config::fork_ladder()[1].0 == EthereumHardfork::Cancun);
    assert(config::fork_ladder()[2].0 == EthereumHardfork::Shanghai);
    assert(config::fork_ladder()[3].0 == EthereumHardfork::Paris);
    assert(config::fork_ladder()[4].0 == EthereumHardfork::London);
    assert(config::fork_ladder()[5].0 == EthereumHardfork::Berlin);
    assert(config::fork_ladder()[6].0 == EthereumHardfork::Istanbul);
    assert(config::fork_ladder()[7].0 == EthereumHardfork::Petersburg);
    assert(config::fork_ladder()[8].0 == EthereumHardfork::Byzantium);
    assert(config::fork_ladder()[9].0 == EthereumHardfork::SpuriousDragon);
    assert(config::fork_ladder()[10].0 == EthereumHardfork::Tangerine);
    assert(config::fork_ladder()[11].0 == EthereumHardfork::Homestead);
    assert(config::fork_ladder()[12].0 == EthereumHardfork::Frontier);
}

/// There are rules at a block exactly where one of the forks that bring rules is active there.
pub proof fn lemma_rules_need_a_fork(chain_spec: ChainSpec, head: Head)
    ensures
        config::some_fork_is_active(chain_spec, head) <==> {
            let active = |fork: EthereumHardfork| chain_spec.condition(fork).is_active_at_head(head);
            ||| active(EthereumHardfork::Prague)
            ||| active(EthereumHardfork::Cancun)
            ||| active(EthereumHardfork::Shanghai)
            ||| active(EthereumHardfork::Paris)
            ||| active(EthereumHardfork::London)
            ||| active(EthereumHardfork::Berlin)
            ||| active(EthereumHardfork::Istanbul)
            ||| active(EthereumHardfork::Petersburg)
            ||| active(EthereumHardfork::Byzantium)
            ||| active(EthereumHardfork::SpuriousDragon)
            ||| active(EthereumHardfork::Tangerine)
            ||| active(EthereumHardfork::Homestead)
            ||| active(EthereumHardfork::Frontier)
        },
{
    let ladder = config::fork_ladder();
    assert(config::rung_is_active(chain_spec, head, 0) == chain_spec.condition(
        EthereumHardfork::Prague,
    ).is_active_at_head(head));
    assert(config::rung_is_active(chain_spec, head, 1) == chain_spec.condition(
        EthereumHardfork::Cancun,
    ).is_active_at_head(head));
    assert(config::rung_is_active(chain_spec, head, 2) == chain_spec.condition(
        EthereumHardfork::Shanghai,
    ).is_active_at_head(head));
    assert(config::rung_is_active(chain_spec, head, 3) == chain_spec.condition(
        EthereumHardfork::Paris,
    ).is_active_at_head(head));
    assert(config::rung_is_active(chain_spec, head, 4) == chain_spec.condition(
        EthereumHardfork::London,
    ).is_active_at_head(head));
    assert(config::rung_is_active(chain_spec, head, 5) == chain_spec.condition(
        EthereumHardfork::Berlin,
    ).is_active_at_head(head));
    assert(config::rung_is_active(chain_spec, head, 6) == chain_spec.condition(
        EthereumHardfork::Istanbul,
    ).is_active_at_head(head));
    assert(config::rung_is_active(chain_spec, head, 7) == chain_spec.condition(
        EthereumHardfork::Petersburg,
    ).is_active_at_head(head));
    assert(config::rung_is_active(chain_spec, head, 8) == chain_spec.condition(
        EthereumHardfork::Byzantium,
    ).is_active_at_head(head));
    assert(config::rung_is_active(chain_spec, head, 9) == chain_spec.condition(
        EthereumHardfork::SpuriousDragon,
    ).is_active_at_head(head));
    assert(config::rung_is_active(chain_spec, head, 10) == chain_spec.condition(
        EthereumHardfork::Tangerine,
    ).is_active_at_head(head));
    assert(config::rung_is_active(chain_spec, head, 11) == chain_spec.condition(
        EthereumHardfork::Homestead,
    ).is_active_at_head(head));
    assert(config::rung_is_active(chain_spec, head, 12) == chain_spec.condition(
        EthereumHardfork::Frontier,
    ).is_active_at_head(head));
    if config::some_fork_is_active(chain_spec, head) {
        let rung = choose|rung: int|
            0 <= rung < ladder.len() && config::rung_is_active(chain_spec, head, rung);
        assert(ladder.len() == 13);
    }
}

/// After the merge the rules are those of the newest of Prague, Cancun and Shanghai whose time has
/// come, and those of the merge before them.
pub proof fn lemma_rules_after_merge(chain_spec: ChainSpec, timestamp: u64)
    ensures
        ({
            let spec_id = config::spec_after_merge(chain_spec, timestamp);
            let prague = chain_spec.condition(
                EthereumHardfork::Prague,
            ) matches ForkCondition::Timestamp(time) && timestamp >= time;
            let cancun = chain_spec.condition(
                EthereumHardfork::Cancun,
            ) matches ForkCondition::Timestamp(time) && timestamp >= time;
            let shanghai = chain_spec.condition(
                EthereumHardfork::Shanghai,
            ) matches ForkCondition::Timestamp(time) && timestamp >= time;
            &&& spec_id == SpecId::PRAGUE <==> prague
            &&& spec_id == SpecId::CANCUN <==> cancun && !prague
            &&& spec_id == SpecId::SHANGHAI <==> shanghai && !cancun && !prague
            &&& spec_id == SpecId::MERGE <==> !shanghai && !cancun && !prague
        }),
{
}

/// A call of a system contract calls that contract from that caller with that data and 30000000
/// gas, and asks and gives nothing else.
pub proof fn lemma_system_call_is_free(
    tx: TxEnv,
    caller: Address,
    contract: Address,
    data: Seq<u8>,
)
    requires
        config::is_system_call(tx, caller, contract, data),
    ensures
        tx.caller == caller,
        tx.transact_to == TxKind::Call(contract),
        tx.data@ == data,
        tx.gas_limit == 30_000_000,
        tx.gas_price@ == 0,
        tx.gas_priority_fee is None,
        tx.value@ == 0,
        tx.nonce is None,
        tx.chain_id is None,
        tx.access_list@.len() == 0,
        tx.blob_hashes@.len() == 0,
        tx.max_fee_per_blob_gas is None,
        tx.authorization_list is None,
{
}

/// A transaction in which nothing has been filled in is a call of the zero address by the zero
/// address, with all the gas there is and nothing else.
pub proof fn lemma_blank_transaction(tx: TxEnv)
    requires
        tx.is_blank(),
    ensures
        tx.caller.bytes@.len() == 20,
        forall|i: int| 0 <= i < 20 ==> #[trigger] tx.caller.bytes@[i] == 0,
        tx.transact_to is Call,
        tx.transact_to matches TxKind::Call(to) ==> forall|i: int|
            0 <= i < 20 ==> #[trigger] to.bytes@[i] == 0,
        tx.gas_limit == u64::MAX,
        tx.gas_price@ == 0,
        tx.gas_priority_fee is None,
        tx.value@ == 0,
        tx.data@.len() == 0,
        tx.nonce is None,
        tx.chain_id is None,
        tx.access_list@.len() == 0,
        tx.blob_hashes@.len() == 0,
        tx.max_fee_per_blob_gas is None,
        tx.authorization_list is None,
{
}

/// The block of a header has the header's number, time and difficulty, and the total difficulty
/// that it is given.
pub proof fn lemma_block_of_header(header: Header, total_difficulty: U256)
    ensures
        ({
            let head = config::head_of(header, total_difficulty);
            &&& head.number == header.number
            &&& head.timestamp == header.timestamp
            &&& head.difficulty == header.difficulty
            &&& head.total_difficulty == total_difficulty
        }),
{
}

} // verus!
