//! Hardforks: when each of them is active, and the chain that they belong to.

use vstd::prelude::*;
use crate::primitives::U256;

verus! {

/// The hardforks of Ethereum, the oldest first.
#[derive(Clone, Copy, Debug, PartialEq, Eq, Structural)]
pub enum EthereumHardfork {
    Frontier,
    Homestead,
    Dao,
    Tangerine,
    SpuriousDragon,
    Byzantium,
    Constantinople,
    Petersburg,
    Istanbul,
    MuirGlacier,
    Berlin,
    London,
    ArrowGlacier,
    GrayGlacier,
    Paris,
    Shanghai,
    Cancun,
    Prague,
}

/// A block, as far as the activation of a hardfork depends on it.
#[derive(Clone, Copy, Debug, PartialEq, Eq)]
pub struct Head {
    /// The number of the block.
    pub number: u64,
    /// The time of the block.
    pub timestamp: u64,
    /// The difficulty of the block.
    pub difficulty: U256,
    /// The difficulty of the chain up to and with the block.
    pub total_difficulty: U256,
}

/// The condition under which a hardfork is active.
#[derive(Clone, Copy, Debug, PartialEq, Eq)]
pub enum ForkCondition {
    /// From a block number on.
    Block(u64),
    /// Once the chain before a block has reached a total difficulty; from a block number on, where
    /// it is known.
    TTD { fork_block: Option<u64>, total_difficulty: U256 },
    /// From a time on.
    Timestamp(u64),
    /// Not at all.
    Never,
}

impl ForkCondition {
    /// Active by the number of a block.
    pub open spec fn is_active_at_block(self, number: u64) -> bool {
        match self {
            ForkCondition::Block(block) => number >= block,
            ForkCondition::TTD { fork_block: Some(block), .. } => number >= block,
            _ => false,
        }
    }

    /// Active by the time of a block.
    pub open spec fn is_active_at_timestamp(self, timestamp: u64) -> bool {
        self matches ForkCondition::Timestamp(time) && timestamp >= time
    }

    /// Active by the total difficulty of the chain before a block.
    pub open spec fn is_active_at_ttd(self, total_difficulty: nat, difficulty: nat) -> bool {
        self matches ForkCondition::TTD { total_difficulty: threshold, .. } && threshold@ <= (
        if total_difficulty >= difficulty {
            total_difficulty - difficulty
        } else {
            0
        })
    }

    /// Active at a block, by its number, by its time or by the total difficulty before it.
    pub open spec fn is_active_at_head(self, head: Head) -> bool {
        ||| self.is_active_at_block(head.number)
        ||| self.is_active_at_timestamp(head.timestamp)
        ||| self.is_active_at_ttd(head.total_difficulty@, head.difficulty@)
    }

    /// The block is the first one at which the fork is active, by its number.
    pub open spec fn is_transition(self, number: u64) -> bool {
        self matches ForkCondition::Block(block) && number == block
    }

    /// Whether the fork is active by the number of a block.
    pub fn active_at_block(&self, number: u64) -> (result: bool)
        ensures
            result == self.is_active_at_block(number),
    {
        match self {
            ForkCondition::Block(block) => number >= *block,
            ForkCondition::TTD { fork_block: Some(block), .. } => number >= *block,
            _ => false,
        }
    }

    /// Whether the fork is active by the time of a block.
    pub fn active_at_timestamp(&self, timestamp: u64) -> (result: bool)
        ensures
            result == self.is_active_at_timestamp(timestamp),
    {
        match self {
            ForkCondition::Timestamp(time) => timestamp >= *time,
            _ => false,
        }
    }

    /// Whether the fork is active by the total difficulty of the chain before a block, which is
    /// `total_difficulty` with the block's own `difficulty` taken off.
    pub fn active_at_ttd(&self, total_difficulty: U256, difficulty: U256) -> (result: bool)
        ensures
            result == self.is_active_at_ttd(total_difficulty@, difficulty@),
    {
        match self {
            ForkCondition::TTD { total_difficulty: threshold, .. } => {
                total_difficulty.saturating_sub(difficulty).at_least(*threshold)
            },
            _ => false,
        }
    }

    /// Whether the fork is active at a block.
    pub fn active_at_head(&self, head: &Head) -> (result: bool)
        ensures
            result == self.is_active_at_head(*head),
    {
        self.active_at_block(head.number) || self.active_at_timestamp(head.timestamp)
            || self.active_at_ttd(head.total_difficulty, head.difficulty)
    }

    /// Whether a block is the first one at which the fork is active, by its number.
    pub fn transitions_at_block(&self, number: u64) -> (result: bool)
        ensures
            result == self.is_transition(number),
    {
        match self {
            ForkCondition::Block(block) => number == *block,
            _ => false,
        }
    }
}

/// The hardforks of a chain, and its id.
#[derive(Debug)]
pub struct ChainSpec {
    chain_id: u64,
    hardforks: Vec<(EthereumHardfork, ForkCondition)>,
}

/// The condition of a fork in a list of settings. A later setting overrides an earlier one, and a
/// fork that is not set is never active.
pub open spec fn condition_in(
    settings: Seq<(EthereumHardfork, ForkCondition)>,
    fork: EthereumHardfork,
) -> ForkCondition
    decreases settings.len(),
{
    if settings.len() == 0 {
        ForkCondition::Never
    } else if settings.last().0 == fork {
        settings.last().1
    } else {
        condition_in(settings.drop_last(), fork)
    }
}

impl ChainSpec {
    /// The id of the chain.
    pub closed spec fn spec_chain_id(self) -> u64 {
        self.chain_id
    }

    /// The condition of a fork on the chain.
    pub closed spec fn condition(self, fork: EthereumHardfork) -> ForkCondition {
        condition_in(self.hardforks@, fork)
    }

    /// A chain without hardforks.
    pub fn new(chain_id: u64) -> (result: ChainSpec)
        ensures
            result.spec_chain_id() == chain_id,
            forall|fork: EthereumHardfork| #[trigger]
                result.condition(fork) == ForkCondition::Never,
    {
        ChainSpec { chain_id, hardforks: Vec::new() }
    }

    /// The chain with the condition of one fork set.
    pub fn with_fork(self, fork: EthereumHardfork, condition: ForkCondition) -> (result: ChainSpec)
        ensures
            result.spec_chain_id() == self.spec_chain_id(),
            forall|other: EthereumHardfork| #[trigger]
                result.condition(other) == if other == fork {
                    condition
                } else {
                    self.condition(other)
                },
    {
        let mut hardforks = self.hardforks;
        hardforks.push((fork, condition));
        assert(hardforks@.drop_last() =~= self.hardforks@);
        ChainSpec { chain_id: self.chain_id, hardforks }
    }

    /// The id of the chain.
    pub fn chain_id(&self) -> (result: u64)
        ensures
            result == self.spec_chain_id(),
    {
        self.chain_id
    }

    /// The condition of a fork on the chain.
    pub fn fork(&self, fork: EthereumHardfork) -> (result: ForkCondition)
        ensures
            result == self.condition(fork),
    {
        let mut i: usize = self.hardforks.len();
        assert(self.hardforks@.take(i as int) =~= self.hardforks@);
        while i > 0
            invariant
                i <= self.hardforks.len(),
                condition_in(self.hardforks@, fork) == condition_in(
                    self.hardforks@.take(i as int),
                    fork,
                ),
            decreases i,
        {
            let ghost shown = self.hardforks@.take(i as int);
            i = i - 1;
            assert(shown.drop_last() =~= self.hardforks@.take(i as int));
            if self.hardforks[i].0 == fork {
                return self.hardforks[i].1;
            }
        }
        ForkCondition::Never
    }
}

} // verus!
