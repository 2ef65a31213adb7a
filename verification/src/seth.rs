//! The node that uses the configured EVM: its arguments, its EVM configuration, and the builders of
//! its components.

use std::sync::Arc;
use vstd::prelude::*;
use crate::config::{ConfigureEvmEnv, EthEvmConfig};
use crate::env::{BlockEnv, CfgEnvWithHandlerCfg, Env, Header, NextBlockEnvAttributes};
use crate::fees::BaseFeeParams;
use crate::hardfork::ChainSpec;
use crate::primitives::{Address, U256};

verus! {

/// The arguments that configure the engine.
#[derive(Clone, Copy, Debug, PartialEq, Eq)]
pub struct EngineArgs {
    /// Whether the experimental engine is used.
    pub experimental: bool,
    /// After how many blocks the experimental engine persists what it holds.
    pub persistence_threshold: u64,
    /// How many blocks the experimental engine keeps in memory.
    pub memory_block_buffer_target: u64,
}

/// How the node is launched.
#[derive(Clone, Copy, Debug, PartialEq, Eq)]
pub enum LaunchPlan {
    /// With the experimental engine and the parallel executor.
    Experimental { persistence_threshold: u64, memory_block_buffer_target: u64 },
    /// As an ordinary Ethereum node.
    Ethereum,
}

impl EngineArgs {
    /// The arguments of a node that is given none: the experimental engine is not used. The other
    /// two are the defaults of the engine.
    pub fn with_defaults(
        persistence_threshold: u64,
        memory_block_buffer_target: u64,
    ) -> (result: EngineArgs)
        ensures
            result == (EngineArgs {
                experimental: false,
                persistence_threshold,
                memory_block_buffer_target,
            }),
    {
        EngineArgs { experimental: false, persistence_threshold, memory_block_buffer_target }
    }

    /// How the node is launched with these arguments.
    pub fn launch_plan(&self) -> (result: LaunchPlan)
        ensures
            result == if self.experimental {
                LaunchPlan::Experimental {
                    persistence_threshold: self.persistence_threshold,
                    memory_block_buffer_target: self.memory_block_buffer_target,
                }
            } else {
                LaunchPlan::Ethereum
            },
    {
        if self.experimental {
            LaunchPlan::Experimental {
                persistence_threshold: self.persistence_threshold,
                memory_block_buffer_target: self.memory_block_buffer_target,
            }
        } else {
            LaunchPlan::Ethereum
        }
    }
}

/// What a precompiled contract gives.
#[derive(Debug, PartialEq, Eq)]
pub struct PrecompileOutput {
    pub gas_used: u64,
    pub bytes: Vec<u8>,
}

/// The EVM configuration of the node: that of Ethereum, and one more precompiled contract.
#[derive(Clone, Debug)]
pub struct ScalarEvmConfig {
    inner: EthEvmConfig,
}

impl ScalarEvmConfig {
    /// The configuration for a chain.
    pub fn new(chain_spec: Arc<ChainSpec>) -> (result: ScalarEvmConfig)
        ensures
            result.spec_chain() == *chain_spec,
    {
        ScalarEvmConfig { inner: EthEvmConfig::new(chain_spec) }
    }

    /// The address of the precompiled contract that the node adds, which ends in `0999`.
    pub fn precompile_address() -> (result: Address)
        ensures
            result.bytes@ == Seq::new(
                20,
                |i: int|
                    if i == 18 {
                        0x09u8
                    } else if i == 19 {
                        0x99u8
                    } else {
                        0u8
                    },
            ),
    {
        let address = Address {
            bytes: [0, 0, 0, 0, 0, 0, 0, 0, 0, 0, 0, 0, 0, 0, 0, 0, 0, 0, 0x09, 0x99],
        };
        assert(address.bytes@ =~= Seq::new(
            20,
            |i: int|
                if i == 18 {
                    0x09u8
                } else if i == 19 {
                    0x99u8
                } else {
                    0u8
                },
        ));
        address
    }

    /// A precompiled contract that does nothing: it uses no gas and gives no bytes.
    pub fn my_precompile(_data: &Vec<u8>, _gas: u64) -> (result: PrecompileOutput)
        ensures
            result.gas_used == 0,
            result.bytes@ == Seq::<u8>::empty(),
    {
        PrecompileOutput { gas_used: 0, bytes: Vec::new() }
    }
}

impl ConfigureEvmEnv for ScalarEvmConfig {
    closed spec fn spec_chain(&self) -> ChainSpec {
        self.inner.spec_chain()
    }

    fn fill_tx_env_system_contract_call(
        &self,
        env: &mut Env,
        caller: Address,
        contract: Address,
        data: Vec<u8>,
    ) {
        self.inner.fill_tx_env_system_contract_call(env, caller, contract, data);
    }

    fn fill_cfg_env(
        &self,
        cfg_env: &mut CfgEnvWithHandlerCfg,
        header: &Header,
        total_difficulty: U256,
    ) {
        self.inner.fill_cfg_env(cfg_env, header, total_difficulty);
    }

    fn next_cfg_and_block_env(
        &self,
        parent: &Header,
        attributes: NextBlockEnvAttributes,
        base_fee_params: BaseFeeParams,
    ) -> (result: (CfgEnvWithHandlerCfg, BlockEnv)) {
        self.inner.next_cfg_and_block_env(parent, attributes, base_fee_params)
    }
}

/// What makes executors that run the transactions of a block one after the other.
#[derive(Debug)]
pub struct EthExecutorProvider<C> {
    pub chain_spec: Arc<ChainSpec>,
    pub evm_config: C,
}

/// What makes executors that run the transactions of a block in parallel.
#[derive(Debug)]
pub struct ParallelExecutorProvider<C> {
    pub chain_spec: Arc<ChainSpec>,
    pub evm_config: C,
}

/// Builds the sequential executor of the node.
#[derive(Clone, Copy, Debug, Default)]
pub struct SequentialExecutorBuilder;

impl SequentialExecutorBuilder {
    /// The EVM configuration and the executor of a chain.
    pub fn build_evm(self, chain_spec: Arc<ChainSpec>) -> (result: (
        ScalarEvmConfig,
        EthExecutorProvider<ScalarEvmConfig>,
    ))
        ensures
            result.0.spec_chain() == *chain_spec,
            *result.1.chain_spec == *chain_spec,
            result.1.evm_config.spec_chain() == *chain_spec,
    {
        (
            ScalarEvmConfig::new(chain_spec.clone()),
            EthExecutorProvider {
                chain_spec: chain_spec.clone(),
                evm_config: ScalarEvmConfig::new(chain_spec),
            },
        )
    }
}

/// Builds the parallel executor of the node.
#[derive(Clone, Copy, Debug, Default)]
pub struct ParallelExecutorBuilder;

impl ParallelExecutorBuilder {
    /// The EVM configuration and the executor of a chain.
    pub fn build_evm(self, chain_spec: Arc<ChainSpec>) -> (result: (
        ScalarEvmConfig,
        ParallelExecutorProvider<ScalarEvmConfig>,
    ))
        ensures
            result.0.spec_chain() == *chain_spec,
            *result.1.chain_spec == *chain_spec,
            result.1.evm_config.spec_chain() == *chain_spec,
    {
        (
            ScalarEvmConfig::new(chain_spec.clone()),
            ParallelExecutorProvider {
                chain_spec: chain_spec.clone(),
                evm_config: ScalarEvmConfig::new(chain_spec),
            },
        )
    }
}

} // verus!
