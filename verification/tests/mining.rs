use std::sync::Arc;

use scalar_node::consensus::{
    announce_pending, consensus_url, create_consensus_transaction, on_reply, ConsensusArgs,
    ReplyAction, ScalarBuilder, ScalarConsensus, DEFAULT_NARWHAL_PORT,
};
use scalar_node::env::Header;
use scalar_node::hardfork::ChainSpec;
use scalar_node::insertion::{
    forkchoice_state, AfterExecution, AfterReply, ForkchoiceReply, PendingBlock, SealedBlock,
    SealedHeader,
};
use scalar_node::mode::{
    select, BlockTime, FixedBlockTimeMiner, MinerEvents, NarwhalTransactionMiner, Polled,
    ReadyTransactionMiner, ScalarMiningMode,
};
use scalar_node::primitives::{Address, B256, U256};
use scalar_node::task::{InsertJob, ScalarMiningTask, TaskAction};
use scalar_node::transaction::{CommitedTransactions, ExternalTransaction, PooledTransaction};

fn hash(tag: u8) -> B256 {
    B256 { bytes: [tag; 32] }
}

fn pooled(nonce: u64) -> PooledTransaction<u64> {
    PooledTransaction {
        nonce,
        hash: hash(nonce as u8),
        signer: Address { bytes: [nonce as u8; 20] },
        signed: nonce * 10,
    }
}

fn commited(tags: &[u8]) -> Vec<ExternalTransaction> {
    tags.iter().map(|tag| announce_pending(&hash(*tag), "scalar")).collect()
}

fn events(pending: &[u8], batches: &[&[u8]], ticked: bool) -> MinerEvents {
    MinerEvents {
        pending: pending.iter().map(|tag| hash(*tag)).collect(),
        commited: batches.iter().map(|batch| commited(batch)).collect(),
        ticked,
    }
}

fn nonces(job: &InsertJob<u64, &'static str>) -> Vec<u64> {
    job.transactions.iter().map(|transaction| transaction.nonce).collect()
}

fn task() -> ScalarMiningTask<u64, &'static str> {
    ScalarMiningTask::new(Arc::new(ChainSpec::new(7)), ScalarMiningMode::Idle)
}

#[test]
fn selection_is_bounded() {
    assert_eq!(select(vec![1, 2, 3], 2), Polled::Ready(vec![1, 2]));
    assert_eq!(select(vec![1, 2, 3], 5), Polled::Ready(vec![1, 2, 3]));
    assert_eq!(select(vec![1, 2, 3], 0), Polled::Pending);
    assert_eq!(select(Vec::<u8>::new(), 5), Polled::Pending);
}

#[test]
fn idle_mode_does_nothing() {
    let mut mode = ScalarMiningMode::Idle;
    assert_eq!(mode.poll(&events(&[1], &[&[1]], true), || vec![1]), Polled::Pending);
}

#[test]
fn instant_mode_fills_blocks() {
    let mut mode = ScalarMiningMode::instant(2);
    assert_eq!(mode.poll(&events(&[], &[], false), || vec![1, 2, 3]), Polled::Ready(vec![1, 2]));
    // the block was full, so there may be more
    assert_eq!(mode.poll(&events(&[], &[], false), || vec![3]), Polled::Ready(vec![3]));
    // the pool was drained, so nothing happens until a hash comes in
    assert_eq!(mode.poll(&events(&[], &[], false), || vec![4]), Polled::Pending);
    assert_eq!(mode.poll(&events(&[4], &[], false), || vec![4]), Polled::Ready(vec![4]));
}

#[test]
fn instant_mode_builds_no_empty_block() {
    let mut mode = ScalarMiningMode::instant(2);
    assert_eq!(mode.poll(&events(&[1], &[], false), || Vec::<u8>::new()), Polled::Pending);
    let mut none_at_all =
        ReadyTransactionMiner { max_transactions: 0, has_pending_txs: None };
    assert_eq!(none_at_all.poll(&vec![], || vec![1]), Polled::Pending);
    assert_eq!(none_at_all.has_pending_txs, Some(true));
}

#[test]
fn interval_mode_mines_at_ticks() {
    let duration = BlockTime { secs: 2, nanos: 5 };
    let mut mode = ScalarMiningMode::interval(duration);
    assert_eq!(mode.poll(&events(&[1], &[], false), || vec![1]), Polled::Pending);
    assert_eq!(mode.poll(&events(&[], &[], true), || vec![1, 2]), Polled::Ready(vec![1, 2]));
    // also an empty block
    assert_eq!(mode.poll(&events(&[], &[], true), || Vec::<u8>::new()), Polled::Ready(vec![]));
    assert_eq!(FixedBlockTimeMiner::new(duration).period(), duration);
}

#[test]
fn pool_is_asked_only_where_something_can_be_mined() {
    let never = || -> Vec<u8> { panic!("the pool was asked") };
    let mut idle = ScalarMiningMode::Idle;
    assert_eq!(idle.poll(&events(&[1], &[&[1]], true), never), Polled::Pending);
    let mut interval = ScalarMiningMode::interval(BlockTime { secs: 1, nanos: 0 });
    assert_eq!(interval.poll(&events(&[1], &[], false), never), Polled::Pending);
    let mut narwhal = ScalarMiningMode::narwhal();
    assert_eq!(narwhal.poll(&events(&[1, 2], &[&[1]], false), never), Polled::Pending);
    let mut drained = ReadyTransactionMiner { max_transactions: 1, has_pending_txs: Some(false) };
    assert_eq!(drained.poll(&vec![], never), Polled::Pending);
}

#[test]
fn debug_output_shows_the_size_of_blocks() {
    let miner = ReadyTransactionMiner { max_transactions: 3, has_pending_txs: Some(true) };
    assert_eq!(format!("{:?}", miner), "ReadyTransactionMiner { max_transactions: 3, .. }");
    assert_eq!(
        format!("{:#?}", miner),
        "ReadyTransactionMiner {\n    max_transactions: 3,\n    ..\n}"
    );
    assert_eq!(
        format!("{:?}", NarwhalTransactionMiner::new()),
        format!("NarwhalTransactionMiner {{ max_transactions: {}, .. }}", usize::MAX)
    );
    assert_eq!(
        format!("{:?}", ScalarMiningMode::instant(3)),
        "Auto(ReadyTransactionMiner { max_transactions: 3, .. })"
    );
    assert_eq!(format!("{:?}", task()), "ScalarMiningTask { .. }");
}

#[test]
fn default_block_time_is_six_seconds() {
    assert_eq!(FixedBlockTimeMiner::default().period(), BlockTime { secs: 6, nanos: 0 });
}

#[test]
fn narwhal_mode_waits_for_commits() {
    let mut mode = ScalarMiningMode::narwhal();
    assert_eq!(mode.poll(&events(&[1, 2], &[], false), || vec![1, 2]), Polled::Pending);
    // fewer are committed than are pending
    assert_eq!(mode.poll(&events(&[], &[&[1]], false), || vec![1, 2]), Polled::Pending);
    assert_eq!(mode.poll(&events(&[], &[&[2]], false), || vec![1, 2, 3]), Polled::Ready(vec![1, 2]));
    // nothing is pending any more
    assert_eq!(mode.poll(&events(&[], &[], false), || vec![3]), Polled::Pending);
}

#[test]
fn narwhal_mode_keeps_the_order_of_the_pool() {
    let mut miner = NarwhalTransactionMiner::new();
    // the hash at the front is not committed, so none behind it is matched
    let batches = vec![commited(&[2, 3]), commited(&[4])];
    assert_eq!(miner.advance(&batches, &vec![hash(1), hash(2)]), 0);
    assert_eq!(miner.advance(&vec![commited(&[1])], &vec![]), 2);
    assert_eq!(miner.advance(&vec![], &vec![hash(4)]), 1);
    // what a block has used up is not matched again
    assert_eq!(miner.advance(&vec![], &vec![hash(4)]), 0);
}

#[test]
fn narwhal_mode_matches_no_hash_twice() {
    let mut miner = NarwhalTransactionMiner::new();
    let batches = vec![commited(&[1, 1, 2, 3])];
    assert_eq!(miner.advance(&batches, &vec![hash(1), hash(1), hash(2)]), 1);
}

#[test]
fn narwhal_mode_without_transactions_in_the_pool() {
    let mut mode = ScalarMiningMode::narwhal();
    let polled = mode.poll(&events(&[1], &[&[1]], false), || Vec::<u8>::new());
    assert_eq!(polled, Polled::Pending);
}

#[test]
fn committed_announcements_are_mined_in_any_order() {
    let mut miner = NarwhalTransactionMiner::new();
    let pending = vec![hash(1), hash(2), hash(3)];
    let batches = vec![commited(&[3]), commited(&[2, 1])];
    assert_eq!(miner.advance(&batches, &pending), 3);
}

#[test]
fn task_waits_for_a_batch_and_enough_transactions() {
    let mut task = task();
    assert!(matches!(task.step(vec![], vec![pooled(1)]), TaskAction::Wait));
    assert!(matches!(task.step(vec![commited(&[8, 9])], vec![pooled(1)]), TaskAction::Wait));
    match task.step(vec![], vec![pooled(1), pooled(2), pooled(3)]) {
        TaskAction::Insert(job) => assert_eq!(nonces(&job), vec![1, 2]),
        _ => panic!("there are enough transactions"),
    }
    assert_eq!(task.chain_spec().chain_id(), 7);
}

#[test]
fn task_inserts_one_block_at_a_time() {
    let mut task = task();
    let batches = vec![commited(&[1]), commited(&[2, 3])];
    match task.step(batches, vec![pooled(1), pooled(2), pooled(3)]) {
        TaskAction::Insert(job) => assert_eq!(nonces(&job), vec![1]),
        _ => panic!("a batch waits"),
    }
    assert!(matches!(task.step(vec![], vec![]), TaskAction::Resume));
    task.finish_insert(None);
    match task.step(vec![], vec![]) {
        TaskAction::Insert(job) => assert_eq!(nonces(&job), vec![2, 3]),
        _ => panic!("a batch waits"),
    }
    task.finish_insert(None);
    assert!(matches!(task.step(vec![], vec![]), TaskAction::Wait));
}

#[test]
fn task_queues_no_nonce_twice() {
    let mut task = task();
    let twice = vec![pooled(1), pooled(1), pooled(2)];
    match task.step(vec![commited(&[1])], twice) {
        TaskAction::Insert(job) => assert_eq!(nonces(&job), vec![1]),
        _ => panic!("a batch waits"),
    }
    task.finish_insert(None);
    // the pool still offers the transaction that was mined
    match task.step(vec![commited(&[2])], vec![pooled(1), pooled(2)]) {
        TaskAction::Insert(job) => assert_eq!(nonces(&job), vec![2]),
        _ => panic!("a batch waits"),
    }
    task.finish_insert(None);
    assert!(matches!(
        task.step(vec![commited(&[3])], vec![pooled(1), pooled(2)]),
        TaskAction::Wait
    ));
}

#[test]
fn task_answers_an_empty_batch_with_an_empty_block() {
    let mut task = task();
    match task.step(vec![commited(&[])], vec![]) {
        TaskAction::Insert(job) => assert_eq!(nonces(&job), Vec::<u64>::new()),
        _ => panic!("a batch waits"),
    }
}

#[test]
fn task_lends_the_pipeline_events() {
    let mut task = task();
    task.set_pipeline_events("stream");
    match task.step(vec![commited(&[1]), commited(&[2])], vec![pooled(1), pooled(2)]) {
        TaskAction::Insert(job) => assert_eq!(job.events, Some("stream")),
        _ => panic!("a batch waits"),
    }
    task.finish_insert(None);
    match task.step(vec![], vec![]) {
        TaskAction::Insert(job) => assert_eq!(job.events, None),
        _ => panic!("a batch waits"),
    }
    task.finish_insert(Some("again"));
    match task.step(vec![commited(&[])], vec![]) {
        TaskAction::Insert(job) => assert_eq!(job.events, Some("again")),
        _ => panic!("a batch waits"),
    }
}

#[test]
fn run_of_a_task_loses_nothing_and_keeps_the_order() {
    let mut task = task();
    let sizes = [2usize, 0, 3, 1];
    let mut mined = vec![];
    let mut answered = vec![];
    for (round, size) in sizes.iter().enumerate() {
        let batch = commited(&vec![0; *size]);
        let best = (0..=round as u64 * 2).map(pooled).collect();
        if let TaskAction::Insert(job) = task.step(vec![batch], best) {
            answered.push(job.transactions.len());
            mined.extend(nonces(&job));
            task.finish_insert(job.events);
        }
    }
    while let TaskAction::Insert(job) = task.step(vec![], vec![]) {
        answered.push(job.transactions.len());
        mined.extend(nonces(&job));
        task.finish_insert(job.events);
    }
    assert_eq!(answered, sizes.to_vec());
    assert_eq!(mined, vec![0, 1, 2, 3, 4, 5]);
}

fn pending_block() -> PendingBlock<u64, &'static str> {
    let block = PendingBlock::new(InsertJob {
        transactions: vec![pooled(4), pooled(5)],
        events: Some("stream"),
    });
    assert_eq!(block.transactions, vec![40, 50]);
    assert_eq!(block.senders, vec![Address { bytes: [4; 20] }, Address { bytes: [5; 20] }]);
    assert_eq!(block.hashes, vec![hash(4), hash(5)]);
    block
}

#[test]
fn valid_block_is_committed() {
    let header = SealedHeader { header: "header", hash: hash(77) };
    match pending_block().executed(Ok::<_, ()>(header)) {
        AfterExecution::Announce { remove, update, announced } => {
            assert_eq!(remove, vec![hash(4), hash(5)]);
            assert_eq!(update, forkchoice_state(hash(77)));
            assert_eq!(update.head_block_hash, hash(77));
            assert_eq!(update.safe_block_hash, hash(77));
            assert_eq!(update.finalized_block_hash, hash(77));
            match announced.replied(ForkchoiceReply::Valid) {
                AfterReply::Commit { block, senders, events } => {
                    assert_eq!(block.header.hash, hash(77));
                    assert_eq!(block.header.header, "header");
                    assert_eq!(block.body, vec![40, 50]);
                    assert!(block.ommers.is_empty());
                    assert_eq!(block.withdrawals, None);
                    assert_eq!(
                        senders,
                        vec![Address { bytes: [4; 20] }, Address { bytes: [5; 20] }]
                    );
                    assert_eq!(events, Some("stream"));
                }
                _ => panic!("the engine found the block valid"),
            }
        }
        AfterExecution::Abandon { .. } => panic!("the execution succeeded"),
    }
}

#[test]
fn syncing_engine_is_asked_again() {
    let header = SealedHeader { header: "header", hash: hash(77) };
    let mut block = match pending_block().executed(Ok::<_, ()>(header)) {
        AfterExecution::Announce { announced, .. } => announced,
        AfterExecution::Abandon { .. } => panic!("the execution succeeded"),
    };
    for _ in 0..3 {
        block = match block.replied(ForkchoiceReply::Syncing) {
            AfterReply::Resend { update, announced } => {
                assert_eq!(update, forkchoice_state(hash(77)));
                announced
            }
            _ => panic!("the engine was syncing"),
        };
    }
    match block.replied(ForkchoiceReply::Valid) {
        AfterReply::Commit { block, events, .. } => {
            assert_eq!(block.body, vec![40, 50]);
            assert_eq!(events, Some("stream"));
        }
        _ => panic!("the engine found the block valid"),
    }
}

#[test]
fn refused_block_ends_the_insertion() {
    for reply in [ForkchoiceReply::Invalid, ForkchoiceReply::Failed] {
        let header = SealedHeader { header: "header", hash: hash(77) };
        match pending_block().executed(Ok::<_, ()>(header)) {
            AfterExecution::Announce { announced, .. } => {
                assert!(matches!(announced.replied(reply), AfterReply::Refused));
            }
            AfterExecution::Abandon { .. } => panic!("the execution succeeded"),
        }
    }
}

#[test]
fn failed_execution_gives_the_events_back() {
    match pending_block().executed(Err::<SealedHeader<()>, _>("no")) {
        AfterExecution::Abandon { events } => assert_eq!(events, Some("stream")),
        AfterExecution::Announce { .. } => panic!("the execution failed"),
    }
}

#[test]
fn consensus_accepts_everything() {
    let consensus = ScalarConsensus::new(Arc::new(ChainSpec::new(3)));
    assert_eq!(consensus.chain_spec().chain_id(), 3);
    assert_eq!(consensus.clone().chain_spec().chain_id(), 3);
    let header = SealedHeader { header: (), hash: hash(1) };
    let parent = SealedHeader { header: (), hash: hash(2) };
    assert_eq!(consensus.validate_header(&header), Ok(()));
    assert_eq!(consensus.validate_header_against_parent(&header, &parent), Ok(()));
    let plain = Header {
        number: 0,
        timestamp: 0,
        difficulty: U256::zero(),
        gas_limit: 0,
        gas_used: 1,
        base_fee_per_gas: None,
        blob_gas_used: None,
        excess_blob_gas: None,
    };
    assert_eq!(consensus.validate_header_with_total_difficulty(&plain, U256::zero()), Ok(()));
    let block: SealedBlock<u8, ()> =
        SealedBlock { header, body: vec![], ommers: vec![], withdrawals: None };
    assert_eq!(consensus.validate_block(&block), Ok(()));
}

#[test]
fn consensus_layer_is_told_of_hashes() {
    assert_eq!(consensus_url("127.0.0.1:8555"), "http://127.0.0.1:8555");
    assert_eq!(DEFAULT_NARWHAL_PORT, 8555);
    let expected =
        ExternalTransaction { namespace: "scalar".to_string(), tx_bytes: vec![6; 32] };
    assert_eq!(announce_pending(&hash(6), "scalar"), expected);
    assert_eq!(create_consensus_transaction(&pooled(6), "scalar"), expected);
}

#[test]
fn replies_of_the_consensus_layer() {
    let batch = commited(&[1, 2]);
    match on_reply::<&str>(Ok(CommitedTransactions { transactions: commited(&[1, 2]) })) {
        ReplyAction::Forward(transactions) => assert_eq!(transactions, batch),
        ReplyAction::Report(_) => panic!("a batch was committed"),
    }
    match on_reply(Err("lost")) {
        ReplyAction::Report(error) => assert_eq!(error, "lost"),
        ReplyAction::Forward(_) => panic!("the stream failed"),
    }
}

fn builder(
    latest: Result<Option<SealedHeader<&'static str>>, ()>,
) -> ScalarBuilder<&'static str> {
    ScalarBuilder::new(
        Arc::new(ChainSpec::new(11)),
        latest,
        SealedHeader { header: "genesis", hash: hash(0) },
        ScalarMiningMode::Idle,
        ConsensusArgs { narwhal_addr: "127.0.0.1".to_string(), narwhal_port: 9000 },
    )
}

#[test]
fn builder_starts_from_the_latest_header() {
    let latest = SealedHeader { header: "latest", hash: hash(1) };
    let parts = builder(Ok(Some(latest))).build::<u64, ()>();
    assert_eq!(parts.latest_header.header, "latest");
    assert_eq!(parts.consensus.chain_spec().chain_id(), 11);
    assert_eq!(parts.task.chain_spec().chain_id(), 11);
    assert_eq!(parts.consensus_args.narwhal_port, 9000);
    assert_eq!(parts.consensus_args.narwhal_addr, "127.0.0.1");
    for nothing in [Ok(None), Err(())] {
        let parts = builder(nothing).build::<u64, ()>();
        assert_eq!(parts.latest_header.header, "genesis");
        assert_eq!(parts.latest_header.hash, hash(0));
    }
}

#[test]
fn builder_builds_a_task_that_has_heard_of_nothing() {
    let parts = builder(Ok(None)).mode(ScalarMiningMode::instant(4)).build::<u64, ()>();
    let mut task = parts.task;
    assert!(matches!(task.step(vec![], vec![]), TaskAction::Wait));
}
