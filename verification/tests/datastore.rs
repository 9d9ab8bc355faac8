use sim_engine::comms::{ReloadAction, reload_action};
use sim_engine::dynmeta::{Buffer, HashDynamicMeta, Node, RecordBatchHeader};
use sim_engine::metaversion::{BufferChange, Metaversion};
use sim_engine::pool::{AgentBatch, AgentPool, MessageBatch, MessagePool, MessageLoader, MessageReader};

#[test]
fn metaversion_increment_with_resize() {
    let mut m = Metaversion::new(3, 5);
    m.increment_with(&BufferChange::new(true, false));
    assert_eq!(m.memory(), 4);
    assert_eq!(m.batch(), 6);
}

#[test]
fn metaversion_increment_with_shift() {
    let mut m = Metaversion::new(3, 5);
    m.increment_with(&BufferChange::new(false, true));
    assert_eq!(m.memory(), 3);
    assert_eq!(m.batch(), 6);
}

#[test]
fn metaversion_increment_with_no_change() {
    let mut m = Metaversion::new(3, 5);
    m.increment_with(&BufferChange::new(false, false));
    assert_eq!(m.memory(), 3);
    assert_eq!(m.batch(), 5);
}

#[test]
fn metaversion_equality_properties() {
    let a = Metaversion::new(1, 2);
    let b = Metaversion::new(1, 2);
    let c = Metaversion::new(1, 2);
    assert_eq!(a, a);
    assert_eq!(a, b);
    assert_eq!(b, a);
    assert_eq!(b, c);
    assert_eq!(a, c);
    let mut ai = a;
    let mut bi = b;
    ai.increment();
    bi.increment();
    assert_eq!(ai, bi);
    assert!(a.memory() <= ai.memory() && a.batch() <= ai.batch());
    let mut ab = a;
    ab.increment_batch();
    assert!(ab.memory() <= ai.memory() && ab.batch() <= ai.batch());
}

#[test]
fn metaversion_update_adopts_counters() {
    let mut m = Metaversion::new(0, 0);
    m.update(&Metaversion::new(7, 9));
    assert_eq!(m.memory(), 7);
    assert_eq!(m.batch(), 9);
}

#[test]
fn reload_actions_follow_counters() {
    let cached = Metaversion::new(2, 5);
    assert_eq!(reload_action(cached, Metaversion::new(3, 5)), ReloadAction::Remap);
    assert_eq!(reload_action(cached, Metaversion::new(2, 6)), ReloadAction::Reparse);
    assert_eq!(reload_action(cached, Metaversion::new(2, 5)), ReloadAction::Current);
    assert_eq!(reload_action(cached, Metaversion::new(1, 2)), ReloadAction::Current);
}

#[test]
fn record_batch_header_into_meta() {
    let header = RecordBatchHeader {
        length: 4,
        nodes: vec![Node { length: 4, null_count: 0 }, Node { length: 4, null_count: 1 }],
        buffers: vec![(0, 10), (16, 8), (24, 8)],
    };
    let meta = header.into_meta(32).unwrap();
    assert_eq!(meta.length, 4);
    assert_eq!(meta.data_length, 32);
    assert_eq!(meta.nodes.len(), 2);
    assert_eq!(
        meta.buffers,
        vec![
            Buffer { offset: 0, length: 10, padding: 6 },
            Buffer { offset: 16, length: 8, padding: 0 },
            Buffer { offset: 24, length: 8, padding: 0 },
        ]
    );
    // Offsets are monotone and each buffer ends where the next begins.
    for i in 0..meta.buffers.len() {
        let b = &meta.buffers[i];
        let end = b.offset + b.length + b.padding;
        if i + 1 < meta.buffers.len() {
            assert!(b.offset <= meta.buffers[i + 1].offset);
            assert_eq!(end, meta.buffers[i + 1].offset);
        } else {
            assert_eq!(end, meta.data_length);
        }
    }
}

#[test]
fn record_batch_header_overlapping_buffers_fail() {
    let header = RecordBatchHeader {
        length: 1,
        nodes: vec![],
        buffers: vec![(0, 10), (4, 8)],
    };
    assert!(header.into_meta(32).is_err());
}

#[test]
fn record_batch_header_overrunning_body_fails() {
    let header = RecordBatchHeader { length: 1, nodes: vec![], buffers: vec![(0, 40)] };
    assert!(header.into_meta(32).is_err());
}

fn agent_batch(id: &str, n: usize) -> AgentBatch {
    AgentBatch { batch_id: id.to_string(), num_agents: n, metaversion: Metaversion::new(0, 0) }
}

#[test]
fn reset_message_pool_grows_with_agent_pool() {
    // One agent group of ten agents, one paired message group.
    let agents0 = agent_batch("g0", 10);
    let mut inbox0 = MessageBatch::empty_from_agent_batch(&agents0);
    inbox0.metaversion = Metaversion::new(5, 7);
    let mut message_pool = MessagePool::new(vec![inbox0]);

    // The state phase grew the agent pool to three groups of 10/10/5.
    let agent_pool = AgentPool::new(vec![
        agent_batch("g0", 10),
        agent_batch("g1", 10),
        agent_batch("g2", 5),
    ]);

    message_pool.reset(&agent_pool).unwrap();

    assert_eq!(message_pool.len(), 3);
    let sizes: Vec<usize> = message_pool
        .batches
        .iter()
        .map(|b| b.message_counts.len())
        .collect();
    assert_eq!(sizes, vec![10, 10, 5]);
    for batch in &message_pool.batches {
        assert!(batch.message_counts.iter().all(|&c| c == 0));
    }
    // The kept group was emptied in place: same row count, so only the
    // batch counter advanced.
    assert_eq!(message_pool.batches[0].metaversion, Metaversion::new(5, 8));
    // The new groups are fresh.
    assert_eq!(message_pool.batches[1].metaversion, Metaversion::new(0, 0));
    assert_eq!(message_pool.batches[2].metaversion, Metaversion::new(0, 0));
}

#[test]
fn reset_message_pool_shrinks_and_resizes() {
    let agents = AgentPool::new(vec![agent_batch("g0", 4)]);
    let mut pool = MessagePool::new(vec![
        MessageBatch {
            batch_id: "g0".to_string(),
            metaversion: Metaversion::new(1, 1),
            message_counts: vec![2, 0, 1],
        },
        MessageBatch {
            batch_id: "g1".to_string(),
            metaversion: Metaversion::new(0, 0),
            message_counts: vec![0, 0],
        },
    ]);
    pool.reset(&agents).unwrap();
    assert_eq!(pool.len(), 1);
    assert_eq!(pool.batches[0].message_counts, vec![0, 0, 0, 0]);
    // The row count changed: a resize, so both counters advanced.
    assert_eq!(pool.batches[0].metaversion, Metaversion::new(2, 2));
}

#[test]
fn empty_message_pool() {
    let pool = MessagePool::empty();
    assert_eq!(pool.len(), 0);
}

#[test]
fn message_reader_loader_bounds() {
    let reader = MessageReader {
        loaders: vec![MessageLoader { batch_index: 0 }, MessageLoader { batch_index: 1 }],
    };
    assert_eq!(reader.get_loader(1).unwrap().batch_index, 1);
    assert!(reader.get_loader(2).is_err());
}
