use sim_engine::batch::{
    read_u64_column, read_var_value, write_u64_column, write_var_column, SharedBatch,
};
use sim_engine::dynmeta::{Node, RecordBatchHeader};
use sim_engine::metaversion::BufferChange;
use sim_engine::comms::interim_sync_from_pools;
use sim_engine::metaversion::Metaversion;
use sim_engine::pool::{AgentBatch, AgentPool, MessageBatch, MessagePool};

#[test]
fn fixed_width_column_read_back_is_identity() {
    let values: Vec<u64> = vec![0, 1, u64::MAX, 0x0102_0304_0506_0708, 42];
    let mut body: Vec<u8> = Vec::new();
    write_u64_column(&values, &mut body);
    assert_eq!(body.len(), 8 * values.len());
    let read = read_u64_column(&body, values.len()).unwrap();
    assert_eq!(read, values);
}

#[test]
fn fixed_width_column_refuses_wrong_length() {
    let mut body: Vec<u8> = Vec::new();
    write_u64_column(&vec![7, 8], &mut body);
    assert!(read_u64_column(&body, 3).is_err());
    body.pop();
    assert!(read_u64_column(&body, 2).is_err());
}

#[test]
fn variable_length_column_read_back_is_identity() {
    let values: Vec<Vec<u8>> = vec![
        b"alpha".to_vec(),
        Vec::new(),
        b"community gardens".to_vec(),
        vec![0, 255, 3],
    ];
    let mut offsets: Vec<u8> = Vec::new();
    let mut data: Vec<u8> = Vec::new();
    write_var_column(&values, &mut offsets, &mut data).unwrap();
    assert_eq!(offsets.len(), 4 * (values.len() + 1));
    for (row, expected) in values.iter().enumerate() {
        let got = read_var_value(&offsets, &data, values.len(), row).unwrap();
        assert_eq!(&got, expected);
    }
}

#[test]
fn interim_sync_carries_every_group_version() {
    let agents = AgentPool::new(vec![
        AgentBatch {
            batch_id: "a0".to_string(),
            num_agents: 2,
            metaversion: Metaversion::new(3, 4),
        },
        AgentBatch {
            batch_id: "a1".to_string(),
            num_agents: 1,
            metaversion: Metaversion::new(0, 9),
        },
    ]);
    let messages = MessagePool::new(vec![
        MessageBatch {
            batch_id: "a0".to_string(),
            metaversion: Metaversion::new(1, 1),
            message_counts: vec![0, 0],
        },
        MessageBatch {
            batch_id: "a1".to_string(),
            metaversion: Metaversion::new(2, 2),
            message_counts: vec![0],
        },
    ]);
    let sync = interim_sync_from_pools(&agents, &messages);
    assert_eq!(sync.group_indices, vec![0, 1]);
    assert_eq!(
        sync.agent_pool_metaversions,
        vec![Metaversion::new(3, 4), Metaversion::new(0, 9)]
    );
    assert_eq!(
        sync.message_pool_metaversions,
        vec![Metaversion::new(1, 1), Metaversion::new(2, 2)]
    );
}

#[test]
fn shared_batch_from_header() {
    let header = RecordBatchHeader {
        length: 2,
        nodes: vec![Node { length: 2, null_count: 0 }],
        buffers: vec![(0, 1), (8, 16)],
    };
    let body = vec![0u8; 24];
    let mut batch = SharedBatch::from_header("batch-7".to_string(), &header, body).unwrap();
    assert_eq!(batch.get_batch_id(), "batch-7");
    assert_eq!(batch.len(), 2);
    assert_eq!(batch.metaversion().memory(), 0);

    // A resize advances both counters; a shift only the batch counter.
    batch.record_change(&BufferChange::new(true, false));
    assert_eq!(batch.metaversion().memory(), 1);
    assert_eq!(batch.metaversion().batch(), 1);
    batch.record_change(&BufferChange::new(false, true));
    assert_eq!(batch.metaversion().memory(), 1);
    assert_eq!(batch.metaversion().batch(), 2);

    // A header whose buffers overrun the body is refused.
    let bad = RecordBatchHeader { length: 2, nodes: vec![], buffers: vec![(0, 30)] };
    assert!(SharedBatch::from_header("b".to_string(), &bad, vec![0u8; 24]).is_err());
}
