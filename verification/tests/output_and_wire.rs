use sim_engine::comms::{RunnerTaskMsg, StateInterimSync, TaskMessage};
use sim_engine::metaversion::Metaversion;
use sim_engine::output_buffer::{IN_MEMORY_SIZE, MAX_BYTE_SIZE, OutputPartBuffer};
use sim_engine::wire::{RunnerPayloadKind, decode_frame, encode_frame};

#[test]
fn append_step_and_finalize_yield_json_array() {
    let mut buffer = OutputPartBuffer::new("output".to_string());
    let records = [r#"{"a":1}"#, "2", r#""x""#];
    for r in records {
        buffer.append_step(&r.as_bytes().to_vec()).unwrap();
    }
    let (rest, parts) = buffer.finalize().unwrap();
    assert!(parts.is_empty());
    let bytes = rest;
    assert_eq!(bytes, br#"[{"a":1},2,"x"]"#.to_vec());

    let value: serde_json::Value = serde_json::from_slice(&bytes).unwrap();
    let array = value.as_array().unwrap();
    assert_eq!(array.len(), records.len());
    for (n, r) in records.iter().enumerate() {
        let expected: serde_json::Value = serde_json::from_str(r).unwrap();
        assert_eq!(array[n], expected);
    }
}

#[test]
fn finalize_of_empty_buffer_is_empty_array() {
    let buffer = OutputPartBuffer::new("output".to_string());
    let (rest, parts) = buffer.finalize().unwrap();
    assert!(parts.is_empty());
    assert_eq!(rest, b"[]".to_vec());
}

#[test]
fn output_part_rollover() {
    const MIB: usize = 1024 * 1024;
    let mut buffer = OutputPartBuffer::new("json_state".to_string());
    let record = vec![b'0'; 6 * MIB];

    // First 6 MiB step: one part of exactly the part size, the rest stays
    // in memory.
    buffer.append_step(&record).unwrap();
    buffer.persist_current_on_disk().unwrap();
    assert_eq!(buffer.parts.len(), 1);
    assert_eq!(buffer.parts[0].len(), MAX_BYTE_SIZE);
    assert_eq!(buffer.current.len(), (6 * MIB + 1) - MAX_BYTE_SIZE);

    // A second 6 MiB step produces a second part of the same exact size.
    buffer.append_step(&record).unwrap();
    buffer.persist_current_on_disk().unwrap();
    assert_eq!(buffer.parts.len(), 2);
    assert_eq!(buffer.parts[1].len(), MAX_BYTE_SIZE);

    // A third step alone stays under the in-memory budget; a fourth
    // pushes the buffer over it and two more parts come out at once.
    buffer.append_step(&record).unwrap();
    assert!(!buffer.is_at_capacity());
    buffer.append_step(&record).unwrap();
    assert!(buffer.is_at_capacity());
    assert!(buffer.current.len() > IN_MEMORY_SIZE);
    buffer.persist_current_on_disk().unwrap();
    assert_eq!(buffer.parts.len(), 4);

    // Finalize emits the remaining bytes followed by the closing bracket,
    // and hands the parts back in creation order.
    let total_before = buffer.parts.iter().map(|p| p.len()).sum::<usize>() + buffer.current.len();
    let (rest, parts) = buffer.finalize().unwrap();
    assert_eq!(parts.len(), 4);
    assert!(parts.iter().all(|p| p.len() == MAX_BYTE_SIZE));
    assert_eq!(rest.last(), Some(&b']'));
    let mut all: Vec<u8> = Vec::new();
    for p in &parts {
        all.extend_from_slice(p);
    }
    all.extend_from_slice(&rest);
    assert_eq!(all.len(), total_before + 1);
    assert_eq!(all[0], b'[');
    assert_eq!(all[all.len() - 1], b']');
}

#[test]
fn frame_round_trip() {
    let payload = b"hello runner".to_vec();
    let frame = encode_frame(77, RunnerPayloadKind::TaskMsg, &payload);
    let (sim_id, kind, decoded) = decode_frame(&frame).unwrap();
    assert_eq!(sim_id, 77);
    assert_eq!(kind, RunnerPayloadKind::TaskMsg);
    assert_eq!(decoded, payload);
}

#[test]
fn frame_with_no_simulation_uses_zero() {
    let frame = encode_frame(0, RunnerPayloadKind::KillRunner, &Vec::new());
    let (sim_id, kind, payload) = decode_frame(&frame).unwrap();
    assert_eq!(sim_id, 0);
    assert_eq!(kind, RunnerPayloadKind::KillRunner);
    assert!(payload.is_empty());
}

#[test]
fn malformed_frames_are_refused() {
    // Too short for the header.
    assert!(decode_frame(&vec![0u8; 5]).is_err());
    // Length field does not match.
    let mut frame = encode_frame(1, RunnerPayloadKind::StateSync, &b"abc".to_vec());
    frame.push(0);
    assert!(decode_frame(&frame).is_err());
    // Unknown payload tag.
    let mut frame = encode_frame(1, RunnerPayloadKind::StateSync, &b"abc".to_vec());
    frame[12] = 250;
    assert!(decode_frame(&frame).is_err());
}

#[test]
fn every_payload_kind_round_trips() {
    let kinds = [
        RunnerPayloadKind::Init,
        RunnerPayloadKind::NewSimulationRun,
        RunnerPayloadKind::TaskMsg,
        RunnerPayloadKind::CancelTask,
        RunnerPayloadKind::StateSync,
        RunnerPayloadKind::StateSnapshotSync,
        RunnerPayloadKind::ContextBatchSync,
        RunnerPayloadKind::StateInterimSync,
        RunnerPayloadKind::TerminateSimulationRun,
        RunnerPayloadKind::KillRunner,
    ];
    for kind in kinds {
        let frame = encode_frame(9, kind, &b"p".to_vec());
        let (_, decoded, _) = decode_frame(&frame).unwrap();
        assert_eq!(decoded, kind);
    }
}

#[test]
fn task_msg_encoding_layout() {
    let msg = RunnerTaskMsg {
        package_id: 3,
        task_id: 0x1122_3344,
        sync: StateInterimSync {
            group_indices: vec![0, 1],
            agent_pool_metaversions: vec![Metaversion::new(5, 6)],
            message_pool_metaversions: vec![Metaversion::new(7, 8)],
        },
        payload: TaskMessage::new("{}".to_string()),
        group_index: Some(9),
    };
    let bytes = sim_engine::wire::encode_task_msg(&msg).unwrap();
    let mut expected: Vec<u8> = Vec::new();
    expected.extend_from_slice(&3u64.to_le_bytes());
    expected.extend_from_slice(&0x1122_3344u128.to_le_bytes());
    expected.push(1);
    expected.extend_from_slice(&9u32.to_le_bytes());
    expected.extend_from_slice(&2u32.to_le_bytes());
    expected.extend_from_slice(&0u32.to_le_bytes());
    expected.extend_from_slice(&1u32.to_le_bytes());
    expected.extend_from_slice(&1u32.to_le_bytes());
    expected.extend_from_slice(&5u32.to_le_bytes());
    expected.extend_from_slice(&6u32.to_le_bytes());
    expected.extend_from_slice(&1u32.to_le_bytes());
    expected.extend_from_slice(&7u32.to_le_bytes());
    expected.extend_from_slice(&8u32.to_le_bytes());
    expected.extend_from_slice(&2u32.to_le_bytes());
    expected.extend_from_slice(b"{}");
    assert_eq!(bytes, expected);
}
