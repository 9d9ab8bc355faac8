//! The framed wire format between the engine and its runners.
//!
//! Each message is one datagram: a length-prefixed record carrying the
//! correlating simulation id (zero for none), a tag naming the payload kind
//! of the protocol's tagged union, and the payload bytes. All integers are
//! little-endian.

use vstd::bytes::{
    spec_u32_to_le_bytes, spec_u64_to_le_bytes, u32_from_le_bytes, u32_to_le_bytes,
    u64_from_le_bytes, u64_to_le_bytes, lemma_auto_spec_u32_to_from_le_bytes,
    lemma_auto_spec_u64_to_from_le_bytes,
};
use vstd::prelude::*;
use vstd::slice::slice_subrange;

use crate::comms::RunnerTaskMsg;
use crate::error::Error;
use crate::metaversion::Metaversion;

verus! {

/// The payload kinds of the engine-to-runner protocol.
#[derive(Debug, Clone, Copy, PartialEq, Eq, Structural)]
pub enum RunnerPayloadKind {
    Init,
    NewSimulationRun,
    TaskMsg,
    CancelTask,
    StateSync,
    StateSnapshotSync,
    ContextBatchSync,
    StateInterimSync,
    TerminateSimulationRun,
    KillRunner,
}

/// The tag byte of each payload kind.
pub open spec fn kind_tag(k: RunnerPayloadKind) -> u8 {
    match k {
        RunnerPayloadKind::Init => 0u8,
        RunnerPayloadKind::NewSimulationRun => 1u8,
        RunnerPayloadKind::TaskMsg => 2u8,
        RunnerPayloadKind::CancelTask => 3u8,
        RunnerPayloadKind::StateSync => 4u8,
        RunnerPayloadKind::StateSnapshotSync => 5u8,
        RunnerPayloadKind::ContextBatchSync => 6u8,
        RunnerPayloadKind::StateInterimSync => 7u8,
        RunnerPayloadKind::TerminateSimulationRun => 8u8,
        RunnerPayloadKind::KillRunner => 9u8,
    }
}

/// The payload kind of a tag byte, if it names one.
pub open spec fn spec_kind_of_tag(t: u8) -> Option<RunnerPayloadKind> {
    if t == 0 {
        Some(RunnerPayloadKind::Init)
    } else if t == 1 {
        Some(RunnerPayloadKind::NewSimulationRun)
    } else if t == 2 {
        Some(RunnerPayloadKind::TaskMsg)
    } else if t == 3 {
        Some(RunnerPayloadKind::CancelTask)
    } else if t == 4 {
        Some(RunnerPayloadKind::StateSync)
    } else if t == 5 {
        Some(RunnerPayloadKind::StateSnapshotSync)
    } else if t == 6 {
        Some(RunnerPayloadKind::ContextBatchSync)
    } else if t == 7 {
        Some(RunnerPayloadKind::StateInterimSync)
    } else if t == 8 {
        Some(RunnerPayloadKind::TerminateSimulationRun)
    } else if t == 9 {
        Some(RunnerPayloadKind::KillRunner)
    } else {
        None
    }
}

/// Tagging is lossless: decoding a kind's tag gives the kind back.
pub proof fn lemma_kind_tag_round_trip(k: RunnerPayloadKind)
    ensures
        spec_kind_of_tag(kind_tag(k)) == Some(k),
{
}

fn tag_of_kind(k: RunnerPayloadKind) -> (r: u8)
    ensures
        r == kind_tag(k),
{
    match k {
        RunnerPayloadKind::Init => 0,
        RunnerPayloadKind::NewSimulationRun => 1,
        RunnerPayloadKind::TaskMsg => 2,
        RunnerPayloadKind::CancelTask => 3,
        RunnerPayloadKind::StateSync => 4,
        RunnerPayloadKind::StateSnapshotSync => 5,
        RunnerPayloadKind::ContextBatchSync => 6,
        RunnerPayloadKind::StateInterimSync => 7,
        RunnerPayloadKind::TerminateSimulationRun => 8,
        RunnerPayloadKind::KillRunner => 9,
    }
}

fn kind_of_tag(t: u8) -> (r: Option<RunnerPayloadKind>)
    ensures
        r == spec_kind_of_tag(t),
{
    if t == 0 {
        Some(RunnerPayloadKind::Init)
    } else if t == 1 {
        Some(RunnerPayloadKind::NewSimulationRun)
    } else if t == 2 {
        Some(RunnerPayloadKind::TaskMsg)
    } else if t == 3 {
        Some(RunnerPayloadKind::CancelTask)
    } else if t == 4 {
        Some(RunnerPayloadKind::StateSync)
    } else if t == 5 {
        Some(RunnerPayloadKind::StateSnapshotSync)
    } else if t == 6 {
        Some(RunnerPayloadKind::ContextBatchSync)
    } else if t == 7 {
        Some(RunnerPayloadKind::StateInterimSync)
    } else if t == 8 {
        Some(RunnerPayloadKind::TerminateSimulationRun)
    } else if t == 9 {
        Some(RunnerPayloadKind::KillRunner)
    } else {
        None
    }
}

/// The bytes of one datagram: payload length, simulation id, tag, payload.
pub open spec fn spec_frame(sim_id: u64, tag: u8, payload: Seq<u8>) -> Seq<u8> {
    spec_u32_to_le_bytes(payload.len() as u32) + spec_u64_to_le_bytes(sim_id) + seq![tag] + payload
}

/// Frame one message for the wire.
pub fn encode_frame(sim_id: u64, kind: RunnerPayloadKind, payload: &Vec<u8>) -> (r: Vec<u8>)
    requires
        payload@.len() <= u32::MAX,
    ensures
        r@ == spec_frame(sim_id, kind_tag(kind), payload@),
{
    let mut r = u32_to_le_bytes(payload.len() as u32);
    let mut sim = u64_to_le_bytes(sim_id);
    let ghost len_bytes = r@;
    let ghost sim_bytes = sim@;
    r.append(&mut sim);
    r.push(tag_of_kind(kind));
    r.extend_from_slice(payload.as_slice());
    proof {
        assert(r@ =~= len_bytes + sim_bytes + seq![kind_tag(kind)] + payload@);
    }
    r
}

/// Whether the bytes are one well-formed datagram: long enough for the
/// header, a length field that matches, and a tag that names a payload kind.
pub open spec fn frame_ok(bytes: Seq<u8>) -> bool {
    &&& bytes.len() >= 13
    &&& vstd::bytes::spec_u32_from_le_bytes(bytes.subrange(0, 4)) == bytes.len() - 13
    &&& spec_kind_of_tag(bytes[12]) is Some
}

/// Parse one datagram: the simulation id, the payload kind, and the payload
/// bytes. Exactly the well-formed datagrams parse, and parsing inverts
/// framing.
pub fn decode_frame(bytes: &Vec<u8>) -> (r: Result<(u64, RunnerPayloadKind, Vec<u8>), Error>)
    ensures
        r is Ok <==> frame_ok(bytes@),
        r matches Ok(t) ==> bytes@ == spec_frame(t.0, kind_tag(t.1), t.2@),
        r matches Err(e) ==> e is ArrowBatch,
{
    proof {
        lemma_auto_spec_u32_to_from_le_bytes();
        lemma_auto_spec_u64_to_from_le_bytes();
    }
    let n = bytes.len();
    if n < 13 {
        return Err(Error::ArrowBatch("short datagram".to_owned()));
    }
    let len = u32_from_le_bytes(slice_subrange(bytes.as_slice(), 0, 4));
    if (len as usize) != n - 13 {
        return Err(Error::ArrowBatch("length field mismatch".to_owned()));
    }
    let sim_id = u64_from_le_bytes(slice_subrange(bytes.as_slice(), 4, 12));
    let tag = bytes[12];
    let kind = match kind_of_tag(tag) {
        Some(k) => k,
        None => {
            return Err(Error::ArrowBatch("unknown payload tag".to_owned()));
        },
    };
    let payload_slice = slice_subrange(bytes.as_slice(), 13, n);
    let mut payload: Vec<u8> = Vec::new();
    payload.extend_from_slice(payload_slice);
    proof {
        assert(payload@ =~= bytes@.subrange(13, n as int));
        assert(bytes@ =~= spec_frame(sim_id, kind_tag(kind), payload@)) by {
            assert(spec_u32_to_le_bytes(payload@.len() as u32) =~= bytes@.subrange(0, 4)) by {
                assert(payload@.len() as u32 == vstd::bytes::spec_u32_from_le_bytes(
                    bytes@.subrange(0, 4),
                ));
            }
            assert(spec_u64_to_le_bytes(sim_id) =~= bytes@.subrange(4, 12));
        }
    }
    Ok((sim_id, kind, payload))
}

/// A list of 32-bit values, each little-endian, back to back.
pub open spec fn u32_list_bytes(xs: Seq<u32>) -> Seq<u8>
    decreases xs,
{
    if xs.len() == 0 {
        Seq::empty()
    } else {
        u32_list_bytes(xs.drop_last()) + spec_u32_to_le_bytes(xs.last())
    }
}

/// One counter pair on the wire: `memory`, then `batch`.
pub open spec fn metaversion_bytes(m: Metaversion) -> Seq<u8> {
    spec_u32_to_le_bytes(m.memory) + spec_u32_to_le_bytes(m.batch)
}

/// A list of counter pairs, back to back.
pub open spec fn metaversion_list_bytes(ms: Seq<Metaversion>) -> Seq<u8>
    decreases ms,
{
    if ms.len() == 0 {
        Seq::empty()
    } else {
        metaversion_list_bytes(ms.drop_last()) + metaversion_bytes(ms.last())
    }
}

/// The group indices as 32-bit values.
pub open spec fn indices_as_u32(xs: Seq<usize>) -> Seq<u32> {
    Seq::new(xs.len(), |i: int| xs[i] as u32)
}

/// Whether a task message fits the wire's 32-bit length fields.
pub open spec fn task_msg_encodable(m: RunnerTaskMsg) -> bool {
    &&& forall|i: int|
        0 <= i < m.sync.group_indices@.len() ==> (#[trigger] m.sync.group_indices@[i]) as int
            <= u32::MAX
    &&& m.sync.group_indices@.len() <= u32::MAX
    &&& m.sync.agent_pool_metaversions@.len() <= u32::MAX
    &&& m.sync.message_pool_metaversions@.len() <= u32::MAX
    &&& vstd::utf8::encode_utf8(m.payload.payload_json@).len() <= u32::MAX
}

/// The payload record of a task message: the package id, the 16-byte task
/// id, the optional group index, the interim sync (group indices and both
/// pools' counter pairs, each with a count first), and the length-prefixed
/// serialized task payload.
pub open spec fn task_msg_bytes(m: RunnerTaskMsg) -> Seq<u8> {
    spec_u64_to_le_bytes(m.package_id as u64) + vstd::bytes::spec_u128_to_le_bytes(m.task_id) + (
    match m.group_index {
        Some(g) => seq![1u8] + spec_u32_to_le_bytes(g),
        None => seq![0u8] + spec_u32_to_le_bytes(0),
    }) + spec_u32_to_le_bytes(m.sync.group_indices@.len() as u32) + u32_list_bytes(
        indices_as_u32(m.sync.group_indices@),
    ) + spec_u32_to_le_bytes(m.sync.agent_pool_metaversions@.len() as u32)
        + metaversion_list_bytes(m.sync.agent_pool_metaversions@) + spec_u32_to_le_bytes(
        m.sync.message_pool_metaversions@.len() as u32,
    ) + metaversion_list_bytes(m.sync.message_pool_metaversions@) + spec_u32_to_le_bytes(
        vstd::utf8::encode_utf8(m.payload.payload_json@).len() as u32,
    ) + vstd::utf8::encode_utf8(m.payload.payload_json@)
}

/// Encode a task message for a runner. Exactly the messages whose parts
/// fit the 32-bit length fields encode.
#[verifier::loop_isolation(false)]
pub fn encode_task_msg(msg: &RunnerTaskMsg) -> (r: Result<Vec<u8>, Error>)
    ensures
        r is Ok <==> task_msg_encodable(*msg),
        r matches Ok(bytes) ==> bytes@ == task_msg_bytes(*msg),
        r matches Err(e) ==> e is ArrowBatch,
{
    let mut out = u64_to_le_bytes(msg.package_id as u64);
    let mut task_id_bytes = vstd::bytes::u128_to_le_bytes(msg.task_id);
    out.append(&mut task_id_bytes);
    match msg.group_index {
        Some(g) => {
            out.push(1);
            let mut gb = u32_to_le_bytes(g);
            out.append(&mut gb);
        },
        None => {
            out.push(0);
            let mut gb = u32_to_le_bytes(0);
            out.append(&mut gb);
        },
    }
    let groups = &msg.sync.group_indices;
    if groups.len() > u32::MAX as usize {
        return Err(Error::ArrowBatch("too many groups".to_owned()));
    }
    let mut count_bytes = u32_to_le_bytes(groups.len() as u32);
    out.append(&mut count_bytes);
    let ghost gs = indices_as_u32(groups@);
    let mut i: usize = 0;
    let ghost base = out@;
    proof {
        assert(gs.take(0) =~= Seq::<u32>::empty());
        assert(out@ =~= base + u32_list_bytes(gs.take(0)));
    }
    while i < groups.len()
        invariant
            0 <= i <= groups@.len(),
            gs == indices_as_u32(groups@),
            forall|k: int| 0 <= k < i ==> (#[trigger] groups@[k]) as int <= u32::MAX,
            out@ =~= base + u32_list_bytes(gs.take(i as int)),
        decreases groups@.len() - i,
    {
        let g = groups[i];
        if g > u32::MAX as usize {
            return Err(Error::ArrowBatch("group index beyond the wire range".to_owned()));
        }
        let mut gb = u32_to_le_bytes(g as u32);
        out.append(&mut gb);
        i = i + 1;
        proof {
            assert(gs.take(i as int).drop_last() =~= gs.take(i - 1));
            assert(gs.take(i as int).last() == gs[i - 1]);
            assert(out@ =~= base + u32_list_bytes(gs.take(i as int)));
        }
    }
    proof {
        assert(gs.take(gs.len() as int) =~= gs);
    }
    if append_metaversions(&mut out, &msg.sync.agent_pool_metaversions).is_err() {
        return Err(Error::ArrowBatch("too many agent batches".to_owned()));
    }
    if append_metaversions(&mut out, &msg.sync.message_pool_metaversions).is_err() {
        return Err(Error::ArrowBatch("too many message batches".to_owned()));
    }
    let payload_bytes = msg.payload.payload_json.as_str().as_bytes();
    if payload_bytes.len() > u32::MAX as usize {
        return Err(Error::ArrowBatch("task payload beyond the wire range".to_owned()));
    }
    let mut len_bytes = u32_to_le_bytes(payload_bytes.len() as u32);
    out.append(&mut len_bytes);
    out.extend_from_slice(payload_bytes);
    proof {
        assert(out@ =~= task_msg_bytes(*msg));
    }
    Ok(out)
}

/// Append a counter-pair list with its count first.
#[verifier::loop_isolation(false)]
fn append_metaversions(out: &mut Vec<u8>, ms: &Vec<Metaversion>) -> (r: Result<(), ()>)
    ensures
        r is Ok <==> ms@.len() <= u32::MAX,
        r is Ok ==> final(out)@ == old(out)@ + spec_u32_to_le_bytes(ms@.len() as u32)
            + metaversion_list_bytes(ms@),
        r is Err ==> final(out)@ == old(out)@,
{
    if ms.len() > u32::MAX as usize {
        return Err(());
    }
    let ghost before = out@;
    let mut count_bytes = u32_to_le_bytes(ms.len() as u32);
    out.append(&mut count_bytes);
    let ghost base = out@;
    let mut i: usize = 0;
    proof {
        assert(ms@.take(0) =~= Seq::<Metaversion>::empty());
        assert(out@ =~= base + metaversion_list_bytes(ms@.take(0)));
    }
    while i < ms.len()
        invariant
            0 <= i <= ms@.len(),
            out@ =~= base + metaversion_list_bytes(ms@.take(i as int)),
        decreases ms@.len() - i,
    {
        let mut memory_bytes = u32_to_le_bytes(ms[i].memory());
        out.append(&mut memory_bytes);
        let mut batch_bytes = u32_to_le_bytes(ms[i].batch());
        out.append(&mut batch_bytes);
        i = i + 1;
        proof {
            assert(ms@.take(i as int).drop_last() =~= ms@.take(i - 1));
            assert(ms@.take(i as int).last() == ms@[i - 1]);
            assert(out@ =~= base + metaversion_list_bytes(ms@.take(i as int)));
        }
    }
    proof {
        assert(ms@.take(ms@.len() as int) =~= ms@);
        assert(out@ =~= before + spec_u32_to_le_bytes(ms@.len() as u32) + metaversion_list_bytes(
            ms@,
        ));
    }
    Ok(())
}

/// Framing is injective: equal datagrams carry equal ids, tags and
/// payloads. With `decode_frame`'s contract this makes the round trip the
/// identity.
pub proof fn lemma_frame_injective(s1: u64, t1: u8, p1: Seq<u8>, s2: u64, t2: u8, p2: Seq<u8>)
    requires
        p1.len() <= u32::MAX,
        p2.len() <= u32::MAX,
        spec_frame(s1, t1, p1) == spec_frame(s2, t2, p2),
    ensures
        s1 == s2,
        t1 == t2,
        p1 == p2,
{
    lemma_auto_spec_u32_to_from_le_bytes();
    lemma_auto_spec_u64_to_from_le_bytes();
    let f1 = spec_frame(s1, t1, p1);
    let f2 = spec_frame(s2, t2, p2);
    assert(f1.len() == 13 + p1.len());
    assert(f2.len() == 13 + p2.len());
    assert(p1.len() == p2.len());
    assert(f1.subrange(4, 12) =~= spec_u64_to_le_bytes(s1));
    assert(f2.subrange(4, 12) =~= spec_u64_to_le_bytes(s2));
    assert(s1 == s2) by {
        assert(vstd::bytes::spec_u64_from_le_bytes(spec_u64_to_le_bytes(s1)) == s1);
        assert(vstd::bytes::spec_u64_from_le_bytes(spec_u64_to_le_bytes(s2)) == s2);
    }
    assert(t1 == f1[12] && t2 == f2[12]);
    assert(p1 =~= f1.subrange(13, f1.len() as int));
    assert(p2 =~= f2.subrange(13, f2.len() as int));
}

} // verus!
