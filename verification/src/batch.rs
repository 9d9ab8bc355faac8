//! Reading and writing column values in a batch body.
//!
//! A fixed-width column keeps its values back to back in its data buffer; a
//! variable-length column keeps 32-bit offsets and the value bytes. Writing
//! a column and reading it back is the identity.

use vstd::bytes::{
    lemma_auto_spec_u32_to_from_le_bytes, lemma_auto_spec_u64_to_from_le_bytes,
    spec_u32_from_le_bytes, spec_u32_to_le_bytes, spec_u64_from_le_bytes, spec_u64_to_le_bytes,
    u32_from_le_bytes, u32_to_le_bytes, u64_from_le_bytes, u64_to_le_bytes,
};
use vstd::prelude::*;
use vstd::slice::slice_subrange;

use crate::dynmeta::{DynamicMeta, HashDynamicMeta, RecordBatchHeader, buffer_layout_ok};
use crate::error::Error;
use crate::metaversion::{BufferChange, Metaversion};

verus! {

/// One shared columnar batch: its name, its reload counters, the parsed
/// dynamic metadata, and the body bytes the buffers point into.
#[derive(Debug)]
pub struct SharedBatch {
    pub batch_id: String,
    pub metaversion: Metaversion,
    pub dynamic: DynamicMeta,
    pub body: Vec<u8>,
}

impl SharedBatch {
    /// The buffers of the dynamic metadata tile the body exactly.
    pub open spec fn wf(self) -> bool {
        &&& self.dynamic.data_length == self.body@.len()
        &&& buffer_layout_ok(self.dynamic.buffers@, self.body@.len() as int)
    }

    /// Parse a batch from its framed record-batch header and body. Exactly
    /// the headers whose buffers fit the body back to back parse, and the
    /// parsed batch satisfies the buffer layout invariant.
    pub fn from_header(batch_id: String, header: &RecordBatchHeader, body: Vec<u8>) -> (r: Result<
        SharedBatch,
        Error,
    >)
        ensures
            r is Ok <==> crate::dynmeta::header_buffers_ok(header.buffers@, body@.len() as int),
            r matches Ok(b) ==> {
                &&& b.wf()
                &&& b.batch_id@ == batch_id@
                &&& b.metaversion == (Metaversion { memory: 0u32, batch: 0u32 })
                &&& b.dynamic.length == header.length
                &&& b.body@ == body@
            },
    {
        let data_length = body.len();
        let dynamic = header.into_meta(data_length)?;
        Ok(SharedBatch { batch_id, metaversion: Metaversion::new(0, 0), dynamic, body })
    }

    pub fn get_batch_id(&self) -> (r: &str)
        ensures
            r@ == self.batch_id@,
    {
        self.batch_id.as_str()
    }

    pub fn metaversion(&self) -> (r: Metaversion)
        ensures
            r == self.metaversion,
    {
        self.metaversion
    }

    /// The row count.
    pub fn len(&self) -> (r: usize)
        ensures
            r == self.dynamic.length,
    {
        self.dynamic.length
    }

    /// Record what a mutation did to the buffers: the owner calls this
    /// after every write, and the counters advance by the reload rules —
    /// `memory` exactly on a resize, `batch` on a resize or a shift.
    pub fn record_change(&mut self, change: &BufferChange)
        requires
            old(self).metaversion.memory < u32::MAX,
            old(self).metaversion.batch < u32::MAX,
        ensures
            final(self).metaversion.memory > old(self).metaversion.memory <==> change.resized,
            final(self).metaversion.batch > old(self).metaversion.batch <==> change.resized
                || change.shifted,
            final(self).batch_id@ == old(self).batch_id@,
            final(self).dynamic == old(self).dynamic,
            final(self).body@ == old(self).body@,
            old(self).wf() ==> final(self).wf(),
    {
        self.metaversion.increment_with(change);
    }
}

/// The data buffer of a fixed-width column of 64-bit values: each value's
/// little-endian bytes, back to back.
pub open spec fn u64_column_bytes(vs: Seq<u64>) -> Seq<u8>
    decreases vs,
{
    if vs.len() == 0 {
        Seq::empty()
    } else {
        u64_column_bytes(vs.drop_last()) + spec_u64_to_le_bytes(vs.last())
    }
}

/// The values read back from the data buffer of a fixed-width column of
/// `count` 64-bit values.
pub open spec fn u64_column_values(bytes: Seq<u8>, count: int) -> Seq<u64> {
    Seq::new(count as nat, |i: int| spec_u64_from_le_bytes(bytes.subrange(8 * i, 8 * i + 8)))
}

/// Reading a written fixed-width column back yields the written values:
/// writing then reading row values is the identity.
pub proof fn lemma_u64_column_round_trip(vs: Seq<u64>)
    ensures
        u64_column_bytes(vs).len() == 8 * vs.len(),
        u64_column_values(u64_column_bytes(vs), vs.len() as int) == vs,
    decreases vs,
{
    lemma_auto_spec_u64_to_from_le_bytes();
    if vs.len() == 0 {
        assert(u64_column_values(u64_column_bytes(vs), 0) =~= vs);
    } else {
        lemma_u64_column_round_trip(vs.drop_last());
        let prev = vs.drop_last();
        let bytes = u64_column_bytes(vs);
        assert(bytes =~= u64_column_bytes(prev) + spec_u64_to_le_bytes(vs.last()));
        assert forall|i: int| 0 <= i < vs.len() implies u64_column_values(bytes, vs.len() as int)[i]
            == vs[i] by {
            if i < prev.len() {
                assert(bytes.subrange(8 * i, 8 * i + 8) =~= u64_column_bytes(prev).subrange(
                    8 * i,
                    8 * i + 8,
                ));
                assert(u64_column_values(u64_column_bytes(prev), prev.len() as int)[i] == prev[i]);
            } else {
                assert(bytes.subrange(8 * i, 8 * i + 8) =~= spec_u64_to_le_bytes(vs.last()));
            }
        }
        assert(u64_column_values(bytes, vs.len() as int) =~= vs);
    }
}

/// Append a fixed-width column's data buffer: every value's little-endian
/// bytes in row order.
#[verifier::loop_isolation(false)]
pub fn write_u64_column(values: &Vec<u64>, buffer: &mut Vec<u8>)
    ensures
        final(buffer)@ == old(buffer)@ + u64_column_bytes(values@),
{
    let ghost before = buffer@;
    let mut i: usize = 0;
    proof {
        assert(values@.take(0) =~= Seq::<u64>::empty());
        assert(buffer@ =~= before + u64_column_bytes(values@.take(0)));
    }
    while i < values.len()
        invariant
            0 <= i <= values@.len(),
            buffer@ =~= before + u64_column_bytes(values@.take(i as int)),
        decreases values@.len() - i,
    {
        let mut word = u64_to_le_bytes(values[i]);
        buffer.append(&mut word);
        i = i + 1;
        proof {
            assert(values@.take(i as int).drop_last() =~= values@.take(i - 1));
            assert(values@.take(i as int).last() == values@[i - 1]);
            assert(buffer@ =~= before + u64_column_bytes(values@.take(i as int)));
        }
    }
    proof {
        assert(values@.take(values@.len() as int) =~= values@);
    }
}

/// Read a fixed-width column of `count` 64-bit values back from its data
/// buffer. Exactly a buffer of `8 * count` bytes parses.
#[verifier::loop_isolation(false)]
pub fn read_u64_column(buffer: &Vec<u8>, count: usize) -> (r: Result<Vec<u64>, Error>)
    ensures
        r is Ok <==> buffer@.len() == 8 * count,
        r matches Ok(vs) ==> vs@ == u64_column_values(buffer@, count as int),
        r matches Err(e) ==> e is ArrowBatch,
{
    let len = buffer.len();
    if len / 8 != count || len % 8 != 0 {
        return Err(Error::ArrowBatch("fixed-width buffer length mismatch".to_owned()));
    }
    proof {
        assert(len == 8 * count);
    }
    let mut values: Vec<u64> = Vec::new();
    let mut i: usize = 0;
    while i < count
        invariant
            0 <= i <= count,
            buffer@.len() == 8 * count,
            values@.len() == i,
            forall|k: int|
                0 <= k < i ==> #[trigger] values@[k] == spec_u64_from_le_bytes(
                    buffer@.subrange(8 * k, 8 * k + 8),
                ),
        decreases count - i,
    {
        let word = u64_from_le_bytes(slice_subrange(buffer.as_slice(), 8 * i, 8 * i + 8));
        values.push(word);
        i = i + 1;
    }
    proof {
        assert(values@ =~= u64_column_values(buffer@, count as int));
    }
    Ok(values)
}

/// The offsets buffer of a variable-length byte column: one little-endian
/// 32-bit offset before each value and one after the last, each the byte
/// position where the value starts or ends.
pub open spec fn offsets_bytes(vs: Seq<Seq<u8>>, upto: int) -> Seq<u8>
    decreases upto,
{
    if upto <= 0 {
        spec_u32_to_le_bytes(0)
    } else {
        offsets_bytes(vs, upto - 1) + spec_u32_to_le_bytes(flat_len(vs, upto) as u32)
    }
}

/// The total byte length of the first `upto` values.
pub open spec fn flat_len(vs: Seq<Seq<u8>>, upto: int) -> int
    decreases upto,
{
    if upto <= 0 {
        0
    } else {
        flat_len(vs, upto - 1) + vs[upto - 1].len()
    }
}

/// The data buffer of a variable-length byte column: the values back to
/// back.
pub open spec fn var_column_bytes(vs: Seq<Seq<u8>>, upto: int) -> Seq<u8>
    decreases upto,
{
    if upto <= 0 {
        Seq::empty()
    } else {
        var_column_bytes(vs, upto - 1) + vs[upto - 1]
    }
}

/// Append a variable-length byte column: the offsets buffer and the data
/// buffer. The values' total length must fit the 32-bit offsets.
#[verifier::loop_isolation(false)]
pub fn write_var_column(values: &Vec<Vec<u8>>, offsets: &mut Vec<u8>, data: &mut Vec<u8>) -> (r:
    Result<(), Error>)
    requires
        old(offsets)@.len() == 0,
        old(data)@.len() == 0,
    ensures
        r is Ok <==> flat_len(values.deep_view(), values@.len() as int) <= u32::MAX,
        r is Ok ==> final(offsets)@ == offsets_bytes(values.deep_view(), values@.len() as int)
            && final(data)@ == var_column_bytes(values.deep_view(), values@.len() as int),
{
    let ghost vs = values.deep_view();
    let mut zero = u32_to_le_bytes(0);
    offsets.append(&mut zero);
    let mut total: usize = 0;
    let mut i: usize = 0;
    proof {
        assert(offsets@ =~= offsets_bytes(vs, 0));
        assert(data@ =~= var_column_bytes(vs, 0));
    }
    while i < values.len()
        invariant
            0 <= i <= values@.len(),
            vs == values.deep_view(),
            total == flat_len(vs, i as int),
            total <= u32::MAX,
            offsets@ =~= offsets_bytes(vs, i as int),
            data@ =~= var_column_bytes(vs, i as int),
        decreases values@.len() - i,
    {
        let value = &values[i];
        proof {
            assert(value@ == vs[i as int]);
        }
        let next_total = match total.checked_add(value.len()) {
            Some(t) => t,
            None => {
                proof {
                    lemma_flat_len_monotone(vs, i + 1, vs.len() as int);
                }
                return Err(Error::ArrowBatch("variable-length column too large".to_owned()));
            },
        };
        if next_total > u32::MAX as usize {
            proof {
                lemma_flat_len_monotone(vs, i + 1, vs.len() as int);
            }
            return Err(Error::ArrowBatch("variable-length column too large".to_owned()));
        }
        data.extend_from_slice(value.as_slice());
        let mut off = u32_to_le_bytes(next_total as u32);
        offsets.append(&mut off);
        total = next_total;
        i = i + 1;
        proof {
            assert(offsets@ =~= offsets_bytes(vs, i as int));
            assert(data@ =~= var_column_bytes(vs, i as int));
        }
    }
    Ok(())
}

/// The prefix lengths of a column's values never shrink.
proof fn lemma_flat_len_monotone(vs: Seq<Seq<u8>>, a: int, b: int)
    requires
        0 <= a <= b,
    ensures
        flat_len(vs, a) <= flat_len(vs, b),
    decreases b - a,
{
    if a < b {
        lemma_flat_len_monotone(vs, a, b - 1);
    }
}

/// Read one value of a variable-length byte column back from its offsets
/// and data buffers, by row index.
pub fn read_var_value(offsets: &Vec<u8>, data: &Vec<u8>, count: usize, row: usize) -> (r: Result<
    Vec<u8>,
    Error,
>)
    requires
        row < count,
        count < usize::MAX / 4,
    ensures
        (exists|vs: Seq<Seq<u8>>|
            {
                &&& vs.len() == count
                &&& flat_len(vs, count as int) <= u32::MAX
                &&& offsets@ == offsets_bytes(vs, count as int)
                &&& data@ == var_column_bytes(vs, count as int)
            }) ==> r is Ok,
        forall|vs: Seq<Seq<u8>>|
            {
                (#[trigger] offsets_bytes(vs, count as int)) == offsets@ && vs.len() == count
                    && flat_len(vs, count as int) <= u32::MAX && data@ == var_column_bytes(
                    vs,
                    count as int,
                ) && r is Ok ==> r->Ok_0@ == vs[row as int]
            },
{
    proof {
        lemma_auto_spec_u32_to_from_le_bytes();
    }
    if offsets.len() != 4 * (count + 1) {
        proof {
            lemma_offsets_bytes_len_any(count as int);
        }
        return Err(Error::ArrowBatch("offsets buffer length mismatch".to_owned()));
    }
    let start = u32_from_le_bytes(slice_subrange(offsets.as_slice(), 4 * row, 4 * row + 4));
    let end = u32_from_le_bytes(
        slice_subrange(offsets.as_slice(), 4 * (row + 1), 4 * (row + 1) + 4),
    );
    if start > end || (end as usize) > data.len() {
        proof {
            assert forall|vs: Seq<Seq<u8>>|
                (#[trigger] offsets_bytes(vs, count as int)) == offsets@ && vs.len() == count
                    && flat_len(vs, count as int) <= u32::MAX && data@ == var_column_bytes(
                    vs,
                    count as int,
                ) implies false by {
                lemma_offsets_facts(vs, count as int, row as int);
            }
        }
        return Err(Error::ArrowBatch("offsets out of range".to_owned()));
    }
    let value_slice = slice_subrange(data.as_slice(), start as usize, end as usize);
    let mut value: Vec<u8> = Vec::new();
    value.extend_from_slice(value_slice);
    proof {
        assert forall|vs: Seq<Seq<u8>>|
            (#[trigger] offsets_bytes(vs, count as int)) == offsets@ && vs.len() == count
                && flat_len(vs, count as int) <= u32::MAX && data@ == var_column_bytes(
                vs,
                count as int,
            ) implies value@ == vs[row as int] by {
            lemma_offsets_facts(vs, count as int, row as int);
            assert(start == flat_len(vs, row as int));
            assert(end == flat_len(vs, row as int + 1));
            lemma_var_bytes_slice(vs, count as int, row as int);
            assert(value@ =~= data@.subrange(start as int, end as int));
        }
    }
    Ok(value)
}

/// The length of an offsets buffer, whatever the values.
proof fn lemma_offsets_bytes_len_any(count: int)
    ensures
        forall|vs: Seq<Seq<u8>>|
            count >= 0 ==> (#[trigger] offsets_bytes(vs, count)).len() == 4 * (count + 1),
{
    assert forall|vs: Seq<Seq<u8>>|
        count >= 0 implies (#[trigger] offsets_bytes(vs, count)).len() == 4 * (count + 1) by {
        lemma_offsets_bytes_len(vs, count);
    }
}

proof fn lemma_offsets_bytes_len(vs: Seq<Seq<u8>>, upto: int)
    requires
        upto >= 0,
    ensures
        offsets_bytes(vs, upto).len() == 4 * (upto + 1),
    decreases upto,
{
    lemma_auto_spec_u32_to_from_le_bytes();
    if upto > 0 {
        lemma_offsets_bytes_len(vs, upto - 1);
    }
}

/// Each encoded offset reads back as the prefix length it encodes.
proof fn lemma_offsets_facts(vs: Seq<Seq<u8>>, count: int, row: int)
    requires
        0 <= row < count,
        flat_len(vs, count) <= u32::MAX,
    ensures
        offsets_bytes(vs, count).len() == 4 * (count + 1),
        spec_u32_from_le_bytes(offsets_bytes(vs, count).subrange(4 * row, 4 * row + 4)) == flat_len(
            vs,
            row,
        ),
        spec_u32_from_le_bytes(
            offsets_bytes(vs, count).subrange(4 * (row + 1), 4 * (row + 1) + 4),
        ) == flat_len(vs, row + 1),
        0 <= flat_len(vs, row) <= flat_len(vs, row + 1) <= var_column_bytes(vs, count).len(),
{
    lemma_auto_spec_u32_to_from_le_bytes();
    lemma_offsets_bytes_len(vs, count);
    lemma_flat_len_monotone(vs, 0, row);
    lemma_flat_len_monotone(vs, row, row + 1);
    lemma_flat_len_monotone(vs, row + 1, count);
    lemma_var_bytes_len(vs, count);
    assert forall|k: int| 0 <= k <= count implies spec_u32_from_le_bytes(
        offsets_bytes(vs, count).subrange(4 * k, 4 * k + 4),
    ) == flat_len(vs, k) && flat_len(vs, k) >= 0 by {
        lemma_offset_at(vs, count, k);
        lemma_flat_len_monotone(vs, 0, k);
        lemma_flat_len_monotone(vs, k, count);
        assert(0 <= flat_len(vs, k) <= u32::MAX);
        assert(spec_u32_from_le_bytes(spec_u32_to_le_bytes(flat_len(vs, k) as u32)) == flat_len(
            vs,
            k,
        ) as u32);
    }
}

proof fn lemma_offset_at(vs: Seq<Seq<u8>>, upto: int, k: int)
    requires
        0 <= k <= upto,
    ensures
        offsets_bytes(vs, upto).subrange(4 * k, 4 * k + 4) =~= spec_u32_to_le_bytes(
            flat_len(vs, k) as u32,
        ),
    decreases upto,
{
    lemma_auto_spec_u32_to_from_le_bytes();
    lemma_offsets_bytes_len(vs, if upto > 0 { upto - 1 } else { 0 });
    if upto <= 0 {
        assert(offsets_bytes(vs, upto) == spec_u32_to_le_bytes(0));
        assert(flat_len(vs, k) == 0);
    } else if k <= upto - 1 {
        lemma_offset_at(vs, upto - 1, k);
        assert(offsets_bytes(vs, upto).subrange(4 * k, 4 * k + 4) =~= offsets_bytes(
            vs,
            upto - 1,
        ).subrange(4 * k, 4 * k + 4));
    } else {
        assert(offsets_bytes(vs, upto).subrange(4 * k, 4 * k + 4) =~= spec_u32_to_le_bytes(
            flat_len(vs, upto) as u32,
        ));
    }
}

proof fn lemma_var_bytes_len(vs: Seq<Seq<u8>>, upto: int)
    requires
        upto >= 0,
    ensures
        var_column_bytes(vs, upto).len() == flat_len(vs, upto),
    decreases upto,
{
    if upto > 0 {
        lemma_var_bytes_len(vs, upto - 1);
    }
}

/// Each value sits in the data buffer between its own offsets.
proof fn lemma_var_bytes_slice(vs: Seq<Seq<u8>>, count: int, row: int)
    requires
        0 <= row < count,
    ensures
        var_column_bytes(vs, count).subrange(flat_len(vs, row), flat_len(vs, row + 1)) =~= vs[row],
    decreases count,
{
    lemma_var_bytes_len(vs, row);
    lemma_var_bytes_len(vs, row + 1);
    lemma_var_bytes_len(vs, count);
    lemma_flat_len_monotone(vs, row + 1, count);
    if row == count - 1 {
        assert(var_column_bytes(vs, count) =~= var_column_bytes(vs, count - 1) + vs[count - 1]);
    } else {
        lemma_var_bytes_slice(vs, count - 1, row);
        lemma_var_bytes_len(vs, count - 1);
        lemma_flat_len_monotone(vs, row + 1, count - 1);
        assert(var_column_bytes(vs, count) =~= var_column_bytes(vs, count - 1) + vs[count - 1]);
        assert(var_column_bytes(vs, count).subrange(flat_len(vs, row), flat_len(vs, row + 1))
            =~= var_column_bytes(vs, count - 1).subrange(flat_len(vs, row), flat_len(vs, row + 1)));
    }
}

} // verus!
