//! Dynamic (per-batch) metadata: node lengths and the buffer layout of one
//! record batch, derived from a framed record-batch header.
//!
//! The layout invariant: every buffer is followed by its padding, and the
//! next buffer starts exactly where the padding ends; the last buffer's
//! padding ends at the body length. Offsets are therefore monotone.

use vstd::prelude::*;

use crate::error::Error;

verus! {

/// One node of a record batch: its row count and null count.
#[derive(Debug, Clone, Copy, PartialEq, Eq, Structural)]
pub struct Node {
    pub length: usize,
    pub null_count: usize,
}

/// One buffer of a record batch body: where it starts, how many bytes it
/// holds, and how many padding bytes follow it.
#[derive(Debug, Clone, Copy, PartialEq, Eq, Structural)]
pub struct Buffer {
    pub offset: usize,
    pub length: usize,
    pub padding: usize,
}

/// The dynamic metadata of one record batch.
#[derive(Debug, PartialEq, Eq)]
pub struct DynamicMeta {
    /// Number of rows.
    pub length: usize,
    /// Number of body bytes.
    pub data_length: usize,
    pub nodes: Vec<Node>,
    pub buffers: Vec<Buffer>,
}

/// The buffer layout invariant: each buffer, its data and its padding end
/// exactly where the next buffer starts, and the last one ends at the body
/// length.
pub open spec fn buffer_layout_ok(buffers: Seq<Buffer>, data_length: int) -> bool {
    forall|i: int|
        0 <= i < buffers.len() ==> (#[trigger] buffers[i]).offset + buffers[i].length
            + buffers[i].padding == (if i + 1 < buffers.len() {
            buffers[i + 1].offset as int
        } else {
            data_length
        })
}

/// Under the layout invariant, buffer offsets are monotone, every buffer
/// lies inside the body, and the final buffer ends at the body length.
pub proof fn lemma_buffer_layout_monotone(buffers: Seq<Buffer>, data_length: int)
    requires
        buffer_layout_ok(buffers, data_length),
    ensures
        forall|i: int, j: int|
            0 <= i <= j < buffers.len() ==> (#[trigger] buffers[i]).offset <= (
            #[trigger] buffers[j]).offset,
        forall|i: int|
            0 <= i < buffers.len() ==> (#[trigger] buffers[i]).offset + buffers[i].length
                <= data_length,
        buffers.len() > 0 ==> buffers.last().offset + buffers.last().length
            + buffers.last().padding == data_length,
    decreases buffers.len(),
{
    assert forall|i: int, j: int|
        0 <= i <= j < buffers.len() implies (#[trigger] buffers[i]).offset <= (
    #[trigger] buffers[j]).offset by {
        lemma_offsets_le(buffers, data_length, i, j);
    }
    assert forall|i: int|
        0 <= i < buffers.len() implies (#[trigger] buffers[i]).offset + buffers[i].length
            <= data_length by {
        lemma_offsets_le(buffers, data_length, i, buffers.len() - 1);
    }
}

/// Offsets grow from position `i` to position `j`, and every buffer ends
/// before the body does.
proof fn lemma_offsets_le(buffers: Seq<Buffer>, data_length: int, i: int, j: int)
    requires
        buffer_layout_ok(buffers, data_length),
        0 <= i <= j < buffers.len(),
    ensures
        buffers[i].offset <= buffers[j].offset,
        buffers[j].offset + buffers[j].length <= data_length,
    decreases j - i, buffers.len() - j,
{
    if i < j {
        lemma_offsets_le(buffers, data_length, i, j - 1);
        lemma_offsets_le(buffers, data_length, j, j);
    } else {
        if j + 1 < buffers.len() {
            lemma_offsets_le(buffers, data_length, j + 1, j + 1);
        }
    }
}

/// A framed record-batch header as received from a peer: the row count, the
/// node list, and per buffer its offset and length inside the body.
#[derive(Debug, PartialEq, Eq)]
pub struct RecordBatchHeader {
    pub length: usize,
    pub nodes: Vec<Node>,
    pub buffers: Vec<(usize, usize)>,
}

/// Whether a header's buffers fit a body of `data_length` bytes back to
/// back: each buffer ends no later than the next begins, and the last ends
/// no later than the body.
pub open spec fn header_buffers_ok(bufs: Seq<(usize, usize)>, data_length: int) -> bool {
    forall|i: int|
        0 <= i < bufs.len() ==> (#[trigger] bufs[i]).0 + bufs[i].1 <= (if i + 1 < bufs.len() {
            bufs[i + 1].0 as int
        } else {
            data_length
        })
}

/// Derives dynamic metadata from a record-batch header.
pub trait HashDynamicMeta {
    fn into_meta(&self, data_length: usize) -> Result<DynamicMeta, Error>;
}

impl HashDynamicMeta for RecordBatchHeader {
    /// Compute each buffer's padding from the gap to the next buffer (or to
    /// the end of the body), refusing a header whose buffers overlap or
    /// overrun the body.
    #[verifier::loop_isolation(false)]
    fn into_meta(&self, data_length: usize) -> (r: Result<DynamicMeta, Error>)
        ensures
            r is Ok <==> header_buffers_ok(self.buffers@, data_length as int),
            r matches Ok(m) ==> {
                &&& m.length == self.length
                &&& m.data_length == data_length
                &&& m.nodes@ == self.nodes@
                &&& m.buffers@.len() == self.buffers@.len()
                &&& forall|i: int|
                    0 <= i < m.buffers@.len() ==> (#[trigger] m.buffers@[i]).offset
                        == self.buffers@[i].0 && m.buffers@[i].length == self.buffers@[i].1
                &&& buffer_layout_ok(m.buffers@, data_length as int)
            },
            r matches Err(e) ==> e is ArrowBatch,
    {
        let ghost bufs = self.buffers@;
        let mut buffers: Vec<Buffer> = Vec::new();
        let mut i: usize = 0;
        while i < self.buffers.len()
            invariant
                0 <= i <= bufs.len(),
                buffers@.len() == i,
                forall|k: int|
                    0 <= k < i ==> (#[trigger] buffers@[k]).offset == bufs[k].0
                        && buffers@[k].length == bufs[k].1,
                forall|k: int|
                    0 <= k < i ==> (#[trigger] buffers@[k]).offset + buffers@[k].length
                        + buffers@[k].padding == (if k + 1 < bufs.len() {
                        bufs[k + 1].0 as int
                    } else {
                        data_length as int
                    }),
                forall|k: int|
                    0 <= k < i ==> (#[trigger] bufs[k]).0 + bufs[k].1 <= (if k + 1 < bufs.len() {
                        bufs[k + 1].0 as int
                    } else {
                        data_length as int
                    }),
            decreases bufs.len() - i,
        {
            let (offset, length) = self.buffers[i];
            let end = match offset.checked_add(length) {
                Some(e) => e,
                None => {
                    proof {
                        assert(!header_buffers_ok(bufs, data_length as int)) by {
                            assert(bufs[i as int].0 + bufs[i as int].1 > usize::MAX);
                        }
                    }
                    return Err(Error::ArrowBatch("buffer beyond body".to_owned()));
                },
            };
            let limit = if i + 1 < self.buffers.len() {
                self.buffers[i + 1].0
            } else {
                data_length
            };
            if end > limit {
                proof {
                    assert(!header_buffers_ok(bufs, data_length as int));
                }
                return Err(Error::ArrowBatch("buffer beyond body".to_owned()));
            }
            buffers.push(Buffer { offset, length, padding: limit - end });
            i = i + 1;
        }
        // The last buffer may still overrun the body even though every
        // earlier buffer reached only as far as its successor's offset.
        proof {
            assert(buffers@.len() == bufs.len());
        }
        let m = DynamicMeta {
            length: self.length,
            data_length,
            nodes: clone_nodes(&self.nodes),
            buffers,
        };
        proof {
            assert(header_buffers_ok(bufs, data_length as int));
            assert(buffer_layout_ok(m.buffers@, data_length as int));
        }
        Ok(m)
    }
}

/// Copy a node list; nodes are plain pairs of counts.
fn clone_nodes(nodes: &Vec<Node>) -> (r: Vec<Node>)
    ensures
        r@ == nodes@,
{
    let mut r: Vec<Node> = Vec::new();
    let mut i: usize = 0;
    while i < nodes.len()
        invariant
            0 <= i <= nodes@.len(),
            r@ =~= nodes@.take(i as int),
        decreases nodes@.len() - i,
    {
        r.push(nodes[i]);
        i = i + 1;
        proof {
            assert(r@ =~= nodes@.take(i as int));
        }
    }
    proof {
        assert(nodes@.take(nodes@.len() as int) =~= nodes@);
    }
    r
}

} // verus!
