//! The step output buffer.
//!
//! The logical output of a run is one JSON array: `[` opens it on
//! construction, every appended step is a comma-prefixed (except the first)
//! encoded record, and `]` closes it on finalize. The bytes are carved into
//! fixed-size parts as the in-memory buffer grows; the terminal slice may be
//! smaller and is only emitted at finalize.

use vstd::prelude::*;

use crate::error::Error;

verus! {

/// Size of one persisted part, and the smallest slice kept in memory.
pub const MAX_BYTE_SIZE: usize = 5242880;

/// The in-memory buffer is carved into parts once it exceeds this.
pub const IN_MEMORY_SIZE: usize = MAX_BYTE_SIZE * 2;

/// `,`
pub const CHAR_COMMA: u8 = 0x2c;

/// `[`
pub const CHAR_OPEN_LEFT_SQUARE_BRACKET: u8 = 0x5b;

/// `]`
pub const CHAR_OPEN_RIGHT_SQUARE_BRACKET: u8 = 0x5d;

/// The records joined with a comma between each adjacent pair: the inside
/// of the JSON array.
pub open spec fn joined_records(records: Seq<Seq<u8>>) -> Seq<u8>
    decreases records,
{
    if records.len() == 0 {
        Seq::empty()
    } else if records.len() == 1 {
        records[0]
    } else {
        joined_records(records.drop_last()) + seq![CHAR_COMMA] + records.last()
    }
}

/// All the parts, concatenated in creation order.
pub open spec fn flat_parts(parts: Seq<Seq<u8>>) -> Seq<u8>
    decreases parts,
{
    if parts.len() == 0 {
        Seq::empty()
    } else {
        flat_parts(parts.drop_last()) + parts.last()
    }
}

/// Buffer for the list of step outputs of one simulation run, carved into
/// equally sized parts with an in-memory tail.
pub struct OutputPartBuffer {
    pub output_type: String,
    pub current: Vec<u8>,
    pub parts: Vec<Vec<u8>>,
    pub initial_step: bool,
    /// The records appended so far.
    pub history: Ghost<Seq<Seq<u8>>>,
}

impl OutputPartBuffer {
    /// All bytes produced so far are the opening bracket followed by the
    /// comma-joined records, split between the finished parts and the
    /// in-memory tail; every finished part is exactly `MAX_BYTE_SIZE` bytes.
    pub open spec fn wf(self) -> bool {
        &&& flat_parts(self.parts.deep_view()) + self.current@ == seq![
            CHAR_OPEN_LEFT_SQUARE_BRACKET,
        ] + joined_records(self.history@)
        &&& self.initial_step <==> self.history@.len() == 0
        &&& forall|i: int|
            0 <= i < self.parts.deep_view().len() ==> (#[trigger] self.parts.deep_view()[i]).len()
                == MAX_BYTE_SIZE
    }

    /// A fresh buffer: the array is open, nothing appended yet.
    pub fn new(output_type_name: String) -> (r: OutputPartBuffer)
        ensures
            r.wf(),
            r.history@ == Seq::<Seq<u8>>::empty(),
            r.parts.deep_view() == Seq::<Seq<u8>>::empty(),
            r.current@ == seq![CHAR_OPEN_LEFT_SQUARE_BRACKET],
            r.output_type@ == output_type_name@,
    {
        let mut current: Vec<u8> = Vec::new();
        current.push(CHAR_OPEN_LEFT_SQUARE_BRACKET);
        let r = OutputPartBuffer {
            output_type: output_type_name,
            current,
            parts: Vec::new(),
            initial_step: true,
            history: Ghost(Seq::empty()),
        };
        proof {
            assert(r.parts.deep_view() =~= Seq::<Seq<u8>>::empty());
            assert(r.current@ =~= seq![CHAR_OPEN_LEFT_SQUARE_BRACKET]);
            assert(flat_parts(r.parts.deep_view()) + r.current@ =~= seq![
                CHAR_OPEN_LEFT_SQUARE_BRACKET,
            ] + joined_records(r.history@));
        }
        r
    }

    /// Whether the in-memory tail has outgrown its budget and should be
    /// carved into parts.
    pub fn is_at_capacity(&self) -> (r: bool)
        ensures
            r == (self.current@.len() > IN_MEMORY_SIZE),
    {
        self.current.len() > IN_MEMORY_SIZE
    }

    /// Append one encoded step record: a comma first unless it is the very
    /// first record.
    pub fn append_step(&mut self, step: &Vec<u8>) -> (r: Result<(), Error>)
        requires
            old(self).wf(),
        ensures
            r is Ok,
            final(self).wf(),
            final(self).history@ == old(self).history@.push(step@),
            final(self).parts.deep_view() == old(self).parts.deep_view(),
            final(self).output_type@ == old(self).output_type@,
    {
        let ghost history_before = self.history@;
        let ghost current_before = self.current@;
        if !self.initial_step {
            self.current.push(CHAR_COMMA);
        } else {
            self.initial_step = false;
        }
        self.current.extend_from_slice(step.as_slice());
        proof {
            self.history@ = history_before.push(step@);
            let h = self.history@;
            let base = flat_parts(self.parts.deep_view());
            assert(h.drop_last() =~= history_before);
            assert(h.last() == step@);
            if history_before.len() == 0 {
                assert(joined_records(h) == step@);
                assert(self.current@ =~= current_before + step@);
                assert(base + self.current@ =~= (base + current_before) + step@);
                assert(seq![CHAR_OPEN_LEFT_SQUARE_BRACKET] + joined_records(h) =~= (seq![
                    CHAR_OPEN_LEFT_SQUARE_BRACKET,
                ] + joined_records(history_before)) + step@);
            } else {
                assert(joined_records(h) =~= joined_records(history_before) + seq![CHAR_COMMA]
                    + step@);
                assert(self.current@ =~= current_before + seq![CHAR_COMMA] + step@);
                assert(base + self.current@ =~= (base + current_before) + seq![CHAR_COMMA]
                    + step@);
                assert(seq![CHAR_OPEN_LEFT_SQUARE_BRACKET] + joined_records(h) =~= (seq![
                    CHAR_OPEN_LEFT_SQUARE_BRACKET,
                ] + joined_records(history_before)) + seq![CHAR_COMMA] + step@);
            }
            assert(base + self.current@ =~= seq![CHAR_OPEN_LEFT_SQUARE_BRACKET] + joined_records(
                h,
            ));
        }
        Ok(())
    }

    /// Carve every full `MAX_BYTE_SIZE` slice of the in-memory tail into a
    /// finished part, keeping the remainder in memory. The caller persists
    /// the finished parts.
    #[verifier::loop_isolation(false)]
    pub fn persist_current_on_disk(&mut self) -> (r: Result<(), Error>)
        requires
            old(self).wf(),
        ensures
            r is Ok,
            final(self).wf(),
            final(self).history@ == old(self).history@,
            final(self).output_type@ == old(self).output_type@,
            final(self).parts.deep_view().len() == old(self).parts.deep_view().len() + old(
                self,
            ).current@.len() as int / (MAX_BYTE_SIZE as int),
            final(self).current@.len() == old(self).current@.len() as int % (MAX_BYTE_SIZE as int),
    {
        while self.current.len() >= MAX_BYTE_SIZE
            invariant
                self.wf(),
                self.history@ == old(self).history@,
                self.output_type@ == old(self).output_type@,
                self.parts.deep_view().len() * MAX_BYTE_SIZE + self.current@.len() == old(
                    self,
                ).parts.deep_view().len() * MAX_BYTE_SIZE + old(self).current@.len(),
                self.parts.deep_view().len() >= old(self).parts.deep_view().len(),
            decreases self.current@.len(),
        {
            let ghost parts_before = self.parts.deep_view();
            let ghost current_before = self.current@;
            let mut tail = self.current.split_off(MAX_BYTE_SIZE);
            core::mem::swap(&mut self.current, &mut tail);
            let ghost head_bytes = tail@;
            self.parts.push(tail);
            proof {
                assert(head_bytes =~= current_before.take(MAX_BYTE_SIZE as int));
                assert(self.parts@.last()@ == head_bytes);
                assert(self.parts@.last().deep_view() =~= head_bytes);
                assert(self.parts.deep_view() =~= parts_before.push(
                    current_before.take(MAX_BYTE_SIZE as int),
                ));
                assert(self.current@ =~= current_before.skip(MAX_BYTE_SIZE as int));
                assert(self.parts.deep_view().drop_last() =~= parts_before);
                assert(flat_parts(self.parts.deep_view()) =~= flat_parts(parts_before)
                    + current_before.take(MAX_BYTE_SIZE as int));
                assert(flat_parts(self.parts.deep_view()) + self.current@ =~= flat_parts(
                    parts_before,
                ) + current_before);
                assert((parts_before.len() + 1) * MAX_BYTE_SIZE == parts_before.len()
                    * MAX_BYTE_SIZE + MAX_BYTE_SIZE) by (nonlinear_arith);
            }
        }
        proof {
            let k = self.parts.deep_view().len() - old(self).parts.deep_view().len();
            let total = old(self).current@.len() as int;
            let rest = self.current@.len() as int;
            assert(total == k * MAX_BYTE_SIZE + rest);
            assert(rest < MAX_BYTE_SIZE);
            assert(k == total / (MAX_BYTE_SIZE as int) && rest == total % (MAX_BYTE_SIZE as int))
                by (nonlinear_arith)
                requires
                    total == k * MAX_BYTE_SIZE + rest,
                    0 <= rest < MAX_BYTE_SIZE,
                    k >= 0,
            ;
        }
        Ok(())
    }

    /// Close the JSON array: the remaining in-memory bytes followed by `]`,
    /// plus the finished parts in creation order. Altogether the emitted
    /// bytes are exactly `[`, the appended records joined by commas, then
    /// `]` — so the N-th element of the array is the N-th appended record.
    pub fn finalize(self) -> (r: Result<(Vec<u8>, Vec<Vec<u8>>), Error>)
        requires
            self.wf(),
        ensures
            r is Ok,
            r matches Ok(t) ==> {
                &&& t.1.deep_view() == self.parts.deep_view()
                &&& flat_parts(t.1.deep_view()) + t.0@ == seq![CHAR_OPEN_LEFT_SQUARE_BRACKET]
                    + joined_records(self.history@) + seq![CHAR_OPEN_RIGHT_SQUARE_BRACKET]
            },
    {
        let mut current = self.current;
        current.push(CHAR_OPEN_RIGHT_SQUARE_BRACKET);
        proof {
            assert(flat_parts(self.parts.deep_view()) + current@ =~= (flat_parts(
                self.parts.deep_view(),
            ) + self.current@) + seq![CHAR_OPEN_RIGHT_SQUARE_BRACKET]);
            assert(flat_parts(self.parts.deep_view()) + current@ =~= seq![
                CHAR_OPEN_LEFT_SQUARE_BRACKET,
            ] + joined_records(self.history@) + seq![CHAR_OPEN_RIGHT_SQUARE_BRACKET]);
        }
        Ok((current, self.parts))
    }
}

} // verus!
