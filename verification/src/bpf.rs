//! The program scraper: the attachment of the iterator over the loaded
//! kernel programs and the decoding of its records.
//!
//! The iterator writes records of a fixed size, one after the other. Each
//! record is the name field followed by the attachment field. What is left
//! at the end of the stream and does not fill a record is dropped.

use vstd::prelude::*;
use vstd::slice::{slice_subrange, slice_to_vec};
use crate::common::{bpf_prog_result, ProgResultView};
use crate::lifecycle::{settle, start_steps, Program, StartError, StartOutcome, Step};

verus! {

/// The sizes of the two fields of a record. A layout always has a size
/// above zero that fits in `usize`.
pub struct RecordLayout {
    name_len: usize,
    attached_len: usize,
}

impl RecordLayout {
    #[verifier::type_invariant]
    spec fn holds(self) -> bool {
        0 < self.name_len + self.attached_len <= usize::MAX
    }

    /// The size of the name field in bytes.
    pub closed spec fn name_size(self) -> nat {
        self.name_len as nat
    }

    /// The size of the attachment field in bytes.
    pub closed spec fn attached_size(self) -> nat {
        self.attached_len as nat
    }

    /// The size of a record in bytes.
    pub open spec fn size(self) -> nat {
        self.name_size() + self.attached_size()
    }

    /// The layout with fields of these sizes; `None` where both are empty or
    /// the record would not fit in `usize`.
    pub fn new(name_len: usize, attached_len: usize) -> (layout: Option<RecordLayout>)
        ensures
            layout is Some <==> 0 < name_len + attached_len <= usize::MAX,
            layout matches Some(l) ==> l.name_size() == name_len && l.attached_size()
                == attached_len,
    {
        match name_len.checked_add(attached_len) {
            Some(size) => {
                if size > 0 {
                    Some(RecordLayout { name_len, attached_len })
                } else {
                    None
                }
            },
            None => None,
        }
    }

    /// The size of a record in bytes.
    pub fn record_size(&self) -> (size: usize)
        ensures
            size == self.size(),
            size > 0,
    {
        proof {
            use_type_invariant(self);
        }
        self.name_len + self.attached_len
    }
}

/// The record with number `i` of a stream, counted from zero.
pub open spec fn record_at(stream: Seq<u8>, layout: RecordLayout, i: int) -> ProgResultView {
    let start = i * layout.size();
    ProgResultView {
        name: stream.subrange(start, start + layout.name_size()),
        attached: stream.subrange(start + layout.name_size(), start + layout.size()),
    }
}

/// The number of whole records in a stream of `len` bytes.
pub open spec fn record_count(len: nat, layout: RecordLayout) -> nat {
    if layout.size() > 0 {
        len / layout.size()
    } else {
        0
    }
}

/// The records of a stream, in order.
pub open spec fn records_in(stream: Seq<u8>, layout: RecordLayout) -> Seq<ProgResultView> {
    Seq::new(record_count(stream.len(), layout), |i: int| record_at(stream, layout, i))
}

/// The views of a list of records.
pub open spec fn views(records: Seq<bpf_prog_result>) -> Seq<ProgResultView> {
    Seq::new(records.len(), |i: int| records[i]@)
}

/// Cuts a stream of bytes into records.
pub fn decode_records(stream: &[u8], layout: &RecordLayout) -> (records: Vec<bpf_prog_result>)
    ensures
        views(records@) == records_in(stream@, *layout),
{
    let size = layout.record_size();
    proof {
        use_type_invariant(layout);
    }
    let count = stream.len() / size;
    let mut records: Vec<bpf_prog_result> = Vec::new();
    let mut i: usize = 0;
    proof {
        assert(count * size <= stream@.len()) by (nonlinear_arith)
            requires
                count == stream@.len() / size as nat,
                size > 0,
        ;
    }
    while i < count
        invariant
            i <= count,
            size == layout.size(),
            size > 0,
            size == layout.name_len + layout.attached_len,
            count == stream@.len() / size as nat,
            count * size <= stream@.len() <= usize::MAX,
            records@.len() == i,
            forall|j: int| 0 <= j < i ==> (#[trigger] records@[j])@ == record_at(stream@, *layout, j),
        decreases count - i,
    {
        proof {
            assert((i + 1) * size <= count * size) by (nonlinear_arith)
                requires
                    i < count,
                    size > 0,
            ;
            assert((i + 1) * size == i * size + size) by (nonlinear_arith);
            assert(0 <= i * size) by (nonlinear_arith)
                requires
                    i >= 0,
                    size > 0,
            ;
        }
        let start = i * size;
        let middle = start + layout.name_len;
        let end = start + size;
        let record = bpf_prog_result {
            name: slice_to_vec(slice_subrange(stream, start, middle)),
            attached: slice_to_vec(slice_subrange(stream, middle, end)),
        };
        records.push(record);
        i = i + 1;
    }
    assert(views(records@) =~= records_in(stream@, *layout));
    records
}

/// The records that the library itself holds: none.
pub fn get_bpf_programs() -> (records: Vec<bpf_prog_result>)
    ensures
        records@.len() == 0,
{
    Vec::new()
}

/// The scraper of the loaded kernel programs. `L` is the handle of its
/// attachment to the kernel, which the caller makes.
pub struct BPFScraper<L> {
    link: Option<L>,
    debug: bool,
}

impl<L> BPFScraper<L> {
    /// The attachment, once the scraper is started.
    pub closed spec fn attachment(&self) -> Option<L> {
        self.link
    }

    /// Whether the diagnostics of the kernel facility are wanted.
    pub closed spec fn debug_flag(&self) -> bool {
        self.debug
    }

    /// A scraper that is not started yet.
    pub fn new(debug: bool) -> (scraper: Self)
        ensures
            scraper.attachment() is None,
            scraper.debug_flag() == debug,
    {
        BPFScraper { link: None, debug }
    }

    /// Whether the scraper is started.
    pub fn is_started(&self) -> (r: bool)
        ensures
            r == self.attachment() is Some,
    {
        self.link.is_some()
    }

    /// Whether the diagnostics of the kernel facility are wanted.
    pub fn debug(&self) -> (r: bool)
        ensures
            r == self.debug_flag(),
    {
        self.debug
    }

    /// The handle of the attachment, for opening a session on it.
    pub fn link(&self) -> (r: Option<&L>)
        ensures
            r is Some <==> self.attachment() is Some,
            r matches Some(handle) ==> self.attachment() == Some(*handle),
    {
        self.link.as_ref()
    }

    /// The steps that the caller performs to start this scraper: none where
    /// it is started already, else open, load, and attach `dump_bpf_prog`.
    pub fn steps(&self) -> (steps: Vec<Step>)
        ensures
            steps@ == if self.attachment() is Some {
                Seq::<Step>::empty()
            } else {
                crate::lifecycle::steps_of(self.debug_flag(), Program::DumpBpfProg)
            },
    {
        if self.link.is_some() {
            Vec::new()
        } else {
            start_steps(self.debug, Program::DumpBpfProg)
        }
    }

    /// Ends the start of this scraper with what its steps came to.
    ///
    /// The attachment is set where the steps succeeded and the scraper was
    /// not started before. A failed step is returned as the error and leaves
    /// the scraper as it was; so does a start of a started scraper.
    pub fn start(&mut self, outcome: StartOutcome<L>) -> (r: Result<(), StartError>)
        ensures
            (final(self).attachment(), r) == crate::lifecycle::settled(
                old(self).attachment(),
                outcome,
            ),
            final(self).debug_flag() == old(self).debug_flag(),
    {
        settle(&mut self.link, outcome)
    }

    /// Does nothing: the attachment is released when the scraper is dropped,
    /// not before.
    pub fn stop(&self) -> (r: Result<(), StartError>)
        ensures
            r is Ok,
    {
        Ok(())
    }

    /// Decodes what a session on the attachment wrote. Only a started
    /// scraper decodes.
    pub fn records(&self, stream: &[u8], layout: &RecordLayout) -> (records: Vec<bpf_prog_result>)
        requires
            self.attachment() is Some,
        ensures
            views(records@) == records_in(stream@, *layout),
    {
        decode_records(stream, layout)
    }
}

} // verus!
