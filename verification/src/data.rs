//! The cursor-tracked event log.

use crate::fuzz_input::FuzzInput;
use vstd::prelude::*;
use vstd::slice::slice_subrange;

verus! {

/// What a log is: its events in order, and a cursor that is unset until the
/// first batch was consumed and counts the consumed events from then on.
pub struct LogView {
    pub inputs: Seq<FuzzInput>,
    pub cursor: Option<usize>,
}

impl LogView {
    /// The number of events consumed so far; zero while the cursor is unset.
    pub open spec fn consumed(self) -> nat {
        match self.cursor {
            Some(c) => c as nat,
            None => 0,
        }
    }

    /// The events that no batch has consumed yet.
    pub open spec fn pending(self) -> Seq<FuzzInput> {
        if self.consumed() <= self.inputs.len() {
            self.inputs.skip(self.consumed() as int)
        } else {
            Seq::empty()
        }
    }

    /// Whether a batch was consumed and nothing is left.
    pub open spec fn finished(self) -> bool {
        self.cursor is Some && self.consumed() >= self.inputs.len()
    }

    /// The log after a batch was consumed. `Some(i)` says that the batch
    /// ended with the event at index `i` of the pending ones, which puts the
    /// cursor `i + 1` further on; `None` says that the batch ran to the end,
    /// which puts the cursor at the number of events.
    pub open spec fn advance(self, last_idx: Option<usize>) -> LogView {
        LogView {
            inputs: self.inputs,
            cursor: Some(
                match last_idx {
                    Some(i) => (i + self.consumed() + 1) as usize,
                    None => self.inputs.len() as usize,
                },
            ),
        }
    }
}

/// A fixed sequence of events and a cursor that counts how many of them were
/// handed out.
pub struct FuzzData {
    last_index_id: Option<usize>,
    fuzz_inputs: Vec<FuzzInput>,
}

impl View for FuzzData {
    type V = LogView;

    closed spec fn view(&self) -> LogView {
        LogView { inputs: self.fuzz_inputs@, cursor: self.last_index_id }
    }
}

impl FuzzData {
    /// A log over `fuzz_inputs` with the cursor unset.
    pub fn new(fuzz_inputs: Vec<FuzzInput>) -> (r: Self)
        ensures
            r@ == (LogView { inputs: fuzz_inputs@, cursor: None }),
    {
        Self { last_index_id: None, fuzz_inputs }
    }

    /// The cursor as it stands.
    pub fn last_index_id(&self) -> (r: Option<usize>)
        ensures
            r == self@.cursor,
    {
        self.last_index_id
    }

    /// The events of a log are no more than an index can count.
    pub proof fn lemma_len_fits(&self)
        ensures
            self@.inputs.len() <= usize::MAX,
    {
        assert(self.fuzz_inputs.len() == self.fuzz_inputs@.len());
    }

    /// The number of events in the log.
    pub fn len(&self) -> (r: usize)
        ensures
            r == self@.inputs.len(),
    {
        self.fuzz_inputs.len()
    }

    /// The events after the cursor, in order. Calling it again without moving
    /// the cursor gives the same events again.
    pub fn iter_next(&self) -> (r: &[FuzzInput])
        ensures
            r@ == self@.pending(),
    {
        let skip_count: usize = match self.last_index_id {
            Some(v) => v,
            None => 0,
        };
        let len: usize = self.fuzz_inputs.len();
        let from: usize = if skip_count <= len {
            skip_count
        } else {
            len
        };
        let r = slice_subrange(self.fuzz_inputs.as_slice(), from, len);
        assert(r@ =~= self@.pending());
        r
    }

    /// Moves the cursor past a consumed batch. `Some(i)` says that the batch
    /// ended with the event at index `i` of what `iter_next` gave; `None`
    /// says that the batch ran to the end of the log.
    pub fn set_last_idx(&mut self, last_idx: Option<usize>)
        requires
            last_idx matches Some(i) ==> i + old(self)@.consumed() + 1 <= usize::MAX,
        ensures
            final(self)@ == old(self)@.advance(last_idx),
    {
        match last_idx {
            Some(i) => {
                let before: usize = match self.last_index_id {
                    Some(v) => v,
                    None => 0,
                };
                self.last_index_id = Some(i + before + 1);
            },
            None => {
                self.last_index_id = Some(self.fuzz_inputs.len());
            },
        }
    }

    /// Whether a batch was consumed and no event is left after the cursor.
    pub fn is_finished(&self) -> (r: bool)
        ensures
            r == self@.finished(),
    {
        match self.last_index_id {
            Some(last_index_id) => last_index_id >= self.fuzz_inputs.len(),
            None => false,
        }
    }
}

/// Consuming a batch moves the cursor strictly forward: always where the
/// batch ended at an event, and where it ran to the end as long as events
/// were pending.
pub proof fn lemma_cursor_increases(log: LogView, last_idx: Option<usize>)
    requires
        match last_idx {
            Some(i) => i + log.consumed() + 1 <= usize::MAX,
            None => log.consumed() < log.inputs.len() <= usize::MAX,
        },
    ensures
        log.advance(last_idx).consumed() > log.consumed(),
        log.advance(last_idx).inputs == log.inputs,
{
}

/// Once a batch was consumed, the log is finished exactly when the consumed
/// events are as many as the log holds, or more.
pub proof fn lemma_finished_at_length(log: LogView, last_idx: Option<usize>)
    ensures
        log.advance(last_idx).finished() <==> log.advance(last_idx).consumed()
            >= log.inputs.len(),
        log.advance(last_idx).finished() ==> log.advance(last_idx).pending().len() == 0,
        !(LogView { inputs: log.inputs, cursor: None }).finished(),
{
}

/// A batch that ends at a pending event leaves the cursor within the log,
/// and the events after that one pending.
pub proof fn lemma_advance_within(log: LogView, i: usize)
    requires
        i < log.pending().len(),
        log.inputs.len() <= usize::MAX,
    ensures
        log.advance(Some(i)).consumed() == log.consumed() + i + 1,
        log.advance(Some(i)).consumed() <= log.inputs.len(),
        log.advance(Some(i)).pending() == log.pending().skip(i + 1),
{
    assert(log.advance(Some(i)).pending() =~= log.pending().skip(i + 1));
}

} // verus!
