//! The diagnostics ring: control sequences the emulator did not recognize,
//! kept in a bounded buffer with a count of entries dropped for capacity.

use vstd::prelude::*;

use crate::text::{chars_to_string, push_hex2, spec_hex2};

verus! {

/// Entry in the unhandled escape sequence debug buffer.
#[derive(Debug)]
pub struct UnhandledSequence {
    pub sequence: String,
    pub raw_hex: String,
}

/// The mathematical content of one entry.
#[verifier::ext_equal]
pub struct UnhandledModel {
    pub sequence: Seq<char>,
    pub raw_hex: Seq<char>,
}

impl View for UnhandledSequence {
    type V = UnhandledModel;

    open spec fn view(&self) -> UnhandledModel {
        UnhandledModel { sequence: self.sequence@, raw_hex: self.raw_hex@ }
    }
}

/// The hexadecimal rendering of a byte sequence, two lower-case digits per
/// byte.
pub open spec fn spec_hex_seq(raw: Seq<u8>) -> Seq<char>
    decreases raw.len(),
{
    if raw.len() == 0 {
        Seq::empty()
    } else {
        spec_hex_seq(raw.drop_last()) + spec_hex2(raw.last())
    }
}

/// The mathematical content of the ring.
#[verifier::ext_equal]
pub struct DebugModel {
    pub entries: Seq<UnhandledModel>,
    pub capacity: nat,
    pub dropped: nat,
}

/// A count bumped by one, stopping at the machine limit.
pub open spec fn spec_count_inc(n: nat) -> nat {
    if n < usize::MAX {
        n + 1
    } else {
        n
    }
}

/// What pushing an entry does to the ring: stored at the back; when the
/// ring is full the oldest entry leaves and the dropped count grows; a ring
/// of capacity zero stores nothing and only counts.
pub open spec fn spec_debug_push(d: DebugModel, sequence: Seq<char>, raw: Seq<u8>) -> DebugModel {
    let e = UnhandledModel { sequence, raw_hex: spec_hex_seq(raw) };
    if d.capacity == 0 {
        DebugModel { dropped: spec_count_inc(d.dropped), ..d }
    } else if d.entries.len() >= d.capacity {
        DebugModel {
            entries: d.entries.drop_first().push(e),
            dropped: spec_count_inc(d.dropped),
            ..d
        }
    } else {
        DebugModel { entries: d.entries.push(e), ..d }
    }
}

/// Ring buffer of recently received control sequences that the emulator
/// did not recognize.
pub struct DebugBuffer {
    entries: Vec<UnhandledSequence>,
    capacity: usize,
    dropped: usize,
}

impl View for DebugBuffer {
    type V = DebugModel;

    closed spec fn view(&self) -> DebugModel {
        DebugModel {
            entries: Seq::new(self.entries@.len(), |i: int| self.entries@[i]@),
            capacity: self.capacity as nat,
            dropped: self.dropped as nat,
        }
    }
}

impl DebugBuffer {
    /// An empty ring that can hold up to `capacity` entries.
    pub fn new(capacity: usize) -> (r: DebugBuffer)
        ensures
            r@.entries == Seq::<UnhandledModel>::empty(),
            r@.capacity == capacity as nat,
            r@.dropped == 0,
    {
        let r = DebugBuffer { entries: Vec::new(), capacity, dropped: 0 };
        proof {
            assert(r@.entries =~= Seq::<UnhandledModel>::empty());
        }
        r
    }

    /// Record one unrecognized sequence, with its raw bytes rendered in
    /// hexadecimal.
    pub fn push(&mut self, sequence: String, raw_bytes: &[u8])
        ensures
            final(self)@ == spec_debug_push(old(self)@, sequence@, raw_bytes@),
    {
        let ghost gseq: Seq<char> = sequence@;
        let mut hex: Vec<char> = Vec::new();
        let mut i: usize = 0;
        let n = raw_bytes.len();
        while i < n
            invariant
                i <= n,
                n == raw_bytes@.len(),
                hex@ == spec_hex_seq(raw_bytes@.subrange(0, i as int)),
            decreases n - i,
        {
            let b = raw_bytes[i];
            push_hex2(&mut hex, b);
            i += 1;
            proof {
                let pre = raw_bytes@.subrange(0, i - 1);
                let now = raw_bytes@.subrange(0, i as int);
                assert(now.drop_last() =~= pre);
                assert(now.last() == b);
            }
        }
        proof {
            assert(raw_bytes@.subrange(0, raw_bytes@.len() as int) =~= raw_bytes@);
        }
        let raw_hex = chars_to_string(&hex);
        let entry = UnhandledSequence { sequence, raw_hex };

        if self.capacity == 0 {
            self.dropped = self.dropped.saturating_add(1);
            proof {
                assert(self@ =~~= spec_debug_push(old(self)@, gseq, raw_bytes@));
            }
        } else if self.entries.len() >= self.capacity {
            self.entries.remove(0);
            self.dropped = self.dropped.saturating_add(1);
            self.entries.push(entry);
            proof {
                assert(self@.entries =~~= spec_debug_push(old(self)@, gseq, raw_bytes@).entries);
                assert(self@ =~~= spec_debug_push(old(self)@, gseq, raw_bytes@));
            }
        } else {
            self.entries.push(entry);
            proof {
                assert(self@.entries =~~= spec_debug_push(old(self)@, gseq, raw_bytes@).entries);
                assert(self@ =~~= spec_debug_push(old(self)@, gseq, raw_bytes@));
            }
        }
    }

    /// Forget all entries and reset the dropped count.
    pub fn clear(&mut self)
        ensures
            final(self)@.entries == Seq::<UnhandledModel>::empty(),
            final(self)@.dropped == 0,
            final(self)@.capacity == old(self)@.capacity,
    {
        self.entries.clear();
        self.dropped = 0;
        proof {
            assert(self@.entries =~= Seq::<UnhandledModel>::empty());
        }
    }

    /// A copy of the recorded entries, oldest first.
    pub fn get_entries(&self) -> (r: Vec<UnhandledSequence>)
        ensures
            r@.len() == self@.entries.len(),
            forall|i: int| 0 <= i < r@.len() ==> (#[trigger] r@[i])@ == self@.entries[i],
    {
        let mut r: Vec<UnhandledSequence> = Vec::new();
        let mut i: usize = 0;
        while i < self.entries.len()
            invariant
                i <= self.entries@.len(),
                r@.len() == i,
                forall|k: int| 0 <= k < i ==> (#[trigger] r@[k])@ == self@.entries[k],
            decreases self.entries@.len() - i,
        {
            let e = &self.entries[i];
            let seq_copy = clone_string(&e.sequence);
            let hex_copy = clone_string(&e.raw_hex);
            r.push(UnhandledSequence { sequence: seq_copy, raw_hex: hex_copy });
            i += 1;
        }
        r
    }

    /// How many entries have been dropped for capacity.
    pub fn get_dropped(&self) -> (r: usize)
        ensures
            r as nat == self@.dropped,
    {
        self.dropped
    }
}

/// A copy of a string with the same characters.
pub fn clone_string(s: &String) -> (r: String)
    ensures
        r@ == s@,
{
    s.clone()
}

} // verus!
