//! Event sequencer: stamps every outgoing event with a monotonically
//! increasing sequence number and an event id of the form
//! `evt_<response_id>_<16 hex digits>`, unique within the response.

use vstd::prelude::*;

use crate::models::StreamEvent;
use crate::text::{chars_of, hex_of, lemma_hex_of_injective, push_all, string_from_chars, u64_to_hex16};

verus! {

/// `a + 1`, stopping at the largest `u64`.
pub open spec fn sat_add_u64(a: u64) -> u64 {
    if a < u64::MAX {
        (a + 1) as u64
    } else {
        u64::MAX
    }
}

/// `a + 1`, stopping at the largest `u32`.
pub open spec fn sat_add_u32(a: u32) -> u32 {
    if a < u32::MAX {
        (a + 1) as u32
    } else {
        u32::MAX
    }
}

/// The event id stamped for counter value `n` of response `rid`:
/// `evt_<rid>_<n as 16 hex digits>`.
pub open spec fn event_id_of(rid: Seq<char>, n: u64) -> Seq<char> {
    "evt_"@ + rid + "_"@ + hex_of(n as nat, 16)
}

/// Event ids of one response with different counters differ.
pub proof fn lemma_event_id_injective(rid: Seq<char>, n1: u64, n2: u64)
    requires
        n1 != n2,
    ensures
        event_id_of(rid, n1) != event_id_of(rid, n2),
{
    let a = event_id_of(rid, n1);
    let b = event_id_of(rid, n2);
    crate::text::lemma_hex_of_digits(n1 as nat, 16);
    crate::text::lemma_hex_of_digits(n2 as nat, 16);
    if a == b {
        assert(a.len() == b.len());
        let pre = "evt_"@ + rid + "_"@;
        let p = pre.len() as int;
        assert(a == pre + hex_of(n1 as nat, 16));
        assert(b == pre + hex_of(n2 as nat, 16));
        assert forall|i: int| 0 <= i < 16 implies hex_of(n1 as nat, 16)[i] == hex_of(
            n2 as nat,
            16,
        )[i] by {
            assert((pre + hex_of(n1 as nat, 16))[p + i] == hex_of(n1 as nat, 16)[i]);
            assert((pre + hex_of(n2 as nat, 16))[p + i] == hex_of(n2 as nat, 16)[i]);
        }
        assert(hex_of(n1 as nat, 16) =~= hex_of(n2 as nat, 16));
        assert((n1 as nat) < vstd::arithmetic::power::pow(16, 16) && (n2 as nat)
            < vstd::arithmetic::power::pow(16, 16)) by {
            assert(vstd::arithmetic::power::pow(16, 16) == 0x1_0000_0000_0000_0000) by {
                reveal_with_fuel(vstd::arithmetic::power::pow, 17);
            }
        }
        lemma_hex_of_injective(n1 as nat, n2 as nat, 16);
        assert(false);
    }
}

/// Assigns monotonic event and sequence identifiers to outgoing events.
#[derive(Debug)]
pub struct EventSequencer {
    /// The counter behind the hexadecimal part of the next event id.
    pub next_event_id: u64,
    /// The next sequence number.
    pub next_sequence: u32,
}

impl EventSequencer {
    /// A sequencer whose first event gets counter 1 and sequence 1.
    pub fn new() -> (r: Self)
        ensures
            r.next_event_id == 0,
            r.next_sequence == 0,
    {
        EventSequencer { next_event_id: 0, next_sequence: 0 }
    }

    /// Advance both counters (stopping at their largest values) and stamp
    /// the event with its id, the response id and its sequence number; all
    /// other fields of the event are left as they were.
    pub fn prepare(&mut self, event: StreamEvent, response_id: &str) -> (r: (StreamEvent, u32))
        ensures
            final(self).next_event_id == sat_add_u64(old(self).next_event_id),
            final(self).next_sequence == sat_add_u32(old(self).next_sequence),
            r.1 == final(self).next_sequence,
            r.0.event_id matches Some(id) && id@ == event_id_of(
                response_id@,
                final(self).next_event_id,
            ),
            r.0.response_id matches Some(rid) && rid@ == response_id@,
            r.0.sequence_number == Some(r.1),
            r.0.type_ == event.type_,
            r.0.response == event.response,
            r.0.item_id == event.item_id,
            r.0.output_index == event.output_index,
            r.0.content_index == event.content_index,
            r.0.delta == event.delta,
            r.0.text == event.text,
            r.0.item == event.item,
            r.0.call_id == event.call_id,
            r.0.name == event.name,
            r.0.arguments == event.arguments,
            r.0.error == event.error,
    {
        let mut event = event;
        self.next_event_id = if self.next_event_id < u64::MAX {
            self.next_event_id + 1
        } else {
            u64::MAX
        };
        self.next_sequence = if self.next_sequence < u32::MAX {
            self.next_sequence + 1
        } else {
            u32::MAX
        };
        let mut id_chars = chars_of("evt_");
        push_all(&mut id_chars, &chars_of(response_id));
        push_all(&mut id_chars, &chars_of("_"));
        push_all(&mut id_chars, &u64_to_hex16(self.next_event_id));
        let event_id = string_from_chars(&id_chars);
        proof {
            assert(event_id@ =~= event_id_of(response_id@, self.next_event_id));
        }
        event.event_id = Some(event_id);
        event.response_id = Some(response_id.to_owned());
        event.sequence_number = Some(self.next_sequence);
        let sequence = self.next_sequence;
        (event, sequence)
    }
}

} // verus!
