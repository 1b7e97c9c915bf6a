//! The schedule synthesizer: category, channel, callsign, timeslot and day of
//! week, each a pure function of the item's metadata.

use vstd::prelude::*;
use vstd::string::StringSliceAdditionalSpecFns;
use crate::text::{chars_of, first_word, first_word_of, owned, parse_unsigned, parse_unsigned_spec};

verus! {

/// The sum of the bytes of `b`, taken modulo `m` after every addition.
pub open spec fn wrapping_byte_sum(b: Seq<u8>, m: nat) -> nat
    decreases b.len(),
{
    if b.len() == 0 {
        0
    } else {
        let sum: int = wrapping_byte_sum(b.drop_last(), m) + b.last();
        let modulus: int = m as int;
        (sum % modulus) as nat
    }
}

/// The byte sum kept in an 8-bit accumulator.
pub open spec fn hash8(b: Seq<u8>) -> nat {
    wrapping_byte_sum(b, 0x100)
}

/// The byte sum kept in a 32-bit accumulator.
pub open spec fn hash32(b: Seq<u8>) -> nat {
    wrapping_byte_sum(b, 0x1_0000_0000)
}

/// Adds the bytes of `s` into an 8-bit accumulator that wraps on overflow.
pub fn byte_hash8(s: &str) -> (h: u8)
    ensures
        h == hash8(s.spec_bytes()),
{
    let b = s.as_bytes();
    let mut h: u8 = 0;
    let mut i: usize = 0;
    while i < b.len()
        invariant
            i <= b@.len(),
            b@ == s.spec_bytes(),
            h == hash8(b@.take(i as int)),
        decreases b.len() - i,
    {
        assert(b@.take(i + 1).drop_last() =~= b@.take(i as int));
        h = h.wrapping_add(b[i]);
        i = i + 1;
    }
    assert(b@.take(b@.len() as int) =~= b@);
    h
}

/// Adds the bytes of `s` into a 32-bit accumulator that wraps on overflow.
pub fn byte_hash32(s: &str) -> (h: u32)
    ensures
        h == hash32(s.spec_bytes()),
{
    let b = s.as_bytes();
    let mut h: u32 = 0;
    let mut i: usize = 0;
    while i < b.len()
        invariant
            i <= b@.len(),
            b@ == s.spec_bytes(),
            h == hash32(b@.take(i as int)),
        decreases b.len() - i,
    {
        assert(b@.take(i + 1).drop_last() =~= b@.take(i as int));
        h = h.wrapping_add(b[i] as u32);
        i = i + 1;
    }
    assert(b@.take(b@.len() as int) =~= b@);
    h
}

/// The day names, Monday first.
pub open spec fn day_name(i: nat) -> Seq<char> {
    if i == 0 {
        "Monday"@
    } else if i == 1 {
        "Tuesday"@
    } else if i == 2 {
        "Wednesday"@
    } else if i == 3 {
        "Thursday"@
    } else if i == 4 {
        "Friday"@
    } else if i == 5 {
        "Saturday"@
    } else {
        "Sunday"@
    }
}

/// The day on which the item with these identifier bytes is scheduled.
pub open spec fn day_of_week_spec(id: Seq<u8>) -> Seq<char> {
    day_name(hash32(id) % 7)
}

/// Picks the day of the week for an item from the byte sum of its identifier.
pub fn determine_day_of_week(item_id: &str) -> (r: String)
    ensures
        r@ == day_of_week_spec(item_id.spec_bytes()),
{
    let h = byte_hash32(item_id);
    let index = h % 7;
    if index == 0 {
        owned("Monday")
    } else if index == 1 {
        owned("Tuesday")
    } else if index == 2 {
        owned("Wednesday")
    } else if index == 3 {
        owned("Thursday")
    } else if index == 4 {
        owned("Friday")
    } else if index == 5 {
        owned("Saturday")
    } else {
        owned("Sunday")
    }
}

/// The evening grid, from 6:00 PM to 10:30 PM in half-hour steps.
pub open spec fn slot_label(i: nat) -> Seq<char> {
    if i == 0 {
        "6:00 PM"@
    } else if i == 1 {
        "6:30 PM"@
    } else if i == 2 {
        "7:00 PM"@
    } else if i == 3 {
        "7:30 PM"@
    } else if i == 4 {
        "8:00 PM"@
    } else if i == 5 {
        "8:30 PM"@
    } else if i == 6 {
        "9:00 PM"@
    } else if i == 7 {
        "9:30 PM"@
    } else if i == 8 {
        "10:00 PM"@
    } else {
        "10:30 PM"@
    }
}

/// The number of entries in the evening grid.
pub const SLOT_COUNT: usize = 10;

/// The label of entry `i` of the evening grid.
pub fn slot_label_at(i: usize) -> (r: String)
    requires
        i < SLOT_COUNT,
    ensures
        r@ == slot_label(i as nat),
{
    if i == 0 {
        owned("6:00 PM")
    } else if i == 1 {
        owned("6:30 PM")
    } else if i == 2 {
        owned("7:00 PM")
    } else if i == 3 {
        owned("7:30 PM")
    } else if i == 4 {
        owned("8:00 PM")
    } else if i == 5 {
        owned("8:30 PM")
    } else if i == 6 {
        owned("9:00 PM")
    } else if i == 7 {
        owned("9:30 PM")
    } else if i == 8 {
        owned("10:00 PM")
    } else {
        owned("10:30 PM")
    }
}

/// The running time in minutes that a duration string gives: its first word
/// read as an unsigned number, or thirty when that word is no number.
pub open spec fn duration_minutes(duration: Seq<char>) -> nat {
    match parse_unsigned_spec(first_word(duration)) {
        Some(m) => m as nat,
        None => 30,
    }
}

/// The broadcast block that a running time occupies, in minutes.
pub open spec fn block_minutes(minutes: nat) -> nat {
    if minutes <= 30 {
        30
    } else if minutes <= 60 {
        60
    } else if minutes <= 90 {
        90
    } else {
        120
    }
}

/// The grid entry at which the program starts.
pub open spec fn start_slot(minutes: nat, id: Seq<u8>) -> nat {
    hash32(id) % ((SLOT_COUNT as nat - block_minutes(minutes) / 30) as nat)
}

/// The grid entry at which the program ends, never past the last one.
pub open spec fn end_slot(minutes: nat, id: Seq<u8>) -> nat {
    let e = start_slot(minutes, id) + block_minutes(minutes) / 30;
    if e >= SLOT_COUNT {
        (SLOT_COUNT - 1) as nat
    } else {
        e
    }
}

/// Reads the running time in minutes from a duration string.
pub fn parse_duration_minutes(duration: &str) -> (r: u64)
    ensures
        r == duration_minutes(duration@),
{
    let chars = chars_of(duration);
    let word = first_word_of(&chars);
    match parse_unsigned(&word) {
        Some(m) => m,
        None => 30,
    }
}

/// The start and end labels of the program, chosen from the evening grid by
/// its running time and the byte sum of its identifier.
pub fn calculate_program_times(duration: &str, item_id: &str) -> (r: (String, String))
    ensures
        r.0@ == slot_label(start_slot(duration_minutes(duration@), item_id.spec_bytes())),
        r.1@ == slot_label(end_slot(duration_minutes(duration@), item_id.spec_bytes())),
{
    let minutes = parse_duration_minutes(duration);
    let block: usize = if minutes <= 30 {
        30
    } else if minutes <= 60 {
        60
    } else if minutes <= 90 {
        90
    } else {
        120
    };
    let max_index = SLOT_COUNT - block / 30;
    let h = byte_hash32(item_id);
    let start = (h as usize) % max_index;
    let end = start + block / 30;
    let end = if end >= SLOT_COUNT {
        SLOT_COUNT - 1
    } else {
        end
    };
    (slot_label_at(start), slot_label_at(end))
}

/// The plain sum of the bytes of `b`.
pub open spec fn byte_total(b: Seq<u8>) -> nat
    decreases b.len(),
{
    if b.len() == 0 {
        0
    } else {
        byte_total(b.drop_last()) + b.last() as nat
    }
}

/// Wrapping after every addition gives the plain sum reduced once, for any
/// accumulator at least a byte wide.
pub proof fn lemma_wrapping_sum_is_sum_mod(b: Seq<u8>, m: nat)
    requires
        m >= 256,
    ensures
        wrapping_byte_sum(b, m) == byte_total(b) % m,
    decreases b.len(),
{
    if b.len() > 0 {
        lemma_wrapping_sum_is_sum_mod(b.drop_last(), m);
        let t = byte_total(b.drop_last()) as int;
        let l = b.last() as int;
        vstd::arithmetic::div_mod::lemma_add_mod_noop(t, l, m as int);
        vstd::arithmetic::div_mod::lemma_small_mod(l as nat, m);
        assert(wrapping_byte_sum(b.drop_last(), m) == t % (m as int));
        assert(wrapping_byte_sum(b, m) == ((t % (m as int)) + l) % (m as int));
        assert(byte_total(b) == t + l);
        assert(((t % (m as int)) + (l % (m as int))) % (m as int) == (t + l) % (m as int));
        assert(l % (m as int) == l);
    } else {
        vstd::arithmetic::div_mod::lemma_small_mod(0, m);
    }
}

/// The schedule of an item depends on nothing but the bytes of its
/// identifier and its running time: the day is the byte sum modulo 2^32,
/// then modulo 7, and the start slot is that sum modulo the number of slots
/// that leave room for the program. Identical inputs give identical output.
pub proof fn lemma_schedule_is_deterministic(id: Seq<u8>, other: Seq<u8>, minutes: nat)
    requires
        id == other,
    ensures
        day_of_week_spec(id) == day_name((byte_total(id) % 0x1_0000_0000) % 7),
        start_slot(minutes, id) == (byte_total(id) % 0x1_0000_0000) % ((SLOT_COUNT as nat
            - block_minutes(minutes) / 30) as nat),
        end_slot(minutes, id) == start_slot(minutes, id) + block_minutes(minutes) / 30,
        end_slot(minutes, id) < SLOT_COUNT,
        day_of_week_spec(id) == day_of_week_spec(other),
        start_slot(minutes, id) == start_slot(minutes, other),
        end_slot(minutes, id) == end_slot(minutes, other),
{
    lemma_wrapping_sum_is_sum_mod(id, 0x1_0000_0000);
}

} // verus!
