//! Note identities, note messages, and note names.

use vstd::prelude::*;
use vstd::string::StringSliceAdditionalSpecFns;

verus! {

/// Identity of one note. Identities come from an [`IdCounter`] and are never reused by it.
#[derive(Clone, Copy, PartialEq, Eq, Structural)]
pub struct Id(pub u64);

impl Id {
    pub fn num(&self) -> (r: u64)
        ensures
            r == self.0,
    {
        self.0
    }

    /// Mints the next identity from `counter`.
    pub fn new(counter: &mut IdCounter) -> (r: Id)
        requires
            old(counter).last() < u64::MAX,
        ensures
            final(counter).last() == old(counter).last() + 1,
            r.0 == final(counter).last(),
    {
        counter.next_id()
    }
}

/// The source of note identities: a counter that only moves up.
pub struct IdCounter {
    last: u64,
}

impl IdCounter {
    /// The most recently minted identity, 0 before the first.
    pub closed spec fn last(&self) -> u64 {
        self.last
    }

    pub fn new() -> (r: IdCounter)
        ensures
            r.last() == 0,
    {
        IdCounter { last: 0 }
    }

    pub fn last_id(&self) -> (r: u64)
        ensures
            r == self.last(),
    {
        self.last
    }

    pub fn next_id(&mut self) -> (r: Id)
        requires
            old(self).last() < u64::MAX,
        ensures
            final(self).last() == old(self).last() + 1,
            r.0 == final(self).last(),
    {
        self.last = self.last + 1;
        Id(self.last)
    }
}

/// What a note message does. Frequencies and pressures are carried as the bit
/// patterns of their `f32` values (`f32::to_bits`), so the scheduler moves them
/// around without reading them.
#[derive(Clone, Copy, PartialEq, Eq, Structural)]
pub enum Event {
    NoteOn { pitch: u32, pressure: u32 },
    NoteOff,
    Pitch(u32),
    Pressure(u32),
    Other(u32, u32),
}

/// One note-affecting instruction, at a sample offset within a block.
#[derive(Clone, Copy, PartialEq, Eq, Structural)]
pub struct NoteMessage {
    pub id: Id,
    pub offset: usize,
    pub note: Event,
}

/// Semitone of a natural note letter above C, for the ASCII letters `C D E F G A B`.
pub open spec fn letter_semitone(c: u8) -> Option<int> {
    if c == 67u8 {
        Some(0)
    } else if c == 68u8 {
        Some(2)
    } else if c == 69u8 {
        Some(4)
    } else if c == 70u8 {
        Some(5)
    } else if c == 71u8 {
        Some(7)
    } else if c == 65u8 {
        Some(9)
    } else if c == 66u8 {
        Some(11)
    } else {
        None
    }
}

pub open spec fn is_digit(c: u8) -> bool {
    48u8 <= c <= 57u8
}

/// The note number of a name `<letter>[#]<octave>` from `C0` to `B9`, with sharps
/// only on letters that have one (not `E#` or `B#`). `C0` is 12, and each semitone
/// adds one.
pub open spec fn note_number(b: Seq<u8>) -> Option<u32> {
    if b.len() == 2 && letter_semitone(b[0]).is_some() && is_digit(b[1]) {
        Some((12 + 12 * (b[1] - 48) + letter_semitone(b[0]).unwrap()) as u32)
    } else if b.len() == 3 && letter_semitone(b[0]).is_some() && b[0] != 69u8 && b[0] != 66u8
        && b[1] == 35u8 && is_digit(b[2]) {
        Some((12 + 12 * (b[2] - 48) + letter_semitone(b[0]).unwrap() + 1) as u32)
    } else {
        None
    }
}

fn semitone_of(c: u8) -> (r: Option<u32>)
    ensures
        match letter_semitone(c) {
            Some(s) => r == Some(s as u32),
            None => r.is_none(),
        },
{
    if c == 67u8 {
        Some(0)
    } else if c == 68u8 {
        Some(2)
    } else if c == 69u8 {
        Some(4)
    } else if c == 70u8 {
        Some(5)
    } else if c == 71u8 {
        Some(7)
    } else if c == 65u8 {
        Some(9)
    } else if c == 66u8 {
        Some(11)
    } else {
        None
    }
}

/// The note number of a note name such as `"A4"` (69) or `"C#0"` (13).
pub fn name_to_num(name: &str) -> (r: Option<u32>)
    ensures
        r == note_number(name.spec_bytes()),
{
    let b = name.as_bytes();
    let n = b.len();
    if n != 2 && n != 3 {
        return None;
    }
    let semitone = match semitone_of(b[0]) {
        Some(s) => s,
        None => {
            return None;
        },
    };
    let digit = b[n - 1];
    if digit < 48u8 || digit > 57u8 {
        return None;
    }
    let octave = (digit - 48u8) as u32;
    if n == 2 {
        Some(12 + 12 * octave + semitone)
    } else if b[1] == 35u8 && b[0] != 69u8 && b[0] != 66u8 {
        Some(12 + 12 * octave + semitone + 1)
    } else {
        None
    }
}

} // verus!
