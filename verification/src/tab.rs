//! Mapping from MIDI note numbers to harmonica tablature symbols, relative to
//! a selectable instrument key.

use vstd::prelude::*;

use crate::text::str_eq;

verus! {

/// One of the sixteen supported instrument tunings. Each key carries a fixed
/// semitone offset relative to the key of C.
#[derive(Clone, Copy, PartialEq, Eq, Structural, Debug)]
pub enum Key {
    C,
    G,
    D,
    A,
    E,
    B,
    Fs,
    Db,
    Ab,
    Eb,
    Bb,
    F,
    LF,
    LC,
    LD,
    HG,
}

impl Key {
    /// Semitone offset of this key relative to the key of C.
    pub open spec fn spec_offset(self) -> int {
        match self {
            Key::C => 0,
            Key::G => -5,
            Key::D => 2,
            Key::A => -3,
            Key::E => 4,
            Key::B => -1,
            Key::Fs => 6,
            Key::Db => 1,
            Key::Ab => -4,
            Key::Eb => 3,
            Key::Bb => -2,
            Key::F => 5,
            Key::LF => -7,
            Key::LC => -12,
            Key::LD => -10,
            Key::HG => 7,
        }
    }

    /// Semitone offset of this key relative to the key of C.
    pub fn offset(self) -> (r: i8)
        ensures
            r as int == self.spec_offset(),
    {
        match self {
            Key::C => 0,
            Key::G => -5,
            Key::D => 2,
            Key::A => -3,
            Key::E => 4,
            Key::B => -1,
            Key::Fs => 6,
            Key::Db => 1,
            Key::Ab => -4,
            Key::Eb => 3,
            Key::Bb => -2,
            Key::F => 5,
            Key::LF => -7,
            Key::LC => -12,
            Key::LD => -10,
            Key::HG => 7,
        }
    }
}

/// The key a configured name stands for; an unknown name stands for none.
pub open spec fn spec_key_from_name(s: Seq<char>) -> Option<Key> {
    if s == "C"@ {
        Some(Key::C)
    } else if s == "G"@ {
        Some(Key::G)
    } else if s == "D"@ {
        Some(Key::D)
    } else if s == "A"@ {
        Some(Key::A)
    } else if s == "E"@ {
        Some(Key::E)
    } else if s == "B"@ {
        Some(Key::B)
    } else if s == "F#"@ {
        Some(Key::Fs)
    } else if s == "Db"@ {
        Some(Key::Db)
    } else if s == "Ab"@ {
        Some(Key::Ab)
    } else if s == "Eb"@ {
        Some(Key::Eb)
    } else if s == "Bb"@ {
        Some(Key::Bb)
    } else if s == "F"@ {
        Some(Key::F)
    } else if s == "LF"@ {
        Some(Key::LF)
    } else if s == "LC"@ {
        Some(Key::LC)
    } else if s == "LD"@ {
        Some(Key::LD)
    } else if s == "HG"@ {
        Some(Key::HG)
    } else {
        None
    }
}

impl Key {
    /// Parse a configured key name. An unknown name is a configuration
    /// error, detected here before a session starts.
    pub fn from_name(name: &str) -> (r: Option<Key>)
        ensures
            r == spec_key_from_name(name@),
    {
        if str_eq(name, "C") {
            Some(Key::C)
        } else if str_eq(name, "G") {
            Some(Key::G)
        } else if str_eq(name, "D") {
            Some(Key::D)
        } else if str_eq(name, "A") {
            Some(Key::A)
        } else if str_eq(name, "E") {
            Some(Key::E)
        } else if str_eq(name, "B") {
            Some(Key::B)
        } else if str_eq(name, "F#") {
            Some(Key::Fs)
        } else if str_eq(name, "Db") {
            Some(Key::Db)
        } else if str_eq(name, "Ab") {
            Some(Key::Ab)
        } else if str_eq(name, "Eb") {
            Some(Key::Eb)
        } else if str_eq(name, "Bb") {
            Some(Key::Bb)
        } else if str_eq(name, "F") {
            Some(Key::F)
        } else if str_eq(name, "LF") {
            Some(Key::LF)
        } else if str_eq(name, "LC") {
            Some(Key::LC)
        } else if str_eq(name, "LD") {
            Some(Key::LD)
        } else if str_eq(name, "HG") {
            Some(Key::HG)
        } else {
            None
        }
    }
}

/// The fixed table of 36 tablature symbols, indexed by scale degree above MIDI
/// note 60 in the key of C. Indices outside [0, 35] map to the empty string,
/// meaning "no playable note at this position".
pub open spec fn spec_tab_entry(index: int) -> Seq<char> {
    if index == 0 {
        "1"@
    } else if index == 1 {
        "-1'"@
    } else if index == 2 {
        "-1"@
    } else if index == 3 {
        "1o"@
    } else if index == 4 {
        "2"@
    } else if index == 5 {
        "-2''"@
    } else if index == 6 {
        "-2'"@
    } else if index == 7 {
        "-2"@
    } else if index == 8 {
        "-3'''"@
    } else if index == 9 {
        "-3''"@
    } else if index == 10 {
        "-3'"@
    } else if index == 11 {
        "-3"@
    } else if index == 12 {
        "4"@
    } else if index == 13 {
        "-4'"@
    } else if index == 14 {
        "-4"@
    } else if index == 15 {
        "4o"@
    } else if index == 16 {
        "5"@
    } else if index == 17 {
        "-5"@
    } else if index == 18 {
        "5o"@
    } else if index == 19 {
        "6"@
    } else if index == 20 {
        "-6'"@
    } else if index == 21 {
        "-6"@
    } else if index == 22 {
        "6o"@
    } else if index == 23 {
        "-7"@
    } else if index == 24 {
        "7"@
    } else if index == 25 {
        "-7o"@
    } else if index == 26 {
        "-8"@
    } else if index == 27 {
        "8'"@
    } else if index == 28 {
        "8"@
    } else if index == 29 {
        "-9"@
    } else if index == 30 {
        "9'"@
    } else if index == 31 {
        "9"@
    } else if index == 32 {
        "-9o"@
    } else if index == 33 {
        "-10"@
    } else if index == 34 {
        "10''"@
    } else if index == 35 {
        "10'"@
    } else {
        ""@
    }
}

/// The tablature symbol for a MIDI note under a key: the table entry at
/// `midi - 60 - offset(key)`, or the empty string when that index is outside
/// the table.
pub open spec fn spec_midi_to_tab(midi: int, key: Key) -> Seq<char> {
    spec_tab_entry(midi - 60 - key.spec_offset())
}

/// Turn a MIDI note number into the tablature symbol for the given key.
/// Notes outside the instrument's range yield the empty string.
pub fn midi_to_tab(midi: u8, key: Key) -> (r: &'static str)
    ensures
        r@ == spec_midi_to_tab(midi as int, key),
{
    let offset = key.offset();
    let index: i32 = midi as i32 - 60 - offset as i32;
    if index < 0 || index > 35 {
        return "";
    }
    match index {
        0 => "1",
        1 => "-1'",
        2 => "-1",
        3 => "1o",
        4 => "2",
        5 => "-2''",
        6 => "-2'",
        7 => "-2",
        8 => "-3'''",
        9 => "-3''",
        10 => "-3'",
        11 => "-3",
        12 => "4",
        13 => "-4'",
        14 => "-4",
        15 => "4o",
        16 => "5",
        17 => "-5",
        18 => "5o",
        19 => "6",
        20 => "-6'",
        21 => "-6",
        22 => "6o",
        23 => "-7",
        24 => "7",
        25 => "-7o",
        26 => "-8",
        27 => "8'",
        28 => "8",
        29 => "-9",
        30 => "9'",
        31 => "9",
        32 => "-9o",
        33 => "-10",
        34 => "10''",
        _ => "10'",
    }
}

/// Key-offset consistency: shifting a note by the difference of two keys'
/// offsets lands on the same tablature symbol, because the table index
/// `midi - 60 - offset` is unchanged.
pub proof fn lemma_key_offset_consistency(midi: int, k1: Key, k2: Key)
    ensures
        spec_midi_to_tab(midi, k1) == spec_midi_to_tab(
            midi + k2.spec_offset() - k1.spec_offset(),
            k2,
        ),
{
}

} // verus!
