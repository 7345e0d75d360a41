//! The pitch primitive: a note indexed 0 through 35, with its name,
//! frequency, reciprocal and pitch coefficient.

use vstd::prelude::*;

verus! {

use crate::fixed::R64;

/// Number of notes the workstation knows.
pub const N_NOTES: u8 = 36;
/// Index of the highest note.
pub const MAX_NOTE: u8 = 35;
/// Index of the middle note; the pitch coefficient is one exactly there.
pub const MID_NOTE: u8 = 18;

/// A note, held as an index into the frequency and name tables.
///
/// Invariant: the index never exceeds [`MAX_NOTE`].
#[derive(Clone, Copy, Debug, PartialEq, Eq, Structural)]
pub struct Note(pub u8);

impl Note {
    /// The invariant every constructor establishes.
    pub open spec fn wf(self) -> bool {
        self.0 <= MAX_NOTE
    }

    /// The note of index `index`; defined exactly for `index <= 35`.
    pub fn new(index: u8) -> (r: Option<Note>)
        ensures
            r is Some <==> index <= MAX_NOTE,
            r is Some ==> (r->0).0 == index && (r->0).wf(),
    {
        if index <= MAX_NOTE {
            Some(Note(index))
        } else {
            None
        }
    }

    /// The note of index `index`, clamped to the highest note.
    pub fn saturated(index: u8) -> (r: Note)
        ensures
            r.wf(),
            r.0 == if index <= MAX_NOTE { index as int } else { MAX_NOTE as int },
    {
        if index <= MAX_NOTE {
            Note(index)
        } else {
            Note(MAX_NOTE)
        }
    }

    /// The note of index `index`, clamped to the highest note.
    pub fn from_index(index: usize) -> (r: Note)
        ensures
            r.wf(),
            r.0 == if index <= MAX_NOTE as int { index as int } else { MAX_NOTE as int },
    {
        if index <= MAX_NOTE as usize {
            Note(index as u8)
        } else {
            Note(MAX_NOTE)
        }
    }

    /// The middle note.
    pub fn mid() -> (r: Note)
        ensures
            r.wf(),
            r.0 == MID_NOTE,
    {
        Note(MID_NOTE)
    }

    /// The highest note.
    pub fn max_note() -> (r: Note)
        ensures
            r.wf(),
            r.0 == MAX_NOTE,
    {
        Note(MAX_NOTE)
    }

    pub fn index(&self) -> (r: usize)
        ensures
            r == self.0,
    {
        self.0 as usize
    }

    /// What [`Note::recip`] returns.
    pub open spec fn recip_spec(self) -> Note {
        Note((MAX_NOTE - self.0) as u8)
    }

    /// The note mirrored around the middle of the range: index `35 - i`.
    /// The vertical axis of the note editor grows downward, so a point's
    /// screen row and its pitch are reciprocals of each other.
    pub fn recip(self) -> (r: Note)
        requires
            self.wf(),
        ensures
            r == self.recip_spec(),
            r.wf(),
            r.0 == MAX_NOTE - self.0,
    {
        Note(MAX_NOTE - self.0)
    }

    /// Checked addition of a semitone count; defined exactly when the sum
    /// stays a valid note index.
    pub fn checked_add(self, rhs: i64) -> (r: Option<Note>)
        requires
            self.wf(),
        ensures
            r is Some <==> 0 <= self.0 + rhs <= MAX_NOTE,
            r is Some ==> (r->0).0 == self.0 + rhs && (r->0).wf(),
    {
        if rhs >= 0 {
            if rhs <= MAX_NOTE as i64 && self.0 as i64 + rhs <= MAX_NOTE as i64 {
                Some(Note(self.0 + rhs as u8))
            } else {
                None
            }
        } else {
            if rhs >= -(MAX_NOTE as i64) && self.0 as i64 + rhs >= 0 {
                Some(Note((self.0 as i64 + rhs) as u8))
            } else {
                None
            }
        }
    }

    /// Checked subtraction of a semitone count; defined exactly when the
    /// difference stays a valid note index.
    pub fn checked_sub(self, rhs: i64) -> (r: Option<Note>)
        requires
            self.wf(),
        ensures
            r is Some <==> 0 <= self.0 - rhs <= MAX_NOTE,
            r is Some ==> (r->0).0 == self.0 - rhs && (r->0).wf(),
    {
        if rhs >= -(MAX_NOTE as i64) && rhs <= MAX_NOTE as i64 {
            self.checked_add(-rhs)
        } else {
            None
        }
    }

    /// Distance down to another note; defined exactly when `rhs` is not higher.
    pub fn diff(self, rhs: Note) -> (r: Option<u8>)
        requires
            self.wf(),
            rhs.wf(),
        ensures
            r is Some <==> rhs.0 <= self.0,
            r is Some ==> r->0 == self.0 - rhs.0,
    {
        if rhs.0 <= self.0 {
            Some(self.0 - rhs.0)
        } else {
            None
        }
    }

    /// The note's frequency in hertz, as a fixed-point real.
    pub fn freq(&self) -> (r: R64)
        requires
            self.wf(),
        ensures
            r@ == freq_units(self.0 as int),
    {
        R64::from_units(match self.0 {
            0 => 65_410_000,
            1 => 69_300_000,
            2 => 73_420_000,
            3 => 77_780_000,
            4 => 82_410_000,
            5 => 87_310_000,
            6 => 92_500_000,
            7 => 98_000_000,
            8 => 103_830_000,
            9 => 110_000_000,
            10 => 116_540_000,
            11 => 123_470_000,
            12 => 130_810_000,
            13 => 138_590_000,
            14 => 146_830_000,
            15 => 155_560_000,
            16 => 164_810_000,
            17 => 174_610_000,
            18 => 185_000_000,
            19 => 196_000_000,
            20 => 207_650_000,
            21 => 220_000_000,
            22 => 233_080_000,
            23 => 246_940_000,
            24 => 261_630_000,
            25 => 277_180_000,
            26 => 293_660_000,
            27 => 311_130_000,
            28 => 329_630_000,
            29 => 349_230_000,
            30 => 369_990_000,
            31 => 392_000_000,
            32 => 415_300_000,
            33 => 440_000_000,
            34 => 466_160_000,
            _ => 493_880_000,
        })
    }

    /// The multiplicative pitch factor `2^((index - 18) / 12)`, rounded to
    /// fixed-point millionths. One octave above the middle note doubles the
    /// rate; one octave below halves it.
    pub fn pitch_coef(&self) -> (r: R64)
        requires
            self.wf(),
        ensures
            r@ == pitch_coef_units(self.0 as int),
            0 < r@,
    {
        R64::from_units(match self.0 {
            0 => 353_553,
            1 => 374_577,
            2 => 396_850,
            3 => 420_448,
            4 => 445_449,
            5 => 471_937,
            6 => 500_000,
            7 => 529_732,
            8 => 561_231,
            9 => 594_604,
            10 => 629_961,
            11 => 667_420,
            12 => 707_107,
            13 => 749_154,
            14 => 793_701,
            15 => 840_896,
            16 => 890_899,
            17 => 943_874,
            18 => 1_000_000,
            19 => 1_059_463,
            20 => 1_122_462,
            21 => 1_189_207,
            22 => 1_259_921,
            23 => 1_334_840,
            24 => 1_414_214,
            25 => 1_498_307,
            26 => 1_587_401,
            27 => 1_681_793,
            28 => 1_781_797,
            29 => 1_887_749,
            30 => 2_000_000,
            31 => 2_118_926,
            32 => 2_244_924,
            33 => 2_378_414,
            34 => 2_519_842,
            _ => 2_669_680,
        })
    }

    /// The note's name.
    pub fn name(&self) -> (r: &'static str)
        requires
            self.wf(),
        ensures
            r@ == note_name(self.0 as int),
    {
        match self.0 {
            0 => "C2",
            1 => "C#2",
            2 => "D2",
            3 => "D#2",
            4 => "E2",
            5 => "F2",
            6 => "F#2",
            7 => "G2",
            8 => "G#2",
            9 => "A2",
            10 => "A#2",
            11 => "B2",
            12 => "C3",
            13 => "C#3",
            14 => "D3",
            15 => "D#3",
            16 => "E3",
            17 => "F3",
            18 => "F#3",
            19 => "G3",
            20 => "G#3",
            21 => "A3",
            22 => "A#3",
            23 => "B3",
            24 => "C4",
            25 => "C#4",
            26 => "D4",
            27 => "D#4",
            28 => "E4",
            29 => "F4",
            30 => "F#4",
            31 => "G4",
            32 => "G#4",
            33 => "A4",
            34 => "A#4",
            _ => "B4",
        }
    }
}

/// The frequency table as a function of the note index, in fixed-point units.
pub open spec fn freq_units(index: int) -> int {
    if index == 0 { 65_410_000 }
    else if index == 1 { 69_300_000 }
    else if index == 2 { 73_420_000 }
    else if index == 3 { 77_780_000 }
    else if index == 4 { 82_410_000 }
    else if index == 5 { 87_310_000 }
    else if index == 6 { 92_500_000 }
    else if index == 7 { 98_000_000 }
    else if index == 8 { 103_830_000 }
    else if index == 9 { 110_000_000 }
    else if index == 10 { 116_540_000 }
    else if index == 11 { 123_470_000 }
    else if index == 12 { 130_810_000 }
    else if index == 13 { 138_590_000 }
    else if index == 14 { 146_830_000 }
    else if index == 15 { 155_560_000 }
    else if index == 16 { 164_810_000 }
    else if index == 17 { 174_610_000 }
    else if index == 18 { 185_000_000 }
    else if index == 19 { 196_000_000 }
    else if index == 20 { 207_650_000 }
    else if index == 21 { 220_000_000 }
    else if index == 22 { 233_080_000 }
    else if index == 23 { 246_940_000 }
    else if index == 24 { 261_630_000 }
    else if index == 25 { 277_180_000 }
    else if index == 26 { 293_660_000 }
    else if index == 27 { 311_130_000 }
    else if index == 28 { 329_630_000 }
    else if index == 29 { 349_230_000 }
    else if index == 30 { 369_990_000 }
    else if index == 31 { 392_000_000 }
    else if index == 32 { 415_300_000 }
    else if index == 33 { 440_000_000 }
    else if index == 34 { 466_160_000 }
    else { 493_880_000 }
}

/// The pitch-coefficient table as a function of the note index, in
/// fixed-point units: `2^((index - 18) / 12)` rounded to millionths.
pub open spec fn pitch_coef_units(index: int) -> int {
    if index == 0 { 353_553 }
    else if index == 1 { 374_577 }
    else if index == 2 { 396_850 }
    else if index == 3 { 420_448 }
    else if index == 4 { 445_449 }
    else if index == 5 { 471_937 }
    else if index == 6 { 500_000 }
    else if index == 7 { 529_732 }
    else if index == 8 { 561_231 }
    else if index == 9 { 594_604 }
    else if index == 10 { 629_961 }
    else if index == 11 { 667_420 }
    else if index == 12 { 707_107 }
    else if index == 13 { 749_154 }
    else if index == 14 { 793_701 }
    else if index == 15 { 840_896 }
    else if index == 16 { 890_899 }
    else if index == 17 { 943_874 }
    else if index == 18 { 1_000_000 }
    else if index == 19 { 1_059_463 }
    else if index == 20 { 1_122_462 }
    else if index == 21 { 1_189_207 }
    else if index == 22 { 1_259_921 }
    else if index == 23 { 1_334_840 }
    else if index == 24 { 1_414_214 }
    else if index == 25 { 1_498_307 }
    else if index == 26 { 1_587_401 }
    else if index == 27 { 1_681_793 }
    else if index == 28 { 1_781_797 }
    else if index == 29 { 1_887_749 }
    else if index == 30 { 2_000_000 }
    else if index == 31 { 2_118_926 }
    else if index == 32 { 2_244_924 }
    else if index == 33 { 2_378_414 }
    else if index == 34 { 2_519_842 }
    else { 2_669_680 }
}


/// The name table as a function of the note index.
pub open spec fn note_name(index: int) -> Seq<char> {
    if index == 0 { "C2"@ }
    else if index == 1 { "C#2"@ }
    else if index == 2 { "D2"@ }
    else if index == 3 { "D#2"@ }
    else if index == 4 { "E2"@ }
    else if index == 5 { "F2"@ }
    else if index == 6 { "F#2"@ }
    else if index == 7 { "G2"@ }
    else if index == 8 { "G#2"@ }
    else if index == 9 { "A2"@ }
    else if index == 10 { "A#2"@ }
    else if index == 11 { "B2"@ }
    else if index == 12 { "C3"@ }
    else if index == 13 { "C#3"@ }
    else if index == 14 { "D3"@ }
    else if index == 15 { "D#3"@ }
    else if index == 16 { "E3"@ }
    else if index == 17 { "F3"@ }
    else if index == 18 { "F#3"@ }
    else if index == 19 { "G3"@ }
    else if index == 20 { "G#3"@ }
    else if index == 21 { "A3"@ }
    else if index == 22 { "A#3"@ }
    else if index == 23 { "B3"@ }
    else if index == 24 { "C4"@ }
    else if index == 25 { "C#4"@ }
    else if index == 26 { "D4"@ }
    else if index == 27 { "D#4"@ }
    else if index == 28 { "E4"@ }
    else if index == 29 { "F4"@ }
    else if index == 30 { "F#4"@ }
    else if index == 31 { "G4"@ }
    else if index == 32 { "G#4"@ }
    else if index == 33 { "A4"@ }
    else if index == 34 { "A#4"@ }
    else { "B4"@ }
}

/// Taking the reciprocal note twice returns the starting note.
pub proof fn lemma_recip_recip(n: Note)
    requires
        n.wf(),
    ensures
        n.recip_spec().recip_spec() == n,
{
}

} // verus!
