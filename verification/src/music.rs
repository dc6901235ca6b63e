//! The notation model: scores, parts, measures, notes and directions,
//! following the MusicXML vocabulary, together with the compact
//! `pitch:duration` notation used to build them.
//!
//! Serialization targets [`crate::xml::Writer`]; every `write_to` method
//! states the exact text it appends.

use vstd::prelude::*;
use vstd::string::StringExecFns;
use vstd::string::StrSliceExecFns;

use crate::numfmt::{i64_to_string, spec_digits, spec_int_str, u64_to_string};
use crate::xml;

verus! {

// ---------------------------------------------------------------------------
// Small string helpers
// ---------------------------------------------------------------------------
/// Character-wise equality of two string slices.
fn str_eq(a: &str, b: &str) -> (r: bool)
    ensures
        r == (a@ == b@),
{
    let la = a.unicode_len();
    let lb = b.unicode_len();
    if la != lb {
        return false;
    }
    let mut i: usize = 0;
    while i < la
        invariant
            i <= la,
            la == a@.len(),
            la == b@.len(),
            forall|k: int| 0 <= k < i ==> a@[k] == b@[k],
        decreases la - i,
    {
        if a.get_char(i) != b.get_char(i) {
            return false;
        }
        i = i + 1;
    }
    proof {
        assert(a@ =~= b@);
    }
    true
}

/// Whether `c` is a decimal digit.
pub open spec fn spec_is_digit(c: char) -> bool {
    '0' <= c && c <= '9'
}

/// The numeric value of a decimal digit character.
pub open spec fn spec_digit_val(c: char) -> int {
    c as int - '0' as int
}

/// Whether the sequence is entirely decimal digits.
pub open spec fn spec_all_digits(s: Seq<char>) -> bool {
    forall|k: int| 0 <= k < s.len() ==> spec_is_digit(#[trigger] s[k])
}

/// The value of a digit sequence read in base ten.
pub open spec fn spec_digits_val(s: Seq<char>) -> int
    decreases s.len(),
{
    if s.len() == 0 {
        0
    } else {
        spec_digits_val(s.drop_last()) * 10 + spec_digit_val(s.last())
    }
}

/// The digit run of an integer literal: an optional sign stripped away.
pub open spec fn spec_int_digits(s: Seq<char>) -> Seq<char> {
    if s.len() > 0 && (s[0] == '+' || s[0] == '-') {
        s.drop_first()
    } else {
        s
    }
}

/// Whether the sequence is a well-formed integer literal: an optional sign
/// followed by one or more digits.
pub open spec fn spec_is_int_literal(s: Seq<char>) -> bool {
    spec_int_digits(s).len() > 0 && spec_all_digits(spec_int_digits(s))
}

/// The signed value of a well-formed integer literal.
pub open spec fn spec_int_literal_val(s: Seq<char>) -> int {
    if s.len() > 0 && s[0] == '-' {
        -spec_digits_val(spec_int_digits(s))
    } else {
        spec_digits_val(spec_int_digits(s))
    }
}

proof fn lemma_digits_val_nonneg(s: Seq<char>)
    requires
        spec_all_digits(s),
    ensures
        spec_digits_val(s) >= 0,
    decreases s.len(),
{
    if s.len() > 0 {
        lemma_digits_val_nonneg(s.drop_last());
    }
}

/// Parse a digit run out of `s[from..]`, saturating at 1001 so that values
/// beyond every caller's range need no big arithmetic.  Returns `None` when
/// the run is empty or holds a non-digit.
fn parse_digits_capped(s: &str, from: usize) -> (r: Option<u32>)
    requires
        from <= s@.len(),
    ensures
        match r {
            Some(v) => {
                &&& spec_all_digits(s@.subrange(from as int, s@.len() as int))
                &&& s@.len() > from
                &&& if spec_digits_val(s@.subrange(from as int, s@.len() as int)) <= 1000 {
                    v == spec_digits_val(s@.subrange(from as int, s@.len() as int))
                } else {
                    v == 1001
                }
            },
            None => !(s@.len() > from && spec_all_digits(
                s@.subrange(from as int, s@.len() as int),
            )),
        },
{
    let len = s.unicode_len();
    if from >= len {
        return None;
    }
    let mut i: usize = from;
    let mut acc: u32 = 0;
    while i < len
        invariant
            from <= i <= len,
            len == s@.len(),
            spec_all_digits(s@.subrange(from as int, i as int)),
            acc <= 1001,
            if spec_digits_val(s@.subrange(from as int, i as int)) <= 1000 {
                acc == spec_digits_val(s@.subrange(from as int, i as int))
            } else {
                acc == 1001
            },
        decreases len - i,
    {
        let c = s.get_char(i);
        if c < '0' || c > '9' {
            proof {
                assert(s@.subrange(from as int, s@.len() as int)[i - from] == s@[i as int]);
            }
            return None;
        }
        let d: u32 = (c as u32) - ('0' as u32);
        proof {
            let pre = s@.subrange(from as int, i as int);
            let cur = s@.subrange(from as int, i + 1);
            assert(cur.drop_last() =~= pre);
            assert(cur.last() == s@[i as int]);
            lemma_digits_val_nonneg(pre);
        }
        if acc > 100 {
            acc = 1001;
        } else {
            acc = acc * 10 + d;
            if acc > 1000 {
                acc = 1001;
            }
        }
        i = i + 1;
    }
    proof {
        assert(s@.subrange(from as int, s@.len() as int) =~= s@.subrange(from as int, len as int));
    }
    Some(acc)
}

/// Parse an unsigned byte as `u8::from_str` reads it: an optional `+`
/// followed by digits, in range.
fn parse_u8_str(s: &str) -> (r: Option<u8>)
    ensures
        match r {
            Some(v) => {
                &&& s@.len() > 0
                &&& s@[0] != '-'
                &&& spec_is_int_literal(s@)
                &&& 0 <= spec_int_literal_val(s@) <= 255
                &&& v == spec_int_literal_val(s@)
            },
            None => !(s@.len() > 0 && s@[0] != '-' && spec_is_int_literal(s@)
                && spec_int_literal_val(s@) <= 255),
        },
{
    let len = s.unicode_len();
    if len == 0 {
        return None;
    }
    let c0 = s.get_char(0);
    if c0 == '-' {
        return None;
    }
    let from: usize = if c0 == '+' {
        1
    } else {
        0
    };
    proof {
        assert(spec_int_digits(s@) =~= s@.subrange(from as int, s@.len() as int));
    }
    match parse_digits_capped(s, from) {
        Some(v) => {
            proof {
                lemma_digits_val_nonneg(spec_int_digits(s@));
            }
            if v <= 255 {
                Some(v as u8)
            } else {
                None
            }
        },
        None => None,
    }
}

/// Parse a signed byte as `i8::from_str` reads it: an optional sign
/// followed by digits, in range.
fn parse_i8_str(s: &str) -> (r: Option<i8>)
    ensures
        match r {
            Some(v) => {
                &&& spec_is_int_literal(s@)
                &&& -128 <= spec_int_literal_val(s@) <= 127
                &&& v == spec_int_literal_val(s@)
            },
            None => !(spec_is_int_literal(s@) && -128 <= spec_int_literal_val(s@) <= 127),
        },
{
    let len = s.unicode_len();
    if len == 0 {
        return None;
    }
    let c0 = s.get_char(0);
    let negative = c0 == '-';
    let from: usize = if c0 == '+' || c0 == '-' {
        1
    } else {
        0
    };
    proof {
        assert(spec_int_digits(s@) =~= s@.subrange(from as int, s@.len() as int));
    }
    match parse_digits_capped(s, from) {
        Some(v) => {
            proof {
                lemma_digits_val_nonneg(spec_int_digits(s@));
            }
            if negative {
                if v <= 128 {
                    Some((-(v as i32)) as i8)
                } else {
                    None
                }
            } else {
                if v <= 127 {
                    Some(v as i8)
                } else {
                    None
                }
            }
        },
        None => None,
    }
}

// ---------------------------------------------------------------------------
// Tones and pitches
// ---------------------------------------------------------------------------
/// The seven natural tone letters.
#[derive(Clone, Copy, Debug)]
pub enum NaturalTone {
    C,
    D,
    E,
    F,
    G,
    A,
    B,
}

/// The letter for a natural tone.
pub open spec fn spec_tone_char(t: NaturalTone) -> char {
    match t {
        NaturalTone::C => 'C',
        NaturalTone::D => 'D',
        NaturalTone::E => 'E',
        NaturalTone::F => 'F',
        NaturalTone::G => 'G',
        NaturalTone::A => 'A',
        NaturalTone::B => 'B',
    }
}

/// The semitone offset of a natural tone above C.
pub open spec fn spec_tone_semitone(t: NaturalTone) -> int {
    match t {
        NaturalTone::C => 0,
        NaturalTone::D => 2,
        NaturalTone::E => 4,
        NaturalTone::F => 5,
        NaturalTone::G => 7,
        NaturalTone::A => 9,
        NaturalTone::B => 11,
    }
}

impl NaturalTone {
    pub fn to_char(&self) -> (c: char)
        ensures
            c == spec_tone_char(*self),
    {
        match self {
            Self::C => 'C',
            Self::D => 'D',
            Self::E => 'E',
            Self::F => 'F',
            Self::G => 'G',
            Self::A => 'A',
            Self::B => 'B',
        }
    }

    /// Semitone value relative to C.
    pub fn to_semitone(&self) -> (s: u8)
        ensures
            s == spec_tone_semitone(*self),
    {
        match self {
            Self::C => 0,
            Self::D => 2,
            Self::E => 4,
            Self::F => 5,
            Self::G => 7,
            Self::A => 9,
            Self::B => 11,
        }
    }
}

/// A notated pitch: a tone letter, an octave, and an optional alteration in
/// semitones.
#[derive(Clone, Copy, Debug)]
pub struct Pitch {
    pub step: NaturalTone,
    pub octave: i8,
    pub alter: Option<i8>,
}

/// The alteration of a pitch, zero when absent.
pub open spec fn spec_alter(p: Pitch) -> int {
    match p.alter {
        Some(a) => a as int,
        None => 0,
    }
}

/// The semitone number of a pitch, relative to C-1 (MIDI note 0).
pub open spec fn spec_semitone(p: Pitch) -> int {
    spec_tone_semitone(p.step) + spec_alter(p) + (p.octave + 1) * 12
}

/// Whether a pitch resolves to a sounding MIDI note; this is what
/// [`Pitch::to_semitone`] demands of its input.
pub open spec fn pitch_in_range(p: Pitch) -> bool {
    &&& 0 < spec_semitone(p) <= 127
    &&& -128 <= spec_tone_semitone(p.step) + spec_alter(p) <= 127
    &&& -128 <= (p.octave + 1) * 12 <= 127
}

/// The pitch chosen for a semitone number, using flats or sharps for the
/// five altered notes of the octave.
pub open spec fn spec_pitch_of_semitone(semitone: u8, prefer_flat: bool) -> Pitch {
    let octave: i8 = ((semitone / 12) - 1) as i8;
    let s = semitone % 12;
    if prefer_flat {
        if s == 0 {
            Pitch { step: NaturalTone::C, octave, alter: None }
        } else if s == 1 {
            Pitch { step: NaturalTone::D, octave, alter: Some((-1) as i8) }
        } else if s == 2 {
            Pitch { step: NaturalTone::D, octave, alter: None }
        } else if s == 3 {
            Pitch { step: NaturalTone::E, octave, alter: Some((-1) as i8) }
        } else if s == 4 {
            Pitch { step: NaturalTone::E, octave, alter: None }
        } else if s == 5 {
            Pitch { step: NaturalTone::F, octave, alter: None }
        } else if s == 6 {
            Pitch { step: NaturalTone::G, octave, alter: Some((-1) as i8) }
        } else if s == 7 {
            Pitch { step: NaturalTone::G, octave, alter: None }
        } else if s == 8 {
            Pitch { step: NaturalTone::A, octave, alter: Some((-1) as i8) }
        } else if s == 9 {
            Pitch { step: NaturalTone::A, octave, alter: None }
        } else if s == 10 {
            Pitch { step: NaturalTone::B, octave, alter: Some((-1) as i8) }
        } else {
            Pitch { step: NaturalTone::B, octave, alter: None }
        }
    } else {
        if s == 0 {
            Pitch { step: NaturalTone::C, octave, alter: None }
        } else if s == 1 {
            Pitch { step: NaturalTone::C, octave, alter: Some(1 as i8) }
        } else if s == 2 {
            Pitch { step: NaturalTone::D, octave, alter: None }
        } else if s == 3 {
            Pitch { step: NaturalTone::D, octave, alter: Some(1 as i8) }
        } else if s == 4 {
            Pitch { step: NaturalTone::E, octave, alter: None }
        } else if s == 5 {
            Pitch { step: NaturalTone::F, octave, alter: None }
        } else if s == 6 {
            Pitch { step: NaturalTone::F, octave, alter: Some(1 as i8) }
        } else if s == 7 {
            Pitch { step: NaturalTone::G, octave, alter: None }
        } else if s == 8 {
            Pitch { step: NaturalTone::G, octave, alter: Some(1 as i8) }
        } else if s == 9 {
            Pitch { step: NaturalTone::A, octave, alter: None }
        } else if s == 10 {
            Pitch { step: NaturalTone::A, octave, alter: Some(1 as i8) }
        } else {
            Pitch { step: NaturalTone::B, octave, alter: None }
        }
    }
}

/// The parse of a pitch literal such as `C#4`: a tone letter, an optional
/// `#` or `b`, and an octave number.  Mirrors [`Pitch::from_str`].
pub open spec fn spec_pitch_parse(s: Seq<char>) -> Result<Pitch, ()> {
    if s.len() < 2 {
        Err(())
    } else {
        match spec_step_of_char(s[0]) {
            None => Err(()),
            Some(step) => {
                let (alter, start) = if s[1] == '#' {
                    (Some(1 as i8), 2)
                } else if s[1] == 'b' {
                    (Some(-1 as i8), 2)
                } else {
                    (None, 1)
                };
                let rest = s.subrange(start, s.len() as int);
                if spec_is_int_literal(rest) && -128 <= spec_int_literal_val(rest) <= 127 {
                    Ok(Pitch { step, octave: spec_int_literal_val(rest) as i8, alter })
                } else {
                    Err(())
                }
            },
        }
    }
}

/// The tone letter denoted by a character, case-insensitively.
pub open spec fn spec_step_of_char(c: char) -> Option<NaturalTone> {
    if c == 'c' || c == 'C' {
        Some(NaturalTone::C)
    } else if c == 'd' || c == 'D' {
        Some(NaturalTone::D)
    } else if c == 'e' || c == 'E' {
        Some(NaturalTone::E)
    } else if c == 'f' || c == 'F' {
        Some(NaturalTone::F)
    } else if c == 'g' || c == 'G' {
        Some(NaturalTone::G)
    } else if c == 'a' || c == 'A' {
        Some(NaturalTone::A)
    } else if c == 'b' || c == 'B' {
        Some(NaturalTone::B)
    } else {
        None
    }
}

fn step_of_char(c: char) -> (r: Option<NaturalTone>)
    ensures
        r == spec_step_of_char(c),
{
    if c == 'c' || c == 'C' {
        Some(NaturalTone::C)
    } else if c == 'd' || c == 'D' {
        Some(NaturalTone::D)
    } else if c == 'e' || c == 'E' {
        Some(NaturalTone::E)
    } else if c == 'f' || c == 'F' {
        Some(NaturalTone::F)
    } else if c == 'g' || c == 'G' {
        Some(NaturalTone::G)
    } else if c == 'a' || c == 'A' {
        Some(NaturalTone::A)
    } else if c == 'b' || c == 'B' {
        Some(NaturalTone::B)
    } else {
        None
    }
}

impl Pitch {
    /// Semitone value relative to C-1 (MIDI value of 0).
    pub fn to_semitone(&self) -> (s: u8)
        requires
            pitch_in_range(*self),
        ensures
            s == spec_semitone(*self),
    {
        let tone: i32 = self.step.to_semitone() as i32;
        let alter: i32 = match self.alter {
            Some(a) => a as i32,
            None => 0,
        };
        let semitone: i32 = tone + alter + (self.octave as i32 + 1) * 12;
        semitone as u8
    }

    /// From a semitone value relative to C-1 (MIDI value of 0).
    pub fn from_semitone(semitone: u8, prefer_flat: bool) -> (p: Pitch)
        requires
            semitone <= 127,
        ensures
            p == spec_pitch_of_semitone(semitone, prefer_flat),
    {
        let octave: i8 = (semitone / 12) as i8 - 1;
        let s: u8 = semitone % 12;
        if prefer_flat {
            if s == 0 {
                Pitch { step: NaturalTone::C, octave, alter: None }
            } else if s == 1 {
                Pitch { step: NaturalTone::D, octave, alter: Some(-1) }
            } else if s == 2 {
                Pitch { step: NaturalTone::D, octave, alter: None }
            } else if s == 3 {
                Pitch { step: NaturalTone::E, octave, alter: Some(-1) }
            } else if s == 4 {
                Pitch { step: NaturalTone::E, octave, alter: None }
            } else if s == 5 {
                Pitch { step: NaturalTone::F, octave, alter: None }
            } else if s == 6 {
                Pitch { step: NaturalTone::G, octave, alter: Some(-1) }
            } else if s == 7 {
                Pitch { step: NaturalTone::G, octave, alter: None }
            } else if s == 8 {
                Pitch { step: NaturalTone::A, octave, alter: Some(-1) }
            } else if s == 9 {
                Pitch { step: NaturalTone::A, octave, alter: None }
            } else if s == 10 {
                Pitch { step: NaturalTone::B, octave, alter: Some(-1) }
            } else {
                Pitch { step: NaturalTone::B, octave, alter: None }
            }
        } else {
            if s == 0 {
                Pitch { step: NaturalTone::C, octave, alter: None }
            } else if s == 1 {
                Pitch { step: NaturalTone::C, octave, alter: Some(1) }
            } else if s == 2 {
                Pitch { step: NaturalTone::D, octave, alter: None }
            } else if s == 3 {
                Pitch { step: NaturalTone::D, octave, alter: Some(1) }
            } else if s == 4 {
                Pitch { step: NaturalTone::E, octave, alter: None }
            } else if s == 5 {
                Pitch { step: NaturalTone::F, octave, alter: None }
            } else if s == 6 {
                Pitch { step: NaturalTone::F, octave, alter: Some(1) }
            } else if s == 7 {
                Pitch { step: NaturalTone::G, octave, alter: None }
            } else if s == 8 {
                Pitch { step: NaturalTone::G, octave, alter: Some(1) }
            } else if s == 9 {
                Pitch { step: NaturalTone::A, octave, alter: None }
            } else if s == 10 {
                Pitch { step: NaturalTone::A, octave, alter: Some(1) }
            } else {
                Pitch { step: NaturalTone::B, octave, alter: None }
            }
        }
    }

    /// Parse a pitch literal such as `C#4`, `Eb2` or `g-1`.
    pub fn from_str(s: &str) -> (r: Result<Pitch, String>)
        ensures
            match r {
                Ok(p) => spec_pitch_parse(s@) == Ok::<Pitch, ()>(p),
                Err(_) => spec_pitch_parse(s@) == Err::<Pitch, ()>(()),
            },
    {
        let len = s.unicode_len();
        if len < 2 {
            return Err("String too short".to_owned());
        }
        let step = match step_of_char(s.get_char(0)) {
            Some(step) => step,
            None => {
                return Err("Invalid step".to_owned());
            },
        };
        let c1 = s.get_char(1);
        let (alter, octave_start): (Option<i8>, usize) = if c1 == '#' {
            (Some(1), 2)
        } else if c1 == 'b' {
            (Some(-1), 2)
        } else {
            (None, 1)
        };
        let rest = s.substring_char(octave_start, len);
        match parse_i8_str(rest) {
            Some(octave) => Ok(Pitch { step, octave, alter }),
            None => Err("Invalid octave".to_owned()),
        }
    }
}

} // verus!

verus! {

// ---------------------------------------------------------------------------
// Case-insensitive matching (ASCII)
// ---------------------------------------------------------------------------
/// Character equality up to ASCII case.
pub open spec fn char_eq_ci(a: char, b: char) -> bool {
    ||| a == b
    ||| ('A' <= a && a <= 'Z' && b as int == a as int + 32)
    ||| ('A' <= b && b <= 'Z' && a as int == b as int + 32)
}

/// String equality up to ASCII case.
pub open spec fn seq_eq_ci(a: Seq<char>, b: Seq<char>) -> bool {
    a.len() == b.len() && forall|k: int| 0 <= k < a.len() ==> char_eq_ci(a[k], #[trigger] b[k])
}

fn char_ci(a: char, b: char) -> (r: bool)
    ensures
        r == char_eq_ci(a, b),
{
    let ua = a as u32;
    let ub = b as u32;
    a == b || ('A' as u32 <= ua && ua <= 'Z' as u32 && ub == ua + 32) || ('A' as u32 <= ub && ub
        <= 'Z' as u32 && ua == ub + 32)
}

fn str_eq_ci(a: &str, b: &str) -> (r: bool)
    ensures
        r == seq_eq_ci(a@, b@),
{
    let la = a.unicode_len();
    let lb = b.unicode_len();
    if la != lb {
        return false;
    }
    let mut i: usize = 0;
    while i < la
        invariant
            i <= la,
            la == a@.len(),
            la == b@.len(),
            forall|k: int| 0 <= k < i ==> char_eq_ci(a@[k], #[trigger] b@[k]),
        decreases la - i,
    {
        if !char_ci(a.get_char(i), b.get_char(i)) {
            return false;
        }
        i = i + 1;
    }
    true
}

/// How many times `c` occurs in `s`.
pub open spec fn spec_count_char(s: Seq<char>, c: char) -> int
    decreases s.len(),
{
    if s.len() == 0 {
        0
    } else {
        spec_count_char(s.drop_last(), c) + if s.last() == c {
            1int
        } else {
            0int
        }
    }
}

/// The index of the first occurrence of `c` in `s`, or `None`.
pub open spec fn spec_find_char(s: Seq<char>, c: char) -> Option<int> {
    if exists|k: int| 0 <= k < s.len() && s[k] == c {
        Some(choose|k: int| 0 <= k < s.len() && s[k] == c && forall|j: int| 0 <= j < k ==> s[j] != c)
    } else {
        None
    }
}

/// Find the first occurrence of `c` in `s`.
fn find_char(s: &str, c: char) -> (r: Option<usize>)
    ensures
        match r {
            Some(i) => i < s@.len() && s@[i as int] == c && forall|j: int|
                0 <= j < i ==> s@[j] != c,
            None => forall|j: int| 0 <= j < s@.len() ==> s@[j] != c,
        },
{
    let len = s.unicode_len();
    let mut i: usize = 0;
    while i < len
        invariant
            i <= len,
            len == s@.len(),
            forall|j: int| 0 <= j < i ==> s@[j] != c,
        decreases len - i,
    {
        if s.get_char(i) == c {
            return Some(i);
        }
        i = i + 1;
    }
    None
}

/// Count the occurrences of `c` in `s`.
fn count_char(s: &str, c: char) -> (r: usize)
    ensures
        r == spec_count_char(s@, c),
{
    let len = s.unicode_len();
    let mut i: usize = 0;
    let mut n: usize = 0;
    while i < len
        invariant
            i <= len,
            len == s@.len(),
            n <= i,
            n == spec_count_char(s@.subrange(0, i as int), c),
        decreases len - i,
    {
        proof {
            let cur = s@.subrange(0, i + 1);
            assert(cur.drop_last() =~= s@.subrange(0, i as int));
            assert(cur.last() == s@[i as int]);
        }
        if s.get_char(i) == c {
            n = n + 1;
        }
        i = i + 1;
    }
    proof {
        assert(s@.subrange(0, s@.len() as int) =~= s@);
    }
    n
}

// ---------------------------------------------------------------------------
// Modes, clefs, time signatures
// ---------------------------------------------------------------------------
/// All modes allowed in `<mode>` by the MusicXML spec.
#[derive(Clone, Copy, Debug)]
pub enum Mode {
    Major,
    Minor,
    Dorian,
    Phrygian,
    Lydian,
    Mixolydian,
    Aeolian,
    Ionian,
    Locrian,
    NoMode,
}

/// The `<mode>` text for a mode.
pub open spec fn spec_mode_str(m: Mode) -> Seq<char> {
    match m {
        Mode::Major => "major"@,
        Mode::Minor => "minor"@,
        Mode::Dorian => "dorian"@,
        Mode::Phrygian => "phrygian"@,
        Mode::Lydian => "lydian"@,
        Mode::Mixolydian => "mixolydian"@,
        Mode::Aeolian => "aeolian"@,
        Mode::Ionian => "ionian"@,
        Mode::Locrian => "locrian"@,
        Mode::NoMode => "none"@,
    }
}

/// The mode a name denotes, up to ASCII case.
pub open spec fn spec_mode_parse(s: Seq<char>) -> Option<Mode> {
    if seq_eq_ci(s, "major"@) {
        Some(Mode::Major)
    } else if seq_eq_ci(s, "minor"@) {
        Some(Mode::Minor)
    } else if seq_eq_ci(s, "dorian"@) {
        Some(Mode::Dorian)
    } else if seq_eq_ci(s, "phrygian"@) {
        Some(Mode::Phrygian)
    } else if seq_eq_ci(s, "lydian"@) {
        Some(Mode::Lydian)
    } else if seq_eq_ci(s, "mixolydian"@) {
        Some(Mode::Mixolydian)
    } else if seq_eq_ci(s, "aeolian"@) {
        Some(Mode::Aeolian)
    } else if seq_eq_ci(s, "ionian"@) {
        Some(Mode::Ionian)
    } else if seq_eq_ci(s, "locrian"@) {
        Some(Mode::Locrian)
    } else if seq_eq_ci(s, "none"@) {
        Some(Mode::NoMode)
    } else {
        None
    }
}

impl Mode {
    pub fn to_string(&self) -> (r: String)
        ensures
            r@ == spec_mode_str(*self),
    {
        match self {
            Self::Major => "major".to_owned(),
            Self::Minor => "minor".to_owned(),
            Self::Dorian => "dorian".to_owned(),
            Self::Phrygian => "phrygian".to_owned(),
            Self::Lydian => "lydian".to_owned(),
            Self::Mixolydian => "mixolydian".to_owned(),
            Self::Aeolian => "aeolian".to_owned(),
            Self::Ionian => "ionian".to_owned(),
            Self::Locrian => "locrian".to_owned(),
            Self::NoMode => "none".to_owned(),
        }
    }

    /// Read a mode name, case-insensitively.
    pub fn from_str(s: &str) -> (r: Result<Mode, String>)
        ensures
            match r {
                Ok(m) => spec_mode_parse(s@) == Some(m),
                Err(_) => spec_mode_parse(s@) is None,
            },
    {
        if str_eq_ci(s, "major") {
            Ok(Mode::Major)
        } else if str_eq_ci(s, "minor") {
            Ok(Mode::Minor)
        } else if str_eq_ci(s, "dorian") {
            Ok(Mode::Dorian)
        } else if str_eq_ci(s, "phrygian") {
            Ok(Mode::Phrygian)
        } else if str_eq_ci(s, "lydian") {
            Ok(Mode::Lydian)
        } else if str_eq_ci(s, "mixolydian") {
            Ok(Mode::Mixolydian)
        } else if str_eq_ci(s, "aeolian") {
            Ok(Mode::Aeolian)
        } else if str_eq_ci(s, "ionian") {
            Ok(Mode::Ionian)
        } else if str_eq_ci(s, "locrian") {
            Ok(Mode::Locrian)
        } else if str_eq_ci(s, "none") {
            Ok(Mode::NoMode)
        } else {
            Err("Unknown mode".to_owned())
        }
    }
}

/// The signature's position on the circle of fifths for a key name;
/// `None` for a name the notation does not know.
pub open spec fn spec_key_fifths(s: Seq<char>) -> Option<int> {
    if s == "C"@ {
        Some(0int)
    } else if s == "G"@ {
        Some(1int)
    } else if s == "D"@ {
        Some(2int)
    } else if s == "A"@ {
        Some(3int)
    } else if s == "E"@ {
        Some(4int)
    } else if s == "B"@ {
        Some(5int)
    } else if s == "F#"@ || s == "Fs"@ {
        Some(6int)
    } else if s == "C#"@ || s == "Cs"@ {
        Some(7int)
    } else if s == "F"@ {
        Some(-1int)
    } else if s == "Bb"@ {
        Some(-2int)
    } else if s == "Eb"@ {
        Some(-3int)
    } else if s == "Ab"@ {
        Some(-4int)
    } else if s == "Db"@ {
        Some(-5int)
    } else if s == "Gb"@ {
        Some(-6int)
    } else if s == "Cb"@ {
        Some(-7int)
    } else {
        None
    }
}

/// The number of sharps (positive) or flats (negative) of a named key.
pub fn key_fifths_from_name(name: &str) -> (r: i8)
    requires
        spec_key_fifths(name@) is Some,
    ensures
        Some(r as int) == spec_key_fifths(name@),
{
    if str_eq(name, "C") {
        0
    } else if str_eq(name, "G") {
        1
    } else if str_eq(name, "D") {
        2
    } else if str_eq(name, "A") {
        3
    } else if str_eq(name, "E") {
        4
    } else if str_eq(name, "B") {
        5
    } else if str_eq(name, "F#") || str_eq(name, "Fs") {
        6
    } else if str_eq(name, "C#") || str_eq(name, "Cs") {
        7
    } else if str_eq(name, "F") {
        -1
    } else if str_eq(name, "Bb") {
        -2
    } else if str_eq(name, "Eb") {
        -3
    } else if str_eq(name, "Ab") {
        -4
    } else if str_eq(name, "Db") {
        -5
    } else {
        if str_eq(name, "Gb") {
            -6
        } else {
            -7
        }
    }
}

/// The clefs the notation can place on a staff.
#[derive(Clone, Copy, Debug, PartialEq, Eq, Structural)]
pub enum Clef {
    Treble,
    Bass,
    Alto,
    Soprano,
    Tenor,
    Percussion,
}

/// The `<sign>` text of a clef.
pub open spec fn spec_clef_sign(c: Clef) -> Seq<char> {
    match c {
        Clef::Soprano | Clef::Alto => "C"@,
        Clef::Tenor | Clef::Treble => "G"@,
        Clef::Bass => "F"@,
        Clef::Percussion => "percussion"@,
    }
}

/// The staff line a clef sits on.
pub open spec fn spec_clef_line(c: Clef) -> int {
    match c {
        Clef::Soprano => 1,
        Clef::Treble | Clef::Percussion => 2,
        Clef::Alto => 3,
        Clef::Tenor | Clef::Bass => 4,
    }
}

/// The clef a name denotes, up to ASCII case.
pub open spec fn spec_clef_parse(s: Seq<char>) -> Option<Clef> {
    if seq_eq_ci(s, "treble"@) {
        Some(Clef::Treble)
    } else if seq_eq_ci(s, "bass"@) {
        Some(Clef::Bass)
    } else if seq_eq_ci(s, "alto"@) {
        Some(Clef::Alto)
    } else if seq_eq_ci(s, "soprano"@) {
        Some(Clef::Soprano)
    } else if seq_eq_ci(s, "tenor"@) {
        Some(Clef::Tenor)
    } else if seq_eq_ci(s, "percussion"@) {
        Some(Clef::Percussion)
    } else {
        None
    }
}

impl Clef {
    pub fn to_sign(&self) -> (r: String)
        ensures
            r@ == spec_clef_sign(*self),
    {
        match self {
            Self::Soprano | Self::Alto => "C".to_owned(),
            Self::Tenor | Self::Treble => "G".to_owned(),
            Self::Bass => "F".to_owned(),
            Self::Percussion => "percussion".to_owned(),
        }
    }

    pub fn to_line(&self) -> (r: u8)
        ensures
            r as int == spec_clef_line(*self),
    {
        match self {
            Self::Soprano => 1,
            Self::Treble | Self::Percussion => 2,
            Self::Alto => 3,
            Self::Tenor | Self::Bass => 4,
        }
    }

    /// Read a clef name, case-insensitively.
    pub fn from_str(s: &str) -> (r: Result<Clef, String>)
        ensures
            match r {
                Ok(c) => spec_clef_parse(s@) == Some(c),
                Err(_) => spec_clef_parse(s@) is None,
            },
    {
        if str_eq_ci(s, "treble") {
            Ok(Clef::Treble)
        } else if str_eq_ci(s, "bass") {
            Ok(Clef::Bass)
        } else if str_eq_ci(s, "alto") {
            Ok(Clef::Alto)
        } else if str_eq_ci(s, "soprano") {
            Ok(Clef::Soprano)
        } else if str_eq_ci(s, "tenor") {
            Ok(Clef::Tenor)
        } else if str_eq_ci(s, "percussion") {
            Ok(Clef::Percussion)
        } else {
            Err("Unknown clef".to_owned())
        }
    }
}

/// A time signature: beats per measure over the beat unit.
#[derive(Clone, Copy, Debug)]
pub struct TimeSignature {
    pub numerator: u8,
    pub denominator: u8,
}

/// The parse of a `N/D` time signature with byte-sized parts.  The slash
/// must occur exactly once; anything else is rejected by `requires` of
/// [`TimeSignature::from_str`] or by its `Err` case.
pub open spec fn spec_time_sig_parse(s: Seq<char>) -> Option<TimeSignature> {
    match spec_find_char(s, '/') {
        None => None,
        Some(k) => {
            let num = s.subrange(0, k);
            let den = s.subrange(k + 1, s.len() as int);
            if spec_is_int_literal(num) && num[0] != '-' && 0 <= spec_int_literal_val(num) <= 255
                && spec_is_int_literal(den) && den[0] != '-' && 0 <= spec_int_literal_val(den)
                <= 255 {
                Some(
                    TimeSignature {
                        numerator: spec_int_literal_val(num) as u8,
                        denominator: spec_int_literal_val(den) as u8,
                    },
                )
            } else {
                None
            }
        },
    }
}

impl TimeSignature {
    /// Read a `N/D` time signature such as `4/4` or `12/8`.
    pub fn from_str(s: &str) -> (r: Result<TimeSignature, String>)
        requires
            spec_count_char(s@, '/') == 1,
        ensures
            match r {
                Ok(t) => spec_time_sig_parse(s@) == Some(t),
                Err(_) => spec_time_sig_parse(s@) is None,
            },
    {
        let len = s.unicode_len();
        let slash = match find_char(s, '/') {
            Some(k) => k,
            None => {
                proof {
                    assert(spec_find_char(s@, '/') is None);
                }
                return Err("Improperly formatted time signature found".to_owned());
            },
        };
        proof {
            assert(spec_find_char(s@, '/') == Some(slash as int));
        }
        let num_part = s.substring_char(0, slash);
        let den_part = s.substring_char(slash + 1, len);
        let numerator = match parse_u8_str(num_part) {
            Some(v) => v,
            None => {
                return Err("Invalid numerator".to_owned());
            },
        };
        let denominator = match parse_u8_str(den_part) {
            Some(v) => v,
            None => {
                return Err("Invalid denominator".to_owned());
            },
        };
        Ok(TimeSignature { numerator, denominator })
    }
}

} // verus!

verus! {

// ---------------------------------------------------------------------------
// Dynamics and direction vocabulary
// ---------------------------------------------------------------------------
/// Dynamic marks from pianississimo to fortississimo.
#[derive(Clone, Copy, Debug)]
pub enum Dynamics {
    PPP,
    PP,
    P,
    MP,
    MF,
    F,
    FF,
    FFF,
}

/// The element name of a dynamic mark.
pub open spec fn spec_dynamics_str(d: Dynamics) -> Seq<char> {
    match d {
        Dynamics::PPP => "ppp"@,
        Dynamics::PP => "pp"@,
        Dynamics::P => "p"@,
        Dynamics::MP => "mp"@,
        Dynamics::MF => "mf"@,
        Dynamics::F => "f"@,
        Dynamics::FF => "ff"@,
        Dynamics::FFF => "fff"@,
    }
}

/// The dynamic mark a name denotes (exact match).
pub open spec fn spec_dynamics_parse(s: Seq<char>) -> Option<Dynamics> {
    if s == "ppp"@ {
        Some(Dynamics::PPP)
    } else if s == "pp"@ {
        Some(Dynamics::PP)
    } else if s == "p"@ {
        Some(Dynamics::P)
    } else if s == "mp"@ {
        Some(Dynamics::MP)
    } else if s == "mf"@ {
        Some(Dynamics::MF)
    } else if s == "f"@ {
        Some(Dynamics::F)
    } else if s == "ff"@ {
        Some(Dynamics::FF)
    } else if s == "fff"@ {
        Some(Dynamics::FFF)
    } else {
        None
    }
}

/// The MIDI velocity of a dynamic mark.
pub open spec fn spec_dynamics_velocity(d: Dynamics) -> int {
    match d {
        Dynamics::PPP => 16,
        Dynamics::PP => 33,
        Dynamics::P => 49,
        Dynamics::MP => 64,
        Dynamics::MF => 80,
        Dynamics::F => 96,
        Dynamics::FF => 112,
        Dynamics::FFF => 127,
    }
}

impl Dynamics {
    pub fn as_str(&self) -> (r: &'static str)
        ensures
            r@ == spec_dynamics_str(*self),
    {
        match self {
            Dynamics::PPP => "ppp",
            Dynamics::PP => "pp",
            Dynamics::P => "p",
            Dynamics::MP => "mp",
            Dynamics::MF => "mf",
            Dynamics::F => "f",
            Dynamics::FF => "ff",
            Dynamics::FFF => "fff",
        }
    }

    /// Read a dynamic mark name; only the eight known marks are accepted.
    pub fn from_str(value: &str) -> (r: Dynamics)
        requires
            spec_dynamics_parse(value@) is Some,
        ensures
            spec_dynamics_parse(value@) == Some(r),
    {
        if str_eq(value, "ppp") {
            Dynamics::PPP
        } else if str_eq(value, "pp") {
            Dynamics::PP
        } else if str_eq(value, "p") {
            Dynamics::P
        } else if str_eq(value, "mp") {
            Dynamics::MP
        } else if str_eq(value, "mf") {
            Dynamics::MF
        } else if str_eq(value, "f") {
            Dynamics::F
        } else if str_eq(value, "ff") {
            Dynamics::FF
        } else {
            Dynamics::FFF
        }
    }

    /// To MIDI velocity.
    pub fn velocity(&self) -> (v: u8)
        ensures
            v as int == spec_dynamics_velocity(*self),
    {
        match self {
            Dynamics::PPP => 16,
            Dynamics::PP => 33,
            Dynamics::P => 49,
            Dynamics::MP => 64,
            Dynamics::MF => 80,
            Dynamics::F => 96,
            Dynamics::FF => 112,
            Dynamics::FFF => 127,
        }
    }
}

/// MusicXML tied-type used for `<tied>` elements (notation, not sound).
#[derive(Clone, Copy, Debug)]
pub enum Tied {
    Start,
    Stop,
    Continue,
    LetRing,
}

/// The attribute text of a `<tied>` type.
pub open spec fn spec_tied_str(t: Tied) -> Seq<char> {
    match t {
        Tied::Start => "start"@,
        Tied::Stop => "stop"@,
        Tied::Continue => "continue"@,
        Tied::LetRing => "let-ring"@,
    }
}

impl Tied {
    pub fn to_string(&self) -> (r: String)
        ensures
            r@ == spec_tied_str(*self),
    {
        match self {
            Self::Start => "start".to_owned(),
            Self::Stop => "stop".to_owned(),
            Self::Continue => "continue".to_owned(),
            Self::LetRing => "let-ring".to_owned(),
        }
    }
}

/// Which way a note stem points.
#[derive(Clone, Copy, Debug)]
pub enum Stem {
    Up,
    Down,
    NoStem,
    Double,
}

/// Beam marks on a beamed group.
#[derive(Clone, Copy, Debug)]
pub enum Beam {
    Begin,
    Continue,
    End,
    ForwardHook,
    BackwardHook,
}

/// MusicXML start/stop attribute type, used for ties and tuplets.
#[derive(Clone, Copy, Debug)]
pub enum StartStop {
    Start,
    Stop,
}

/// The attribute text of a start/stop value.
pub open spec fn spec_start_stop_str(t: StartStop) -> Seq<char> {
    match t {
        StartStop::Start => "start"@,
        StartStop::Stop => "stop"@,
    }
}

impl StartStop {
    pub fn to_string(&self) -> (r: String)
        ensures
            r@ == spec_start_stop_str(*self),
    {
        match self {
            Self::Start => "start".to_owned(),
            Self::Stop => "stop".to_owned(),
        }
    }
}

// ---------------------------------------------------------------------------
// Barlines
// ---------------------------------------------------------------------------
/// The visual style of a barline.
#[derive(Clone, Copy, Debug)]
pub enum BarStyle {
    Dashed,
    Dotted,
    Heavy,
    HeavyHeavy,
    HeavyLight,
    LightHeavy,
    LightLight,
    NoBarline,
    Regular,
    Short,
    Tick,
}

/// The `<bar-style>` text of a barline style.
pub open spec fn spec_bar_style_str(b: BarStyle) -> Seq<char> {
    match b {
        BarStyle::Dashed => "dashed"@,
        BarStyle::Dotted => "dotted"@,
        BarStyle::Heavy => "heavy"@,
        BarStyle::HeavyHeavy => "heavy-heavy"@,
        BarStyle::HeavyLight => "heavy-light"@,
        BarStyle::LightHeavy => "light-heavy"@,
        BarStyle::LightLight => "light-light"@,
        BarStyle::NoBarline => "none"@,
        BarStyle::Regular => "regular"@,
        BarStyle::Short => "short"@,
        BarStyle::Tick => "tick"@,
    }
}

impl BarStyle {
    pub fn to_str(&self) -> (r: &'static str)
        ensures
            r@ == spec_bar_style_str(*self),
    {
        match self {
            Self::Dashed => "dashed",
            Self::Dotted => "dotted",
            Self::Heavy => "heavy",
            Self::HeavyHeavy => "heavy-heavy",
            Self::HeavyLight => "heavy-light",
            Self::LightHeavy => "light-heavy",
            Self::LightLight => "light-light",
            Self::NoBarline => "none",
            Self::Regular => "regular",
            Self::Short => "short",
            Self::Tick => "tick",
        }
    }
}

/// A volta ending over a barline.
#[derive(Clone, Debug)]
pub struct Ending {
    pub content: String,
    pub number: u8,
    pub kind: String,
}

/// A repeat mark on a barline.
#[derive(Clone, Debug)]
pub struct Repeat {
    pub direction: String,
}

/// A `<barline>` element.
#[derive(Debug)]
pub struct Barline {
    pub bar_style: Option<BarStyle>,
    pub ending: Option<Ending>,
    pub repeat: Option<Repeat>,
}

// ---------------------------------------------------------------------------
// Note durations
// ---------------------------------------------------------------------------
/// Note type names from maxima down to 1024th.
#[derive(Clone, Copy, Debug)]
pub enum NoteType {
    Maxima,
    Long,
    Breve,
    Whole,
    Half,
    Quarter,
    Eighth,
    Sixteenth,
    ThirtySecond,
    SixtyFourth,
    OneTwentyEighth,
    TwoFiftySixth,
    FiveTwelvth,
    TenTwentyFourth,
}

/// The `<type>` text of a note type.
pub open spec fn spec_note_type_str(t: NoteType) -> Seq<char> {
    match t {
        NoteType::Maxima => "maxima"@,
        NoteType::Long => "long"@,
        NoteType::Breve => "breve"@,
        NoteType::Whole => "whole"@,
        NoteType::Half => "half"@,
        NoteType::Quarter => "quarter"@,
        NoteType::Eighth => "eighth"@,
        NoteType::Sixteenth => "16th"@,
        NoteType::ThirtySecond => "32nd"@,
        NoteType::SixtyFourth => "64th"@,
        NoteType::OneTwentyEighth => "128th"@,
        NoteType::TwoFiftySixth => "256th"@,
        NoteType::FiveTwelvth => "512th"@,
        NoteType::TenTwentyFourth => "1024th"@,
    }
}

/// Ticks of a plain note of this type at a given tick-per-quarter
/// resolution; types shorter than the resolution truncate downward.
pub open spec fn spec_base_duration(t: NoteType, divisions: int) -> int {
    match t {
        NoteType::Maxima => divisions * 32,
        NoteType::Long => divisions * 16,
        NoteType::Breve => divisions * 8,
        NoteType::Whole => divisions * 4,
        NoteType::Half => divisions * 2,
        NoteType::Quarter => divisions,
        NoteType::Eighth => divisions / 2,
        NoteType::Sixteenth => divisions / 4,
        NoteType::ThirtySecond => divisions / 8,
        NoteType::SixtyFourth => divisions / 16,
        NoteType::OneTwentyEighth => divisions / 32,
        NoteType::TwoFiftySixth => divisions / 64,
        NoteType::FiveTwelvth => divisions / 128,
        NoteType::TenTwentyFourth => divisions / 256,
    }
}

/// Each dot extends the previous extension by half again, truncating.
pub open spec fn spec_dotted_duration(base: int, dots: int) -> int {
    if dots == 0 {
        base
    } else if dots == 1 {
        base + base / 2
    } else if dots == 2 {
        base + base / 2 + base / 4
    } else {
        base + base / 2 + base / 4 + base / 8
    }
}

/// The full tick duration of a note type with dots and an optional tuplet
/// modification.
pub open spec fn spec_duration(
    t: NoteType,
    divisions: int,
    dots: int,
    time_mod: Option<TimeModification>,
) -> int {
    let dotted = spec_dotted_duration(spec_base_duration(t, divisions), dots);
    match time_mod {
        Some(tm) => (dotted * tm.normal_note_beats) / tm.actual_note_beats as int,
        None => dotted,
    }
}

/// The note type a duration character denotes.
pub open spec fn spec_note_type_of_char(c: char) -> Option<NoteType> {
    if c == 'w' {
        Some(NoteType::Whole)
    } else if c == 'h' {
        Some(NoteType::Half)
    } else if c == 'q' {
        Some(NoteType::Quarter)
    } else if c == 'e' {
        Some(NoteType::Eighth)
    } else if c == 's' {
        Some(NoteType::Sixteenth)
    } else if c == 't' {
        Some(NoteType::ThirtySecond)
    } else {
        None
    }
}

impl NoteType {
    pub fn to_string(&self) -> (r: String)
        ensures
            r@ == spec_note_type_str(*self),
    {
        match self {
            Self::Maxima => "maxima".to_owned(),
            Self::Long => "long".to_owned(),
            Self::Breve => "breve".to_owned(),
            Self::Whole => "whole".to_owned(),
            Self::Half => "half".to_owned(),
            Self::Quarter => "quarter".to_owned(),
            Self::Eighth => "eighth".to_owned(),
            Self::Sixteenth => "16th".to_owned(),
            Self::ThirtySecond => "32nd".to_owned(),
            Self::SixtyFourth => "64th".to_owned(),
            Self::OneTwentyEighth => "128th".to_owned(),
            Self::TwoFiftySixth => "256th".to_owned(),
            Self::FiveTwelvth => "512th".to_owned(),
            Self::TenTwentyFourth => "1024th".to_owned(),
        }
    }

    /// The tick duration of this note type.
    pub fn to_duration(
        &self,
        divisions: u32,
        dots: Option<u8>,
        time_mod: Option<&TimeModification>,
    ) -> (d: u32)
        requires
            divisions * 32 <= u32::MAX,
            match dots {
                Some(n) => n <= 3,
                None => true,
            },
            spec_dotted_duration(
                spec_base_duration(*self, divisions as int),
                spec_dots_count(dots),
            ) <= u32::MAX,
            match time_mod {
                Some(tm) => tm.actual_note_beats > 0 && spec_dotted_duration(
                    spec_base_duration(*self, divisions as int),
                    spec_dots_count(dots),
                ) * tm.normal_note_beats <= u32::MAX,
                None => true,
            },
        ensures
            d as int == spec_duration(
                *self,
                divisions as int,
                spec_dots_count(dots),
                match time_mod {
                    Some(tm) => Some(*tm),
                    None => None,
                },
            ),
    {
        let base: u32 = match self {
            Self::Maxima => divisions * 32,
            Self::Long => divisions * 16,
            Self::Breve => divisions * 8,
            Self::Whole => divisions * 4,
            Self::Half => divisions * 2,
            Self::Quarter => divisions,
            Self::Eighth => divisions / 2,
            Self::Sixteenth => divisions / 4,
            Self::ThirtySecond => divisions / 8,
            Self::SixtyFourth => divisions / 16,
            Self::OneTwentyEighth => divisions / 32,
            Self::TwoFiftySixth => divisions / 64,
            Self::FiveTwelvth => divisions / 128,
            Self::TenTwentyFourth => divisions / 256,
        };
        proof {
            assert(base <= divisions * 32);
        }
        let dotted: u32 = match dots {
            None => base,
            Some(0) => base,
            Some(1) => base + (base / 2),
            Some(2) => base + (base / 2) + (base / 4),
            Some(_) => base + (base / 2) + (base / 4) + (base / 8),
        };
        if let Some(tm) = time_mod {
            let wide: u64 = dotted as u64 * tm.normal_note_beats as u64;
            (wide / tm.actual_note_beats as u64) as u32
        } else {
            dotted
        }
    }

    /// The note type of a duration character (`w`, `h`, `q`, `e`, `s`, `t`).
    pub fn from_char(c: char) -> (t: NoteType)
        requires
            spec_note_type_of_char(c) is Some,
        ensures
            spec_note_type_of_char(c) == Some(t),
    {
        if c == 'w' {
            NoteType::Whole
        } else if c == 'h' {
            NoteType::Half
        } else if c == 'q' {
            NoteType::Quarter
        } else if c == 'e' {
            NoteType::Eighth
        } else if c == 's' {
            NoteType::Sixteenth
        } else {
            NoteType::ThirtySecond
        }
    }
}

/// The number of dots an optional dot count denotes.
pub open spec fn spec_dots_count(dots: Option<u8>) -> int {
    match dots {
        Some(n) => n as int,
        None => 0,
    }
}

/// A tuplet ratio: `actual` notes played in the time of `normal`.
#[derive(Clone, Copy, Debug)]
pub struct TimeModification {
    pub actual_note_beats: u8,
    pub normal_note_beats: u8,
    pub normal_note_type: Option<NoteType>,
}

} // verus!

verus! {

// ---------------------------------------------------------------------------
// Chords
// ---------------------------------------------------------------------------
/// Chord qualities: triads, suspensions, sixths, sevenths and ninths.
#[derive(Clone, Copy, Debug)]
pub enum ChordQuality {
    Major,
    Minor,
    Diminished,
    Augmented,
    Sus2,
    Sus4,
    Major7,
    Minor7,
    Minor7b5,
    MinorMajor7,
    Dominant7,
    Major6,
    Minor6,
    Major9,
    Minor9,
    Dominant9,
}

/// The semitone offsets of a quality above the chord root, in root position.
pub open spec fn spec_quality_semitones(q: ChordQuality) -> Seq<u8> {
    match q {
        ChordQuality::Major => seq![0u8, 4u8, 7u8],
        ChordQuality::Minor => seq![0u8, 3u8, 7u8],
        ChordQuality::Diminished => seq![0u8, 3u8, 6u8],
        ChordQuality::Augmented => seq![0u8, 4u8, 8u8],
        ChordQuality::Sus2 => seq![0u8, 2u8, 7u8],
        ChordQuality::Sus4 => seq![0u8, 5u8, 7u8],
        ChordQuality::Major7 => seq![0u8, 4u8, 7u8, 11u8],
        ChordQuality::Minor7 => seq![0u8, 3u8, 7u8, 10u8],
        ChordQuality::Minor7b5 => seq![0u8, 3u8, 6u8, 10u8],
        ChordQuality::MinorMajor7 => seq![0u8, 3u8, 7u8, 11u8],
        ChordQuality::Major6 => seq![0u8, 4u8, 7u8, 9u8],
        ChordQuality::Minor6 => seq![0u8, 3u8, 7u8, 9u8],
        ChordQuality::Dominant7 => seq![0u8, 4u8, 7u8, 10u8],
        ChordQuality::Major9 => seq![0u8, 4u8, 7u8, 11u8, 14u8],
        ChordQuality::Minor9 => seq![0u8, 3u8, 7u8, 10u8, 14u8],
        ChordQuality::Dominant9 => seq![0u8, 4u8, 7u8, 10u8, 14u8],
    }
}

/// The quality a name denotes, up to ASCII case.
pub open spec fn spec_quality_parse(s: Seq<char>) -> Option<ChordQuality> {
    if seq_eq_ci(s, "maj"@) || seq_eq_ci(s, "major"@) {
        Some(ChordQuality::Major)
    } else if seq_eq_ci(s, "min"@) || seq_eq_ci(s, "minor"@) {
        Some(ChordQuality::Minor)
    } else if seq_eq_ci(s, "dim"@) || seq_eq_ci(s, "diminished"@) {
        Some(ChordQuality::Diminished)
    } else if seq_eq_ci(s, "aug"@) || seq_eq_ci(s, "augmented"@) {
        Some(ChordQuality::Augmented)
    } else if seq_eq_ci(s, "sus2"@) {
        Some(ChordQuality::Sus2)
    } else if seq_eq_ci(s, "sus4"@) {
        Some(ChordQuality::Sus4)
    } else if seq_eq_ci(s, "maj7"@) || seq_eq_ci(s, "major7"@) {
        Some(ChordQuality::Major7)
    } else if seq_eq_ci(s, "min7"@) || seq_eq_ci(s, "minor7"@) {
        Some(ChordQuality::Minor7)
    } else if seq_eq_ci(s, "min7b5"@) || seq_eq_ci(s, "minor7b5"@) {
        Some(ChordQuality::Minor7b5)
    } else if seq_eq_ci(s, "minmaj7"@) || seq_eq_ci(s, "minormajor7"@) {
        Some(ChordQuality::MinorMajor7)
    } else if seq_eq_ci(s, "maj6"@) || seq_eq_ci(s, "major6"@) {
        Some(ChordQuality::Major6)
    } else if seq_eq_ci(s, "min6"@) || seq_eq_ci(s, "minor6"@) {
        Some(ChordQuality::Minor6)
    } else if seq_eq_ci(s, "7"@) || seq_eq_ci(s, "dom7"@) || seq_eq_ci(s, "dominant7"@) {
        Some(ChordQuality::Dominant7)
    } else if seq_eq_ci(s, "maj9"@) || seq_eq_ci(s, "major9"@) {
        Some(ChordQuality::Major9)
    } else if seq_eq_ci(s, "min9"@) || seq_eq_ci(s, "minor9"@) {
        Some(ChordQuality::Minor9)
    } else if seq_eq_ci(s, "dom9"@) || seq_eq_ci(s, "dominant9"@) {
        Some(ChordQuality::Dominant9)
    } else {
        None
    }
}

impl ChordQuality {
    /// Semitones relative to the chord root, in root position.
    pub fn to_semitones(&self) -> (r: Vec<u8>)
        ensures
            r@ == spec_quality_semitones(*self),
    {
        let r: Vec<u8> = match self {
            Self::Major => vec![0, 4, 7],
            Self::Minor => vec![0, 3, 7],
            Self::Diminished => vec![0, 3, 6],
            Self::Augmented => vec![0, 4, 8],
            Self::Sus2 => vec![0, 2, 7],
            Self::Sus4 => vec![0, 5, 7],
            Self::Major7 => vec![0, 4, 7, 11],
            Self::Minor7 => vec![0, 3, 7, 10],
            Self::Minor7b5 => vec![0, 3, 6, 10],
            Self::MinorMajor7 => vec![0, 3, 7, 11],
            Self::Major6 => vec![0, 4, 7, 9],
            Self::Minor6 => vec![0, 3, 7, 9],
            Self::Dominant7 => vec![0, 4, 7, 10],
            Self::Major9 => vec![0, 4, 7, 11, 14],
            Self::Minor9 => vec![0, 3, 7, 10, 14],
            Self::Dominant9 => vec![0, 4, 7, 10, 14],
        };
        proof {
            assert(r@ =~= spec_quality_semitones(*self));
        }
        r
    }

    /// Read a chord quality name, case-insensitively.
    pub fn from_str(s: &str) -> (r: Result<ChordQuality, String>)
        ensures
            match r {
                Ok(q) => spec_quality_parse(s@) == Some(q),
                Err(_) => spec_quality_parse(s@) is None,
            },
    {
        if str_eq_ci(s, "maj") || str_eq_ci(s, "major") {
            Ok(ChordQuality::Major)
        } else if str_eq_ci(s, "min") || str_eq_ci(s, "minor") {
            Ok(ChordQuality::Minor)
        } else if str_eq_ci(s, "dim") || str_eq_ci(s, "diminished") {
            Ok(ChordQuality::Diminished)
        } else if str_eq_ci(s, "aug") || str_eq_ci(s, "augmented") {
            Ok(ChordQuality::Augmented)
        } else if str_eq_ci(s, "sus2") {
            Ok(ChordQuality::Sus2)
        } else if str_eq_ci(s, "sus4") {
            Ok(ChordQuality::Sus4)
        } else if str_eq_ci(s, "maj7") || str_eq_ci(s, "major7") {
            Ok(ChordQuality::Major7)
        } else if str_eq_ci(s, "min7") || str_eq_ci(s, "minor7") {
            Ok(ChordQuality::Minor7)
        } else if str_eq_ci(s, "min7b5") || str_eq_ci(s, "minor7b5") {
            Ok(ChordQuality::Minor7b5)
        } else if str_eq_ci(s, "minmaj7") || str_eq_ci(s, "minormajor7") {
            Ok(ChordQuality::MinorMajor7)
        } else if str_eq_ci(s, "maj6") || str_eq_ci(s, "major6") {
            Ok(ChordQuality::Major6)
        } else if str_eq_ci(s, "min6") || str_eq_ci(s, "minor6") {
            Ok(ChordQuality::Minor6)
        } else if str_eq_ci(s, "7") || str_eq_ci(s, "dom7") || str_eq_ci(s, "dominant7") {
            Ok(ChordQuality::Dominant7)
        } else if str_eq_ci(s, "maj9") || str_eq_ci(s, "major9") {
            Ok(ChordQuality::Major9)
        } else if str_eq_ci(s, "min9") || str_eq_ci(s, "minor9") {
            Ok(ChordQuality::Minor9)
        } else if str_eq_ci(s, "dom9") || str_eq_ci(s, "dominant9") {
            Ok(ChordQuality::Dominant9)
        } else {
            Err("Unknown chord quality".to_owned())
        }
    }
}

/// Drops or inverts chord members after construction.
#[derive(Clone, Debug)]
pub struct ChordTransform {
    pub inversion: u8,
    pub omit: Vec<u8>,
}

/// A chord: a root pitch spelled out into its member pitches.
#[derive(Debug)]
pub struct Chord {
    pub root: Pitch,
    pub pitches: Vec<Pitch>,
    pub quality: ChordQuality,
    pub transform: Option<ChordTransform>,
}

/// Whether a chord on this root stays inside the MIDI range, so that
/// [`Chord::new`] can spell every member.
pub open spec fn chord_in_range(root: Pitch, quality: ChordQuality) -> bool {
    &&& pitch_in_range(root)
    &&& forall|k: int|
        0 <= k < spec_quality_semitones(quality).len() ==> spec_semitone(root)
            + #[trigger] spec_quality_semitones(quality)[k] <= 127
}

impl Chord {
    pub fn new(root: Pitch, quality: ChordQuality, transform: Option<ChordTransform>) -> (c:
        Chord)
        requires
            chord_in_range(root, quality),
        ensures
            c.root == root,
            c.quality == quality,
            c.transform == transform,
            c.pitches@.len() == spec_quality_semitones(quality).len(),
            forall|k: int|
                0 <= k < c.pitches@.len() ==> #[trigger] c.pitches@[k] == spec_pitch_of_semitone(
                    (spec_semitone(root) + spec_quality_semitones(quality)[k]) as u8,
                    false,
                ),
    {
        let mut pitches: Vec<Pitch> = Vec::new();
        let rel_semitones = quality.to_semitones();
        let root_semi = root.to_semitone();
        let mut i: usize = 0;
        while i < rel_semitones.len()
            invariant
                i <= rel_semitones.len(),
                rel_semitones@ == spec_quality_semitones(quality),
                root_semi == spec_semitone(root),
                chord_in_range(root, quality),
                pitches@.len() == i,
                forall|k: int|
                    0 <= k < i ==> #[trigger] pitches@[k] == spec_pitch_of_semitone(
                        (spec_semitone(root) + spec_quality_semitones(quality)[k]) as u8,
                        false,
                    ),
            decreases rel_semitones.len() - i,
        {
            let s = rel_semitones[i];
            let abs = s + root_semi;
            pitches.push(Pitch::from_semitone(abs, false));
            i = i + 1;
        }
        Self { root, pitches, quality, transform }
    }
}

// ---------------------------------------------------------------------------
// Notations and directions
// ---------------------------------------------------------------------------
/// An unpitched note's display position.
#[derive(Clone, Copy, Debug)]
pub struct Unpitched {
    pub display_step: NaturalTone,
    pub display_octave: i8,
}

/// A tuplet bracket.
#[derive(Clone, Copy, Debug)]
pub struct Tuplet {
    pub kind: StartStop,
}

/// The notations that can hang off a note.
#[derive(Clone, Copy, Debug)]
pub enum NotationType {
    Tied(Tied),
    Slur,
    Tuplet(Tuplet),
    Glissando,
    Slide,
    Ornaments,
    Technical,
    Articulations,
    Fermata,
    Arpeggiate,
    NonArpeggiate,
    AccidentalMark,
    OtherNotation,
}

/// A `<notations>` element.
#[derive(Clone, Debug)]
pub struct Notations {
    pub items: Vec<NotationType>,
    pub footnote: Option<String>,
    pub level: Option<String>,
}

/// What a `<direction>` carries: text, a metronome mark, or dynamics.
#[derive(Clone, Debug)]
pub enum DirectionType {
    Words(String),
    Metronome { beat_unit: String, per_minute: u32 },
    Dynamics(Dynamics),
}

/// A `<direction>` element.
#[derive(Clone, Debug)]
pub struct Direction {
    pub kind: DirectionType,
    pub placement: Option<String>,
    pub staff: Option<u8>,
}

} // verus!

verus! {

// ---------------------------------------------------------------------------
// Notes
// ---------------------------------------------------------------------------
/// A `<note>` element: a pitched or unpitched note, or a rest, with its
/// duration in ticks.
#[derive(Clone, Debug)]
pub struct Note {
    pub kind: NoteType,
    pub pitch: Option<Pitch>,
    pub unpitched: Option<Unpitched>,
    pub is_chord: bool,
    pub duration: u32,
    pub staff: Option<u8>,
    pub voice: Option<u8>,
    pub time_mod: Option<TimeModification>,
    pub notations: Option<Notations>,
    pub dots: Option<u8>,
    pub tie: Option<StartStop>,
    pub is_measure_rest: bool,
}

/// Everything a [`Note`] is built from; `duration_override` replaces the
/// computed duration for measure rests.
#[derive(Clone, Debug)]
pub struct NoteCreateInfo {
    pub kind: NoteType,
    pub divisions: u32,
    pub is_chord: bool,
    pub pitch: Option<Pitch>,
    pub unpitched: Option<Unpitched>,
    pub staff: Option<u8>,
    pub voice: Option<u8>,
    pub time_mod: Option<TimeModification>,
    pub notations: Option<Notations>,
    pub dots: Option<u8>,
    pub tie: Option<StartStop>,
    pub is_measure_rest: bool,
    pub duration_override: Option<u32>,
}

impl Default for NoteCreateInfo {
    /// A plain quarter note at 480 ticks per quarter, with nothing set.
    fn default() -> (r: Self)
        ensures
            r == spec_default_note_ci(),
    {
        Self {
            kind: NoteType::Quarter,
            pitch: None,
            unpitched: None,
            divisions: 480,
            is_chord: false,
            staff: None,
            voice: None,
            time_mod: None,
            notations: None,
            dots: None,
            tie: None,
            is_measure_rest: false,
            duration_override: None,
        }
    }
}

/// The default note options: a quarter note at 480 ticks per quarter.
pub open spec fn spec_default_note_ci() -> NoteCreateInfo {
    NoteCreateInfo {
        kind: NoteType::Quarter,
        pitch: None,
        unpitched: None,
        divisions: 480,
        is_chord: false,
        staff: None,
        voice: None,
        time_mod: None,
        notations: None,
        dots: None,
        tie: None,
        is_measure_rest: false,
        duration_override: None,
    }
}

/// The index of the first character of `s` that is not `~`, if any.
pub open spec fn spec_first_non_tilde(s: Seq<char>) -> Option<int> {
    if exists|k: int| 0 <= k < s.len() && s[k] != '~' {
        Some(
            choose|k: int|
                0 <= k < s.len() && s[k] != '~' && forall|j: int| 0 <= j < k ==> s[j] == '~',
        )
    } else {
        None
    }
}

/// The parse of a compact note literal such as `C#4:h.` or `h.` (a rest),
/// with `~` anywhere in the duration part marking the start of a tie.
/// `None` stands for the one input family the reader refuses to touch:
/// a duration whose first effective character is not a duration letter.
pub open spec fn spec_note_ci_parse(s: Seq<char>) -> Option<Result<NoteCreateInfo, ()>> {
    let colons = spec_count_char(s, ':');
    if colons >= 2 {
        Some(Err(()))
    } else {
        let (pitch_opt, dur): (Option<Pitch>, Seq<char>) = if colons == 1 {
            let k = spec_find_char(s, ':').unwrap();
            (
                match spec_pitch_parse(s.subrange(0, k)) {
                    Ok(p) => Some(p),
                    Err(_) => None,
                },
                s.subrange(k + 1, s.len() as int),
            )
        } else {
            (None, s)
        };
        if colons == 1 && spec_pitch_parse(s.subrange(0, spec_find_char(s, ':').unwrap())) is Err {
            Some(Err(()))
        } else {
            match spec_first_non_tilde(dur) {
                None => Some(Err(())),
                Some(k0) => {
                    match spec_note_type_of_char(dur[k0]) {
                        None => None,
                        Some(kind) => {
                            let dot_cnt = spec_count_char(dur, '.');
                            let dots: Option<u8> = if dot_cnt > 0 {
                                Some((dot_cnt % 256) as u8)
                            } else {
                                None
                            };
                            let tie: Option<StartStop> = if spec_count_char(dur, '~') > 0 {
                                Some(StartStop::Start)
                            } else {
                                None
                            };
                            Some(
                                Ok(
                                    NoteCreateInfo {
                                        pitch: pitch_opt,
                                        kind,
                                        dots,
                                        tie,
                                        ..spec_default_note_ci()
                                    },
                                ),
                            )
                        },
                    }
                },
            }
        }
    }
}

proof fn lemma_count_char_zero(s: Seq<char>, c: char)
    requires
        forall|k: int| 0 <= k < s.len() ==> s[k] != c,
    ensures
        spec_count_char(s, c) == 0,
    decreases s.len(),
{
    if s.len() > 0 {
        lemma_count_char_zero(s.drop_last(), c);
    }
}

impl NoteCreateInfo {
    /// Parse a compact note literal: an optional pitch, a colon, then a
    /// duration letter with dots, and `~` marking a tie start.
    pub fn from_str(s: &str) -> (r: Result<NoteCreateInfo, String>)
        requires
            spec_note_ci_parse(s@) is Some,
        ensures
            match r {
                Ok(ci) => spec_note_ci_parse(s@) == Some(Ok::<NoteCreateInfo, ()>(ci)),
                Err(_) => spec_note_ci_parse(s@) == Some(Err::<NoteCreateInfo, ()>(())),
            },
    {
        let len = s.unicode_len();
        let colons = count_char(s, ':');
        if colons >= 2 {
            return Err("Expected format like C#4:h.".to_owned());
        }
        let (pitch_opt, dur): (Option<Pitch>, &str) = if colons == 1 {
            let k = match find_char(s, ':') {
                Some(k) => k,
                None => {
                    proof {
                        lemma_count_char_zero(s@, ':');
                    }
                    // count says one colon exists; unreachable, but keep a
                    // well-typed result
                    return Err("Expected format like C#4:h.".to_owned());
                },
            };
            proof {
                assert(spec_find_char(s@, ':') == Some(k as int));
            }
            let pitch_part = s.substring_char(0, k);
            match Pitch::from_str(pitch_part) {
                Ok(p) => (Some(p), s.substring_char(k + 1, len)),
                Err(_) => {
                    return Err("Invalid pitch".to_owned());
                },
            }
        } else {
            (None, s)
        };
        // Find the duration letter: the first character that is not a tie
        // marker.
        let dlen = dur.unicode_len();
        let mut k0: usize = 0;
        while k0 < dlen && dur.get_char(k0) == '~'
            invariant
                k0 <= dlen,
                dlen == dur@.len(),
                forall|j: int| 0 <= j < k0 ==> dur@[j] == '~',
            decreases dlen - k0,
        {
            k0 = k0 + 1;
        }
        if k0 >= dlen {
            proof {
                assert(spec_first_non_tilde(dur@) is None);
            }
            return Err("Missing note type".to_owned());
        }
        proof {
            assert(spec_first_non_tilde(dur@) == Some(k0 as int));
        }
        let kind = NoteType::from_char(dur.get_char(k0));
        let dot_cnt = count_char(dur, '.');
        let tie = if count_char(dur, '~') > 0 {
            Some(StartStop::Start)
        } else {
            None
        };
        proof {
            if spec_count_char(dur@, '~') == 0 {
                lemma_count_char_zero_no_occurrence(dur@, '~');
            } else {
                lemma_count_char_pos_exists(dur@, '~');
            }
        }
        let dots = if dot_cnt > 0 {
            Some((dot_cnt % 256) as u8)
        } else {
            None
        };
        let r = NoteCreateInfo { pitch: pitch_opt, kind, dots, tie, ..Default::default() };
        proof {
            let spdur: Seq<char> = if colons == 1 {
                s@.subrange(spec_find_char(s@, ':').unwrap() + 1, s@.len() as int)
            } else {
                s@
            };
            assert(spdur == dur@);
        }
        Ok(r)
    }
}

proof fn lemma_count_char_zero_no_occurrence(s: Seq<char>, c: char)
    requires
        spec_count_char(s, c) == 0,
    ensures
        forall|k: int| 0 <= k < s.len() ==> s[k] != c,
    decreases s.len(),
{
    if s.len() > 0 {
        lemma_count_char_nonneg(s.drop_last(), c);
        lemma_count_char_zero_no_occurrence(s.drop_last(), c);
        assert(s.last() != c);
        assert forall|k: int| 0 <= k < s.len() implies s[k] != c by {
            if k < s.len() - 1 {
                assert(s[k] == s.drop_last()[k]);
            } else {
                assert(s[k] == s.last());
            }
        }
    }
}

proof fn lemma_count_char_at_least_one(s: Seq<char>, c: char, k: int)
    requires
        0 <= k < s.len(),
        s[k] == c,
    ensures
        spec_count_char(s, c) >= 1,
    decreases s.len(),
{
    if k == s.len() - 1 {
        assert(spec_count_char(s.drop_last(), c) >= 0) by {
            lemma_count_char_nonneg(s.drop_last(), c);
        }
    } else {
        lemma_count_char_at_least_one(s.drop_last(), c, k);
    }
}

proof fn lemma_count_char_nonneg(s: Seq<char>, c: char)
    ensures
        spec_count_char(s, c) >= 0,
    decreases s.len(),
{
    if s.len() > 0 {
        lemma_count_char_nonneg(s.drop_last(), c);
    }
}

proof fn lemma_count_char_pos_exists(s: Seq<char>, c: char)
    requires
        spec_count_char(s, c) > 0,
    ensures
        exists|k: int| 0 <= k < s.len() && s[k] == c,
    decreases s.len(),
{
    if s.len() > 0 {
        if s.last() == c {
            assert(s[s.len() - 1] == c);
        } else {
            lemma_count_char_pos_exists(s.drop_last(), c);
            let k = choose|k: int| 0 <= k < s.drop_last().len() && s.drop_last()[k] == c;
            assert(s[k] == c);
        }
    }
}

impl Note {
    /// Build a note; measure rests take their duration from the override,
    /// every other note computes it from type, dots and tuplet ratio.
    pub fn new(opt: NoteCreateInfo) -> (n: Note)
        requires
            opt.is_measure_rest ==> opt.duration_override is Some,
            !opt.is_measure_rest ==> opt.divisions * 32 <= u32::MAX && spec_dots_count(opt.dots)
                <= 3 && spec_dotted_duration(
                spec_base_duration(opt.kind, opt.divisions as int),
                spec_dots_count(opt.dots),
            ) <= u32::MAX && match opt.time_mod {
                Some(tm) => tm.actual_note_beats > 0 && spec_dotted_duration(
                    spec_base_duration(opt.kind, opt.divisions as int),
                    spec_dots_count(opt.dots),
                ) * tm.normal_note_beats <= u32::MAX,
                None => true,
            },
        ensures
            n.kind == opt.kind,
            n.pitch == opt.pitch,
            n.unpitched == opt.unpitched,
            n.is_chord == opt.is_chord,
            n.staff == opt.staff,
            n.voice == opt.voice,
            n.time_mod == opt.time_mod,
            n.notations == opt.notations,
            n.dots == opt.dots,
            n.tie == opt.tie,
            n.is_measure_rest == opt.is_measure_rest,
            n.duration as int == spec_note_duration_of(opt),
    {
        let duration: u32 = if opt.is_measure_rest {
            match opt.duration_override {
                Some(d) => d,
                None => 0,  // excluded by the precondition
            }
        } else {
            opt.kind.to_duration(opt.divisions, opt.dots, opt.time_mod.as_ref())
        };
        Self {
            kind: opt.kind,
            pitch: opt.pitch,
            unpitched: opt.unpitched,
            is_chord: opt.is_chord,
            duration,
            staff: opt.staff,
            voice: opt.voice,
            time_mod: opt.time_mod,
            notations: opt.notations,
            dots: opt.dots,
            tie: opt.tie,
            is_measure_rest: opt.is_measure_rest,
        }
    }

    /// Whether the note is a rest.
    pub fn is_rest(self) -> (r: bool)
        ensures
            r == (self.pitch is None),
    {
        match self.pitch {
            Some(_) => false,
            None => true,
        }
    }
}

/// The duration, in ticks, that [`Note::new`] assigns.
pub open spec fn spec_note_duration_of(opt: NoteCreateInfo) -> int {
    if opt.is_measure_rest {
        opt.duration_override.unwrap() as int
    } else {
        spec_duration(opt.kind, opt.divisions as int, spec_dots_count(opt.dots), opt.time_mod)
    }
}

} // verus!

verus! {

// ---------------------------------------------------------------------------
// Serialization of the leaf elements
// ---------------------------------------------------------------------------
/// Shorthand: a text element without attributes at nesting depth `d`.
pub open spec fn spec_elem(d: nat, tag: Seq<char>, text: Seq<char>) -> Seq<char> {
    xml::spec_text_element(d * 2, tag, Seq::<char>::empty(), text)
}

/// The text of a `<pitch>` element at nesting depth `d`.
pub open spec fn spec_pitch_xml(p: Pitch, d: nat) -> Seq<char> {
    xml::spec_open_tag(d * 2, "pitch"@, Seq::<char>::empty()) + spec_elem(
        d + 1,
        "step"@,
        seq![spec_tone_char(p.step)],
    ) + (match p.alter {
        Some(a) => spec_elem(d + 1, "alter"@, spec_int_str(a as int)),
        None => Seq::<char>::empty(),
    }) + spec_elem(d + 1, "octave"@, spec_int_str(p.octave as int)) + xml::spec_close_tag(
        d * 2,
        "pitch"@,
    )
}

/// A one-character string for a tone letter.
fn tone_string(t: &NaturalTone) -> (s: String)
    ensures
        s@ == seq![spec_tone_char(*t)],
{
    let s = match t {
        NaturalTone::C => "C".to_owned(),
        NaturalTone::D => "D".to_owned(),
        NaturalTone::E => "E".to_owned(),
        NaturalTone::F => "F".to_owned(),
        NaturalTone::G => "G".to_owned(),
        NaturalTone::A => "A".to_owned(),
        NaturalTone::B => "B".to_owned(),
    };
    proof {
        reveal_strlit("C");
        reveal_strlit("D");
        reveal_strlit("E");
        reveal_strlit("F");
        reveal_strlit("G");
        reveal_strlit("A");
        reveal_strlit("B");
        assert(s@ =~= seq![spec_tone_char(*t)]);
    }
    s
}

impl Pitch {
    /// Append this pitch as a `<pitch>` element.
    pub fn write_to(&self, writer: &mut xml::Writer)
        requires
            old(writer).depth() < 0x0fff_0000,
        ensures
            final(writer).text() == old(writer).text() + spec_pitch_xml(
                *self,
                old(writer).depth(),
            ),
            final(writer).depth() == old(writer).depth(),
    {
        writer.open_tag("pitch", None);
        let step_s = tone_string(&self.step);
        writer.text_element("step", step_s.as_str());
        if let Some(alter) = self.alter {
            let alter_s = i64_to_string(alter as i64);
            writer.text_element("alter", alter_s.as_str());
        }
        let octave_s = i64_to_string(self.octave as i64);
        writer.text_element("octave", octave_s.as_str());
        writer.close_tag("pitch");
        proof {
            assert(final(writer).text() =~= old(writer).text() + spec_pitch_xml(
                *self,
                old(writer).depth(),
            ));
        }
    }
}

/// Moves the time cursor back a set duration in ticks.
#[derive(Clone, Debug)]
pub struct Backup {
    pub duration: u32,
    pub footnote: Option<String>,
    pub level: Option<String>,
}

/// Moves the time cursor forward a set duration in ticks.
#[derive(Clone, Debug)]
pub struct Forward {
    pub duration: u32,
    pub footnote: Option<String>,
    pub level: Option<String>,
    pub staff: Option<u8>,
}

/// The combined tick duration of a run of plain note types.
pub open spec fn spec_note_types_total(kinds: Seq<NoteType>, divisions: int) -> int
    decreases kinds.len(),
{
    if kinds.len() == 0 {
        0
    } else {
        spec_note_types_total(kinds.drop_last(), divisions) + spec_duration(
            kinds.last(),
            divisions,
            0,
            None,
        )
    }
}

proof fn lemma_note_types_total_nonneg(kinds: Seq<NoteType>, divisions: int)
    requires
        divisions >= 0,
    ensures
        spec_note_types_total(kinds, divisions) >= 0,
    decreases kinds.len(),
{
    if kinds.len() > 0 {
        lemma_note_types_total_nonneg(kinds.drop_last(), divisions);
    }
}

proof fn lemma_note_types_total_prefix(kinds: Seq<NoteType>, divisions: int, n: int)
    requires
        divisions >= 0,
        0 <= n <= kinds.len(),
    ensures
        spec_note_types_total(kinds.subrange(0, n), divisions) <= spec_note_types_total(
            kinds,
            divisions,
        ),
    decreases kinds.len() - n,
{
    if n == kinds.len() {
        assert(kinds.subrange(0, n) =~= kinds);
    } else {
        lemma_note_types_total_prefix(kinds, divisions, n + 1);
        let longer = kinds.subrange(0, n + 1);
        assert(longer.drop_last() =~= kinds.subrange(0, n));
        lemma_note_types_total_nonneg(kinds.subrange(0, n), divisions);
    }
}

/// The text of a `<backup>` element at nesting depth `d`.
pub open spec fn spec_backup_xml(b: Backup, d: nat) -> Seq<char> {
    xml::spec_open_tag(d * 2, "backup"@, Seq::<char>::empty()) + spec_elem(
        d + 1,
        "duration"@,
        spec_digits(b.duration as nat),
    ) + xml::spec_close_tag(d * 2, "backup"@)
}

impl Backup {
    /// A backup equal in ticks to the given run of plain note types.
    pub fn from_note_types(kinds: &Vec<NoteType>, divisions: u32) -> (b: Backup)
        requires
            divisions * 32 <= u32::MAX,
            spec_note_types_total(kinds@, divisions as int) <= u32::MAX,
        ensures
            b.duration as int == spec_note_types_total(kinds@, divisions as int),
            b.footnote is None,
            b.level is None,
    {
        let mut duration: u32 = 0;
        let mut i: usize = 0;
        while i < kinds.len()
            invariant
                i <= kinds.len(),
                divisions * 32 <= u32::MAX,
                spec_note_types_total(kinds@, divisions as int) <= u32::MAX,
                duration as int == spec_note_types_total(
                    kinds@.subrange(0, i as int),
                    divisions as int,
                ),
            decreases kinds.len() - i,
        {
            let d = kinds[i].to_duration(divisions, None, None);
            proof {
                let cur = kinds@.subrange(0, i + 1);
                assert(cur.drop_last() =~= kinds@.subrange(0, i as int));
                lemma_note_types_total_prefix(kinds@, divisions as int, i + 1);
            }
            duration = duration + d;
            i = i + 1;
        }
        proof {
            assert(kinds@.subrange(0, kinds@.len() as int) =~= kinds@);
        }
        Backup { duration, footnote: None, level: None }
    }

    /// Append this backup as a `<backup>` element.
    pub fn write_to(&self, writer: &mut xml::Writer)
        requires
            old(writer).depth() < 0x0fff_0000,
        ensures
            final(writer).text() == old(writer).text() + spec_backup_xml(
                *self,
                old(writer).depth(),
            ),
            final(writer).depth() == old(writer).depth(),
    {
        writer.open_tag("backup", None);
        let dur_s = u64_to_string(self.duration as u64);
        writer.text_element("duration", dur_s.as_str());
        writer.close_tag("backup");
        proof {
            assert(final(writer).text() =~= old(writer).text() + spec_backup_xml(
                *self,
                old(writer).depth(),
            ));
        }
    }
}

/// The text of a `<time-modification>` element at nesting depth `d`.
pub open spec fn spec_time_mod_xml(tm: TimeModification, d: nat) -> Seq<char> {
    xml::spec_open_tag(d * 2, "time-modification"@, Seq::<char>::empty()) + spec_elem(
        d + 1,
        "actual-notes"@,
        spec_digits(tm.actual_note_beats as nat),
    ) + spec_elem(d + 1, "normal-notes"@, spec_digits(tm.normal_note_beats as nat)) + (
    match tm.normal_note_type {
        Some(t) => spec_elem(d + 1, "normal-type"@, spec_note_type_str(t)),
        None => Seq::<char>::empty(),
    }) + xml::spec_close_tag(d * 2, "time-modification"@)
}

impl TimeModification {
    /// Append this ratio as a `<time-modification>` element.
    pub fn write_to(&self, writer: &mut xml::Writer)
        requires
            old(writer).depth() < 0x0fff_0000,
        ensures
            final(writer).text() == old(writer).text() + spec_time_mod_xml(
                *self,
                old(writer).depth(),
            ),
            final(writer).depth() == old(writer).depth(),
    {
        writer.open_tag("time-modification", None);
        let a_s = u64_to_string(self.actual_note_beats as u64);
        writer.text_element("actual-notes", a_s.as_str());
        let n_s = u64_to_string(self.normal_note_beats as u64);
        writer.text_element("normal-notes", n_s.as_str());
        if let Some(t) = &self.normal_note_type {
            let t_s = t.to_string();
            writer.text_element("normal-type", t_s.as_str());
        }
        writer.close_tag("time-modification");
        proof {
            assert(final(writer).text() =~= old(writer).text() + spec_time_mod_xml(
                *self,
                old(writer).depth(),
            ));
        }
    }
}

} // verus!

verus! {


/// A one-pair attribute list.
fn attrs1<'a>(k: &'a str, v: &'a str) -> (r: xml::XmlAttributes<'a>)
    ensures
        xml::spec_attrs(r@) == xml::spec_attr_pair(k@, v@),
{
    let mut pairs: Vec<(&'a str, &'a str)> = Vec::new();
    pairs.push((k, v));
    proof {
        assert(pairs@.drop_last() =~= Seq::<(&'a str, &'a str)>::empty());
        assert(xml::spec_attrs(Seq::<(&'a str, &'a str)>::empty()) =~= Seq::<char>::empty());
        assert(xml::spec_attrs(pairs@) =~= xml::spec_attr_pair(k@, v@));
    }
    xml::XmlAttributes::new(pairs)
}

/// The text of one notation at nesting depth `d`; only tuplets are
/// serializable.
pub open spec fn spec_notation_xml(n: NotationType, d: nat) -> Seq<char> {
    match n {
        NotationType::Tuplet(t) => xml::spec_self_closing_tag(
            d * 2,
            "tuplet"@,
            xml::spec_attr_pair("type"@, spec_start_stop_str(t.kind)),
        ),
        _ => Seq::<char>::empty(),
    }
}

impl NotationType {
    /// Append this notation; only tuplets are supported.
    pub fn write_to(&self, writer: &mut xml::Writer)
        requires
            self is Tuplet,
        ensures
            final(writer).text() == old(writer).text() + spec_notation_xml(
                *self,
                old(writer).depth(),
            ),
            final(writer).depth() == old(writer).depth(),
    {
        match self {
            Self::Tuplet(t) => {
                let kind_s = t.kind.to_string();
                let attrs = attrs1("type", kind_s.as_str());
                writer.self_closing_tag("tuplet", Some(attrs));
                proof {
                    assert(final(writer).text() =~= old(writer).text() + spec_notation_xml(
                        *self,
                        old(writer).depth(),
                    ));
                }
            },
            _ => {
                proof {
                    assert(false);
                }
            },
        }
    }
}

/// The items of a `<notations>` element, in order, at nesting depth `d`.
pub open spec fn spec_notation_items_xml(items: Seq<NotationType>, d: nat) -> Seq<char>
    decreases items.len(),
{
    if items.len() == 0 {
        Seq::<char>::empty()
    } else {
        spec_notation_items_xml(items.drop_last(), d) + spec_notation_xml(items.last(), d)
    }
}

/// The text of a `<notations>` element at nesting depth `d`.
pub open spec fn spec_notations_xml(n: Notations, d: nat) -> Seq<char> {
    xml::spec_open_tag(d * 2, "notations"@, Seq::<char>::empty()) + spec_notation_items_xml(
        n.items@,
        d + 1,
    ) + xml::spec_close_tag(d * 2, "notations"@)
}

impl Notations {
    /// Append this notation set as a `<notations>` element.
    #[verifier::rlimit(50)]
    pub fn write_to(&self, writer: &mut xml::Writer)
        requires
            old(writer).depth() < 0x0fff_0000,
            forall|k: int| 0 <= k < self.items@.len() ==> self.items@[k] is Tuplet,
        ensures
            final(writer).text() == old(writer).text() + spec_notations_xml(
                *self,
                old(writer).depth(),
            ),
            final(writer).depth() == old(writer).depth(),
    {
        writer.open_tag("notations", None);
        let mut i: usize = 0;
        let ghost mid = writer.text();
        let ghost d = writer.depth();
        while i < self.items.len()
            invariant
                i <= self.items.len(),
                forall|k: int| 0 <= k < self.items@.len() ==> self.items@[k] is Tuplet,
                writer.depth() == d,
                writer.text() == mid + spec_notation_items_xml(self.items@.subrange(0, i as int), d),
            decreases self.items.len() - i,
        {
            self.items[i].write_to(writer);
            proof {
                let cur = self.items@.subrange(0, i + 1);
                assert(cur.drop_last() =~= self.items@.subrange(0, i as int));
                assert(cur.last() == self.items@[i as int]);
                assert(writer.text() =~= mid + spec_notation_items_xml(cur, d));
            }
            i = i + 1;
        }
        proof {
            assert(self.items@.subrange(0, self.items@.len() as int) =~= self.items@);
        }
        writer.close_tag("notations");
        proof {
            assert(final(writer).text() =~= old(writer).text() + spec_notations_xml(
                *self,
                old(writer).depth(),
            ));
        }
    }
}

/// The attribute text a direction's placement contributes.
pub open spec fn spec_placement_attrs(placement: Option<String>) -> Seq<char> {
    match placement {
        Some(p) => xml::spec_attr_pair("placement"@, p@),
        None => Seq::<char>::empty(),
    }
}

/// The body of a `<direction-type>` element at nesting depth `d`.
pub open spec fn spec_direction_kind_xml(kind: DirectionType, d: nat) -> Seq<char> {
    match kind {
        DirectionType::Words(text) => spec_elem(d, "words"@, text@),
        DirectionType::Metronome { beat_unit, per_minute } => xml::spec_open_tag(
            d * 2,
            "metronome"@,
            Seq::<char>::empty(),
        ) + spec_elem(d + 1, "beat-unit"@, beat_unit@) + spec_elem(
            d + 1,
            "per-minute"@,
            spec_digits(per_minute as nat),
        ) + xml::spec_close_tag(d * 2, "metronome"@),
        DirectionType::Dynamics(v) => xml::spec_open_tag(d * 2, "dynamics"@, Seq::<char>::empty())
            + xml::spec_self_closing_tag((d + 1) * 2, spec_dynamics_str(v), Seq::<char>::empty())
            + xml::spec_close_tag(d * 2, "dynamics"@),
    }
}

/// The text of a `<direction>` element at nesting depth `d`.
pub open spec fn spec_direction_xml(dir: Direction, d: nat) -> Seq<char> {
    xml::spec_open_tag(d * 2, "direction"@, spec_placement_attrs(dir.placement))
        + xml::spec_open_tag((d + 1) * 2, "direction-type"@, Seq::<char>::empty())
        + spec_direction_kind_xml(dir.kind, (d + 2) as nat) + xml::spec_close_tag(
        (d + 1) * 2,
        "direction-type"@,
    ) + (match dir.staff {
        Some(s) => spec_elem(d + 1, "staff"@, spec_digits(s as nat)),
        None => Seq::<char>::empty(),
    }) + xml::spec_close_tag(d * 2, "direction"@)
}

impl Direction {
    fn write_kind(&self, writer: &mut xml::Writer)
        requires
            old(writer).depth() < 0x0fff_0000,
        ensures
            final(writer).text() == old(writer).text() + spec_direction_kind_xml(
                self.kind,
                old(writer).depth(),
            ),
            final(writer).depth() == old(writer).depth(),
    {
        let ghost d = old(writer).depth();
        match &self.kind {
            DirectionType::Words(text) => {
                writer.text_element("words", text.as_str());
            },
            DirectionType::Metronome { beat_unit, per_minute } => {
                writer.open_tag("metronome", None);
                writer.text_element("beat-unit", beat_unit.as_str());
                let pm_s = u64_to_string(*per_minute as u64);
                writer.text_element("per-minute", pm_s.as_str());
                writer.close_tag("metronome");
            },
            DirectionType::Dynamics(value) => {
                writer.open_tag("dynamics", None);
                writer.self_closing_tag(value.as_str(), None);
                writer.close_tag("dynamics");
            },
        }
        proof {
            assert(final(writer).text() =~= old(writer).text() + spec_direction_kind_xml(
                self.kind,
                d,
            ));
        }
    }

    /// Append this direction as a `<direction>` element.
    #[verifier::rlimit(50)]
    pub fn write_to(&self, writer: &mut xml::Writer)
        requires
            old(writer).depth() < 0x0ff0_0000,
        ensures
            final(writer).text() == old(writer).text() + spec_direction_xml(
                *self,
                old(writer).depth(),
            ),
            final(writer).depth() == old(writer).depth(),
    {
        let ghost d = old(writer).depth();
        match &self.placement {
            Some(place) => {
                let attrs = attrs1("placement", place.as_str());
                writer.open_tag("direction", Some(attrs));
            },
            None => {
                let empty_pairs: Vec<(&str, &str)> = Vec::new();
                proof {
                    assert(xml::spec_attrs(empty_pairs@) =~= Seq::<char>::empty());
                }
                writer.open_tag("direction", Some(xml::XmlAttributes::new(empty_pairs)));
            },
        }
        writer.open_tag("direction-type", None);
        self.write_kind(writer);
        writer.close_tag("direction-type");
        if let Some(staff) = self.staff {
            let staff_s = u64_to_string(staff as u64);
            writer.text_element("staff", staff_s.as_str());
        }
        writer.close_tag("direction");
        proof {
            assert(final(writer).text() =~= old(writer).text() + spec_direction_xml(*self, d));
        }
    }
}

// ---------------------------------------------------------------------------
// Score-level instrument description
// ---------------------------------------------------------------------------
/// A `<score-instrument>` element: how a part names its instrument.
#[derive(Clone, Debug)]
pub struct ScoreInstrument {
    pub id: String,
    pub name: String,
    pub abbreviation: Option<String>,
    pub sound: Option<String>,
    pub solo: bool,
    pub ensemble: Option<u8>,
    pub virtual_library: Option<String>,
    pub virtual_name: Option<String>,
}

impl Default for ScoreInstrument {
    /// All fields empty.
    fn default() -> (r: Self)
        ensures
            r.id@ == Seq::<char>::empty(),
            r.name@ == Seq::<char>::empty(),
            r.abbreviation is None,
            r.sound is None,
            r.solo == false,
            r.ensemble is None,
            r.virtual_library is None,
            r.virtual_name is None,
    {
        ScoreInstrument {
            id: String::new(),
            name: String::new(),
            abbreviation: None,
            sound: None,
            solo: false,
            ensemble: None,
            virtual_library: None,
            virtual_name: None,
        }
    }
}

/// The text of a `<score-instrument>` element at nesting depth `d`.
pub open spec fn spec_score_instrument_xml(si: ScoreInstrument, d: nat) -> Seq<char> {
    xml::spec_open_tag(d * 2, "score-instrument"@, xml::spec_attr_pair("id"@, si.id@)) + spec_elem(
        d + 1,
        "instrument-name"@,
        si.name@,
    ) + (match si.sound {
        Some(s) => spec_elem(d + 1, "instrument-sound"@, s@),
        None => Seq::<char>::empty(),
    }) + xml::spec_close_tag(d * 2, "score-instrument"@)
}

impl ScoreInstrument {
    /// Append this instrument as a `<score-instrument>` element.
    pub fn write_to(&self, writer: &mut xml::Writer)
        requires
            old(writer).depth() < 0x0fff_0000,
        ensures
            final(writer).text() == old(writer).text() + spec_score_instrument_xml(
                *self,
                old(writer).depth(),
            ),
            final(writer).depth() == old(writer).depth(),
    {
        let attrs = attrs1("id", self.id.as_str());
        writer.open_tag("score-instrument", Some(attrs));
        writer.text_element("instrument-name", self.name.as_str());
        if let Some(s) = &self.sound {
            writer.text_element("instrument-sound", s.as_str());
        }
        writer.close_tag("score-instrument");
        proof {
            assert(final(writer).text() =~= old(writer).text() + spec_score_instrument_xml(
                *self,
                old(writer).depth(),
            ));
        }
    }
}

/// A `<midi-instrument>` element: playback hints for MIDI readers.
#[derive(Clone, Debug)]
pub struct MidiInstrument {
    pub id: String,
    pub channel: Option<u8>,
    pub name: Option<String>,
    pub bank: Option<u32>,
    pub program: Option<u8>,
    pub unpitched: Option<u32>,
}

impl Default for MidiInstrument {
    /// All fields empty.
    fn default() -> (r: Self)
        ensures
            r.id@ == Seq::<char>::empty(),
            r.channel is None,
            r.name is None,
            r.bank is None,
            r.program is None,
            r.unpitched is None,
    {
        MidiInstrument {
            id: String::new(),
            channel: None,
            name: None,
            bank: None,
            program: None,
            unpitched: None,
        }
    }
}

/// The text of a `<midi-instrument>` element at nesting depth `d`.
pub open spec fn spec_midi_instrument_xml(mi: MidiInstrument, d: nat) -> Seq<char> {
    xml::spec_open_tag(d * 2, "midi-instrument"@, xml::spec_attr_pair("id"@, mi.id@)) + (
    match mi.program {
        Some(p) => spec_elem(d + 1, "midi-program"@, spec_digits(p as nat)),
        None => Seq::<char>::empty(),
    }) + xml::spec_close_tag(d * 2, "midi-instrument"@)
}

impl MidiInstrument {
    /// Append this instrument as a `<midi-instrument>` element; only the
    /// program number is written.
    pub fn write_to(&self, writer: &mut xml::Writer)
        requires
            old(writer).depth() < 0x0fff_0000,
        ensures
            final(writer).text() == old(writer).text() + spec_midi_instrument_xml(
                *self,
                old(writer).depth(),
            ),
            final(writer).depth() == old(writer).depth(),
    {
        let attrs = attrs1("id", self.id.as_str());
        writer.open_tag("midi-instrument", Some(attrs));
        if let Some(p) = self.program {
            let p_s = u64_to_string(p as u64);
            writer.text_element("midi-program", p_s.as_str());
        }
        writer.close_tag("midi-instrument");
        proof {
            assert(final(writer).text() =~= old(writer).text() + spec_midi_instrument_xml(
                *self,
                old(writer).depth(),
            ));
        }
    }
}

} // verus!

verus! {

// ---------------------------------------------------------------------------
// Measure attributes
// ---------------------------------------------------------------------------
/// Extra staff description, used for percussion staves.
#[derive(Clone, Copy, Debug)]
pub struct StaffDetails {
    pub staff_lines: u8,
}

/// A measure's `<attributes>`: resolution, key, time signature and clefs.
#[derive(Debug)]
pub struct Attributes {
    pub divisions: u32,
    pub key_fifths: i8,
    pub key_mode: Mode,
    pub time_beats: u8,
    pub time_beat_type: u8,
    pub clefs: Vec<Clef>,
    pub staves: Option<usize>,
    pub staff_details: Option<StaffDetails>,
}

/// Whether two attribute records carry the same content.
pub open spec fn attrs_eq(a: Attributes, b: Attributes) -> bool {
    &&& a.divisions == b.divisions
    &&& a.key_fifths == b.key_fifths
    &&& a.key_mode == b.key_mode
    &&& a.time_beats == b.time_beats
    &&& a.time_beat_type == b.time_beat_type
    &&& a.clefs@ == b.clefs@
    &&& a.staves == b.staves
    &&& a.staff_details == b.staff_details
}

/// Content equality of optional attribute records.
pub open spec fn opt_attrs_eq(a: Option<Attributes>, b: Option<Attributes>) -> bool {
    match (a, b) {
        (Some(x), Some(y)) => attrs_eq(x, y),
        (None, None) => true,
        _ => false,
    }
}

impl Clone for Attributes {
    /// A content-equal copy.
    fn clone(&self) -> (r: Self)
        ensures
            attrs_eq(r, *self),
    {
        let mut clefs: Vec<Clef> = Vec::new();
        let mut i: usize = 0;
        while i < self.clefs.len()
            invariant
                i <= self.clefs.len(),
                clefs@ == self.clefs@.subrange(0, i as int),
            decreases self.clefs.len() - i,
        {
            clefs.push(self.clefs[i]);
            proof {
                assert(clefs@ =~= self.clefs@.subrange(0, i + 1));
            }
            i = i + 1;
        }
        proof {
            assert(self.clefs@.subrange(0, self.clefs@.len() as int) =~= self.clefs@);
        }
        Attributes {
            divisions: self.divisions,
            key_fifths: self.key_fifths,
            key_mode: self.key_mode,
            time_beats: self.time_beats,
            time_beat_type: self.time_beat_type,
            clefs,
            staves: self.staves,
            staff_details: self.staff_details,
        }
    }
}

/// The strings an [`Attributes`] is built from.
#[derive(Debug)]
pub struct AttributesCreateInfo<'a> {
    pub key_name: &'a str,
    pub key_mode: &'a str,
    pub time_sig: &'a str,
    pub clefs: Vec<&'a str>,
}

impl Default for AttributesCreateInfo<'_> {
    /// C major in common time on a treble clef.
    fn default() -> (r: Self)
        ensures
            r.key_name@ == "C"@,
            r.key_mode@ == "major"@,
            r.time_sig@ == "4/4"@,
            r.clefs@.len() == 1,
            r.clefs@[0]@ == "treble"@,
    {
        let mut clefs: Vec<&str> = Vec::new();
        clefs.push("treble");
        AttributesCreateInfo { key_name: "C", key_mode: "major", time_sig: "4/4", clefs }
    }
}

/// What every clause of [`Attributes::new`] demands of its strings.
pub open spec fn attrs_ci_valid(
    key_name: Seq<char>,
    key_mode: Seq<char>,
    time_sig: Seq<char>,
    clefs: Seq<&str>,
) -> bool {
    &&& spec_key_fifths(key_name) is Some
    &&& spec_mode_parse(key_mode) is Some
    &&& spec_count_char(time_sig, '/') == 1
    &&& spec_time_sig_parse(time_sig) is Some
    &&& forall|k: int| 0 <= k < clefs.len() ==> spec_clef_parse(#[trigger] clefs[k]@) is Some
}

impl Attributes {
    /// Build attributes from key, mode, time signature and clef names.
    /// The tick resolution is fixed at 480 per quarter note.
    pub fn new(ci: &AttributesCreateInfo<'_>) -> (a: Attributes)
        requires
            attrs_ci_valid(ci.key_name@, ci.key_mode@, ci.time_sig@, ci.clefs@),
        ensures
            a.divisions == 480,
            Some(a.key_fifths as int) == spec_key_fifths(ci.key_name@),
            Some(a.key_mode) == spec_mode_parse(ci.key_mode@),
            a.time_beats == spec_time_sig_parse(ci.time_sig@).unwrap().numerator,
            a.time_beat_type == spec_time_sig_parse(ci.time_sig@).unwrap().denominator,
            a.clefs@.len() == ci.clefs@.len(),
            forall|k: int|
                0 <= k < ci.clefs@.len() ==> Some(#[trigger] a.clefs@[k]) == spec_clef_parse(
                    ci.clefs@[k]@,
                ),
            a.staves == (if ci.clefs@.len() > 1 {
                Some(ci.clefs@.len() as usize)
            } else {
                None::<usize>
            }),
            a.staff_details == (if ci.clefs@.len() == 1 && ci.clefs@[0]@ == "percussion"@ {
                Some(StaffDetails { staff_lines: 1 })
            } else {
                None::<StaffDetails>
            }),
    {
        let mut staves: Option<usize> = None;
        if ci.clefs.len() > 1 {
            staves = Some(ci.clefs.len());
        }
        let mut clefs: Vec<Clef> = Vec::new();
        let mut i: usize = 0;
        while i < ci.clefs.len()
            invariant
                i <= ci.clefs.len(),
                forall|k: int|
                    0 <= k < ci.clefs@.len() ==> spec_clef_parse(#[trigger] ci.clefs@[k]@) is Some,
                clefs@.len() == i,
                forall|k: int|
                    0 <= k < i ==> Some(#[trigger] clefs@[k]) == spec_clef_parse(ci.clefs@[k]@),
            decreases ci.clefs.len() - i,
        {
            let c = match Clef::from_str(ci.clefs[i]) {
                Ok(c) => c,
                Err(_) => Clef::Treble,  // excluded by the precondition
            };
            clefs.push(c);
            i = i + 1;
        }
        let time_sig = match TimeSignature::from_str(ci.time_sig) {
            Ok(t) => t,
            Err(_) => TimeSignature { numerator: 4, denominator: 4 },  // excluded
        };
        let mut staff_details: Option<StaffDetails> = None;
        if ci.clefs.len() == 1 && str_eq(ci.clefs[0], "percussion") {
            staff_details = Some(StaffDetails { staff_lines: 1 });
        }
        let key_mode = match Mode::from_str(ci.key_mode) {
            Ok(m) => m,
            Err(_) => Mode::Major,  // excluded
        };
        Attributes {
            divisions: 480,
            key_fifths: key_fifths_from_name(ci.key_name),
            key_mode,
            time_beats: time_sig.numerator,
            time_beat_type: time_sig.denominator,
            staves,
            clefs,
            staff_details,
        }
    }
}

/// The `<clef>` elements rendered for a clef list at nesting depth `d`;
/// clef number `k + 1` for position `k`.
pub open spec fn spec_clefs_xml(clefs: Seq<Clef>, d: nat) -> Seq<char>
    decreases clefs.len(),
{
    if clefs.len() == 0 {
        Seq::<char>::empty()
    } else {
        spec_clefs_xml(clefs.drop_last(), d) + spec_clef_xml(clefs.last(), clefs.len(), d)
    }
}

/// One `<clef number="num">` element at nesting depth `d`.
pub open spec fn spec_clef_xml(c: Clef, num: nat, d: nat) -> Seq<char> {
    xml::spec_open_tag(d * 2, "clef"@, xml::spec_attr_pair("number"@, spec_digits(num)))
        + spec_elem(d + 1, "sign"@, spec_clef_sign(c)) + spec_elem(
        d + 1,
        "line"@,
        spec_digits(spec_clef_line(c) as nat),
    ) + xml::spec_close_tag(d * 2, "clef"@)
}

/// The `<key>` element of an `<attributes>` block at nesting depth `d`.
pub open spec fn spec_key_xml(a: Attributes, d: nat) -> Seq<char> {
    xml::spec_open_tag(d * 2, "key"@, Seq::<char>::empty()) + spec_elem(
        d + 1,
        "fifths"@,
        spec_int_str(a.key_fifths as int),
    ) + spec_elem(d + 1, "mode"@, spec_mode_str(a.key_mode)) + xml::spec_close_tag(d * 2, "key"@)
}

/// The `<time>` element of an `<attributes>` block at nesting depth `d`.
pub open spec fn spec_time_xml(a: Attributes, d: nat) -> Seq<char> {
    xml::spec_open_tag(d * 2, "time"@, Seq::<char>::empty()) + spec_elem(
        d + 1,
        "beats"@,
        spec_digits(a.time_beats as nat),
    ) + spec_elem(d + 1, "beat-type"@, spec_digits(a.time_beat_type as nat)) + xml::spec_close_tag(
        d * 2,
        "time"@,
    )
}

/// The `<staff-details>` element of an `<attributes>` block, if any.
pub open spec fn spec_staff_details_xml(a: Attributes, d: nat) -> Seq<char> {
    match a.staff_details {
        Some(det) => xml::spec_open_tag(d * 2, "staff-details"@, Seq::<char>::empty()) + spec_elem(
            d + 1,
            "staff-lines"@,
            spec_digits(det.staff_lines as nat),
        ) + xml::spec_close_tag(d * 2, "staff-details"@),
        None => Seq::<char>::empty(),
    }
}

/// The text of an `<attributes>` element at nesting depth `d`.
pub open spec fn spec_attributes_xml(a: Attributes, d: nat) -> Seq<char> {
    xml::spec_open_tag(d * 2, "attributes"@, Seq::<char>::empty()) + spec_elem(
        d + 1,
        "divisions"@,
        spec_digits(a.divisions as nat),
    ) + spec_key_xml(a, (d + 1) as nat) + spec_time_xml(a, (d + 1) as nat) + spec_clefs_xml(
        a.clefs@,
        (d + 1) as nat,
    ) + (match a.staves {
        Some(n) => spec_elem(d + 1, "staves"@, spec_digits(n as nat)),
        None => Seq::<char>::empty(),
    }) + spec_staff_details_xml(a, (d + 1) as nat) + xml::spec_close_tag(d * 2, "attributes"@)
}

impl Attributes {
    fn write_key(&self, writer: &mut xml::Writer)
        requires
            old(writer).depth() < 0x0fff_0000,
        ensures
            final(writer).text() == old(writer).text() + spec_key_xml(
                *self,
                old(writer).depth(),
            ),
            final(writer).depth() == old(writer).depth(),
    {
        writer.open_tag("key", None);
        let fifths_s = i64_to_string(self.key_fifths as i64);
        writer.text_element("fifths", fifths_s.as_str());
        let mode_s = self.key_mode.to_string();
        writer.text_element("mode", mode_s.as_str());
        writer.close_tag("key");
        proof {
            assert(final(writer).text() =~= old(writer).text() + spec_key_xml(
                *self,
                old(writer).depth(),
            ));
        }
    }

    fn write_time(&self, writer: &mut xml::Writer)
        requires
            old(writer).depth() < 0x0fff_0000,
        ensures
            final(writer).text() == old(writer).text() + spec_time_xml(
                *self,
                old(writer).depth(),
            ),
            final(writer).depth() == old(writer).depth(),
    {
        writer.open_tag("time", None);
        let beats_s = u64_to_string(self.time_beats as u64);
        writer.text_element("beats", beats_s.as_str());
        let bt_s = u64_to_string(self.time_beat_type as u64);
        writer.text_element("beat-type", bt_s.as_str());
        writer.close_tag("time");
        proof {
            assert(final(writer).text() =~= old(writer).text() + spec_time_xml(
                *self,
                old(writer).depth(),
            ));
        }
    }

    fn write_clefs(&self, writer: &mut xml::Writer)
        requires
            old(writer).depth() < 0x0fff_0000,
        ensures
            final(writer).text() == old(writer).text() + spec_clefs_xml(
                self.clefs@,
                old(writer).depth(),
            ),
            final(writer).depth() == old(writer).depth(),
    {
        let ghost d = old(writer).depth();
        let ghost mid = writer.text();
        let mut i: usize = 0;
        while i < self.clefs.len()
            invariant
                i <= self.clefs.len(),
                writer.depth() == d,
                d < 0x0fff_0000,
                writer.text() == mid + spec_clefs_xml(self.clefs@.subrange(0, i as int), d),
            decreases self.clefs.len() - i,
        {
            let num_s = u64_to_string(i as u64 + 1);
            let attrs = attrs1("number", num_s.as_str());
            writer.open_tag("clef", Some(attrs));
            let sign_s = self.clefs[i].to_sign();
            writer.text_element("sign", sign_s.as_str());
            let line_s = u64_to_string(self.clefs[i].to_line() as u64);
            writer.text_element("line", line_s.as_str());
            writer.close_tag("clef");
            proof {
                let cur = self.clefs@.subrange(0, i + 1);
                assert(cur.drop_last() =~= self.clefs@.subrange(0, i as int));
                assert(cur.last() == self.clefs@[i as int]);
                assert(writer.text() =~= mid + spec_clefs_xml(cur, d));
            }
            i = i + 1;
        }
        proof {
            assert(self.clefs@.subrange(0, self.clefs@.len() as int) =~= self.clefs@);
        }
    }

    fn write_tail(&self, writer: &mut xml::Writer)
        requires
            old(writer).depth() < 0x0fff_0000,
        ensures
            final(writer).text() == old(writer).text() + (match self.staves {
                Some(n) => spec_elem(old(writer).depth(), "staves"@, spec_digits(n as nat)),
                None => Seq::<char>::empty(),
            }) + spec_staff_details_xml(*self, old(writer).depth()),
            final(writer).depth() == old(writer).depth(),
    {
        let ghost d = old(writer).depth();
        if let Some(staves) = self.staves {
            let staves_s = u64_to_string(staves as u64);
            writer.text_element("staves", staves_s.as_str());
        }
        let ghost t_staves = writer.text();
        if let Some(details) = self.staff_details {
            writer.open_tag("staff-details", None);
            let lines_s = u64_to_string(details.staff_lines as u64);
            writer.text_element("staff-lines", lines_s.as_str());
            writer.close_tag("staff-details");
            proof {
                assert(writer.text() =~= t_staves + spec_staff_details_xml(*self, d));
            }
        }
        proof {
            assert(final(writer).text() =~= old(writer).text() + (match self.staves {
                Some(n) => spec_elem(d, "staves"@, spec_digits(n as nat)),
                None => Seq::<char>::empty(),
            }) + spec_staff_details_xml(*self, d));
        }
    }

    /// Append these attributes as an `<attributes>` element.
    #[verifier::spinoff_prover]
    #[verifier::rlimit(100)]
    pub fn write_to(&self, writer: &mut xml::Writer)
        requires
            old(writer).depth() < 0x0ff0_0000,
        ensures
            final(writer).text() == old(writer).text() + spec_attributes_xml(
                *self,
                old(writer).depth(),
            ),
            final(writer).depth() == old(writer).depth(),
    {
        let ghost d = old(writer).depth();
        writer.open_tag("attributes", None);
        let div_s = u64_to_string(self.divisions as u64);
        writer.text_element("divisions", div_s.as_str());
        self.write_key(writer);
        self.write_time(writer);
        proof {
            assert(writer.text() =~= old(writer).text() + xml::spec_open_tag(
                d * 2,
                "attributes"@,
                Seq::<char>::empty(),
            ) + spec_elem(d + 1, "divisions"@, spec_digits(self.divisions as nat)) + spec_key_xml(
                *self,
                (d + 1) as nat,
            ) + spec_time_xml(*self, (d + 1) as nat));
        }
        let ghost t_mid = writer.text();
        self.write_clefs(writer);
        self.write_tail(writer);
        writer.close_tag("attributes");
        proof {
            assert(final(writer).text() =~= t_mid + spec_clefs_xml(self.clefs@, (d + 1) as nat) + (
            match self.staves {
                Some(n) => spec_elem(d + 1, "staves"@, spec_digits(n as nat)),
                None => Seq::<char>::empty(),
            }) + spec_staff_details_xml(*self, (d + 1) as nat) + xml::spec_close_tag(
                d * 2,
                "attributes"@,
            ));
            assert(final(writer).text() =~= old(writer).text() + spec_attributes_xml(*self, d));
        }
    }
}

} // verus!

verus! {

// ---------------------------------------------------------------------------
// Note serialization
// ---------------------------------------------------------------------------
/// The text of an `<unpitched>` element at nesting depth `d`.
pub open spec fn spec_unpitched_xml(u: Unpitched, d: nat) -> Seq<char> {
    xml::spec_open_tag(d * 2, "unpitched"@, Seq::<char>::empty()) + spec_elem(
        d + 1,
        "display-step"@,
        seq![spec_tone_char(u.display_step)],
    ) + spec_elem(d + 1, "display-octave"@, spec_int_str(u.display_octave as int))
        + xml::spec_close_tag(d * 2, "unpitched"@)
}

/// The sounding-source part of a `<note>`: the chord marker and the pitch,
/// unpitched display or rest element, at nesting depth `d`.
pub open spec fn spec_note_head_xml(n: Note, d: nat) -> Seq<char> {
    (if n.is_chord {
        xml::spec_self_closing_tag(d * 2, "chord"@, Seq::<char>::empty())
    } else {
        Seq::<char>::empty()
    }) + (match n.pitch {
        Some(p) => spec_pitch_xml(p, d),
        None => (match n.unpitched {
            Some(u) => spec_unpitched_xml(u, d),
            None => xml::spec_self_closing_tag(
                d * 2,
                "rest"@,
                if n.is_measure_rest {
                    xml::spec_attr_pair("measure"@, "yes"@)
                } else {
                    Seq::<char>::empty()
                },
            ),
        }),
    })
}

/// The duration, type, staff and voice run of a `<note>` at nesting depth
/// `d`.
pub open spec fn spec_note_mid_xml(n: Note, d: nat) -> Seq<char> {
    spec_elem(d, "duration"@, spec_digits(n.duration as nat)) + (if !n.is_measure_rest {
        spec_elem(d, "type"@, spec_note_type_str(n.kind))
    } else {
        Seq::<char>::empty()
    }) + (match n.staff {
        Some(s) => spec_elem(d, "staff"@, spec_digits(s as nat)),
        None => Seq::<char>::empty(),
    }) + (match n.voice {
        Some(v) => spec_elem(d, "voice"@, spec_digits(v as nat)),
        None => Seq::<char>::empty(),
    })
}

/// `count` self-closing `<dot />` elements at nesting depth `d`.
pub open spec fn spec_dots_xml(count: int, d: nat) -> Seq<char>
    decreases count,
{
    if count <= 0 {
        Seq::<char>::empty()
    } else {
        spec_dots_xml(count - 1, d) + xml::spec_self_closing_tag(d * 2, "dot"@, Seq::<char>::empty())
    }
}

/// The trailing run of a `<note>`: tuplet ratio, dots, notations and tie,
/// at nesting depth `d`.
pub open spec fn spec_note_tail_xml(n: Note, d: nat) -> Seq<char> {
    (match n.time_mod {
        Some(tm) => spec_time_mod_xml(tm, d),
        None => Seq::<char>::empty(),
    }) + (match n.dots {
        Some(c) => spec_dots_xml(c as int, d),
        None => Seq::<char>::empty(),
    }) + (match n.notations {
        Some(ns) => spec_notations_xml(ns, d),
        None => Seq::<char>::empty(),
    }) + (match n.tie {
        Some(tie) => xml::spec_self_closing_tag(
            d * 2,
            "tie"@,
            xml::spec_attr_pair("type"@, spec_start_stop_str(tie)),
        ),
        None => Seq::<char>::empty(),
    })
}

/// The text of a `<note>` element at nesting depth `d`.
pub open spec fn spec_note_xml(n: Note, d: nat) -> Seq<char> {
    xml::spec_open_tag(d * 2, "note"@, Seq::<char>::empty()) + spec_note_head_xml(n, (d + 1) as nat)
        + spec_note_mid_xml(n, (d + 1) as nat) + spec_note_tail_xml(n, (d + 1) as nat)
        + xml::spec_close_tag(d * 2, "note"@)
}

/// Whether every notation hanging off the note can be serialized (only
/// tuplets can).
pub open spec fn note_notations_writable(n: Note) -> bool {
    match n.notations {
        Some(ns) => forall|k: int| 0 <= k < ns.items@.len() ==> ns.items@[k] is Tuplet,
        None => true,
    }
}

impl Note {
    #[verifier::spinoff_prover]
    #[verifier::rlimit(100)]
    fn write_head(&self, writer: &mut xml::Writer)
        requires
            old(writer).depth() < 0x0fff_0000,
        ensures
            final(writer).text() == old(writer).text() + spec_note_head_xml(
                *self,
                old(writer).depth(),
            ),
            final(writer).depth() == old(writer).depth(),
    {
        let ghost d = old(writer).depth();
        if self.is_chord {
            writer.self_closing_tag("chord", None);
        }
        let ghost t_chord = writer.text();
        if let Some(pitch) = &self.pitch {
            pitch.write_to(writer);
        } else if let Some(unpitched) = &self.unpitched {
            writer.open_tag("unpitched", None);
            let step_s = tone_string(&unpitched.display_step);
            writer.text_element("display-step", step_s.as_str());
            let oct_s = i64_to_string(unpitched.display_octave as i64);
            writer.text_element("display-octave", oct_s.as_str());
            writer.close_tag("unpitched");
            proof {
                assert(writer.text() =~= t_chord + spec_unpitched_xml(
                    self.unpitched.unwrap(),
                    d,
                ));
            }
        } else {
            if self.is_measure_rest {
                let attrs = attrs1("measure", "yes");
                writer.self_closing_tag("rest", Some(attrs));
            } else {
                writer.self_closing_tag("rest", None);
            }
        }
        proof {
            assert(final(writer).text() =~= old(writer).text() + spec_note_head_xml(*self, d));
        }
    }

    fn write_mid(&self, writer: &mut xml::Writer)
        requires
            old(writer).depth() < 0x0fff_0000,
        ensures
            final(writer).text() == old(writer).text() + spec_note_mid_xml(
                *self,
                old(writer).depth(),
            ),
            final(writer).depth() == old(writer).depth(),
    {
        let ghost d = old(writer).depth();
        let dur_s = u64_to_string(self.duration as u64);
        writer.text_element("duration", dur_s.as_str());
        if !self.is_measure_rest {
            let kind_s = self.kind.to_string();
            writer.text_element("type", kind_s.as_str());
        }
        if let Some(staff) = self.staff {
            let staff_s = u64_to_string(staff as u64);
            writer.text_element("staff", staff_s.as_str());
        }
        if let Some(voice) = self.voice {
            let voice_s = u64_to_string(voice as u64);
            writer.text_element("voice", voice_s.as_str());
        }
        proof {
            assert(final(writer).text() =~= old(writer).text() + spec_note_mid_xml(*self, d));
        }
    }

    #[verifier::spinoff_prover]
    #[verifier::rlimit(100)]
    fn write_tail(&self, writer: &mut xml::Writer)
        requires
            old(writer).depth() < 0x0fff_0000,
            note_notations_writable(*self),
        ensures
            final(writer).text() == old(writer).text() + spec_note_tail_xml(
                *self,
                old(writer).depth(),
            ),
            final(writer).depth() == old(writer).depth(),
    {
        let ghost d = old(writer).depth();
        if let Some(tm) = &self.time_mod {
            tm.write_to(writer);
        }
        let ghost t_tm = writer.text();
        if let Some(dots) = self.dots {
            let mut k: u8 = 0;
            while k < dots
                invariant
                    k <= dots,
                    writer.depth() == d,
                    writer.text() == t_tm + spec_dots_xml(k as int, d),
                decreases dots - k,
            {
                writer.self_closing_tag("dot", None);
                k = k + 1;
            }
        }
        let ghost t_dots = writer.text();
        if let Some(notations) = &self.notations {
            notations.write_to(writer);
        }
        let ghost t_not = writer.text();
        if let Some(tie) = &self.tie {
            let tie_s = tie.to_string();
            let attrs = attrs1("type", tie_s.as_str());
            writer.self_closing_tag("tie", Some(attrs));
        }
        proof {
            assert(t_dots =~= old(writer).text() + (match self.time_mod {
                Some(tm) => spec_time_mod_xml(tm, d),
                None => Seq::<char>::empty(),
            }) + (match self.dots {
                Some(c) => spec_dots_xml(c as int, d),
                None => Seq::<char>::empty(),
            }));
            assert(final(writer).text() =~= old(writer).text() + spec_note_tail_xml(*self, d));
        }
    }

    /// Append this note as a `<note>` element.
    #[verifier::rlimit(100)]
    pub fn write_to(&self, writer: &mut xml::Writer)
        requires
            old(writer).depth() < 0x0ff0_0000,
            note_notations_writable(*self),
        ensures
            final(writer).text() == old(writer).text() + spec_note_xml(
                *self,
                old(writer).depth(),
            ),
            final(writer).depth() == old(writer).depth(),
    {
        let ghost d = old(writer).depth();
        writer.open_tag("note", None);
        self.write_head(writer);
        self.write_mid(writer);
        self.write_tail(writer);
        writer.close_tag("note");
        proof {
            assert(final(writer).text() =~= old(writer).text() + spec_note_xml(*self, d));
        }
    }
}

impl Chord {
    /// Spell the chord as a run of `<note>`s: the root first, the rest
    /// marked as chord members.
    pub fn to_notes(
        &self,
        note_kind: NoteType,
        divisions: u32,
        staff: Option<u8>,
        voice: Option<u8>,
    ) -> (r: Vec<Note>)
        requires
            divisions * 32 <= u32::MAX,
        ensures
            r@.len() == self.pitches@.len(),
            forall|k: int|
                0 <= k < r@.len() ==> {
                    let n = #[trigger] r@[k];
                    &&& n.pitch == Some(self.pitches@[k])
                    &&& n.is_chord == (k != 0)
                    &&& n.kind == note_kind
                    &&& n.duration as int == spec_duration(note_kind, divisions as int, 0, None)
                    &&& n.staff == staff
                    &&& n.voice == voice
                    &&& n.unpitched is None
                    &&& n.time_mod is None
                    &&& n.notations is None
                    &&& n.dots is None
                    &&& n.tie is None
                    &&& !n.is_measure_rest
                },
    {
        let mut notes: Vec<Note> = Vec::new();
        let mut i: usize = 0;
        while i < self.pitches.len()
            invariant
                i <= self.pitches.len(),
                divisions * 32 <= u32::MAX,
                notes@.len() == i,
                forall|k: int|
                    0 <= k < i ==> {
                        let n = #[trigger] notes@[k];
                        &&& n.pitch == Some(self.pitches@[k])
                        &&& n.is_chord == (k != 0)
                        &&& n.kind == note_kind
                        &&& n.duration as int == spec_duration(note_kind, divisions as int, 0, None)
                        &&& n.staff == staff
                        &&& n.voice == voice
                        &&& n.unpitched is None
                        &&& n.time_mod is None
                        &&& n.notations is None
                        &&& n.dots is None
                        &&& n.tie is None
                        &&& !n.is_measure_rest
                    },
            decreases self.pitches.len() - i,
        {
            let is_chord = i != 0;
            let p = self.pitches[i];
            let mut ci = NoteCreateInfo::default();
            ci.pitch = Some(p);
            ci.is_chord = is_chord;
            ci.kind = note_kind;
            ci.divisions = divisions;
            ci.staff = staff;
            ci.voice = voice;
            notes.push(Note::new(ci));
            i = i + 1;
        }
        notes
    }
}

} // verus!

verus! {

// ---------------------------------------------------------------------------
// Measures
// ---------------------------------------------------------------------------
/// Any element that can stand at measure level.
#[derive(Debug)]
pub enum MeasureItem {
    Note(Note),
    Direction(Direction),
    Backup(Backup),
    Forward(Forward),
    Barline(Barline),
}

/// A `<measure>`: its number, its items, and the attributes in force.
/// `effective_attributes` echoes the most recent attributes of the part and
/// is not serialized.
#[derive(Debug)]
pub struct Measure {
    pub items: Vec<MeasureItem>,
    pub number: usize,
    pub attributes: Option<Attributes>,
    pub effective_attributes: Option<Attributes>,
}

/// What a [`Measure`] is built from.
#[derive(Debug)]
pub struct MeasureCreateInfo {
    pub measure_number: usize,
    pub attributes: Option<Attributes>,
    pub effective_attributes: Option<Attributes>,
}

/// What [`Attributes::new`] promises of its result: every field read off
/// the given strings, with the fixed 480-tick resolution.
pub open spec fn attrs_from_ci(
    a: Attributes,
    key_name: Seq<char>,
    key_mode: Seq<char>,
    time_sig: Seq<char>,
    clefs: Seq<&str>,
) -> bool {
    &&& a.divisions == 480
    &&& Some(a.key_fifths as int) == spec_key_fifths(key_name)
    &&& Some(a.key_mode) == spec_mode_parse(key_mode)
    &&& a.time_beats == spec_time_sig_parse(time_sig).unwrap().numerator
    &&& a.time_beat_type == spec_time_sig_parse(time_sig).unwrap().denominator
    &&& a.clefs@.len() == clefs.len()
    &&& forall|k: int|
        0 <= k < clefs.len() ==> Some(#[trigger] a.clefs@[k]) == spec_clef_parse(clefs[k]@)
    &&& a.staves == (if clefs.len() > 1 {
        Some(clefs.len() as usize)
    } else {
        None::<usize>
    })
    &&& a.staff_details == (if clefs.len() == 1 && clefs[0]@ == "percussion"@ {
        Some(StaffDetails { staff_lines: 1 })
    } else {
        None::<StaffDetails>
    })
}

/// The attributes a measure's notes read: its own, or the part's rolling
/// ones.
pub open spec fn spec_effective_attrs(m: Measure) -> Option<Attributes> {
    if m.attributes is Some {
        m.attributes
    } else {
        m.effective_attributes
    }
}

/// The note a measure stores for the given creation record under the given
/// attributes: percussion staves turn the pitch into an unpitched display,
/// and a treble-plus-bass pair assigns the staff by register.
pub open spec fn spec_adjusted_note(ci: NoteCreateInfo, attr: Attributes) -> Note {
    let base = Note {
        kind: ci.kind,
        pitch: ci.pitch,
        unpitched: ci.unpitched,
        is_chord: ci.is_chord,
        duration: spec_note_duration_of(ci) as u32,
        staff: ci.staff,
        voice: ci.voice,
        time_mod: ci.time_mod,
        notations: ci.notations,
        dots: ci.dots,
        tie: ci.tie,
        is_measure_rest: ci.is_measure_rest,
    };
    if attr.clefs@[0] == Clef::Percussion {
        match ci.pitch {
            Some(p) => Note {
                pitch: None,
                unpitched: Some(Unpitched { display_step: p.step, display_octave: p.octave }),
                ..base
            },
            None => base,
        }
    } else if attr.staves == Some(2usize) && attr.clefs@ == seq![Clef::Treble, Clef::Bass] {
        match ci.pitch {
            Some(p) => if spec_semitone(p) >= 60 {
                Note { staff: Some(1u8), ..base }
            } else {
                Note { staff: Some(2u8), ..base }
            },
            None => base,
        }
    } else {
        base
    }
}

/// Everything [`Measure::note`] needs of its literal and the measure.
pub open spec fn measure_note_ok(m: Measure, s: Seq<char>) -> bool {
    &&& spec_count_char(s, ':') == 1
    &&& note_literal_ok(s)
    &&& spec_effective_attrs(m) is Some
    &&& spec_effective_attrs(m).unwrap().clefs@.len() > 0
    &&& {
        let attr = spec_effective_attrs(m).unwrap();
        let ci = spec_note_ci_parse(s).unwrap().unwrap();
        (attr.clefs@[0] != Clef::Percussion && attr.staves == Some(2usize) && attr.clefs@
            == seq![Clef::Treble, Clef::Bass] && ci.pitch is Some) ==> pitch_in_range(
            ci.pitch.unwrap(),
        )
    }
}

impl Measure {
    pub fn new(ci: MeasureCreateInfo) -> (m: Measure)
        ensures
            m.number == ci.measure_number,
            m.items@.len() == 0,
            m.attributes == ci.attributes,
            m.effective_attributes == ci.effective_attributes,
    {
        Measure {
            number: ci.measure_number,
            items: Vec::new(),
            attributes: ci.attributes,
            effective_attributes: ci.effective_attributes,
        }
    }

    /// The most generalized way to append to a measure.
    pub fn item(&mut self, item: MeasureItem)
        ensures
            final(self).items@ == old(self).items@ + seq![item],
            final(self).number == old(self).number,
            final(self).attributes == old(self).attributes,
            final(self).effective_attributes == old(self).effective_attributes,
    {
        self.items.push(item);
    }

    /// Set the measure's attributes; allowed only while the measure is
    /// still empty.  Overwrites the effective attributes.
    pub fn attributes(&mut self, ci: &AttributesCreateInfo<'_>)
        requires
            old(self).items@.len() == 0,
            attrs_ci_valid(ci.key_name@, ci.key_mode@, ci.time_sig@, ci.clefs@),
        ensures
            final(self).items@ == old(self).items@,
            final(self).number == old(self).number,
            final(self).attributes is Some,
            attrs_from_ci(
                final(self).attributes.unwrap(),
                ci.key_name@,
                ci.key_mode@,
                ci.time_sig@,
                ci.clefs@,
            ),
            opt_attrs_eq(final(self).effective_attributes, final(self).attributes),
    {
        let attr = Attributes::new(ci);
        let eff = attr.clone();
        self.attributes = Some(attr);
        self.effective_attributes = Some(eff);
    }

    /// Append a metronome direction.
    pub fn metronome(&mut self, beat_unit: &str, per_minute: u32)
        ensures
            final(self).items@.len() == old(self).items@.len() + 1,
            final(self).items@.subrange(0, old(self).items@.len() as int) == old(self).items@,
            (final(self).items@.last() matches MeasureItem::Direction(dir) && {
                &&& dir.kind matches DirectionType::Metronome { beat_unit: bu, per_minute: pm }
                    && bu@ == beat_unit@ && pm == per_minute
                &&& dir.placement matches Some(p) && p@ == "above"@
                &&& dir.staff is None
            }),
            final(self).number == old(self).number,
            final(self).attributes == old(self).attributes,
            final(self).effective_attributes == old(self).effective_attributes,
    {
        self.item(
            MeasureItem::Direction(
                Direction {
                    kind: DirectionType::Metronome {
                        beat_unit: beat_unit.to_owned(),
                        per_minute,
                    },
                    placement: Some("above".to_owned()),
                    staff: None,
                },
            ),
        );
        proof {
            assert(final(self).items@.subrange(0, old(self).items@.len() as int) =~= old(
                self,
            ).items@);
        }
    }

    /// Append a dynamics direction.
    pub fn dynamics(&mut self, dynamics: &str)
        requires
            spec_dynamics_parse(dynamics@) is Some,
        ensures
            final(self).items@.len() == old(self).items@.len() + 1,
            final(self).items@.subrange(0, old(self).items@.len() as int) == old(self).items@,
            (final(self).items@.last() matches MeasureItem::Direction(dir) && {
                &&& dir.kind matches DirectionType::Dynamics(v) && Some(v) == spec_dynamics_parse(
                    dynamics@,
                )
                &&& dir.placement matches Some(p) && p@ == "below"@
                &&& dir.staff is None
            }),
            final(self).number == old(self).number,
            final(self).attributes == old(self).attributes,
            final(self).effective_attributes == old(self).effective_attributes,
    {
        self.item(
            MeasureItem::Direction(
                Direction {
                    kind: DirectionType::Dynamics(Dynamics::from_str(dynamics)),
                    placement: Some("below".to_owned()),
                    staff: None,
                },
            ),
        );
        proof {
            assert(final(self).items@.subrange(0, old(self).items@.len() as int) =~= old(
                self,
            ).items@);
        }
    }

    /// Append a note from a `pitch:duration` literal such as `C4:h.`.
    #[verifier::spinoff_prover]
    #[verifier::rlimit(100)]
    pub fn note(&mut self, note_str: &str)
        requires
            measure_note_ok(*old(self), note_str@),
        ensures
            final(self).items@ == old(self).items@ + seq![
                MeasureItem::Note(
                    spec_adjusted_note(
                        spec_note_ci_parse(note_str@).unwrap().unwrap(),
                        spec_effective_attrs(*old(self)).unwrap(),
                    ),
                ),
            ],
            final(self).number == old(self).number,
            final(self).attributes == old(self).attributes,
            final(self).effective_attributes == old(self).effective_attributes,
    {
        let mut note = note_from_literal(note_str);
        let use_own = match &self.attributes {
            Some(_) => true,
            None => false,
        };
        // Read the effective attributes: the measure's own, else the part's.
        let attr = if use_own {
            match &self.attributes {
                Some(a) => a,
                None => unreached(),
            }
        } else {
            match &self.effective_attributes {
                Some(a) => a,
                None => unreached(),
            }
        };
        if attr.clefs[0] == Clef::Percussion {
            if let Some(pitch) = note.pitch {
                note.unpitched = Some(
                    Unpitched { display_step: pitch.step, display_octave: pitch.octave },
                );
                note.pitch = None;
            }
        } else {
            let two_staves = match attr.staves {
                Some(n) => n == 2,
                None => false,
            };
            proof {
                if attr.clefs@.len() == 2 && attr.clefs@[0] == Clef::Treble && attr.clefs@[1]
                    == Clef::Bass {
                    assert(attr.clefs@ =~= seq![Clef::Treble, Clef::Bass]);
                }
            }
            if two_staves && attr.clefs.len() == 2 {
                if attr.clefs[0] == Clef::Treble && attr.clefs[1] == Clef::Bass {
                    if let Some(pitch) = &note.pitch {
                        if pitch.to_semitone() >= 60 {
                            note.staff = Some(1);
                        } else {
                            note.staff = Some(2);
                        }
                    }
                }
            }
        }
        self.item(MeasureItem::Note(note));
        proof {
            assert(final(self).items@ =~= old(self).items@ + seq![
                MeasureItem::Note(
                    spec_adjusted_note(
                        spec_note_ci_parse(note_str@).unwrap().unwrap(),
                        spec_effective_attrs(*old(self)).unwrap(),
                    ),
                ),
            ]);
        }
    }

    /// Append the same note literal several times.
    pub fn note_repeat(&mut self, note_str: &str, count: u32)
        requires
            measure_note_ok(*old(self), note_str@),
        ensures
            final(self).items@.len() == old(self).items@.len() + count,
            final(self).items@.subrange(0, old(self).items@.len() as int) == old(self).items@,
            forall|k: int|
                old(self).items@.len() <= k < final(self).items@.len() ==> final(self).items@[k]
                    == MeasureItem::Note(
                    spec_adjusted_note(
                        spec_note_ci_parse(note_str@).unwrap().unwrap(),
                        spec_effective_attrs(*old(self)).unwrap(),
                    ),
                ),
            final(self).number == old(self).number,
            final(self).attributes == old(self).attributes,
            final(self).effective_attributes == old(self).effective_attributes,
    {
        let mut i: u32 = 0;
        while i < count
            invariant
                i <= count,
                measure_note_ok(*old(self), note_str@),
                self.items@.len() == old(self).items@.len() + i,
                self.items@.subrange(0, old(self).items@.len() as int) == old(self).items@,
                forall|k: int|
                    old(self).items@.len() <= k < self.items@.len() ==> self.items@[k]
                        == MeasureItem::Note(
                        spec_adjusted_note(
                            spec_note_ci_parse(note_str@).unwrap().unwrap(),
                            spec_effective_attrs(*old(self)).unwrap(),
                        ),
                    ),
                self.number == old(self).number,
                self.attributes == old(self).attributes,
                self.effective_attributes == old(self).effective_attributes,
            decreases count - i,
        {
            proof {
                assert(spec_effective_attrs(*self) == spec_effective_attrs(*old(self)));
            }
            self.note(note_str);
            proof {
                assert(self.items@.subrange(0, old(self).items@.len() as int) =~= old(
                    self,
                ).items@);
            }
            i = i + 1;
        }
    }

    /// Append a rest from a duration literal such as `h.`.
    pub fn rest(&mut self, rest: &str)
        requires
            spec_count_char(rest@, ':') == 0,
            note_literal_ok(rest@),
        ensures
            final(self).items@ == old(self).items@ + seq![
                MeasureItem::Note(
                    spec_plain_note(spec_note_ci_parse(rest@).unwrap().unwrap()),
                ),
            ],
            final(self).number == old(self).number,
            final(self).attributes == old(self).attributes,
            final(self).effective_attributes == old(self).effective_attributes,
    {
        let note = note_from_literal(rest);
        self.item(MeasureItem::Note(note));
        proof {
            assert(final(self).items@ =~= old(self).items@ + seq![
                MeasureItem::Note(
                    spec_plain_note(spec_note_ci_parse(rest@).unwrap().unwrap()),
                ),
            ]);
        }
    }
}

/// What parsing and building a note from a literal demands: the literal
/// parses, and its dots stay within the supported three.
pub open spec fn note_literal_ok(s: Seq<char>) -> bool {
    &&& spec_note_ci_parse(s) is Some
    &&& spec_note_ci_parse(s).unwrap() is Ok
    &&& spec_dots_count(spec_note_ci_parse(s).unwrap().unwrap().dots) <= 3
}

proof fn lemma_small_division_bounds(kind: NoteType, divisions: u32, dots: Option<u8>)
    requires
        divisions <= 480,
        spec_dots_count(dots) <= 3,
    ensures
        divisions * 32 <= u32::MAX,
        spec_dotted_duration(spec_base_duration(kind, divisions as int), spec_dots_count(dots))
            <= u32::MAX,
{
    assert(spec_base_duration(kind, divisions as int) <= divisions * 32);
    assert(spec_base_duration(kind, divisions as int) >= 0);
}

/// Parse a note literal and build the unadjusted note.
fn note_from_literal(s: &str) -> (n: Note)
    requires
        note_literal_ok(s@),
    ensures
        n == spec_plain_note(spec_note_ci_parse(s@).unwrap().unwrap()),
{
    let ci = match NoteCreateInfo::from_str(s) {
        Ok(ci) => ci,
        Err(_) => {
            proof {
                assert(false);
            }
            NoteCreateInfo::default()
        },
    };
    proof {
        lemma_small_division_bounds(ci.kind, ci.divisions, ci.dots);
    }
    Note::new(ci)
}

/// The note [`Note::new`] builds from a creation record, unadjusted.
pub open spec fn spec_plain_note(ci: NoteCreateInfo) -> Note {
    Note {
        kind: ci.kind,
        pitch: ci.pitch,
        unpitched: ci.unpitched,
        is_chord: ci.is_chord,
        duration: spec_note_duration_of(ci) as u32,
        staff: ci.staff,
        voice: ci.voice,
        time_mod: ci.time_mod,
        notations: ci.notations,
        dots: ci.dots,
        tie: ci.tie,
        is_measure_rest: ci.is_measure_rest,
    }
}

} // verus!

verus! {

/// The notes a chord literal expands to: root position, the root first.
pub open spec fn spec_chord_notes(root: Pitch, quality: ChordQuality, kind: NoteType) -> Seq<
    Note,
> {
    Seq::new(
        spec_quality_semitones(quality).len(),
        |k: int|
            Note {
                kind,
                pitch: Some(
                    spec_pitch_of_semitone(
                        (spec_semitone(root) + spec_quality_semitones(quality)[k]) as u8,
                        false,
                    ),
                ),
                unpitched: None,
                is_chord: k != 0,
                duration: spec_duration(kind, 480, 0, None) as u32,
                staff: None,
                voice: None,
                time_mod: None,
                notations: None,
                dots: None,
                tie: None,
                is_measure_rest: false,
            },
    )
}

/// Everything [`Measure::chord`] needs of its `quality:pitch:duration`
/// literal.
pub open spec fn measure_chord_ok(s: Seq<char>) -> bool {
    &&& spec_find_char(s, ':') is Some
    &&& {
        let k = spec_find_char(s, ':').unwrap();
        let rest = s.subrange(k + 1, s.len() as int);
        &&& spec_quality_parse(s.subrange(0, k)) is Some
        &&& note_literal_ok(rest)
        &&& spec_note_ci_parse(rest).unwrap().unwrap().pitch is Some
        &&& chord_in_range(
            spec_note_ci_parse(rest).unwrap().unwrap().pitch.unwrap(),
            spec_quality_parse(s.subrange(0, k)).unwrap(),
        )
    }
}

impl Measure {
    /// Append a chord from a `quality:pitch:duration` literal such as
    /// `maj:C4:h.`.
    #[verifier::spinoff_prover]
    #[verifier::rlimit(100)]
    pub fn chord(&mut self, chord_str: &str)
        requires
            measure_chord_ok(chord_str@),
        ensures
            ({
                let k = spec_find_char(chord_str@, ':').unwrap();
                let rest = chord_str@.subrange(k + 1, chord_str@.len() as int);
                final(self).items@ == old(self).items@ + spec_chord_notes(
                    spec_note_ci_parse(rest).unwrap().unwrap().pitch.unwrap(),
                    spec_quality_parse(chord_str@.subrange(0, k)).unwrap(),
                    spec_note_ci_parse(rest).unwrap().unwrap().kind,
                ).map_values(|n: Note| MeasureItem::Note(n))
            }),
            final(self).number == old(self).number,
            final(self).attributes == old(self).attributes,
            final(self).effective_attributes == old(self).effective_attributes,
    {
        let len = chord_str.unicode_len();
        let k = match find_char(chord_str, ':') {
            Some(k) => k,
            None => {
                proof {
                    assert(false);
                }
                return ;
            },
        };
        proof {
            assert(spec_find_char(chord_str@, ':') == Some(k as int));
        }
        let quality_str = chord_str.substring_char(0, k);
        let note_str = chord_str.substring_char(k + 1, len);
        let quality = match ChordQuality::from_str(quality_str) {
            Ok(q) => q,
            Err(_) => {
                proof {
                    assert(false);
                }
                return ;
            },
        };
        let note = note_from_literal(note_str);
        let root = match note.pitch {
            Some(p) => p,
            None => {
                proof {
                    assert(false);
                }
                return ;
            },
        };
        let chord = Chord::new(root, quality, None);
        let mut notes = chord.to_notes(note.kind, 480, None, None);
        let ghost base_len = self.items@.len();
        let ghost expected = spec_chord_notes(root, quality, note.kind);
        let ghost total = notes@.len();
        proof {
            assert(notes@ =~= expected.subrange(0, total as int));
        }
        let mut i: usize = 0;
        while notes.len() > 0
            invariant
                i + notes@.len() == total,
                total == expected.len(),
                notes@ == expected.subrange(i as int, total as int),
                self.items@.len() == base_len + i,
                self.items@.subrange(0, base_len as int) == old(self).items@,
                forall|j: int|
                    0 <= j < i ==> #[trigger] self.items@[base_len + j] == MeasureItem::Note(
                        expected[j],
                    ),
                self.number == old(self).number,
                self.attributes == old(self).attributes,
                self.effective_attributes == old(self).effective_attributes,
                base_len == old(self).items@.len(),
                total <= usize::MAX,
            decreases notes.len(),
        {
            let n = notes.remove(0);
            proof {
                assert(n == expected[i as int]);
                assert(notes@ =~= expected.subrange(i + 1, total as int));
            }
            self.items.push(MeasureItem::Note(n));
            proof {
                assert(self.items@.subrange(0, base_len as int) =~= old(self).items@);
            }
            i = i + 1;
        }
        proof {
            let mapped = expected.map_values(|n: Note| MeasureItem::Note(n));
            assert(mapped.len() == expected.len());
            assert forall|j: int| 0 <= j < total implies self.items@[base_len + j] == mapped[j] by {
                assert(mapped[j] == MeasureItem::Note(expected[j]));
            }
            assert forall|idx: int|
                0 <= idx < base_len implies self.items@[idx] == old(self).items@[idx] by {
                assert(self.items@.subrange(0, base_len as int)[idx] == self.items@[idx]);
            }
            assert(final(self).items@ =~= old(self).items@ + mapped);
        }
    }
}

} // verus!

verus! {

// ---------------------------------------------------------------------------
// Measure and part serialization
// ---------------------------------------------------------------------------
/// The text of one measure item at nesting depth `d`; cursor moves and
/// barlines have no serialization.
pub open spec fn spec_measure_item_xml(item: MeasureItem, d: nat) -> Seq<char> {
    match item {
        MeasureItem::Note(n) => spec_note_xml(n, d),
        MeasureItem::Direction(dir) => spec_direction_xml(dir, d),
        MeasureItem::Backup(b) => spec_backup_xml(b, d),
        MeasureItem::Forward(_) => Seq::<char>::empty(),
        MeasureItem::Barline(_) => Seq::<char>::empty(),
    }
}

/// The items of a measure, in order, at nesting depth `d`.
pub open spec fn spec_measure_items_xml(items: Seq<MeasureItem>, d: nat) -> Seq<char>
    decreases items.len(),
{
    if items.len() == 0 {
        Seq::<char>::empty()
    } else {
        spec_measure_items_xml(items.drop_last(), d) + spec_measure_item_xml(items.last(), d)
    }
}

/// The text of a `<measure>` element at nesting depth `d`.
pub open spec fn spec_measure_xml(m: Measure, d: nat) -> Seq<char> {
    xml::spec_open_tag(d * 2, "measure"@, xml::spec_attr_pair("number"@, spec_digits(m.number as nat)))
        + (match m.attributes {
        Some(a) => spec_attributes_xml(a, (d + 1) as nat),
        None => Seq::<char>::empty(),
    }) + spec_measure_items_xml(m.items@, (d + 1) as nat) + xml::spec_close_tag(d * 2, "measure"@)
}

/// Whether a measure item can be serialized: notes may carry only tuplet
/// notations, and cursor moves or barlines cannot be written at all.
pub open spec fn measure_item_writable(item: MeasureItem) -> bool {
    match item {
        MeasureItem::Note(n) => note_notations_writable(n),
        MeasureItem::Direction(_) => true,
        MeasureItem::Backup(_) => true,
        MeasureItem::Forward(_) => false,
        MeasureItem::Barline(_) => false,
    }
}

/// Whether every item of the measure can be serialized.
pub open spec fn measure_writable(m: Measure) -> bool {
    forall|k: int| 0 <= k < m.items@.len() ==> measure_item_writable(#[trigger] m.items@[k])
}

impl Measure {
    /// Append this measure as a `<measure>` element.
    #[verifier::spinoff_prover]
    #[verifier::rlimit(100)]
    pub fn write_to(&self, writer: &mut xml::Writer)
        requires
            old(writer).depth() < 0x00f0_0000,
            measure_writable(*self),
        ensures
            final(writer).text() == old(writer).text() + spec_measure_xml(
                *self,
                old(writer).depth(),
            ),
            final(writer).depth() == old(writer).depth(),
    {
        let ghost d = old(writer).depth();
        let num_s = u64_to_string(self.number as u64);
        let attrs = attrs1("number", num_s.as_str());
        writer.open_tag("measure", Some(attrs));

        if let Some(attributes) = &self.attributes {
            attributes.write_to(writer);
        }
        let ghost t_attrs = writer.text();

        let mut i: usize = 0;
        while i < self.items.len()
            invariant
                i <= self.items.len(),
                measure_writable(*self),
                writer.depth() == d + 1,
                d < 0x00f0_0000,
                writer.text() == t_attrs + spec_measure_items_xml(
                    self.items@.subrange(0, i as int),
                    (d + 1) as nat,
                ),
            decreases self.items.len() - i,
        {
            proof {
                assert(measure_item_writable(self.items@[i as int]));
            }
            match &self.items[i] {
                MeasureItem::Note(note) => note.write_to(writer),
                MeasureItem::Direction(direction) => direction.write_to(writer),
                MeasureItem::Backup(backup) => backup.write_to(writer),
                MeasureItem::Forward(_) => {
                    proof {
                        assert(false);
                    }
                },
                MeasureItem::Barline(_) => {
                    proof {
                        assert(false);
                    }
                },
            }
            proof {
                let cur = self.items@.subrange(0, i + 1);
                assert(cur.drop_last() =~= self.items@.subrange(0, i as int));
                assert(cur.last() == self.items@[i as int]);
                assert(writer.text() =~= t_attrs + spec_measure_items_xml(cur, (d + 1) as nat));
            }
            i = i + 1;
        }
        proof {
            assert(self.items@.subrange(0, self.items@.len() as int) =~= self.items@);
        }
        writer.close_tag("measure");
        proof {
            assert(final(writer).text() =~= old(writer).text() + spec_measure_xml(*self, d));
        }
    }
}

} // verus!

verus! {

// ---------------------------------------------------------------------------
// Parts
// ---------------------------------------------------------------------------
/// What a part's MusicXML instrument is built from.
#[derive(Debug)]
pub struct MusicXmlInstrumentCreateInfo {
    pub part_id: String,
    pub instrument_id: u32,
    pub name: String,
    pub midi_program: Option<u8>,
    pub sound: Option<String>,
}

/// A combined `<score-instrument>` and `<midi-instrument>` pair.
#[derive(Debug)]
pub struct MusicXmlInstrument {
    pub midi: MidiInstrument,
    pub score: ScoreInstrument,
}

/// The shared identifier of an instrument pair: `<part>-I<number>`.
pub open spec fn spec_instrument_id(part_id: Seq<char>, instrument_id: u32) -> Seq<char> {
    part_id + "-I"@ + spec_digits(instrument_id as nat)
}

impl MusicXmlInstrument {
    /// Pair a score instrument and a MIDI instrument under one id.
    pub fn new(ci: MusicXmlInstrumentCreateInfo) -> (r: MusicXmlInstrument)
        ensures
            r.midi.id@ == spec_instrument_id(ci.part_id@, ci.instrument_id),
            r.midi.program == ci.midi_program,
            r.midi.channel is None,
            r.midi.name is None,
            r.midi.bank is None,
            r.midi.unpitched is None,
            r.score.id@ == spec_instrument_id(ci.part_id@, ci.instrument_id),
            r.score.name@ == ci.name@,
            r.score.sound == ci.sound,
            r.score.abbreviation is None,
            r.score.solo == false,
            r.score.ensemble is None,
            r.score.virtual_library is None,
            r.score.virtual_name is None,
    {
        let mut id = ci.part_id;
        id.append("-I");
        let num = u64_to_string(ci.instrument_id as u64);
        id.append(num.as_str());
        let id2 = id.clone();
        MusicXmlInstrument {
            midi: MidiInstrument { id, program: ci.midi_program, ..Default::default() },
            score: ScoreInstrument {
                id: id2,
                name: ci.name,
                sound: ci.sound,
                ..Default::default()
            },
        }
    }
}

/// A `<part>`: an ordered run of measures under one id and name.
/// `effective_attributes` echoes the most recently set measure attributes
/// so that new measures can read them.
#[derive(Debug)]
pub struct Part {
    pub measures: Vec<Measure>,
    pub id: String,
    pub name: String,
    pub instrument: Option<MusicXmlInstrument>,
    pub effective_attributes: Option<Attributes>,
}

/// The attributes in force after the last measure of the list: the most
/// recent measure that carries its own.
pub open spec fn spec_current_attr(ms: Seq<Measure>) -> Option<Attributes>
    decreases ms.len(),
{
    if ms.len() == 0 {
        None
    } else if ms.last().attributes is Some {
        ms.last().attributes
    } else {
        spec_current_attr(ms.drop_last())
    }
}

/// The text of a `<part>` element at nesting depth `d`.
pub open spec fn spec_part_xml(p: Part, d: nat) -> Seq<char> {
    xml::spec_open_tag(d * 2, "part"@, xml::spec_attr_pair("id"@, p.id@)) + spec_part_measures_xml(
        p.measures@,
        (d + 1) as nat,
    ) + xml::spec_close_tag(d * 2, "part"@)
}

/// The measures of a part, in order, at nesting depth `d`.
pub open spec fn spec_part_measures_xml(ms: Seq<Measure>, d: nat) -> Seq<char>
    decreases ms.len(),
{
    if ms.len() == 0 {
        Seq::<char>::empty()
    } else {
        spec_part_measures_xml(ms.drop_last(), d) + spec_measure_xml(ms.last(), d)
    }
}

/// Whether every measure of the part can be serialized.
pub open spec fn part_writable(p: Part) -> bool {
    forall|k: int| 0 <= k < p.measures@.len() ==> measure_writable(#[trigger] p.measures@[k])
}

impl Part {
    pub fn new(id: &str, name: &str) -> (p: Part)
        ensures
            p.measures@.len() == 0,
            p.id@ == id@,
            p.name@ == name@,
            p.instrument is None,
            p.effective_attributes is None,
    {
        Part {
            measures: Vec::new(),
            id: id.to_owned(),
            name: name.to_owned(),
            instrument: None,
            effective_attributes: None,
        }
    }

    /// Start the next measure: numbered after the ones already there, with
    /// the part's rolling attributes in scope.
    pub fn new_measure(&self) -> (m: Measure)
        requires
            self.measures@.len() < usize::MAX,
        ensures
            m.number == self.measures@.len() + 1,
            m.items@.len() == 0,
            m.attributes is None,
            opt_attrs_eq(m.effective_attributes, self.effective_attributes),
    {
        let effective_attributes = match &self.effective_attributes {
            Some(a) => Some(a.clone()),
            None => None,
        };
        Measure::new(
            MeasureCreateInfo {
                measure_number: self.measures.len() + 1,
                attributes: None,
                effective_attributes,
            },
        )
    }

    /// Append a finished measure; if it sets attributes, they roll forward
    /// to the measures built after it.
    pub fn push_measure(&mut self, m: Measure)
        ensures
            final(self).measures@ == old(self).measures@ + seq![m],
            final(self).id == old(self).id,
            final(self).name == old(self).name,
            final(self).instrument == old(self).instrument,
            (match m.attributes {
                Some(a) => opt_attrs_eq(final(self).effective_attributes, Some(a)),
                None => final(self).effective_attributes == old(self).effective_attributes,
            }),
    {
        match &m.attributes {
            Some(a) => {
                self.effective_attributes = Some(a.clone());
            },
            None => {},
        }
        self.measures.push(m);
    }

    /// The most recently set attributes, scanning backwards.
    pub fn get_current_attr(&self) -> (r: Option<&Attributes>)
        ensures
            match r {
                Some(a) => spec_current_attr(self.measures@) == Some(*a),
                None => spec_current_attr(self.measures@) is None,
            },
    {
        let mut i: usize = self.measures.len();
        proof {
            assert(self.measures@.subrange(0, self.measures@.len() as int) =~= self.measures@);
        }
        while i > 0
            invariant
                i <= self.measures@.len(),
                spec_current_attr(self.measures@) == spec_current_attr(
                    self.measures@.subrange(0, i as int),
                ),
            decreases i,
        {
            i = i - 1;
            proof {
                let cur = self.measures@.subrange(0, i + 1);
                assert(cur.last() == self.measures@[i as int]);
                assert(cur.drop_last() =~= self.measures@.subrange(0, i as int));
            }
            if let Some(attrs) = &self.measures[i].attributes {
                return Some(attrs);
            }
        }
        proof {
            assert(self.measures@.subrange(0, 0) =~= Seq::<Measure>::empty());
        }
        None
    }

    /// Set the part's MusicXML instrument suggestion.
    pub fn instrument(&mut self, ci: MusicXmlInstrumentCreateInfo)
        ensures
            final(self).measures == old(self).measures,
            final(self).id == old(self).id,
            final(self).name == old(self).name,
            final(self).effective_attributes == old(self).effective_attributes,
            (final(self).instrument matches Some(inst) && {
                &&& inst.midi.id@ == spec_instrument_id(ci.part_id@, ci.instrument_id)
                &&& inst.midi.program == ci.midi_program
                &&& inst.score.id@ == spec_instrument_id(ci.part_id@, ci.instrument_id)
                &&& inst.score.name@ == ci.name@
                &&& inst.score.sound == ci.sound
            }),
    {
        self.instrument = Some(MusicXmlInstrument::new(ci));
    }

    /// Append this part as a `<part>` element.
    pub fn write_to(&self, writer: &mut xml::Writer)
        requires
            old(writer).depth() < 0x000f_0000,
            part_writable(*self),
        ensures
            final(writer).text() == old(writer).text() + spec_part_xml(
                *self,
                old(writer).depth(),
            ),
            final(writer).depth() == old(writer).depth(),
    {
        let ghost d = old(writer).depth();
        let attrs = attrs1("id", self.id.as_str());
        writer.open_tag("part", Some(attrs));
        let ghost t_open = writer.text();
        let mut i: usize = 0;
        while i < self.measures.len()
            invariant
                i <= self.measures.len(),
                part_writable(*self),
                writer.depth() == d + 1,
                d < 0x000f_0000,
                writer.text() == t_open + spec_part_measures_xml(
                    self.measures@.subrange(0, i as int),
                    (d + 1) as nat,
                ),
            decreases self.measures.len() - i,
        {
            proof {
                assert(measure_writable(self.measures@[i as int]));
            }
            self.measures[i].write_to(writer);
            proof {
                let cur = self.measures@.subrange(0, i + 1);
                assert(cur.drop_last() =~= self.measures@.subrange(0, i as int));
                assert(cur.last() == self.measures@[i as int]);
                assert(writer.text() =~= t_open + spec_part_measures_xml(cur, (d + 1) as nat));
            }
            i = i + 1;
        }
        proof {
            assert(self.measures@.subrange(0, self.measures@.len() as int) =~= self.measures@);
        }
        writer.close_tag("part");
        proof {
            assert(final(writer).text() =~= old(writer).text() + spec_part_xml(*self, d));
        }
    }
}

} // verus!

verus! {

// ---------------------------------------------------------------------------
// Tie finalization
// ---------------------------------------------------------------------------
/// The open-tie key while scanning for tie stops: the semitone of the most
/// recent unresolved tie start.
pub open spec fn spec_tie_next(prev: Option<int>, item: MeasureItem) -> Option<int> {
    match item {
        MeasureItem::Note(n) => match n.pitch {
            Some(p) => match n.tie {
                Some(StartStop::Start) => Some(spec_semitone(p)),
                Some(StartStop::Stop) => None,
                None => if prev == Some(spec_semitone(p)) {
                    None
                } else {
                    prev
                },
            },
            None => None,
        },
        _ => None,
    }
}

/// What the pass writes at one position: a plain note on the tied pitch
/// right after a tie start becomes the tie's stop; everything else stays.
pub open spec fn spec_tie_mark(prev: Option<int>, item: MeasureItem) -> MeasureItem {
    match item {
        MeasureItem::Note(n) => match n.pitch {
            Some(p) => if n.tie is None && prev == Some(spec_semitone(p)) {
                MeasureItem::Note(Note { tie: Some(StartStop::Stop), ..n })
            } else {
                item
            },
            None => item,
        },
        _ => item,
    }
}

/// The scan state before item `ji` of measure `mi`; ties carry across
/// measure boundaries.
pub open spec fn spec_tie_state_at(ms: Seq<Measure>, mi: int, ji: int) -> Option<int>
    decreases mi, ji,
{
    if mi <= 0 && ji <= 0 {
        None
    } else if ji <= 0 {
        spec_tie_state_at(ms, mi - 1, ms[mi - 1].items@.len() as int)
    } else {
        spec_tie_next(spec_tie_state_at(ms, mi, ji - 1), ms[mi].items@[ji - 1])
    }
}

/// Whether every pitched note of the measures resolves to a MIDI note.
pub open spec fn measures_pitches_in_range(ms: Seq<Measure>) -> bool {
    forall|mi: int, ji: int|
        0 <= mi < ms.len() && 0 <= ji < ms[mi].items@.len() ==> ((#[trigger] ms[mi].items@[ji])
            matches MeasureItem::Note(n) && n.pitch matches Some(p) ==> pitch_in_range(p))
}

/// The scan key as the runtime carries it.
pub open spec fn spec_prev_view(prev: Option<u8>) -> Option<int> {
    match prev {
        Some(s) => Some(s as int),
        None => None,
    }
}

impl Part {
    /// Close the ties: scanning the measures in order, a plain note on the
    /// same pitch directly after a tie start is marked as that tie's stop.
    /// Everything else, and every other field, stays as it was.
    #[verifier::spinoff_prover]
    #[verifier::rlimit(100)]
    pub fn finalize(&mut self)
        requires
            measures_pitches_in_range(old(self).measures@),
        ensures
            final(self).measures@.len() == old(self).measures@.len(),
            forall|mi: int|
                0 <= mi < old(self).measures@.len() ==> {
                    let m_old = #[trigger] old(self).measures@[mi];
                    let m_new = final(self).measures@[mi];
                    &&& m_new.number == m_old.number
                    &&& m_new.attributes == m_old.attributes
                    &&& m_new.effective_attributes == m_old.effective_attributes
                    &&& m_new.items@.len() == m_old.items@.len()
                },
            forall|mi: int, ji: int|
                0 <= mi < old(self).measures@.len() && 0 <= ji < old(
                    self,
                ).measures@[mi].items@.len() ==> (#[trigger] final(self).measures@[mi].items@[ji])
                    == spec_tie_mark(
                    spec_tie_state_at(old(self).measures@, mi, ji),
                    old(self).measures@[mi].items@[ji],
                ),
            final(self).id == old(self).id,
            final(self).name == old(self).name,
            final(self).instrument == old(self).instrument,
            final(self).effective_attributes == old(self).effective_attributes,
    {
        let ghost old_ms = self.measures@;
        let mut remaining: Vec<Measure> = Vec::new();
        core::mem::swap(&mut remaining, &mut self.measures);
        let mut done: Vec<Measure> = Vec::new();
        let mut prev: Option<u8> = None;
        let mut mi: usize = 0;
        proof {
            assert(remaining@ =~= old_ms.subrange(0, old_ms.len() as int));
            assert(old_ms.len() == remaining@.len());
        }
        let total_measures = remaining.len();
        proof {
            assert(total_measures == old_ms.len());
        }
        while remaining.len() > 0
            invariant
                measures_pitches_in_range(old_ms),
                mi + remaining@.len() == old_ms.len(),
                mi <= old_ms.len(),
                old_ms.len() <= usize::MAX,
                remaining@ == old_ms.subrange(mi as int, old_ms.len() as int),
                done@.len() == mi,
                spec_prev_view(prev) == spec_tie_state_at(old_ms, mi as int, 0),
                forall|k: int|
                    0 <= k < mi ==> {
                        let m_old = #[trigger] old_ms[k];
                        let m_new = done@[k];
                        &&& m_new.number == m_old.number
                        &&& m_new.attributes == m_old.attributes
                        &&& m_new.effective_attributes == m_old.effective_attributes
                        &&& m_new.items@.len() == m_old.items@.len()
                    },
                forall|k: int, ji: int|
                    0 <= k < mi && 0 <= ji < old_ms[k].items@.len() ==> (
                    #[trigger] done@[k].items@[ji]) == spec_tie_mark(
                        spec_tie_state_at(old_ms, k, ji),
                        old_ms[k].items@[ji],
                    ),
            decreases remaining@.len(),
        {
            let mut measure = remaining.remove(0);
            proof {
                assert(measure == old_ms[mi as int]);
                assert(remaining@ =~= old_ms.subrange(mi + 1, old_ms.len() as int));
            }
            let ghost m_items = measure.items@;
            let mut items: Vec<MeasureItem> = Vec::new();
            core::mem::swap(&mut items, &mut measure.items);
            let mut marked: Vec<MeasureItem> = Vec::new();
            let mut ji: usize = 0;
            proof {
                assert(items@ =~= m_items.subrange(0, m_items.len() as int));
                assert(m_items.len() == items@.len());
            }
            let total_items = items.len();
            proof {
                assert(total_items == m_items.len());
            }
            while items.len() > 0
                invariant
                    measures_pitches_in_range(old_ms),
                    mi < old_ms.len(),
                    m_items == old_ms[mi as int].items@,
                    ji + items@.len() == m_items.len(),
                    m_items.len() <= usize::MAX,
                    items@ == m_items.subrange(ji as int, m_items.len() as int),
                    marked@.len() == ji,
                    spec_prev_view(prev) == spec_tie_state_at(old_ms, mi as int, ji as int),
                    forall|j: int|
                        0 <= j < ji ==> (#[trigger] marked@[j]) == spec_tie_mark(
                            spec_tie_state_at(old_ms, mi as int, j),
                            m_items[j],
                        ),
                decreases items@.len(),
            {
                let item = items.remove(0);
                proof {
                    assert(item == m_items[ji as int]);
                    assert(items@ =~= m_items.subrange(ji + 1, m_items.len() as int));
                    assert(old_ms[mi as int].items@[ji as int] == item);
                }
                match item {
                    MeasureItem::Note(mut n) => {
                        match &n.pitch {
                            Some(p) => {
                                proof {
                                    assert((old_ms[mi as int].items@[ji as int])
                                        matches MeasureItem::Note(n2) && n2.pitch matches Some(
                                        p2,
                                    ) && pitch_in_range(p2));
                                }
                                let semi = p.to_semitone();
                                match &n.tie {
                                    Some(StartStop::Start) => {
                                        prev = Some(semi);
                                    },
                                    Some(StartStop::Stop) => {
                                        prev = None;
                                    },
                                    None => {
                                        let matched = match prev {
                                            Some(s) => s == semi,
                                            None => false,
                                        };
                                        if matched {
                                            n.tie = Some(StartStop::Stop);
                                            prev = None;
                                        }
                                    },
                                }
                            },
                            None => {
                                prev = None;
                            },
                        }
                        marked.push(MeasureItem::Note(n));
                    },
                    other => {
                        prev = None;
                        marked.push(other);
                    },
                }
                ji = ji + 1;
            }
            proof {
                assert(m_items.subrange(0, m_items.len() as int) =~= m_items);
            }
            measure.items = marked;
            done.push(measure);
            mi = mi + 1;
        }
        proof {
            assert(old_ms.subrange(old_ms.len() as int, old_ms.len() as int) =~= Seq::<
                Measure,
            >::empty());
        }
        self.measures = done;
    }
}

} // verus!
