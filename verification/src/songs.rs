//! The note-name table: tone names map to pitches in Hz.
//!
//! Names are one to three ASCII bytes: a plain letter for the middle
//! octave, a trailing `0` for the octave below, a trailing `2` for the
//! octave above, and a trailing `+` for a sharp. Anything else — a space
//! in song data, say — names no pitch and stands for a rest.

use vstd::prelude::*;
use vstd::string::StringSliceAdditionalSpecFns;

verus! {

/// Pitch in Hz of a tone name, given as the name's UTF-8 bytes.
pub open spec fn tone_hz_spec(name: Seq<u8>) -> Option<u32> {
    if name.len() == 1 {
        if name[0] == 'c' as u8 {
            Some(261u32)
        } else if name[0] == 'd' as u8 {
            Some(294u32)
        } else if name[0] == 'e' as u8 {
            Some(329u32)
        } else if name[0] == 'f' as u8 {
            Some(349u32)
        } else if name[0] == 'g' as u8 {
            Some(392u32)
        } else if name[0] == 'a' as u8 {
            Some(440u32)
        } else if name[0] == 'b' as u8 {
            Some(493u32)
        } else {
            None
        }
    } else if name.len() == 2 {
        if name[1] == '0' as u8 {
            if name[0] == 'e' as u8 {
                Some(165u32)
            } else if name[0] == 'f' as u8 {
                Some(175u32)
            } else if name[0] == 'g' as u8 {
                Some(196u32)
            } else if name[0] == 'a' as u8 {
                Some(220u32)
            } else if name[0] == 'b' as u8 {
                Some(245u32)
            } else {
                None
            }
        } else if name[1] == '+' as u8 {
            if name[0] == 'c' as u8 {
                Some(277u32)
            } else if name[0] == 'd' as u8 {
                Some(311u32)
            } else if name[0] == 'f' as u8 {
                Some(370u32)
            } else if name[0] == 'g' as u8 {
                Some(415u32)
            } else if name[0] == 'a' as u8 {
                Some(466u32)
            } else {
                None
            }
        } else if name[1] == '2' as u8 {
            if name[0] == 'c' as u8 {
                Some(523u32)
            } else if name[0] == 'd' as u8 {
                Some(594u32)
            } else {
                None
            }
        } else {
            None
        }
    } else if name.len() == 3 && name[1] == '0' as u8 && name[2] == '+' as u8 {
        if name[0] == 'f' as u8 {
            Some(185u32)
        } else if name[0] == 'g' as u8 {
            Some(208u32)
        } else if name[0] == 'a' as u8 {
            Some(233u32)
        } else {
            None
        }
    } else {
        None
    }
}

/// Map a tone name to its pitch in Hz; an unknown name is a rest.
pub fn tone_string_to_hz(tone: &str) -> (r: Option<u32>)
    ensures
        r == tone_hz_spec(tone.spec_bytes()),
{
    let bytes = tone.as_bytes();
    if bytes.len() == 1 {
        let c = bytes[0];
        if c == 'c' as u8 {
            Some(261)
        } else if c == 'd' as u8 {
            Some(294)
        } else if c == 'e' as u8 {
            Some(329)
        } else if c == 'f' as u8 {
            Some(349)
        } else if c == 'g' as u8 {
            Some(392)
        } else if c == 'a' as u8 {
            Some(440)
        } else if c == 'b' as u8 {
            Some(493)
        } else {
            None
        }
    } else if bytes.len() == 2 {
        let c = bytes[0];
        let m = bytes[1];
        if m == '0' as u8 {
            if c == 'e' as u8 {
                Some(165)
            } else if c == 'f' as u8 {
                Some(175)
            } else if c == 'g' as u8 {
                Some(196)
            } else if c == 'a' as u8 {
                Some(220)
            } else if c == 'b' as u8 {
                Some(245)
            } else {
                None
            }
        } else if m == '+' as u8 {
            if c == 'c' as u8 {
                Some(277)
            } else if c == 'd' as u8 {
                Some(311)
            } else if c == 'f' as u8 {
                Some(370)
            } else if c == 'g' as u8 {
                Some(415)
            } else if c == 'a' as u8 {
                Some(466)
            } else {
                None
            }
        } else if m == '2' as u8 {
            if c == 'c' as u8 {
                Some(523)
            } else if c == 'd' as u8 {
                Some(594)
            } else {
                None
            }
        } else {
            None
        }
    } else if bytes.len() == 3 && bytes[1] == '0' as u8 && bytes[2] == '+' as u8 {
        let c = bytes[0];
        if c == 'f' as u8 {
            Some(185)
        } else if c == 'g' as u8 {
            Some(208)
        } else if c == 'a' as u8 {
            Some(233)
        } else {
            None
        }
    } else {
        None
    }
}

} // verus!
