//! Panel colours and the inks lettering is printed in.

use vstd::prelude::*;

use crate::dsp::Finish;

verus! {

/// How lettering sits on a faceplate: the ink itself, a dimmer ink for the
/// small scale markings, and the offset copy underneath that gives the
/// letters relief. On a black panel the relief is a shadow; on aluminium it
/// is a highlight.
#[derive(Clone, Copy, PartialEq, Eq, Debug)]
pub struct Ink {
    pub text: (u8, u8, u8),
    pub dim: (u8, u8, u8),
    pub relief: (u8, u8, u8, u8),
}

/// The ink a finish is lettered in.
pub open spec fn ink_for(finish: Finish) -> Ink {
    match finish {
        Finish::SilverFace => Ink {
            text: (0x1c, 0x1e, 0x20),
            dim: (0x3e, 0x42, 0x46),
            relief: (0xff, 0xff, 0xff, 130),
        },
        Finish::BlueStripe | Finish::BlackFace => Ink {
            text: (0xe8, 0xea, 0xee),
            dim: (0xb4, 0xba, 0xc2),
            relief: (0, 0, 0, 150),
        },
    }
}

impl Ink {
    /// Black lettering with a light relief on aluminium; white lettering
    /// with a shadow on either black panel.
    pub fn for_finish(finish: Finish) -> (r: Self)
        ensures
            r == ink_for(finish),
    {
        match finish {
            Finish::SilverFace => Ink {
                text: (0x1c, 0x1e, 0x20),
                dim: (0x3e, 0x42, 0x46),
                relief: (0xff, 0xff, 0xff, 130),
            },
            Finish::BlueStripe | Finish::BlackFace => Ink {
                text: (0xe8, 0xea, 0xee),
                dim: (0xb4, 0xba, 0xc2),
                relief: (0, 0, 0, 150),
            },
        }
    }
}

/// The red, green and blue bytes of a colour written as `0xRRGGBB`. Bits
/// above the low 24 are ignored.
pub fn rgb_channels(hex: u32) -> (r: (u8, u8, u8))
    ensures
        r.0 == (hex / 0x10000) % 0x100,
        r.1 == (hex / 0x100) % 0x100,
        r.2 == hex % 0x100,
{
    let red: u32 = (hex >> 16u32) & 0xff;
    let green: u32 = (hex >> 8u32) & 0xff;
    let blue: u32 = hex & 0xff;
    assert(red == (hex / 0x10000) % 0x100 && green == (hex / 0x100) % 0x100 && blue == hex % 0x100)
        by (bit_vector)
        requires
            red == (hex >> 16u32) & 0xff,
            green == (hex >> 8u32) & 0xff,
            blue == hex & 0xff,
    ;
    (red as u8, green as u8, blue as u8)
}

} // verus!
