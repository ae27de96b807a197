//! Memory-mapped I/O ports.

use vstd::prelude::*;

verus! {

/// One of the sixteen ports, which occupy the addresses 240 to 255.
#[derive(Debug, Clone, Copy, PartialEq, Eq, Structural)]
pub enum Port {
    PixelX,
    PixelY,
    DrawPixel,
    ClearPixel,
    LoadPixel,
    BufferScreen,
    ClearScreenBuffer,
    WriteChar,
    BufferChars,
    ClearCharsBuffer,
    ShowNumber,
    ClearNumber,
    SignedMode,
    UnsignedMode,
    RNG,
    ControllerInput,
}

impl Port {
    /// The port's address.
    pub open spec fn spec_code(self) -> u8 {
        match self {
            Port::PixelX => 240,
            Port::PixelY => 241,
            Port::DrawPixel => 242,
            Port::ClearPixel => 243,
            Port::LoadPixel => 244,
            Port::BufferScreen => 245,
            Port::ClearScreenBuffer => 246,
            Port::WriteChar => 247,
            Port::BufferChars => 248,
            Port::ClearCharsBuffer => 249,
            Port::ShowNumber => 250,
            Port::ClearNumber => 251,
            Port::SignedMode => 252,
            Port::UnsignedMode => 253,
            Port::RNG => 254,
            Port::ControllerInput => 255,
        }
    }

    /// The port's address.
    #[verifier::when_used_as_spec(spec_code)]
    pub fn code(self) -> (c: u8)
        ensures
            c == self.spec_code(),
            c >= 240,
    {
        match self {
            Port::PixelX => 240,
            Port::PixelY => 241,
            Port::DrawPixel => 242,
            Port::ClearPixel => 243,
            Port::LoadPixel => 244,
            Port::BufferScreen => 245,
            Port::ClearScreenBuffer => 246,
            Port::WriteChar => 247,
            Port::BufferChars => 248,
            Port::ClearCharsBuffer => 249,
            Port::ShowNumber => 250,
            Port::ClearNumber => 251,
            Port::SignedMode => 252,
            Port::UnsignedMode => 253,
            Port::RNG => 254,
            Port::ControllerInput => 255,
        }
    }
}

} // verus!
