//! The controller's instruction set: a closed enumeration of the symbolic
//! operation names, with a total mapping to the one-byte opcode each one is
//! sent as.

use vstd::prelude::*;

verus! {

/// ST7796S instructions.
#[derive(Clone, Copy)]
pub enum Command {
    NOP,
    SWRESET,
    RDDID,
    RDDST,
    RDMODE,
    RDMADCTL,
    RDPIXFMT,
    RDIMGFMT,
    RDSELFDIAG,
    SLPIN,
    SLPOUT,
    PTLON,
    NORON,
    INVOFF,
    INVON,
    DISPOFF,
    DISPON,
    CASET,
    PASET,
    RAMWR,
    RAMRD,
    PTLAR,
    VSCRDEF,
    TEOFF,
    TEON,
    MADCTL,
    VSCRSADD,
    PIXFMT,
    RGB_INTERFACE,
    FRMCTR1,
    FRMCTR2,
    FRMCTR3,
    INVCTR,
    DFUNCTR,
    PWCTR1,
    PWCTR2,
    PWCTR3,
    PWCTR4,
    PWCTR5,
    VMCTR1,
    RDID1,
    RDID2,
    RDID3,
    RDID4,
    GMCTRP1,
    GMCTRN1,
    DGCTR1,
    DGCTR2,
    MAD_RGB,
    MAD_X_RIGHT,
    MAD_Y_UP,
}

impl Command {
    /// The opcode byte this instruction is sent as.
    pub open spec fn spec_opcode(self) -> u8 {
        match self {
            Command::NOP => 0x00,
            Command::SWRESET => 0x01,
            Command::RDDID => 0x04,
            Command::RDDST => 0x09,
            Command::RDMODE => 0x0A,
            Command::RDMADCTL => 0x0B,
            Command::RDPIXFMT => 0x0C,
            Command::RDIMGFMT => 0x0D,
            Command::RDSELFDIAG => 0x0F,
            Command::SLPIN => 0x10,
            Command::SLPOUT => 0x11,
            Command::PTLON => 0x12,
            Command::NORON => 0x13,
            Command::INVOFF => 0x20,
            Command::INVON => 0x21,
            Command::DISPOFF => 0x28,
            Command::DISPON => 0x29,
            Command::CASET => 0x2A,
            Command::PASET => 0x2B,
            Command::RAMWR => 0x2C,
            Command::RAMRD => 0x2E,
            Command::PTLAR => 0x30,
            Command::VSCRDEF => 0x33,
            Command::TEOFF => 0x34,
            Command::TEON => 0x35,
            Command::MADCTL => 0x36,
            Command::VSCRSADD => 0x37,
            Command::PIXFMT => 0x3A,
            Command::RGB_INTERFACE => 0xB0,
            Command::FRMCTR1 => 0xB1,
            Command::FRMCTR2 => 0xB2,
            Command::FRMCTR3 => 0xB3,
            Command::INVCTR => 0xB4,
            Command::DFUNCTR => 0xB6,
            Command::PWCTR1 => 0xC0,
            Command::PWCTR2 => 0xC1,
            Command::PWCTR3 => 0xC2,
            Command::PWCTR4 => 0xC3,
            Command::PWCTR5 => 0xC4,
            Command::VMCTR1 => 0xC5,
            Command::RDID1 => 0xDA,
            Command::RDID2 => 0xDB,
            Command::RDID3 => 0xDC,
            Command::RDID4 => 0xDD,
            Command::GMCTRP1 => 0xE0,
            Command::GMCTRN1 => 0xE1,
            Command::DGCTR1 => 0xE2,
            Command::DGCTR2 => 0xE3,
            Command::MAD_RGB => 0x08,
            Command::MAD_X_RIGHT => 0x40,
            Command::MAD_Y_UP => 0x80,
        }
    }

    /// The opcode byte this instruction is sent as.
    #[verifier::when_used_as_spec(spec_opcode)]
    pub fn opcode(self) -> (r: u8)
        ensures
            r == self.spec_opcode(),
    {
        match self {
            Command::NOP => 0x00,
            Command::SWRESET => 0x01,
            Command::RDDID => 0x04,
            Command::RDDST => 0x09,
            Command::RDMODE => 0x0A,
            Command::RDMADCTL => 0x0B,
            Command::RDPIXFMT => 0x0C,
            Command::RDIMGFMT => 0x0D,
            Command::RDSELFDIAG => 0x0F,
            Command::SLPIN => 0x10,
            Command::SLPOUT => 0x11,
            Command::PTLON => 0x12,
            Command::NORON => 0x13,
            Command::INVOFF => 0x20,
            Command::INVON => 0x21,
            Command::DISPOFF => 0x28,
            Command::DISPON => 0x29,
            Command::CASET => 0x2A,
            Command::PASET => 0x2B,
            Command::RAMWR => 0x2C,
            Command::RAMRD => 0x2E,
            Command::PTLAR => 0x30,
            Command::VSCRDEF => 0x33,
            Command::TEOFF => 0x34,
            Command::TEON => 0x35,
            Command::MADCTL => 0x36,
            Command::VSCRSADD => 0x37,
            Command::PIXFMT => 0x3A,
            Command::RGB_INTERFACE => 0xB0,
            Command::FRMCTR1 => 0xB1,
            Command::FRMCTR2 => 0xB2,
            Command::FRMCTR3 => 0xB3,
            Command::INVCTR => 0xB4,
            Command::DFUNCTR => 0xB6,
            Command::PWCTR1 => 0xC0,
            Command::PWCTR2 => 0xC1,
            Command::PWCTR3 => 0xC2,
            Command::PWCTR4 => 0xC3,
            Command::PWCTR5 => 0xC4,
            Command::VMCTR1 => 0xC5,
            Command::RDID1 => 0xDA,
            Command::RDID2 => 0xDB,
            Command::RDID3 => 0xDC,
            Command::RDID4 => 0xDD,
            Command::GMCTRP1 => 0xE0,
            Command::GMCTRN1 => 0xE1,
            Command::DGCTR1 => 0xE2,
            Command::DGCTR2 => 0xE3,
            Command::MAD_RGB => 0x08,
            Command::MAD_X_RIGHT => 0x40,
            Command::MAD_Y_UP => 0x80,
        }
    }
}

} // verus!
