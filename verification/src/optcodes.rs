//! The instruction set: the tagged instruction type, the pure and total
//! decoder, and the bit-field extractors for the immediate fields of an
//! instruction word.
use vstd::prelude::*;

verus! {

/// One variant per instruction the machine implements, each carrying
/// the 16-bit instruction word it was decoded from, plus a catch-all
/// for every word that matches no defined pattern.
#[derive(Debug, PartialEq, Eq, Structural, Clone, Copy)]
pub enum OptCode {
    SYS(u16),
    CLS(u16),
    RET(u16),
    JP(u16),
    CALL(u16),
    SEVxByte(u16),
    SEVxVy(u16),
    SNEVxByte(u16),
    LDVxByte(u16),
    ADDVxByte(u16),
    LDVxVy(u16),
    ORVxVy(u16),
    ANDVxVy(u16),
    XORVxVy(u16),
    ADDVxVy(u16),
    SUBVxVy(u16),
    SHRVxVy(u16),
    SHLVxVy(u16),
    SNEVxVy(u16),
    LDIAddr(u16),
    RNDVxByte(u16),
    DRWNibble(u16),
    SKPVx(u16),
    SKNPVx(u16),
    LDVxDT(u16),
    LDVxK(u16),
    LDDTVx(u16),
    LDSTVx(u16),
    ADDIVx(u16),
    LDFVx(u16),
    LDBVx(u16),
    LDIVx(u16),
    LDVxI(u16),
    Unknown(u16),
}

/// The decoder as mathematics: every 16-bit word maps to exactly one
/// variant.  Dispatch inspects the top nibble first, then the low byte
/// or low nibble for the families that share a top nibble.
pub open spec fn spec_decode(opt: u16) -> OptCode {
    if opt & 0xF000 == 0x0000 {
        if opt & 0x00FF == 0x00E0 {
            OptCode::CLS(opt)
        } else if opt & 0x00FF == 0x00EE {
            OptCode::RET(opt)
        } else {
            OptCode::SYS(opt)
        }
    } else if opt & 0xF000 == 0x1000 {
        OptCode::JP(opt)
    } else if opt & 0xF000 == 0x2000 {
        OptCode::CALL(opt)
    } else if opt & 0xF000 == 0x3000 {
        OptCode::SEVxByte(opt)
    } else if opt & 0xF000 == 0x4000 {
        OptCode::SNEVxByte(opt)
    } else if opt & 0xF000 == 0x5000 {
        OptCode::SEVxVy(opt)
    } else if opt & 0xF000 == 0x6000 {
        OptCode::LDVxByte(opt)
    } else if opt & 0xF000 == 0x7000 {
        OptCode::ADDVxByte(opt)
    } else if opt & 0xF000 == 0x8000 {
        if opt & 0x000F == 0x0000 {
            OptCode::LDVxVy(opt)
        } else if opt & 0x000F == 0x0001 {
            OptCode::ORVxVy(opt)
        } else if opt & 0x000F == 0x0002 {
            OptCode::ANDVxVy(opt)
        } else if opt & 0x000F == 0x0003 {
            OptCode::XORVxVy(opt)
        } else if opt & 0x000F == 0x0004 {
            OptCode::ADDVxVy(opt)
        } else if opt & 0x000F == 0x0005 {
            OptCode::SUBVxVy(opt)
        } else if opt & 0x000F == 0x0006 {
            OptCode::SHRVxVy(opt)
        } else if opt & 0x000F == 0x000E {
            OptCode::SHLVxVy(opt)
        } else {
            OptCode::Unknown(opt)
        }
    } else if opt & 0xF000 == 0x9000 {
        OptCode::SNEVxVy(opt)
    } else if opt & 0xF000 == 0xA000 {
        OptCode::LDIAddr(opt)
    } else if opt & 0xF000 == 0xC000 {
        OptCode::RNDVxByte(opt)
    } else if opt & 0xF000 == 0xD000 {
        OptCode::DRWNibble(opt)
    } else if opt & 0xF000 == 0xE000 {
        if opt & 0x00FF == 0x009E {
            OptCode::SKPVx(opt)
        } else if opt & 0x00FF == 0x00A1 {
            OptCode::SKNPVx(opt)
        } else {
            OptCode::Unknown(opt)
        }
    } else if opt & 0xF000 == 0xF000 {
        if opt & 0x00FF == 0x0007 {
            OptCode::LDVxDT(opt)
        } else if opt & 0x00FF == 0x000A {
            OptCode::LDVxK(opt)
        } else if opt & 0x00FF == 0x0015 {
            OptCode::LDDTVx(opt)
        } else if opt & 0x00FF == 0x0018 {
            OptCode::LDSTVx(opt)
        } else if opt & 0x00FF == 0x001E {
            OptCode::ADDIVx(opt)
        } else if opt & 0x00FF == 0x0029 {
            OptCode::LDFVx(opt)
        } else if opt & 0x00FF == 0x0033 {
            OptCode::LDBVx(opt)
        } else if opt & 0x00FF == 0x0055 {
            OptCode::LDIVx(opt)
        } else if opt & 0x00FF == 0x0065 {
            OptCode::LDVxI(opt)
        } else {
            OptCode::Unknown(opt)
        }
    } else {
        OptCode::Unknown(opt)
    }
}

/// Decode one instruction word.  Pure and total: decoding never touches
/// machine state, and every word yields a variant.
pub fn decode(opt: u16) -> (r: OptCode)
    ensures
        r == spec_decode(opt),
{
    let family: u16 = opt & 0xF000;
    if family == 0x0000 {
        let low: u16 = opt & 0x00FF;
        if low == 0x00E0 {
            OptCode::CLS(opt)
        } else if low == 0x00EE {
            OptCode::RET(opt)
        } else {
            OptCode::SYS(opt)
        }
    } else if family == 0x1000 {
        OptCode::JP(opt)
    } else if family == 0x2000 {
        OptCode::CALL(opt)
    } else if family == 0x3000 {
        OptCode::SEVxByte(opt)
    } else if family == 0x4000 {
        OptCode::SNEVxByte(opt)
    } else if family == 0x5000 {
        OptCode::SEVxVy(opt)
    } else if family == 0x6000 {
        OptCode::LDVxByte(opt)
    } else if family == 0x7000 {
        OptCode::ADDVxByte(opt)
    } else if family == 0x8000 {
        let fine: u16 = opt & 0x000F;
        if fine == 0x0000 {
            OptCode::LDVxVy(opt)
        } else if fine == 0x0001 {
            OptCode::ORVxVy(opt)
        } else if fine == 0x0002 {
            OptCode::ANDVxVy(opt)
        } else if fine == 0x0003 {
            OptCode::XORVxVy(opt)
        } else if fine == 0x0004 {
            OptCode::ADDVxVy(opt)
        } else if fine == 0x0005 {
            OptCode::SUBVxVy(opt)
        } else if fine == 0x0006 {
            OptCode::SHRVxVy(opt)
        } else if fine == 0x000E {
            OptCode::SHLVxVy(opt)
        } else {
            OptCode::Unknown(opt)
        }
    } else if family == 0x9000 {
        OptCode::SNEVxVy(opt)
    } else if family == 0xA000 {
        OptCode::LDIAddr(opt)
    } else if family == 0xC000 {
        OptCode::RNDVxByte(opt)
    } else if family == 0xD000 {
        OptCode::DRWNibble(opt)
    } else if family == 0xE000 {
        let low: u16 = opt & 0x00FF;
        if low == 0x009E {
            OptCode::SKPVx(opt)
        } else if low == 0x00A1 {
            OptCode::SKNPVx(opt)
        } else {
            OptCode::Unknown(opt)
        }
    } else if family == 0xF000 {
        let low: u16 = opt & 0x00FF;
        if low == 0x0007 {
            OptCode::LDVxDT(opt)
        } else if low == 0x000A {
            OptCode::LDVxK(opt)
        } else if low == 0x0015 {
            OptCode::LDDTVx(opt)
        } else if low == 0x0018 {
            OptCode::LDSTVx(opt)
        } else if low == 0x001E {
            OptCode::ADDIVx(opt)
        } else if low == 0x0029 {
            OptCode::LDFVx(opt)
        } else if low == 0x0033 {
            OptCode::LDBVx(opt)
        } else if low == 0x0055 {
            OptCode::LDIVx(opt)
        } else if low == 0x0065 {
            OptCode::LDVxI(opt)
        } else {
            OptCode::Unknown(opt)
        }
    } else {
        OptCode::Unknown(opt)
    }
}

/// The 12-bit address field: the low twelve bits of the word.
pub open spec fn spec_nnn(opt: u16) -> u16 {
    opt & 0x0FFF
}

/// The destination-register field: bits 8-11 of the word.
pub open spec fn spec_vx(opt: u16) -> int {
    ((opt >> 8) & 0x0F) as int
}

/// The source-register field: bits 4-7 of the word.
pub open spec fn spec_vy(opt: u16) -> int {
    ((opt >> 4) & 0x0F) as int
}

/// The 8-bit immediate field: the low byte of the word.
pub open spec fn spec_kk(opt: u16) -> u8 {
    (opt & 0x00FF) as u8
}

/// The 4-bit count field: the low nibble of the word.
pub open spec fn spec_nibble(opt: u16) -> int {
    (opt & 0x000F) as int
}

/// The immediate fields stay inside their bit widths: register indices
/// below 16, the address below 0x1000, the count below 16.
pub proof fn lemma_field_bounds(opt: u16)
    ensures
        0 <= spec_vx(opt) < 16,
        0 <= spec_vy(opt) < 16,
        spec_nnn(opt) < 0x1000,
        0 <= spec_nibble(opt) < 16,
{
    assert((opt >> 8) & 0x0F < 16) by (bit_vector);
    assert((opt >> 4) & 0x0F < 16) by (bit_vector);
    assert(opt & 0x0FFF < 0x1000) by (bit_vector);
    assert(opt & 0x000F < 16) by (bit_vector);
}

/// Extract the 12-bit address field.
pub fn nnn(opt: u16) -> (r: u16)
    ensures
        r == spec_nnn(opt),
        r < 0x1000,
{
    proof {
        assert(opt & 0x0FFF < 0x1000) by (bit_vector);
    }
    opt & 0x0FFF
}

/// Extract the destination-register index; always below 16.
pub fn vx_of(opt: u16) -> (r: usize)
    ensures
        r == spec_vx(opt),
        r < 16,
{
    proof {
        assert((opt >> 8) & 0x0F < 16) by (bit_vector);
    }
    (((opt >> 8) & 0x0F)) as usize
}

/// Extract the source-register index; always below 16.
pub fn vy_of(opt: u16) -> (r: usize)
    ensures
        r == spec_vy(opt),
        r < 16,
{
    proof {
        assert((opt >> 4) & 0x0F < 16) by (bit_vector);
    }
    (((opt >> 4) & 0x0F)) as usize
}

/// Extract the 8-bit immediate field.
pub fn kk_of(opt: u16) -> (r: u8)
    ensures
        r == spec_kk(opt),
{
    proof {
        assert(opt & 0x00FF < 0x100) by (bit_vector);
        assert((opt & 0x00FF) as u8 == opt & 0x00FF) by (bit_vector);
    }
    (opt & 0x00FF) as u8
}

/// Extract the 4-bit count field; always below 16.
pub fn nibble_of(opt: u16) -> (r: usize)
    ensures
        r == spec_nibble(opt),
        r < 16,
{
    proof {
        assert(opt & 0x000F < 16) by (bit_vector);
    }
    (opt & 0x000F) as usize
}

} // verus!
