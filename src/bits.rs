//! Moving a field's value in and out of a 16-bit register value.
use vstd::prelude::*;

verus! {

/// A field of `width` bits at bit `offset` fits inside a 16-bit register.
pub open spec fn valid_geometry(offset: u8, width: u8) -> bool {
    1 <= width && offset as int + width as int <= 16
}

/// The low `width` bits set.
pub open spec fn low_mask(width: u8) -> u16 {
    if width >= 16 {
        0xffffu16
    } else {
        ((1u32 << (width as u32)) - 1u32) as u16
    }
}

/// The bits `[offset, offset + width)` set.
pub open spec fn span_mask(offset: u8, width: u8) -> u16 {
    low_mask(width) << (offset as u16)
}

/// The field's bits of `reg`, right-aligned.
pub open spec fn extract_field(reg: u16, offset: u8, width: u8) -> u16 {
    (reg >> (offset as u16)) & low_mask(width)
}

/// `reg` with the field's bits replaced by the low `width` bits of `value`.
pub open spec fn merge_field(reg: u16, value: u16, offset: u8, width: u8) -> u16 {
    (((value & low_mask(width)) << (offset as u16)) | (reg & !span_mask(offset, width)))
}

/// The low `width` bits, as a 16-bit mask.
pub fn low_mask_exec(width: u8) -> (r: u16)
    requires
        1 <= width <= 16,
    ensures
        r == low_mask(width),
{
    if width >= 16 {
        0xffff
    } else {
        let w = width as u32;
        assert(1u32 << w >= 1u32) by (bit_vector)
            requires
                w < 16,
        ;
        ((1u32 << w) - 1) as u16
    }
}

/// Reads the field at `offset`/`width` out of `reg`.
pub fn extract(reg: u16, offset: u8, width: u8) -> (r: u16)
    requires
        valid_geometry(offset, width),
    ensures
        r == extract_field(reg, offset, width),
        r <= low_mask(width),
{
    let m = low_mask_exec(width);
    let r = (reg >> (offset as u16)) & m;
    assert(r <= m) by (bit_vector)
        requires
            r == (reg >> (offset as u16)) & m,
    ;
    r
}

/// Writes `value`, masked to the field's width, into the field of `reg`.
pub fn merge(reg: u16, value: u16, offset: u8, width: u8) -> (r: u16)
    requires
        valid_geometry(offset, width),
    ensures
        r == merge_field(reg, value, offset, width),
{
    let m = low_mask_exec(width);
    let o = offset as u16;
    ((value & m) << o) | (reg & !(m << o))
}

/// Writing back the value read out of a field leaves the register as it was.
pub proof fn lemma_merge_extract(reg: u16, offset: u8, width: u8)
    requires
        valid_geometry(offset, width),
    ensures
        merge_field(reg, extract_field(reg, offset, width), offset, width) == reg,
{
    let o = offset as u16;
    let w = width as u32;
    let m = low_mask(width);
    if width < 16 {
        assert(m == ((1u32 << w) - 1u32) as u16);
        assert(((((reg >> o) & m) & m) << o) | (reg & !(m << o)) == reg) by (bit_vector)
            requires
                m == ((1u32 << w) - 1u32) as u16,
                1 <= w < 16,
                o + w <= 16,
        ;
    } else {
        assert(((((reg >> o) & m) & m) << o) | (reg & !(m << o)) == reg) by (bit_vector)
            requires
                m == 0xffffu16,
                o == 0,
        ;
    }
}

/// Merging a value changes no bit of the register outside the field, and the
/// field then reads back as the value masked to the field's width.
pub proof fn lemma_merge_isolation(reg: u16, value: u16, offset: u8, width: u8)
    requires
        valid_geometry(offset, width),
    ensures
        merge_field(reg, value, offset, width) & !span_mask(offset, width) == reg & !span_mask(
            offset,
            width,
        ),
        extract_field(merge_field(reg, value, offset, width), offset, width) == value & low_mask(
            width,
        ),
{
    let o = offset as u16;
    let w = width as u32;
    let m = low_mask(width);
    if width < 16 {
        assert(m == ((1u32 << w) - 1u32) as u16);
        assert((((value & m) << o) | (reg & !(m << o))) & !(m << o) == reg & !(m << o)
            && (((((value & m) << o) | (reg & !(m << o))) >> o) & m) == value & m) by (bit_vector)
            requires
                m == ((1u32 << w) - 1u32) as u16,
                1 <= w < 16,
                o + w <= 16,
        ;
    } else {
        assert((((value & m) << o) | (reg & !(m << o))) & !(m << o) == reg & !(m << o)
            && (((((value & m) << o) | (reg & !(m << o))) >> o) & m) == value & m) by (bit_vector)
            requires
                m == 0xffffu16,
                o == 0,
        ;
    }
}

} // verus!
