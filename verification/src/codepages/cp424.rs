//! Code page 424: Hebrew.

use vstd::prelude::*;

verus! {

/// The scalar each byte stands for.
pub const TABLE: [u16; 256] = [
    0x0000, 0x0001, 0x0002, 0x0003, 0x009c, 0x0009, 0x0086, 0x007f,
    0x0097, 0x008d, 0x008e, 0x000b, 0x000c, 0x000d, 0x000e, 0x000f,
    0x0010, 0x0011, 0x0012, 0x0013, 0x009d, 0x0085, 0x0008, 0x0087,
    0x0018, 0x0019, 0x0092, 0x008f, 0x001c, 0x001d, 0x001e, 0x001f,
    0x0080, 0x0081, 0x0082, 0x0083, 0x0084, 0x000a, 0x0017, 0x001b,
    0x0088, 0x0089, 0x008a, 0x008b, 0x008c, 0x0005, 0x0006, 0x0007,
    0x0090, 0x0091, 0x0016, 0x0093, 0x0094, 0x0095, 0x0096, 0x0004,
    0x0098, 0x0099, 0x009a, 0x009b, 0x0014, 0x0015, 0x009e, 0x001a,
    0x0020, 0x05d0, 0x05d1, 0x05d2, 0x05d3, 0x05d4, 0x05d5, 0x05d6,
    0x05d7, 0x05d8, 0x00a2, 0x002e, 0x003c, 0x0028, 0x002b, 0x007c,
    0x0026, 0x05d9, 0x05da, 0x05db, 0x05dc, 0x05dd, 0x05de, 0x05df,
    0x05e0, 0x05e1, 0x0021, 0x0024, 0x002a, 0x0029, 0x003b, 0x00ac,
    0x002d, 0x002f, 0x05e2, 0x05e3, 0x05e4, 0x05e5, 0x05e6, 0x05e7,
    0x05e8, 0x05e9, 0x00a6, 0x002c, 0x0025, 0x005f, 0x003e, 0x003f,
    0xffff, 0x05ea, 0xffff, 0xffff, 0x00a0, 0xffff, 0xffff, 0xffff,
    0x2017, 0x0060, 0x003a, 0x0023, 0x0040, 0x0027, 0x003d, 0x0022,
    0xffff, 0x0061, 0x0062, 0x0063, 0x0064, 0x0065, 0x0066, 0x0067,
    0x0068, 0x0069, 0x00ab, 0x00bb, 0xffff, 0xffff, 0xffff, 0x00b1,
    0x00b0, 0x006a, 0x006b, 0x006c, 0x006d, 0x006e, 0x006f, 0x0070,
    0x0071, 0x0072, 0xffff, 0xffff, 0xffff, 0x00b8, 0xffff, 0x00a4,
    0x00b5, 0x007e, 0x0073, 0x0074, 0x0075, 0x0076, 0x0077, 0x0078,
    0x0079, 0x007a, 0xffff, 0xffff, 0xffff, 0xffff, 0xffff, 0x00ae,
    0x005e, 0x00a3, 0x00a5, 0x00b7, 0x00a9, 0x00a7, 0x00b6, 0x00bc,
    0x00bd, 0x00be, 0x005b, 0x005d, 0x00af, 0x00a8, 0x00b4, 0x00d7,
    0x007b, 0x0041, 0x0042, 0x0043, 0x0044, 0x0045, 0x0046, 0x0047,
    0x0048, 0x0049, 0x00ad, 0xffff, 0xffff, 0xffff, 0xffff, 0xffff,
    0x007d, 0x004a, 0x004b, 0x004c, 0x004d, 0x004e, 0x004f, 0x0050,
    0x0051, 0x0052, 0x00b9, 0xffff, 0xffff, 0xffff, 0xffff, 0xffff,
    0x005c, 0x00f7, 0x0053, 0x0054, 0x0055, 0x0056, 0x0057, 0x0058,
    0x0059, 0x005a, 0x00b2, 0xffff, 0xffff, 0xffff, 0xffff, 0xffff,
    0x0030, 0x0031, 0x0032, 0x0033, 0x0034, 0x0035, 0x0036, 0x0037,
    0x0038, 0x0039, 0x00b3, 0xffff, 0xffff, 0xffff, 0xffff, 0x009f,
];

/// The scalar each byte stands for, as a sequence.
#[verifier::opaque]
pub open spec fn table() -> Seq<u16> {
    TABLE@
}

/// The entry of one byte.
pub fn scalar(byte: u8) -> (r: u16)
    ensures
        r == table()[byte as int],
{
    proof {
        reveal(table);
    }
    TABLE[byte as usize]
}

/// There is an entry per byte, and no entry is a surrogate.
pub proof fn lemma_scalars(byte: u8)
    ensures
        table().len() == 256,
        !(0xd800 <= table()[byte as int] <= 0xdfff),
{
    reveal(table);
}

/// The blank and the ten digits are where every code page has them.
pub proof fn lemma_digits(digit: u8)
    requires
        digit < 10,
    ensures
        table()[0x40] == 0x20,
        table()[0xf0 + digit] == 0x30 + digit,
{
    reveal(table);
}

} // verus!
