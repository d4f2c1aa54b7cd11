use vstd::prelude::*;

verus! {

/// Byte order used when serializing multi-byte Unicode code units.
#[derive(Clone, Copy, Debug, Eq, Hash, PartialEq, Structural)]
pub enum ByteOrder {
    /// Most significant byte first.
    BigEndian,
    /// Least significant byte first.
    LittleEndian,
}

impl ByteOrder {
    /// The `u16` value whose two bytes, in this byte order, are `b0` then `b1`.
    pub open spec fn spec_read_u16(self, b0: u8, b1: u8) -> u16 {
        match self {
            ByteOrder::BigEndian => (b0 * 0x100 + b1) as u16,
            ByteOrder::LittleEndian => (b1 * 0x100 + b0) as u16,
        }
    }

    /// The `u32` value whose four bytes, in this byte order, are `b0` to `b3`.
    pub open spec fn spec_read_u32(self, b0: u8, b1: u8, b2: u8, b3: u8) -> u32 {
        match self {
            ByteOrder::BigEndian => (b0 * 0x1000000 + b1 * 0x10000 + b2 * 0x100 + b3) as u32,
            ByteOrder::LittleEndian => (b3 * 0x1000000 + b2 * 0x10000 + b1 * 0x100 + b0) as u32,
        }
    }

    /// The two bytes of `value` in this byte order.
    pub open spec fn spec_u16_bytes(self, value: u16) -> Seq<u8> {
        let hi = (value / 0x100) as u8;
        let lo = (value % 0x100) as u8;
        match self {
            ByteOrder::BigEndian => seq![hi, lo],
            ByteOrder::LittleEndian => seq![lo, hi],
        }
    }

    /// The four bytes of `value` in this byte order.
    pub open spec fn spec_u32_bytes(self, value: u32) -> Seq<u8> {
        let b3 = (value / 0x1000000) as u8;
        let b2 = (value / 0x10000 % 0x100) as u8;
        let b1 = (value / 0x100 % 0x100) as u8;
        let b0 = (value % 0x100) as u8;
        match self {
            ByteOrder::BigEndian => seq![b3, b2, b1, b0],
            ByteOrder::LittleEndian => seq![b0, b1, b2, b3],
        }
    }

    /// Reads a `u16` from the first two bytes of `bytes` using this byte order.
    ///
    /// `bytes` must hold at least two bytes.
    pub fn read_u16(self, bytes: &[u8]) -> (r: u16)
        requires
            bytes@.len() >= 2,
        ensures
            r == self.spec_read_u16(bytes@[0], bytes@[1]),
    {
        let b0: u16 = bytes[0] as u16;
        let b1: u16 = bytes[1] as u16;
        match self {
            ByteOrder::BigEndian => b0 * 0x100 + b1,
            ByteOrder::LittleEndian => b1 * 0x100 + b0,
        }
    }

    /// Reads a `u32` from the first four bytes of `bytes` using this byte order.
    ///
    /// `bytes` must hold at least four bytes.
    pub fn read_u32(self, bytes: &[u8]) -> (r: u32)
        requires
            bytes@.len() >= 4,
        ensures
            r == self.spec_read_u32(bytes@[0], bytes@[1], bytes@[2], bytes@[3]),
    {
        let b0: u32 = bytes[0] as u32;
        let b1: u32 = bytes[1] as u32;
        let b2: u32 = bytes[2] as u32;
        let b3: u32 = bytes[3] as u32;
        match self {
            ByteOrder::BigEndian => b0 * 0x1000000 + b1 * 0x10000 + b2 * 0x100 + b3,
            ByteOrder::LittleEndian => b3 * 0x1000000 + b2 * 0x10000 + b1 * 0x100 + b0,
        }
    }

    /// Converts a `u16` value to its two bytes in this byte order.
    pub fn u16_bytes(self, value: u16) -> (r: [u8; 2])
        ensures
            r@ == self.spec_u16_bytes(value),
    {
        let hi: u8 = (value / 0x100) as u8;
        let lo: u8 = (value % 0x100) as u8;
        let r: [u8; 2] = match self {
            ByteOrder::BigEndian => [hi, lo],
            ByteOrder::LittleEndian => [lo, hi],
        };
        assert(r@ == self.spec_u16_bytes(value));
        r
    }

    /// Converts a `u32` value to its four bytes in this byte order.
    pub fn u32_bytes(self, value: u32) -> (r: [u8; 4])
        ensures
            r@ == self.spec_u32_bytes(value),
    {
        let b3: u8 = (value / 0x1000000) as u8;
        let b2: u8 = (value / 0x10000 % 0x100) as u8;
        let b1: u8 = (value / 0x100 % 0x100) as u8;
        let b0: u8 = (value % 0x100) as u8;
        let r: [u8; 4] = match self {
            ByteOrder::BigEndian => [b3, b2, b1, b0],
            ByteOrder::LittleEndian => [b0, b1, b2, b3],
        };
        assert(r@ == self.spec_u32_bytes(value));
        r
    }
}

/// Serializing a `u16` and reading the two bytes back, in the same byte order, gives the
/// value back.
pub proof fn lemma_u16_bytes_then_read(order: ByteOrder, value: u16)
    ensures
        ({
            let b = order.spec_u16_bytes(value);
            b.len() == 2 && order.spec_read_u16(b[0], b[1]) == value
        }),
{
}

/// Reading a `u16` from two bytes and serializing it again, in the same byte order, gives
/// back the two bytes.
pub proof fn lemma_read_then_u16_bytes(order: ByteOrder, b0: u8, b1: u8)
    ensures
        order.spec_u16_bytes(order.spec_read_u16(b0, b1)) == seq![b0, b1],
{
}

/// Serializing a `u32` and reading the four bytes back, in the same byte order, gives the
/// value back.
pub proof fn lemma_u32_bytes_then_read(order: ByteOrder, value: u32)
    ensures
        ({
            let b = order.spec_u32_bytes(value);
            b.len() == 4 && order.spec_read_u32(b[0], b[1], b[2], b[3]) == value
        }),
{
}

/// Reading a `u32` from four bytes and serializing it again, in the same byte order, gives
/// back the four bytes.
pub proof fn lemma_read_then_u32_bytes(order: ByteOrder, b0: u8, b1: u8, b2: u8, b3: u8)
    ensures
        order.spec_u32_bytes(order.spec_read_u32(b0, b1, b2, b3)) == seq![b0, b1, b2, b3],
{
    let (x0, x1, x2, x3) = match order {
        ByteOrder::BigEndian => (b0, b1, b2, b3),
        ByteOrder::LittleEndian => (b3, b2, b1, b0),
    };
    let v: u32 = (x0 * 0x1000000 + x1 * 0x10000 + x2 * 0x100 + x3) as u32;
    assert(v == order.spec_read_u32(b0, b1, b2, b3));
    assert((v / 0x1000000) as u8 == x0 && (v / 0x10000 % 0x100) as u8 == x1 && (v / 0x100
        % 0x100) as u8 == x2 && (v % 0x100) as u8 == x3) by (bit_vector)
        requires
            v == (x0 * 0x1000000 + x1 * 0x10000 + x2 * 0x100 + x3) as u32,
    ;
    assert(order.spec_u32_bytes(v) =~= seq![b0, b1, b2, b3]);
}

} // verus!
