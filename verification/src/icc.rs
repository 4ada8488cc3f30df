//! Context modelling for the entropy-coded colour profile.
use vstd::prelude::*;
use crate::error::Error;

verus! {

/// An ASCII letter.
pub open spec fn is_letter(b: u8) -> bool {
    (0x41 <= b <= 0x5a) || (0x61 <= b <= 0x7a)
}

/// An ASCII digit, a full stop or a comma.
pub open spec fn is_numeric(b: u8) -> bool {
    (0x30 <= b <= 0x39) || b == 0x2e || b == 0x2c
}

/// Class of the byte decoded last: eight classes, 0 to 7.
pub open spec fn last_byte_class(b: u8) -> u32 {
    if is_letter(b) {
        0
    } else if is_numeric(b) {
        1
    } else if b <= 1 {
        (2 + b) as u32
    } else if b <= 15 {
        4
    } else if 241 <= b <= 254 {
        5
    } else if b == 255 {
        6
    } else {
        7
    }
}

/// Class of the byte decoded before the last: five classes, 0 to 4.
pub open spec fn earlier_byte_class(b: u8) -> u32 {
    if is_letter(b) {
        0
    } else if is_numeric(b) {
        1
    } else if b <= 15 {
        2
    } else if b >= 241 {
        3
    } else {
        4
    }
}

/// The context in which byte `idx` of the profile is decoded, given the two
/// bytes before it (`b1` the nearer).  The first 129 bytes share context 0;
/// after them the context is one more than the class of `b1` plus eight
/// times the class of `b2`.
pub open spec fn spec_icc_ctx(idx: usize, b1: u8, b2: u8) -> u32 {
    if idx <= 128 {
        0
    } else {
        (1 + last_byte_class(b1) + 8 * earlier_byte_class(b2)) as u32
    }
}

/// Number of contexts the profile decoder is set up with.
pub const ICC_CONTEXTS: u32 = 41;

/// The context in which byte `idx` of the profile is decoded.
pub fn get_icc_ctx(idx: usize, b1: u8, b2: u8) -> (ctx: u32)
    ensures
        ctx == spec_icc_ctx(idx, b1, b2),
        ctx < ICC_CONTEXTS,
{
    if idx <= 128 {
        return 0;
    }
    let letter1 = (b1 >= 0x41 && b1 <= 0x5a) || (b1 >= 0x61 && b1 <= 0x7a);
    let numeric1 = (b1 >= 0x30 && b1 <= 0x39) || b1 == 0x2e || b1 == 0x2c;
    let nearer: u32 = if letter1 {
        0
    } else if numeric1 {
        1
    } else if b1 <= 1 {
        2 + b1 as u32
    } else if b1 <= 15 {
        4
    } else if b1 >= 241 && b1 <= 254 {
        5
    } else if b1 == 255 {
        6
    } else {
        7
    };
    let letter2 = (b2 >= 0x41 && b2 <= 0x5a) || (b2 >= 0x61 && b2 <= 0x7a);
    let numeric2 = (b2 >= 0x30 && b2 <= 0x39) || b2 == 0x2e || b2 == 0x2c;
    let farther: u32 = if letter2 {
        0
    } else if numeric2 {
        1
    } else if b2 <= 15 {
        2
    } else if b2 >= 241 {
        3
    } else {
        4
    };
    1 + nearer + 8 * farther
}

/// The bytes of a colour profile decoded so far.
pub struct IccStream {
    bytes: Vec<u8>,
}

/// The byte `back` places before the end of `bytes`, or 0 where the
/// sequence is too short.
pub open spec fn byte_before_end(bytes: Seq<u8>, back: int) -> u8 {
    if bytes.len() >= back {
        bytes[bytes.len() - back]
    } else {
        0
    }
}

impl IccStream {
    /// The bytes decoded so far.
    pub closed spec fn view(self) -> Seq<u8> {
        self.bytes@
    }

    /// The context in which the next byte is decoded.
    pub open spec fn spec_next_ctx(self) -> u32 {
        spec_icc_ctx(
            self@.len() as usize,
            byte_before_end(self@, 1),
            byte_before_end(self@, 2),
        )
    }

    /// A stream with no byte decoded yet.
    pub fn new() -> (s: Self)
        ensures
            s@ == Seq::<u8>::empty(),
    {
        IccStream { bytes: Vec::new() }
    }

    /// Number of bytes decoded so far.
    pub fn len(&self) -> (n: usize)
        ensures
            n == self@.len(),
    {
        self.bytes.len()
    }

    /// The context in which the next byte is decoded.
    pub fn next_ctx(&self) -> (ctx: u32)
        ensures
            ctx == self.spec_next_ctx(),
            ctx < ICC_CONTEXTS,
    {
        let n: usize = self.bytes.len();
        let b1: u8 = if n >= 1 {
            self.bytes[n - 1]
        } else {
            0
        };
        let b2: u8 = if n >= 2 {
            self.bytes[n - 2]
        } else {
            0
        };
        get_icc_ctx(n, b1, b2)
    }

    /// Takes the symbol decoded for the next byte.  A symbol above 255 is no
    /// byte: the call fails with `InvalidCoefficient` and the stream stays
    /// as it was.
    pub fn push_symbol(&mut self, symbol: u32) -> (r: Result<(), Error>)
        ensures
            symbol < 256 ==> r is Ok && final(self)@ == old(self)@.push(symbol as u8),
            symbol >= 256 ==> r == Err::<(), Error>(Error::InvalidCoefficient) && final(self)@
                == old(self)@,
    {
        if symbol >= 256 {
            Err(Error::InvalidCoefficient)
        } else {
            self.bytes.push(symbol as u8);
            Ok(())
        }
    }

    /// The decoded bytes.
    pub fn into_bytes(self) -> (bytes: Vec<u8>)
        ensures
            bytes@ == self@,
    {
        self.bytes
    }
}

} // verus!
