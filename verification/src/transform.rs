//! The catalogue of block transforms.
use vstd::prelude::*;
use crate::error::Error;

verus! {

/// The transform applied to one variable-size block.  The variants stand in
/// the order of their tags in the coded stream, starting at 0.
#[derive(Clone, Copy, Debug, PartialEq, Eq, Structural)]
pub enum TransformType {
    Dct8,
    Hornuss,
    Dct2,
    Dct4,
    Dct16,
    Dct32,
    Dct16x8,
    Dct8x16,
    Dct32x8,
    Dct8x32,
    Dct32x16,
    Dct16x32,
    Dct4x8,
    Dct8x4,
    Afv0,
    Afv1,
    Afv2,
    Afv3,
    Dct64,
    Dct64x32,
    Dct32x64,
    Dct128,
    Dct128x64,
    Dct64x128,
    Dct256,
    Dct256x128,
    Dct128x256,
}

/// The transform with tag `tag`, if there is one.
pub open spec fn spec_from_tag(tag: u8) -> Option<TransformType> {
    if tag == 0 {
        Some(TransformType::Dct8)
    } else if tag == 1 {
        Some(TransformType::Hornuss)
    } else if tag == 2 {
        Some(TransformType::Dct2)
    } else if tag == 3 {
        Some(TransformType::Dct4)
    } else if tag == 4 {
        Some(TransformType::Dct16)
    } else if tag == 5 {
        Some(TransformType::Dct32)
    } else if tag == 6 {
        Some(TransformType::Dct16x8)
    } else if tag == 7 {
        Some(TransformType::Dct8x16)
    } else if tag == 8 {
        Some(TransformType::Dct32x8)
    } else if tag == 9 {
        Some(TransformType::Dct8x32)
    } else if tag == 10 {
        Some(TransformType::Dct32x16)
    } else if tag == 11 {
        Some(TransformType::Dct16x32)
    } else if tag == 12 {
        Some(TransformType::Dct4x8)
    } else if tag == 13 {
        Some(TransformType::Dct8x4)
    } else if tag == 14 {
        Some(TransformType::Afv0)
    } else if tag == 15 {
        Some(TransformType::Afv1)
    } else if tag == 16 {
        Some(TransformType::Afv2)
    } else if tag == 17 {
        Some(TransformType::Afv3)
    } else if tag == 18 {
        Some(TransformType::Dct64)
    } else if tag == 19 {
        Some(TransformType::Dct64x32)
    } else if tag == 20 {
        Some(TransformType::Dct32x64)
    } else if tag == 21 {
        Some(TransformType::Dct128)
    } else if tag == 22 {
        Some(TransformType::Dct128x64)
    } else if tag == 23 {
        Some(TransformType::Dct64x128)
    } else if tag == 24 {
        Some(TransformType::Dct256)
    } else if tag == 25 {
        Some(TransformType::Dct256x128)
    } else if tag == 26 {
        Some(TransformType::Dct128x256)
    } else {
        None
    }
}

impl TransformType {
    /// The tag of the transform in the coded stream.
    pub open spec fn spec_tag(self) -> u8 {
        match self {
            TransformType::Dct8 => 0,
            TransformType::Hornuss => 1,
            TransformType::Dct2 => 2,
            TransformType::Dct4 => 3,
            TransformType::Dct16 => 4,
            TransformType::Dct32 => 5,
            TransformType::Dct16x8 => 6,
            TransformType::Dct8x16 => 7,
            TransformType::Dct32x8 => 8,
            TransformType::Dct8x32 => 9,
            TransformType::Dct32x16 => 10,
            TransformType::Dct16x32 => 11,
            TransformType::Dct4x8 => 12,
            TransformType::Dct8x4 => 13,
            TransformType::Afv0 => 14,
            TransformType::Afv1 => 15,
            TransformType::Afv2 => 16,
            TransformType::Afv3 => 17,
            TransformType::Dct64 => 18,
            TransformType::Dct64x32 => 19,
            TransformType::Dct32x64 => 20,
            TransformType::Dct128 => 21,
            TransformType::Dct128x64 => 22,
            TransformType::Dct64x128 => 23,
            TransformType::Dct256 => 24,
            TransformType::Dct256x128 => 25,
            TransformType::Dct128x256 => 26,
        }
    }

    /// Width and height of the block the transform covers, counted in 8x8
    /// blocks.
    pub open spec fn spec_dct_select_size(self) -> (u32, u32) {
        match self {
            TransformType::Dct8
            | TransformType::Hornuss
            | TransformType::Dct2
            | TransformType::Dct4
            | TransformType::Dct4x8
            | TransformType::Dct8x4
            | TransformType::Afv0
            | TransformType::Afv1
            | TransformType::Afv2
            | TransformType::Afv3 => (1, 1),
            TransformType::Dct16 => (2, 2),
            TransformType::Dct32 => (4, 4),
            TransformType::Dct16x8 => (1, 2),
            TransformType::Dct8x16 => (2, 1),
            TransformType::Dct32x8 => (1, 4),
            TransformType::Dct8x32 => (4, 1),
            TransformType::Dct32x16 => (2, 4),
            TransformType::Dct16x32 => (4, 2),
            TransformType::Dct64 => (8, 8),
            TransformType::Dct64x32 => (4, 8),
            TransformType::Dct32x64 => (8, 4),
            TransformType::Dct128 => (16, 16),
            TransformType::Dct128x64 => (8, 16),
            TransformType::Dct64x128 => (16, 8),
            TransformType::Dct256 => (32, 32),
            TransformType::Dct256x128 => (16, 32),
            TransformType::Dct128x256 => (32, 16),
        }
    }

    /// Whether the block's coefficients are stored transposed: the block is
    /// taller than it is wide.
    pub open spec fn spec_need_transpose(self) -> bool {
        self.spec_dct_select_size().1 > self.spec_dct_select_size().0
    }

    /// Whether the transform contributes a single low-frequency coefficient:
    /// one of the transforms of a single 8x8 block.
    pub open spec fn spec_is_single(self) -> bool {
        match self {
            TransformType::Dct8
            | TransformType::Hornuss
            | TransformType::Dct2
            | TransformType::Dct4
            | TransformType::Dct4x8
            | TransformType::Dct8x4
            | TransformType::Afv0
            | TransformType::Afv1
            | TransformType::Afv2
            | TransformType::Afv3 => true,
            _ => false,
        }
    }

    /// The tag of the transform in the coded stream.
    pub fn tag(self) -> (t: u8)
        ensures
            t == self.spec_tag(),
            t <= 26,
            spec_from_tag(t) == Some(self),
    {
        match self {
            TransformType::Dct8 => 0,
            TransformType::Hornuss => 1,
            TransformType::Dct2 => 2,
            TransformType::Dct4 => 3,
            TransformType::Dct16 => 4,
            TransformType::Dct32 => 5,
            TransformType::Dct16x8 => 6,
            TransformType::Dct8x16 => 7,
            TransformType::Dct32x8 => 8,
            TransformType::Dct8x32 => 9,
            TransformType::Dct32x16 => 10,
            TransformType::Dct16x32 => 11,
            TransformType::Dct4x8 => 12,
            TransformType::Dct8x4 => 13,
            TransformType::Afv0 => 14,
            TransformType::Afv1 => 15,
            TransformType::Afv2 => 16,
            TransformType::Afv3 => 17,
            TransformType::Dct64 => 18,
            TransformType::Dct64x32 => 19,
            TransformType::Dct32x64 => 20,
            TransformType::Dct128 => 21,
            TransformType::Dct128x64 => 22,
            TransformType::Dct64x128 => 23,
            TransformType::Dct256 => 24,
            TransformType::Dct256x128 => 25,
            TransformType::Dct128x256 => 26,
        }
    }

    /// The transform with tag `tag`.  Fails with `InvalidCoefficient` for a
    /// tag above 26, which names no transform.
    pub fn from_tag(tag: u8) -> (r: Result<TransformType, Error>)
        ensures
            r is Ok <==> tag <= 26,
            r is Ok ==> Some(r.unwrap()) == spec_from_tag(tag) && r.unwrap().spec_tag() == tag,
            r is Err ==> r == Err::<TransformType, Error>(Error::InvalidCoefficient),
    {
        if tag == 0 {
            Ok(TransformType::Dct8)
        } else if tag == 1 {
            Ok(TransformType::Hornuss)
        } else if tag == 2 {
            Ok(TransformType::Dct2)
        } else if tag == 3 {
            Ok(TransformType::Dct4)
        } else if tag == 4 {
            Ok(TransformType::Dct16)
        } else if tag == 5 {
            Ok(TransformType::Dct32)
        } else if tag == 6 {
            Ok(TransformType::Dct16x8)
        } else if tag == 7 {
            Ok(TransformType::Dct8x16)
        } else if tag == 8 {
            Ok(TransformType::Dct32x8)
        } else if tag == 9 {
            Ok(TransformType::Dct8x32)
        } else if tag == 10 {
            Ok(TransformType::Dct32x16)
        } else if tag == 11 {
            Ok(TransformType::Dct16x32)
        } else if tag == 12 {
            Ok(TransformType::Dct4x8)
        } else if tag == 13 {
            Ok(TransformType::Dct8x4)
        } else if tag == 14 {
            Ok(TransformType::Afv0)
        } else if tag == 15 {
            Ok(TransformType::Afv1)
        } else if tag == 16 {
            Ok(TransformType::Afv2)
        } else if tag == 17 {
            Ok(TransformType::Afv3)
        } else if tag == 18 {
            Ok(TransformType::Dct64)
        } else if tag == 19 {
            Ok(TransformType::Dct64x32)
        } else if tag == 20 {
            Ok(TransformType::Dct32x64)
        } else if tag == 21 {
            Ok(TransformType::Dct128)
        } else if tag == 22 {
            Ok(TransformType::Dct128x64)
        } else if tag == 23 {
            Ok(TransformType::Dct64x128)
        } else if tag == 24 {
            Ok(TransformType::Dct256)
        } else if tag == 25 {
            Ok(TransformType::Dct256x128)
        } else if tag == 26 {
            Ok(TransformType::Dct128x256)
        } else {
            Err(Error::InvalidCoefficient)
        }
    }

    /// Width and height of the block the transform covers, counted in 8x8
    /// blocks.
    pub fn dct_select_size(self) -> (r: (u32, u32))
        ensures
            r == self.spec_dct_select_size(),
            1 <= r.0 <= 32,
            1 <= r.1 <= 32,
    {
        match outside_dct_select_size(self.tag()) {
            Some(size) => size,
            // Every transform has a tag, so the outside catalogue knows it.
            None => (1, 1),
        }
    }

    /// Whether the block's coefficients are stored transposed.
    pub fn need_transpose(self) -> (r: bool)
        ensures
            r == self.spec_need_transpose(),
    {
        match outside_need_transpose(self.tag()) {
            Some(transposed) => transposed,
            // Every transform has a tag, so the outside catalogue knows it.
            None => false,
        }
    }

    /// Whether the transform contributes a single low-frequency coefficient.
    pub fn is_single(self) -> (r: bool)
        ensures
            r == self.spec_is_single(),
            r == (self.spec_dct_select_size() == (1u32, 1u32)),
    {
        match self {
            TransformType::Dct8
            | TransformType::Hornuss
            | TransformType::Dct2
            | TransformType::Dct4
            | TransformType::Dct4x8
            | TransformType::Dct8x4
            | TransformType::Afv0
            | TransformType::Afv1
            | TransformType::Afv2
            | TransformType::Afv3 => true,
            _ => false,
        }
    }
}

/// Looks the tag up with `TryFrom<u8>` of `jxl_vardct::TransformType` and
/// asks the transform found for its `dct_select_size`.
///
/// Trusted: the outside catalogue numbers its transforms as `spec_from_tag`
/// does and refuses every other tag, and its block sizes are those of
/// `spec_dct_select_size`.
#[verifier::external_body]
fn outside_dct_select_size(tag: u8) -> (r: Option<(u32, u32)>)
    ensures
        r == match spec_from_tag(tag) {
            Some(t) => Some(t.spec_dct_select_size()),
            None => None,
        },
{
    match jxl_vardct::TransformType::try_from(tag) {
        Ok(t) => Some(t.dct_select_size()),
        Err(_) => None,
    }
}

/// Looks the tag up with `TryFrom<u8>` of `jxl_vardct::TransformType` and
/// asks the transform found whether it `need_transpose`.
///
/// Trusted: the outside catalogue numbers its transforms as `spec_from_tag`
/// does and refuses every other tag, and a transform is transposed exactly
/// when its block is taller than wide.
#[verifier::external_body]
fn outside_need_transpose(tag: u8) -> (r: Option<bool>)
    ensures
        r == match spec_from_tag(tag) {
            Some(t) => Some(t.spec_need_transpose()),
            None => None,
        },
{
    match jxl_vardct::TransformType::try_from(tag) {
        Ok(t) => Some(t.need_transpose()),
        Err(_) => None,
    }
}

/// Tags and transforms correspond one to one.
pub proof fn lemma_tag_round_trip(t: TransformType, tag: u8)
    ensures
        spec_from_tag(t.spec_tag()) == Some(t),
        spec_from_tag(tag) is Some <==> tag <= 26,
        spec_from_tag(tag) is Some ==> spec_from_tag(tag).unwrap().spec_tag() == tag,
{
}

} // verus!
