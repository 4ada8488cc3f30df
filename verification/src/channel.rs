//! The three colour channels and the order in which their planes travel.
use vstd::prelude::*;

verus! {

/// A channel of the perceptual colour space.  Planes are handed around in
/// the canonical order X, Y, B.
#[derive(Clone, Copy, Debug, PartialEq, Eq, Structural)]
pub enum Channel {
    X,
    Y,
    B,
}

impl Channel {
    /// Position of the channel in canonical order.
    pub open spec fn spec_index(self) -> int {
        match self {
            Channel::X => 0,
            Channel::Y => 1,
            Channel::B => 2,
        }
    }

    /// Position of the channel among the quantized low-frequency planes,
    /// which are stored luma first: Y, X, B.
    pub open spec fn spec_transmitted_index(self) -> int {
        match self {
            Channel::X => 1,
            Channel::Y => 0,
            Channel::B => 2,
        }
    }

    /// Position of the channel in canonical order.
    pub fn index(self) -> (i: usize)
        ensures
            i == self.spec_index(),
    {
        match self {
            Channel::X => 0,
            Channel::Y => 1,
            Channel::B => 2,
        }
    }

    /// Position of the channel among the quantized low-frequency planes.
    pub fn transmitted_index(self) -> (i: usize)
        ensures
            i == self.spec_transmitted_index(),
    {
        match self {
            Channel::X => 1,
            Channel::Y => 0,
            Channel::B => 2,
        }
    }

    /// The channel at position `i` of the canonical order.
    pub fn from_index(i: usize) -> (r: Option<Channel>)
        ensures
            i < 3 ==> r is Some && r.unwrap().spec_index() == i,
            i >= 3 ==> r is None,
    {
        if i == 0 {
            Some(Channel::X)
        } else if i == 1 {
            Some(Channel::Y)
        } else if i == 2 {
            Some(Channel::B)
        } else {
            None
        }
    }
}

/// Storing luma first swaps the first two channels and leaves the third:
/// the mapping is its own inverse, and no two channels share a position.
pub proof fn lemma_transmitted_order_is_a_swap(c: Channel, d: Channel)
    ensures
        0 <= c.spec_transmitted_index() < 3,
        c.spec_transmitted_index() == d.spec_index() <==> d.spec_transmitted_index()
            == c.spec_index(),
        c.spec_transmitted_index() == d.spec_transmitted_index() ==> c == d,
{
}

} // verus!
