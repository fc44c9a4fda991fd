//! The forms in which the host chain stores what it learns from light clients
//! of other chains.

use vstd::prelude::*;
use vstd::std_specs::convert::{FromSpec, FromSpecImpl};

verus! {

/// The height of a chain: the number of the revision that the chain is in, and
/// the number of the block within that revision.
#[derive(Clone, Copy, PartialEq, Eq, Debug, Structural)]
pub struct Height {
    /// Previously known as "epoch"
    pub revision_number: u64,
    /// The height of a block
    pub revision_height: u64,
}

impl Height {
    pub fn new(revision_number: u64, revision_height: u64) -> (r: Self)
        ensures
            r.revision_number == revision_number,
            r.revision_height == revision_height,
    {
        Self { revision_number, revision_height }
    }
}

/// The kinds of light client that the host chain knows.
#[derive(Clone, Copy, PartialEq, Eq, Debug, Structural)]
pub enum ClientType {
    Tendermint,
    Grandpa,
}

/// The sequence number of a packet on its channel.
#[derive(Clone, Copy, PartialEq, Eq, Debug, Structural)]
pub struct Sequence(u64);

impl View for Sequence {
    type V = u64;

    /// The number itself.
    closed spec fn view(&self) -> u64 {
        self.0
    }
}

impl From<u64> for Sequence {
    fn from(val: u64) -> (r: Self)
        ensures
            r@ == val,
    {
        Sequence(val)
    }
}

impl FromSpecImpl<u64> for Sequence {
    open spec fn obeys_from_spec() -> bool {
        true
    }

    closed spec fn from_spec(val: u64) -> Self {
        Sequence(val)
    }
}

impl From<Sequence> for u64 {
    fn from(val: Sequence) -> (r: Self)
        ensures
            r == val@,
    {
        val.0
    }
}

impl FromSpecImpl<Sequence> for u64 {
    open spec fn obeys_from_spec() -> bool {
        true
    }

    open spec fn from_spec(val: Sequence) -> Self {
        val@
    }
}

/// Turning a number into a sequence number and back gives the number, and the
/// sequence number made of a number has that number as its view.
pub proof fn lemma_sequence_round_trip(val: u64)
    ensures
        <Sequence as FromSpec<u64>>::from_spec(val)@ == val,
        <u64 as FromSpec<Sequence>>::from_spec(<Sequence as FromSpec<u64>>::from_spec(val)) == val,
{
}

} // verus!
