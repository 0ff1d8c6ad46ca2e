use vstd::prelude::*;

verus! {

/// The credential of a share link: 128 opaque bits.
#[derive(Clone, Copy, Debug, PartialEq, Eq, Hash, Structural)]
pub struct ShareToken {
    pub bits: u128,
}

/// The bits that tell a UUID's version and variant.
pub const LAYOUT_MASK: u128 = 0x0000_0000_0000_f000_c000_0000_0000_0000u128;

/// Their value in a random UUID: version 4, variant RFC 4122.
pub const RANDOM_LAYOUT: u128 = 0x0000_0000_0000_4000_8000_0000_0000_0000u128;

/// Whether `bits` are laid out as a random (version 4) UUID.
pub open spec fn is_random_layout(bits: u128) -> bool {
    bits & LAYOUT_MASK == RANDOM_LAYOUT
}

/// Whether each of `draws` is laid out as a random UUID.
pub open spec fn all_random(draws: Seq<ShareToken>) -> bool {
    forall|i: int| 0 <= i < draws.len() ==> is_random_layout((#[trigger] draws[i]).bits)
}

/// Draws a token from `uuid::Uuid::new_v4` and hands its bits out with
/// `Uuid::as_u128`. The 122 random bits come from the operating system; the
/// contract claims only the six bits that `new_v4` fixes, the version and
/// the variant. `new_v4` panics where the operating system gives no random
/// bytes; nothing that is passed in can cause or prevent that.
#[verifier::external_body]
fn random_uuid_bits() -> (bits: u128)
    ensures
        is_random_layout(bits),
{
    uuid::Uuid::new_v4().as_u128()
}

impl ShareToken {
    pub fn from_u128(bits: u128) -> (t: ShareToken)
        ensures
            t.bits == bits,
    {
        ShareToken { bits }
    }

    pub fn as_u128(&self) -> (bits: u128)
        ensures
            bits == self.bits,
    {
        self.bits
    }

    /// A token that cannot be guessed: the bits of a fresh random UUID.
    pub fn random() -> (t: ShareToken)
        ensures
            is_random_layout(t.bits),
    {
        ShareToken { bits: random_uuid_bits() }
    }

    /// `count` tokens, each drawn as [`ShareToken::random`] draws one.
    pub fn draw(count: usize) -> (draws: Vec<ShareToken>)
        ensures
            draws@.len() == count,
            all_random(draws@),
    {
        let mut draws: Vec<ShareToken> = Vec::new();
        while draws.len() < count
            invariant
                draws@.len() <= count,
                all_random(draws@),
            decreases count - draws@.len(),
        {
            draws.push(ShareToken::random());
        }
        draws
    }
}

} // verus!
