//! The dealer's response, and the specification that ties the two parties'
//! responses of one pairing together.

use vstd::prelude::*;
use crate::field::{fadd, fmul};
use crate::scalar::Scalar;
use crate::share::{ScalarShare, shares_authenticated, opens_to, opened, all_in_field};
use crate::request::DealerRequest;

verus! {

/// One party's half of the correlated randomness dealt for a pairing.
#[derive(Debug)]
pub struct DealerResponse {
    /// The party's additive share of the MAC key.
    pub mac_key_share: Scalar,
    /// Authenticated shares of random bits.
    pub random_bits: Vec<ScalarShare>,
    /// Authenticated shares of random values.
    pub random_values: Vec<ScalarShare>,
    /// The input masks: the cleartext of this party's own masks, the shares
    /// of those masks, and the shares of the counterparty's masks, in order.
    pub input_masks: (Vec<Scalar>, Vec<ScalarShare>, Vec<ScalarShare>),
    /// The inverse pairs: shares of random values `r` and of `r^-1`.
    pub inverse_pairs: (Vec<ScalarShare>, Vec<ScalarShare>),
    /// The Beaver triples: shares of `a`, `b` and `c` with `a * b = c`.
    pub beaver_triples: (Vec<ScalarShare>, Vec<ScalarShare>, Vec<ScalarShare>),
}

impl Default for DealerResponse {
    /// An empty response: a zero MAC-key share and no values.
    fn default() -> (r: DealerResponse)
        ensures
            r.mac_key_share.val() == 0,
            r.random_bits@ =~= Seq::<ScalarShare>::empty(),
            r.random_values@ =~= Seq::<ScalarShare>::empty(),
            r.input_masks.0@ =~= Seq::<Scalar>::empty(),
            r.input_masks.1@ =~= Seq::<ScalarShare>::empty(),
            r.input_masks.2@ =~= Seq::<ScalarShare>::empty(),
            r.inverse_pairs.0@ =~= Seq::<ScalarShare>::empty(),
            r.inverse_pairs.1@ =~= Seq::<ScalarShare>::empty(),
            r.beaver_triples.0@ =~= Seq::<ScalarShare>::empty(),
            r.beaver_triples.1@ =~= Seq::<ScalarShare>::empty(),
            r.beaver_triples.2@ =~= Seq::<ScalarShare>::empty(),
    {
        DealerResponse {
            mac_key_share: Scalar { limbs: [0, 0, 0, 0] },
            random_bits: Vec::new(),
            random_values: Vec::new(),
            input_masks: (Vec::new(), Vec::new(), Vec::new()),
            inverse_pairs: (Vec::new(), Vec::new()),
            beaver_triples: (Vec::new(), Vec::new(), Vec::new()),
        }
    }
}

impl DealerResponse {
    /// Set the bits.
    pub fn set_random_bits(&mut self, bits: Vec<ScalarShare>)
        ensures
            *final(self) == (DealerResponse { random_bits: bits, ..*old(self) }),
    {
        self.random_bits = bits;
    }

    /// Set the random values.
    pub fn set_random_values(&mut self, values: Vec<ScalarShare>)
        ensures
            *final(self) == (DealerResponse { random_values: values, ..*old(self) }),
    {
        self.random_values = values;
    }

    /// Set the input masks.
    pub fn set_input_masks(
        &mut self,
        cleartext: Vec<Scalar>,
        shares1: Vec<ScalarShare>,
        shares2: Vec<ScalarShare>,
    )
        ensures
            *final(self) == (DealerResponse { input_masks: (cleartext, shares1, shares2), ..*old(self) }),
    {
        self.input_masks = (cleartext, shares1, shares2);
    }

    /// Set the inverse pairs.
    pub fn set_inverse_pairs(&mut self, r: Vec<ScalarShare>, r_inv: Vec<ScalarShare>)
        ensures
            *final(self) == (DealerResponse { inverse_pairs: (r, r_inv), ..*old(self) }),
    {
        self.inverse_pairs = (r, r_inv);
    }

    /// Set the triples. The three vectors must be parallel.
    pub fn set_triples(&mut self, a: Vec<ScalarShare>, b: Vec<ScalarShare>, c: Vec<ScalarShare>)
        requires
            a@.len() == b@.len() == c@.len(),
        ensures
            *final(self) == (DealerResponse { beaver_triples: (a, b, c), ..*old(self) }),
    {
        self.beaver_triples = (a, b, c);
    }
}

/// The MAC key a pair of responses shares: the opening of the two MAC-key
/// shares.
pub open spec fn pair_mac_key(r0: DealerResponse, r1: DealerResponse) -> int {
    fadd(r0.mac_key_share.val(), r1.mac_key_share.val())
}

/// The two responses of one pairing are mutually consistent for the given
/// request. This is the whole promise of the generator: every primitive
/// family has the requested length, authenticates under the shared MAC key,
/// and satisfies its defining relation.
pub open spec fn response_pair_consistent(
    r0: DealerResponse,
    r1: DealerResponse,
    req: DealerRequest,
) -> bool {
    let key = pair_mac_key(r0, r1);
    &&& r0.mac_key_share.wf() && r1.mac_key_share.wf()
    // Random bits: requested length, authenticated, and every opened bit is 0 or 1.
    &&& r0.random_bits@.len() == req.n_random_bits
    &&& shares_authenticated(r0.random_bits@, r1.random_bits@, key)
    &&& forall|i: int|
        0 <= i < r0.random_bits@.len() ==> opened(#[trigger] r0.random_bits@[i], r1.random_bits@[i])
            == 0 || opened(r0.random_bits@[i], r1.random_bits@[i]) == 1
    // Random values: requested length and authenticated.
    &&& r0.random_values@.len() == req.n_random_values
    &&& shares_authenticated(r0.random_values@, r1.random_values@, key)
    // Input masks: each party's cleartext masks open from its own shares and
    // the counterparty's counterpart shares, and both directions authenticate.
    &&& r0.input_masks.0@.len() == req.n_input_masks
    &&& r1.input_masks.0@.len() == req.n_input_masks
    &&& all_in_field(r0.input_masks.0@)
    &&& all_in_field(r1.input_masks.0@)
    &&& shares_authenticated(r0.input_masks.1@, r1.input_masks.2@, key)
    &&& shares_authenticated(r1.input_masks.1@, r0.input_masks.2@, key)
    &&& opens_to(r0.input_masks.1@, r1.input_masks.2@, r0.input_masks.0@)
    &&& opens_to(r1.input_masks.1@, r0.input_masks.2@, r1.input_masks.0@)
    // Inverse pairs: authenticated, and each opened pair multiplies to one.
    &&& r0.inverse_pairs.0@.len() == req.n_inverse_pairs
    &&& r0.inverse_pairs.1@.len() == req.n_inverse_pairs
    &&& shares_authenticated(r0.inverse_pairs.0@, r1.inverse_pairs.0@, key)
    &&& shares_authenticated(r0.inverse_pairs.1@, r1.inverse_pairs.1@, key)
    &&& forall|i: int|
        0 <= i < r0.inverse_pairs.0@.len() ==> fmul(
            opened(#[trigger] r0.inverse_pairs.0@[i], r1.inverse_pairs.0@[i]),
            opened(r0.inverse_pairs.1@[i], r1.inverse_pairs.1@[i]),
        ) == 1
    // Beaver triples: authenticated, and each opened triple satisfies a*b=c.
    &&& r0.beaver_triples.0@.len() == req.n_triples
    &&& r0.beaver_triples.1@.len() == req.n_triples
    &&& r0.beaver_triples.2@.len() == req.n_triples
    &&& shares_authenticated(r0.beaver_triples.0@, r1.beaver_triples.0@, key)
    &&& shares_authenticated(r0.beaver_triples.1@, r1.beaver_triples.1@, key)
    &&& shares_authenticated(r0.beaver_triples.2@, r1.beaver_triples.2@, key)
    &&& forall|i: int|
        0 <= i < r0.beaver_triples.0@.len() ==> fmul(
            opened(#[trigger] r0.beaver_triples.0@[i], r1.beaver_triples.0@[i]),
            opened(r0.beaver_triples.1@[i], r1.beaver_triples.1@[i]),
        ) == opened(r0.beaver_triples.2@[i], r1.beaver_triples.2@[i])
}

} // verus!
