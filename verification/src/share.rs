//! Authenticated additive shares and the predicates that relate a pair of
//! them across the two parties.

use vstd::prelude::*;
use crate::field::{fadd, fmul, in_field};
use crate::scalar::Scalar;

verus! {

/// One party's authenticated share: an additive share of a value together
/// with an additive share of that value's MAC.
#[derive(Clone, Copy, Debug)]
pub struct ScalarShare {
    /// The additive share of the value.
    pub share: Scalar,
    /// The additive share of the value's MAC, `value * mac_key`.
    pub mac: Scalar,
}

impl ScalarShare {
    /// Build a share from its two components.
    pub fn new(share: Scalar, mac: Scalar) -> (r: ScalarShare)
        ensures
            r.share == share,
            r.mac == mac,
    {
        ScalarShare { share, mac }
    }

    /// The canonical integer of the value share.
    pub open spec fn share_val(self) -> int {
        self.share.val()
    }

    /// The canonical integer of the MAC share.
    pub open spec fn mac_val(self) -> int {
        self.mac.val()
    }

    /// Both components are canonical field elements.
    pub open spec fn wf(self) -> bool {
        self.share.wf() && self.mac.wf()
    }
}

/// The plaintext two counterpart shares open to.
pub open spec fn opened(a: ScalarShare, b: ScalarShare) -> int {
    fadd(a.share_val(), b.share_val())
}

/// The MAC tag two counterpart shares open to.
pub open spec fn opened_mac(a: ScalarShare, b: ScalarShare) -> int {
    fadd(a.mac_val(), b.mac_val())
}

/// The two counterpart shares authenticate under `key`: their MAC shares
/// open to the opened value times the MAC key.
pub open spec fn mac_checks(a: ScalarShare, b: ScalarShare, key: int) -> bool {
    opened_mac(a, b) == fmul(opened(a, b), key)
}

/// Two equally long vectors of counterpart shares all authenticate under
/// `key`, and every component is a canonical field element.
pub open spec fn shares_authenticated(s1: Seq<ScalarShare>, s2: Seq<ScalarShare>, key: int) -> bool {
    &&& s1.len() == s2.len()
    &&& forall|i: int| 0 <= i < s1.len() ==> (#[trigger] s1[i]).wf() && s2[i].wf()
    &&& forall|i: int| 0 <= i < s1.len() ==> mac_checks(#[trigger] s1[i], s2[i], key)
}

/// Two equally long vectors of counterpart shares open pointwise to the
/// values of `plain`.
pub open spec fn opens_to(s1: Seq<ScalarShare>, s2: Seq<ScalarShare>, plain: Seq<Scalar>) -> bool {
    &&& s1.len() == plain.len()
    &&& s2.len() == plain.len()
    &&& forall|i: int| 0 <= i < plain.len() ==> opened(#[trigger] s1[i], s2[i]) == plain[i].val()
}

/// Every scalar of the sequence is a canonical field element.
pub open spec fn all_in_field(s: Seq<Scalar>) -> bool {
    forall|i: int| 0 <= i < s.len() ==> in_field((#[trigger] s[i]).val())
}

} // verus!
