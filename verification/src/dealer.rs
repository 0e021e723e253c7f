//! The dealer: correlated-randomness generation and the pairing engine.
//!
//! The dealer aggregates requests between matching parties and generates
//! offline-phase results. Two submissions under one request ID are paired;
//! a valid pair is answered with two mutually consistent halves of freshly
//! generated correlated randomness.

use vstd::prelude::*;
use crate::field::{fadd, fmul, lemma_open_additive_shares};
use crate::scalar::{
    Scalar,
    scalar_random,
    scalar_from_u64,
    scalar_sub,
    scalar_mul,
    scalar_inverse,
    scalar_is_zero,
    random_bool,
};
use crate::share::{ScalarShare, opened, shares_authenticated, opens_to, all_in_field};
use crate::request::{DealerRequest, DealerError};
use crate::response::{DealerResponse, response_pair_consistent, pair_mac_key};

verus! {

/// The identifier the two parties of a pairing share, as its 128-bit value.
pub type RequestId = u128;

/// The identifier of a party: only `PARTY0` and `PARTY1` are legal.
pub type PartyId = u64;

/// The first party.
pub const PARTY0: u64 = 0;

/// The second party.
pub const PARTY1: u64 = 1;

/// The job held by the dealer for one submission: who asked, under which
/// request ID, for what, and the token of the response sink the caller is
/// waiting on.
pub struct DealerJob {
    /// The request ID.
    pub request_id: RequestId,
    /// The ID of the requesting party.
    pub party_id: PartyId,
    /// The request.
    pub request: DealerRequest,
    /// The caller's token for the channel on which to respond.
    pub sink: u64,
}

impl DealerJob {
    /// Constructor.
    pub fn new(request_id: RequestId, party_id: PartyId, request: DealerRequest, sink: u64) -> (r:
        DealerJob)
        ensures
            r.request_id == request_id,
            r.party_id == party_id,
            r.request == request,
            r.sink == sink,
    {
        DealerJob { request_id, party_id, request, sink }
    }
}

/// The dealer, handling requests wherein two parties connect and are dealt
/// correlated randomness implementing the SPDZ offline phase.
pub struct Dealer {
    /// All open requests: the first-arrived job of each pairing still
    /// waiting for its counterpart, at most one per request ID.
    pub open_requests: Vec<DealerJob>,
}

/// What the pairing engine decides for one submission.
pub enum SubmitOutcome {
    /// The first submission under its request ID: held until the counterpart
    /// arrives; nothing is delivered yet.
    Enqueued,
    /// The submission completed a pair that must be refused: deliver the
    /// error on both parties' sinks, and forget the pairing.
    Rejected {
        /// The sink token of the stored counterpart submission.
        stored_sink: u64,
        /// The sink token of the submission that just arrived.
        arrived_sink: u64,
        /// The error to deliver on both sinks.
        error: DealerError,
    },
    /// A valid pair: deliver `resp0` on the sink of party `PARTY0` and
    /// `resp1` on the sink of party `PARTY1`, in either arrival order.
    Paired {
        /// The response labelled for party 0.
        resp0: DealerResponse,
        /// The response labelled for party 1.
        resp1: DealerResponse,
        /// The sink token of party 0.
        sink0: u64,
        /// The sink token of party 1.
        sink1: u64,
    },
}

impl Dealer {
    /// Every held job has a legal party ID, and no two held jobs share a
    /// request ID.
    pub open spec fn wf(self) -> bool {
        &&& forall|i: int, j: int|
            0 <= i < j < self.open_requests@.len() ==> (
            #[trigger] self.open_requests@[i]).request_id != (
            #[trigger] self.open_requests@[j]).request_id
        &&& forall|i: int|
            0 <= i < self.open_requests@.len() ==> (#[trigger] self.open_requests@[i]).party_id
                == PARTY0 || self.open_requests@[i].party_id == PARTY1
    }

    /// A job under this request ID is waiting for its counterpart.
    pub open spec fn contains_rid(self, rid: RequestId) -> bool {
        exists|i: int|
            0 <= i < self.open_requests@.len() && (#[trigger] self.open_requests@[i]).request_id
                == rid
    }

    /// The waiting job under this request ID.
    pub open spec fn stored_job(self, rid: RequestId) -> DealerJob {
        self.open_requests@[choose|i: int|
            0 <= i < self.open_requests@.len() && (#[trigger] self.open_requests@[i]).request_id
                == rid]
    }

    /// A dealer with no open requests.
    pub fn new() -> (r: Dealer)
        ensures
            r.wf(),
            forall|rid: RequestId| !r.contains_rid(rid),
            r.open_requests@.len() == 0,
    {
        Dealer { open_requests: Vec::new() }
    }

    /// Find the index of the waiting job under `rid`, if one is held.
    fn find_open(&self, rid: RequestId) -> (r: Option<usize>)
        ensures
            match r {
                Some(i) => i < self.open_requests@.len() && self.open_requests@[i as int].request_id
                    == rid,
                None => !self.contains_rid(rid),
            },
    {
        let n = self.open_requests.len();
        let mut i: usize = 0;
        while i < n
            invariant
                n == self.open_requests@.len(),
                0 <= i <= n,
                forall|j: int| 0 <= j < i ==> (#[trigger] self.open_requests@[j]).request_id != rid,
            decreases n - i,
        {
            if self.open_requests[i].request_id == rid {
                return Some(i);
            }
            i += 1;
        }
        None
    }

    /// Handle one submission.
    ///
    /// The first submission under a request ID is held. The submission that
    /// completes a pair removes the held one and decides: mismatched bodies
    /// or a duplicate party ID are refused towards both parties; a valid
    /// pair is answered with two consistent responses, assigned to the
    /// parties by their IDs regardless of arrival order. Submissions under
    /// other request IDs are never touched.
    pub fn handle_request(&mut self, job: DealerJob) -> (r: SubmitOutcome)
        requires
            old(self).wf(),
            job.party_id == PARTY0 || job.party_id == PARTY1,
        ensures
            final(self).wf(),
            !old(self).contains_rid(job.request_id) ==> {
                &&& r is Enqueued
                &&& final(self).contains_rid(job.request_id)
                &&& final(self).stored_job(job.request_id) == job
            },
            old(self).contains_rid(job.request_id) ==> {
                let stored = old(self).stored_job(job.request_id);
                &&& !final(self).contains_rid(job.request_id)
                &&& if !stored.request.matches(job.request) {
                    r == (SubmitOutcome::Rejected {
                        stored_sink: stored.sink,
                        arrived_sink: job.sink,
                        error: DealerError::MismatchedRequests,
                    })
                } else if stored.party_id == job.party_id {
                    r == (SubmitOutcome::Rejected {
                        stored_sink: stored.sink,
                        arrived_sink: job.sink,
                        error: DealerError::DuplicatePartyId,
                    })
                } else {
                    match r {
                        SubmitOutcome::Paired { resp0, resp1, sink0, sink1 } => {
                            &&& response_pair_consistent(resp0, resp1, job.request)
                            &&& sink0 == if job.party_id == PARTY0 {
                                job.sink
                            } else {
                                stored.sink
                            }
                            &&& sink1 == if job.party_id == PARTY1 {
                                job.sink
                            } else {
                                stored.sink
                            }
                        },
                        _ => false,
                    }
                }
            },
            forall|rid2: RequestId|
                rid2 != job.request_id ==> (final(self).contains_rid(rid2) <==> old(
                    self,
                ).contains_rid(rid2)),
            forall|rid2: RequestId|
                rid2 != job.request_id && old(self).contains_rid(rid2) ==> final(self).stored_job(
                    rid2,
                ) == old(self).stored_job(rid2),
    {
        let id = job.request_id;
        match self.find_open(id) {
            Some(i) => {
                let existing = self.open_requests.remove(i);
                proof {
                    let s_old = old(self).open_requests@;
                    let s_new = self.open_requests@;
                    assert(s_new =~= s_old.remove(i as int));
                    // The held job under `id` was exactly the removed one.
                    let k = choose|k: int|
                        0 <= k < s_old.len() && (#[trigger] s_old[k]).request_id == id;
                    assert(k == i);
                    // No other held job carried `id`, so it is gone now.
                    assert forall|j: int|
                        0 <= j < s_new.len() implies (#[trigger] s_new[j]).request_id
                        != id by {
                        if j < i {
                            assert(s_new[j] == s_old[j]);
                        } else {
                            assert(s_new[j] == s_old[j + 1]);
                        }
                    }
                    // Every other request ID keeps its held job.
                    assert forall|rid2: RequestId|
                        rid2 != id && old(self).contains_rid(rid2) implies self.contains_rid(rid2)
                        && self.stored_job(rid2) == old(self).stored_job(rid2) by {
                        let j = choose|j: int|
                            0 <= j < s_old.len() && (#[trigger] s_old[j]).request_id == rid2;
                        if j < i {
                            assert(s_new[j] == s_old[j]);
                            assert(self.contains_rid(rid2));
                        } else {
                            assert(j > i);
                            assert(s_new[j - 1] == s_old[j]);
                            assert(self.contains_rid(rid2));
                        }
                        let m = choose|m: int|
                            0 <= m < s_new.len() && (#[trigger] s_new[m]).request_id == rid2;
                        if m < i {
                            assert(s_new[m] == s_old[m]);
                        } else {
                            assert(s_new[m] == s_old[m + 1]);
                        }
                    }
                    assert forall|rid2: RequestId|
                        rid2 != id && self.contains_rid(rid2) implies old(self).contains_rid(
                        rid2,
                    ) by {
                        let m = choose|m: int|
                            0 <= m < s_new.len() && (#[trigger] s_new[m]).request_id == rid2;
                        if m < i {
                            assert(s_new[m] == s_old[m]);
                        } else {
                            assert(s_new[m] == s_old[m + 1]);
                        }
                    }
                }
                if !existing.request.same_request(&job.request) {
                    SubmitOutcome::Rejected {
                        stored_sink: existing.sink,
                        arrived_sink: job.sink,
                        error: DealerError::MismatchedRequests,
                    }
                } else if existing.party_id == job.party_id {
                    SubmitOutcome::Rejected {
                        stored_sink: existing.sink,
                        arrived_sink: job.sink,
                        error: DealerError::DuplicatePartyId,
                    }
                } else {
                    let (resp0, resp1) = Self::handle_ready_pair(&job.request);
                    let (sink0, sink1) = if job.party_id == PARTY0 {
                        (job.sink, existing.sink)
                    } else {
                        (existing.sink, job.sink)
                    };
                    SubmitOutcome::Paired { resp0, resp1, sink0, sink1 }
                }
            },
            None => {
                proof {
                    let s_old = self.open_requests@;
                    assert forall|j: int|
                        0 <= j < s_old.len() implies (#[trigger] s_old[j]).request_id != id by {
                        assert(!old(self).contains_rid(id));
                    }
                }
                self.open_requests.push(job);
                proof {
                    let s_old = old(self).open_requests@;
                    let s_new = self.open_requests@;
                    assert(s_new =~= s_old.push(job));
                    assert(s_new[s_old.len() as int] == job);
                    assert(self.contains_rid(id));
                    let k = choose|k: int|
                        0 <= k < s_new.len() && (#[trigger] s_new[k]).request_id == id;
                    assert(k == s_old.len());
                    assert(self.stored_job(id) == job);
                    assert forall|rid2: RequestId|
                        rid2 != id && old(self).contains_rid(rid2) implies self.contains_rid(rid2)
                        && self.stored_job(rid2) == old(self).stored_job(rid2) by {
                        let j = choose|j: int|
                            0 <= j < s_old.len() && (#[trigger] s_old[j]).request_id == rid2;
                        assert(s_new[j] == s_old[j]);
                        assert(self.contains_rid(rid2));
                        let m = choose|m: int|
                            0 <= m < s_new.len() && (#[trigger] s_new[m]).request_id == rid2;
                        assert(m < s_old.len());
                        assert(s_new[m] == s_old[m]);
                    }
                    assert forall|rid2: RequestId|
                        rid2 != id && self.contains_rid(rid2) implies old(self).contains_rid(
                        rid2,
                    ) by {
                        let m = choose|m: int|
                            0 <= m < s_new.len() && (#[trigger] s_new[m]).request_id == rid2;
                        assert(m < s_old.len());
                        assert(s_new[m] == s_old[m]);
                    }
                }
                SubmitOutcome::Enqueued
            },
        }
    }
    // ------------------------------------
    // | Correlated Randomness Generation |
    // ------------------------------------

    /// Generate `n` scalars drawn uniformly from the field.
    fn gen_random_vec(n: usize) -> (r: Vec<Scalar>)
        ensures
            r@.len() == n,
            all_in_field(r@),
    {
        let mut out: Vec<Scalar> = Vec::new();
        let mut i: usize = 0;
        while i < n
            invariant
                0 <= i <= n,
                out@.len() == i,
                all_in_field(out@),
            decreases n - i,
        {
            out.push(scalar_random());
            i += 1;
        }
        out
    }

    /// Compute the MACs of a set of values: each value times the MAC key.
    pub fn compute_macs(mac_key: &Scalar, values: &Vec<Scalar>) -> (r: Vec<Scalar>)
        requires
            mac_key.wf(),
            all_in_field(values@),
        ensures
            r@.len() == values@.len(),
            forall|j: int|
                0 <= j < values@.len() ==> (#[trigger] r@[j]).val() == fmul(
                    values@[j].val(),
                    mac_key.val(),
                ),
            all_in_field(r@),
    {
        let n = values.len();
        let mut out: Vec<Scalar> = Vec::new();
        let mut i: usize = 0;
        while i < n
            invariant
                n == values@.len(),
                0 <= i <= n,
                mac_key.wf(),
                all_in_field(values@),
                out@.len() == i,
                forall|j: int|
                    0 <= j < i ==> (#[trigger] out@[j]).val() == fmul(
                        values@[j].val(),
                        mac_key.val(),
                    ),
                all_in_field(out@),
            decreases n - i,
        {
            out.push(scalar_mul(&values[i], mac_key));
            i += 1;
        }
        out
    }

    /// Generate additive secret shares of a given set of values: for each
    /// value a uniform blinding share and the difference, which open back to
    /// the value.
    pub fn gen_secret_shares(values: &Vec<Scalar>) -> (r: (Vec<Scalar>, Vec<Scalar>))
        requires
            all_in_field(values@),
        ensures
            r.0@.len() == values@.len(),
            r.1@.len() == values@.len(),
            all_in_field(r.0@),
            all_in_field(r.1@),
            forall|j: int|
                0 <= j < values@.len() ==> fadd((#[trigger] r.0@[j]).val(), r.1@[j].val())
                    == values@[j].val(),
    {
        let n = values.len();
        let mut share1: Vec<Scalar> = Vec::new();
        let mut share2: Vec<Scalar> = Vec::new();
        let mut i: usize = 0;
        while i < n
            invariant
                n == values@.len(),
                0 <= i <= n,
                all_in_field(values@),
                share1@.len() == i,
                share2@.len() == i,
                all_in_field(share1@),
                all_in_field(share2@),
                forall|j: int|
                    0 <= j < i ==> fadd((#[trigger] share1@[j]).val(), share2@[j].val())
                        == values@[j].val(),
            decreases n - i,
        {
            let share = scalar_random();
            let diff = scalar_sub(&values[i], &share);
            proof {
                lemma_open_additive_shares(values@[i as int].val(), share.val());
            }
            share1.push(share);
            share2.push(diff);
            i += 1;
        }
        (share1, share2)
    }

    /// Collect a set of values and MACs into a vector of shares.
    pub fn collect_shares(values: &Vec<Scalar>, macs: &Vec<Scalar>) -> (r: Vec<ScalarShare>)
        requires
            values@.len() == macs@.len(),
        ensures
            r@.len() == values@.len(),
            forall|j: int|
                0 <= j < values@.len() ==> (#[trigger] r@[j]).share == values@[j] && r@[j].mac
                    == macs@[j],
    {
        let n = values.len();
        let mut shares: Vec<ScalarShare> = Vec::new();
        let mut i: usize = 0;
        while i < n
            invariant
                n == values@.len() == macs@.len(),
                0 <= i <= n,
                shares@.len() == i,
                forall|j: int|
                    0 <= j < i ==> (#[trigger] shares@[j]).share == values@[j] && shares@[j].mac
                        == macs@[j],
            decreases n - i,
        {
            shares.push(ScalarShare::new(values[i], macs[i]));
            i += 1;
        }
        shares
    }

    /// Generate authenticated secret shares of a given set of values: two
    /// vectors of counterpart shares that open to the values and whose MACs
    /// authenticate them under the MAC key.
    pub fn gen_authenticated_secret_shares(mac_key: &Scalar, values: &Vec<Scalar>) -> (r: (
        Vec<ScalarShare>,
        Vec<ScalarShare>,
    ))
        requires
            mac_key.wf(),
            all_in_field(values@),
        ensures
            r.0@.len() == values@.len(),
            r.1@.len() == values@.len(),
            opens_to(r.0@, r.1@, values@),
            shares_authenticated(r.0@, r.1@, mac_key.val()),
    {
        let macs = Self::compute_macs(mac_key, values);
        let (shares1, shares2) = Self::gen_secret_shares(values);
        let (mac_shares1, mac_shares2) = Self::gen_secret_shares(&macs);
        let out1 = Self::collect_shares(&shares1, &mac_shares1);
        let out2 = Self::collect_shares(&shares2, &mac_shares2);
        (out1, out2)
    }

    /// Generate the random bits of a pairing: authenticated shares of values
    /// in `{0, 1}`.
    pub fn gen_random_bits(n: usize, mac_key: &Scalar) -> (r: (Vec<ScalarShare>, Vec<ScalarShare>))
        requires
            mac_key.wf(),
        ensures
            r.0@.len() == n,
            r.1@.len() == n,
            shares_authenticated(r.0@, r.1@, mac_key.val()),
            forall|i: int|
                0 <= i < n ==> opened(#[trigger] r.0@[i], r.1@[i]) == 0 || opened(r.0@[i], r.1@[i])
                    == 1,
    {
        let mut bits: Vec<Scalar> = Vec::new();
        let mut i: usize = 0;
        while i < n
            invariant
                0 <= i <= n,
                bits@.len() == i,
                all_in_field(bits@),
                forall|j: int|
                    0 <= j < i ==> (#[trigger] bits@[j]).val() == 0 || bits@[j].val() == 1,
            decreases n - i,
        {
            let b = random_bool();
            bits.push(scalar_from_u64(if b { 1 } else { 0 }));
            i += 1;
        }
        Self::gen_authenticated_secret_shares(mac_key, &bits)
    }

    /// Generate the shared random values of a pairing.
    pub fn gen_random_values(n: usize, mac_key: &Scalar) -> (r: (
        Vec<ScalarShare>,
        Vec<ScalarShare>,
    ))
        requires
            mac_key.wf(),
        ensures
            r.0@.len() == n,
            r.1@.len() == n,
            shares_authenticated(r.0@, r.1@, mac_key.val()),
    {
        let values = Self::gen_random_vec(n);
        Self::gen_authenticated_secret_shares(mac_key, &values)
    }

    /// Generate the input masks of a pairing.
    ///
    /// Each party receives the cleartext of its own masks, the shares of
    /// those masks, and the shares of the counterparty's masks, in order;
    /// the counterpart halves of each mask vector go to the other party.
    pub fn gen_input_masks(n: usize, mac_key: &Scalar) -> (r: (
        (Vec<Scalar>, Vec<ScalarShare>, Vec<ScalarShare>),
        (Vec<Scalar>, Vec<ScalarShare>, Vec<ScalarShare>),
    ))
        requires
            mac_key.wf(),
        ensures
            r.0.0@.len() == n,
            r.1.0@.len() == n,
            all_in_field(r.0.0@),
            all_in_field(r.1.0@),
            opens_to(r.0.1@, r.1.2@, r.0.0@),
            opens_to(r.1.1@, r.0.2@, r.1.0@),
            shares_authenticated(r.0.1@, r.1.2@, mac_key.val()),
            shares_authenticated(r.1.1@, r.0.2@, mac_key.val()),
    {
        let masks1 = Self::gen_random_vec(n);
        let masks2 = Self::gen_random_vec(n);
        let (mask1_share1, mask1_share2) = Self::gen_authenticated_secret_shares(mac_key, &masks1);
        let (mask2_share1, mask2_share2) = Self::gen_authenticated_secret_shares(mac_key, &masks2);
        ((masks1, mask1_share1, mask2_share1), (masks2, mask2_share2, mask1_share2))
    }

    /// Generate the inverse pairs of a pairing: authenticated shares of
    /// random values `r` and of `r^-1`, whose openings multiply to one.
    ///
    /// The sampler's zero — an event of negligible probability — would have
    /// no inverse; it is replaced by the multiplicative identity, so the
    /// pair relation holds for every index.
    pub fn gen_inverse_pairs(n: usize, mac_key: &Scalar) -> (r: (
        (Vec<ScalarShare>, Vec<ScalarShare>),
        (Vec<ScalarShare>, Vec<ScalarShare>),
    ))
        requires
            mac_key.wf(),
        ensures
            r.0.0@.len() == n,
            r.0.1@.len() == n,
            shares_authenticated(r.0.0@, r.1.0@, mac_key.val()),
            shares_authenticated(r.0.1@, r.1.1@, mac_key.val()),
            forall|i: int|
                0 <= i < n ==> fmul(
                    opened(#[trigger] r.0.0@[i], r.1.0@[i]),
                    opened(r.0.1@[i], r.1.1@[i]),
                ) == 1,
    {
        let mut rs: Vec<Scalar> = Vec::new();
        let mut r_invs: Vec<Scalar> = Vec::new();
        let mut i: usize = 0;
        while i < n
            invariant
                0 <= i <= n,
                rs@.len() == i,
                r_invs@.len() == i,
                all_in_field(rs@),
                all_in_field(r_invs@),
                forall|j: int|
                    0 <= j < i ==> fmul((#[trigger] rs@[j]).val(), r_invs@[j].val()) == 1,
            decreases n - i,
        {
            let mut v = scalar_random();
            if scalar_is_zero(&v) {
                v = scalar_from_u64(1);
            }
            let v_inv = scalar_inverse(&v);
            rs.push(v);
            r_invs.push(v_inv);
            i += 1;
        }
        let (r_shares1, r_shares2) = Self::gen_authenticated_secret_shares(mac_key, &rs);
        let (r_inv_shares1, r_inv_shares2) = Self::gen_authenticated_secret_shares(mac_key, &r_invs);
        ((r_shares1, r_inv_shares1), (r_shares2, r_inv_shares2))
    }

    /// Generate the Beaver triples of a pairing: authenticated shares of
    /// vectors `a`, `b`, `c` such that `a * b = c` pointwise.
    pub fn gen_triples(n: usize, mac_key: &Scalar) -> (r: (
        (Vec<ScalarShare>, Vec<ScalarShare>, Vec<ScalarShare>),
        (Vec<ScalarShare>, Vec<ScalarShare>, Vec<ScalarShare>),
    ))
        requires
            mac_key.wf(),
        ensures
            r.0.0@.len() == n,
            r.0.1@.len() == n,
            r.0.2@.len() == n,
            shares_authenticated(r.0.0@, r.1.0@, mac_key.val()),
            shares_authenticated(r.0.1@, r.1.1@, mac_key.val()),
            shares_authenticated(r.0.2@, r.1.2@, mac_key.val()),
            forall|i: int|
                0 <= i < n ==> fmul(
                    opened(#[trigger] r.0.0@[i], r.1.0@[i]),
                    opened(r.0.1@[i], r.1.1@[i]),
                ) == opened(r.0.2@[i], r.1.2@[i]),
    {
        let a = Self::gen_random_vec(n);
        let b = Self::gen_random_vec(n);
        let mut c: Vec<Scalar> = Vec::new();
        let mut i: usize = 0;
        while i < n
            invariant
                0 <= i <= n,
                a@.len() == n,
                b@.len() == n,
                all_in_field(a@),
                all_in_field(b@),
                c@.len() == i,
                all_in_field(c@),
                forall|j: int|
                    0 <= j < i ==> (#[trigger] c@[j]).val() == fmul(a@[j].val(), b@[j].val()),
            decreases n - i,
        {
            c.push(scalar_mul(&a[i], &b[i]));
            i += 1;
        }
        let (a_shares1, a_shares2) = Self::gen_authenticated_secret_shares(mac_key, &a);
        let (b_shares1, b_shares2) = Self::gen_authenticated_secret_shares(mac_key, &b);
        let (c_shares1, c_shares2) = Self::gen_authenticated_secret_shares(mac_key, &c);
        ((a_shares1, b_shares1, c_shares1), (a_shares2, b_shares2, c_shares2))
    }

    /// Handle a pair of matching requests that are ready for setup: deal the
    /// MAC key in two additive halves and generate the five primitive
    /// families, producing the response labelled for party 0 and the one
    /// labelled for party 1.
    pub fn handle_ready_pair(req: &DealerRequest) -> (r: (DealerResponse, DealerResponse))
        ensures
            response_pair_consistent(r.0, r.1, *req),
    {
        let mac_key = scalar_random();
        let mac_share1 = scalar_random();
        let mac_share2 = scalar_sub(&mac_key, &mac_share1);
        proof {
            lemma_open_additive_shares(mac_key.val(), mac_share1.val());
        }
        let mut resp1 = DealerResponse::default();
        let mut resp2 = DealerResponse::default();
        resp1.mac_key_share = mac_share1;
        resp2.mac_key_share = mac_share2;

        let (bits1, bits2) = Self::gen_random_bits(req.n_random_bits as usize, &mac_key);
        resp1.set_random_bits(bits1);
        resp2.set_random_bits(bits2);

        let (vals1, vals2) = Self::gen_random_values(req.n_random_values as usize, &mac_key);
        resp1.set_random_values(vals1);
        resp2.set_random_values(vals2);

        let (masks1, masks2) = Self::gen_input_masks(req.n_input_masks as usize, &mac_key);
        resp1.set_input_masks(masks1.0, masks1.1, masks1.2);
        resp2.set_input_masks(masks2.0, masks2.1, masks2.2);

        let (invs1, invs2) = Self::gen_inverse_pairs(req.n_inverse_pairs as usize, &mac_key);
        resp1.set_inverse_pairs(invs1.0, invs1.1);
        resp2.set_inverse_pairs(invs2.0, invs2.1);

        let (trips1, trips2) = Self::gen_triples(req.n_triples as usize, &mac_key);
        resp1.set_triples(trips1.0, trips1.1, trips1.2);
        resp2.set_triples(trips2.0, trips2.1, trips2.2);

        (resp1, resp2)
    }
}

} // verus!
