//! Tests of the dealer's pairing engine and correlated-randomness generation,
//! checked independently with the curve library's own arithmetic.

use ark_ff::{BigInt, Field, PrimeField};
use k256::SecretKey;
use renegade_dealer::dealer::{Dealer, DealerJob, SubmitOutcome, PARTY0, PARTY1};
use renegade_dealer::request::DealerRequest;
use renegade_dealer::response::DealerResponse;
use renegade_dealer::scalar::Scalar;
use renegade_dealer::share::ScalarShare;

type Fr = ark_bn254::Fr;

// -----------
// | Helpers |
// -----------

/// Interpret a dealer scalar as a curve-library field element.
fn to_fr(s: &Scalar) -> Fr {
    Fr::from_bigint(BigInt(s.limbs)).expect("dealer scalar out of range")
}

/// A well-formed scalar to use as a MAC key in direct generator tests.
fn sample_scalar() -> Scalar {
    Scalar { limbs: [rand::random::<u64>(), 0, 0, 0] }
}

/// Get a mock dealer request asking for `n` of every primitive family.
fn mock_dealer_req(n: u32) -> DealerRequest {
    let mut rng = rand::thread_rng();
    let key1 = SecretKey::random(&mut rng);
    let key2 = SecretKey::random(&mut rng);

    DealerRequest::new(
        key1.public_key().to_sec1_bytes().to_vec(),
        key2.public_key().to_sec1_bytes().to_vec(),
    )
    .with_n_triples(n)
    .with_n_input_masks(n)
    .with_n_inverse_pairs(n)
    .with_n_random_bits(n)
    .with_n_random_values(n)
}

/// Run a mock dealer: submit the same request for both parties under one
/// request ID and return the two responses.
fn get_mock_dealer_response(n: u32) -> (DealerResponse, DealerResponse) {
    let mut dealer = Dealer::new();
    let rid: u128 = 0x1234_5678_9abc_def0_1122_3344_5566_7788;
    let req = mock_dealer_req(n);

    let job1 = DealerJob::new(rid, PARTY0, req.clone(), 1);
    let job2 = DealerJob::new(rid, PARTY1, req, 2);

    let first = dealer.handle_request(job1);
    assert!(matches!(first, SubmitOutcome::Enqueued));
    match dealer.handle_request(job2) {
        SubmitOutcome::Paired { resp0, resp1, sink0, sink1 } => {
            assert_eq!(sink0, 1);
            assert_eq!(sink1, 2);
            (resp0, resp1)
        },
        _ => panic!("expected a paired outcome"),
    }
}

/// Check that the MACs correctly authenticate the given pairs of shares
/// under the given key.
///
/// Return the recovered values.
fn recover_and_check_macs(mac_key: Fr, share1: &[ScalarShare], share2: &[ScalarShare]) -> Vec<Fr> {
    assert_eq!(share1.len(), share2.len());
    let mut vals = Vec::new();
    for (v1, v2) in share1.iter().zip(share2.iter()) {
        let val = to_fr(&v1.share) + to_fr(&v2.share);
        let mac = to_fr(&v1.mac) + to_fr(&v2.mac);
        assert_eq!(mac, val * mac_key);
        vals.push(val);
    }
    vals
}

// ---------
// | Tests |
// ---------

#[test]
fn test_dealer() {
    const N: u32 = 10;
    let (resp1, resp2) = get_mock_dealer_response(N);
    let mac_key = to_fr(&resp1.mac_key_share) + to_fr(&resp2.mac_key_share);

    // Check the random bits
    let bits = recover_and_check_macs(mac_key, &resp1.random_bits, &resp2.random_bits);
    assert!(bits.into_iter().all(|b| b == Fr::from(0u64) || b == Fr::from(1u64)));

    // Check the random values
    recover_and_check_macs(mac_key, &resp1.random_values, &resp2.random_values);

    // Check the input masks
    let (mask1, mask1_share1, mask2_share1) = &resp1.input_masks;
    let (mask2, mask2_share2, mask1_share2) = &resp2.input_masks;

    let mask1_recovered = recover_and_check_macs(mac_key, mask1_share1, mask1_share2);
    let mask2_recovered = recover_and_check_macs(mac_key, mask2_share1, mask2_share2);
    let mask1_cleartext: Vec<Fr> = mask1.iter().map(to_fr).collect();
    let mask2_cleartext: Vec<Fr> = mask2.iter().map(to_fr).collect();
    assert_eq!(mask1_cleartext, mask1_recovered);
    assert_eq!(mask2_cleartext, mask2_recovered);

    // Check the inverse pairs
    let (r1, r_inv1) = &resp1.inverse_pairs;
    let (r2, r_inv2) = &resp2.inverse_pairs;
    let r1_recovered = recover_and_check_macs(mac_key, r1, r2);
    let r2_recovered = recover_and_check_macs(mac_key, r_inv1, r_inv2);

    let res = r1_recovered
        .iter()
        .zip(r2_recovered.iter())
        .map(|(r1, r2)| *r1 * *r2)
        .all(|r| r == Fr::from(1u64));
    assert!(res);

    // Check the triples
    let (a1, b1, c1) = &resp1.beaver_triples;
    let (a2, b2, c2) = &resp2.beaver_triples;
    let a_recovered = recover_and_check_macs(mac_key, a1, a2);
    let b_recovered = recover_and_check_macs(mac_key, b1, b2);
    let c_recovered = recover_and_check_macs(mac_key, c1, c2);

    for ((a, b), c) in a_recovered.iter().zip(b_recovered.iter()).zip(c_recovered.iter()) {
        assert_eq!(*a * *b, *c);
    }
}

#[test]
fn test_triples_only_pair() {
    // Both parties ask for ten triples and nothing else.
    let mut dealer = Dealer::new();
    let rid: u128 = 77;
    let req = mock_dealer_req(0).with_n_triples(10);

    let first = dealer.handle_request(DealerJob::new(rid, PARTY0, req.clone(), 10));
    assert!(matches!(first, SubmitOutcome::Enqueued));
    let (resp0, resp1) = match dealer.handle_request(DealerJob::new(rid, PARTY1, req, 20)) {
        SubmitOutcome::Paired { resp0, resp1, sink0, sink1 } => {
            assert_eq!((sink0, sink1), (10, 20));
            (resp0, resp1)
        },
        _ => panic!("expected a paired outcome"),
    };

    assert_eq!(resp0.beaver_triples.0.len(), 10);
    assert_eq!(resp0.beaver_triples.1.len(), 10);
    assert_eq!(resp0.beaver_triples.2.len(), 10);
    assert_eq!(resp1.beaver_triples.0.len(), 10);
    assert_eq!(resp1.beaver_triples.1.len(), 10);
    assert_eq!(resp1.beaver_triples.2.len(), 10);
    assert!(resp0.random_bits.is_empty());
    assert!(resp0.random_values.is_empty());
    assert!(resp0.input_masks.0.is_empty());
    assert!(resp0.input_masks.1.is_empty());
    assert!(resp0.inverse_pairs.0.is_empty());

    let mac_key = to_fr(&resp0.mac_key_share) + to_fr(&resp1.mac_key_share);
    let a = recover_and_check_macs(mac_key, &resp0.beaver_triples.0, &resp1.beaver_triples.0);
    let b = recover_and_check_macs(mac_key, &resp0.beaver_triples.1, &resp1.beaver_triples.1);
    let c = recover_and_check_macs(mac_key, &resp0.beaver_triples.2, &resp1.beaver_triples.2);
    for i in 0..10 {
        assert_eq!(a[i] * b[i], c[i]);
    }
}

#[test]
fn test_mismatched_requests_rejected() {
    // Party 0 asks for four bits, party 1 for five: both get the error.
    let mut dealer = Dealer::new();
    let rid: u128 = 5;
    let base = mock_dealer_req(0);
    let req0 = base.clone().with_n_random_bits(4);
    let req1 = base.with_n_random_bits(5);

    let first = dealer.handle_request(DealerJob::new(rid, PARTY0, req0, 1));
    assert!(matches!(first, SubmitOutcome::Enqueued));
    match dealer.handle_request(DealerJob::new(rid, PARTY1, req1, 2)) {
        SubmitOutcome::Rejected { stored_sink, arrived_sink, error } => {
            assert_eq!(stored_sink, 1);
            assert_eq!(arrived_sink, 2);
            assert_eq!(error.to_error_response().code, 400);
        },
        _ => panic!("expected a rejection"),
    }
    // The pairing is forgotten: a later submission under the same ID starts anew.
    let again = dealer.handle_request(DealerJob::new(rid, PARTY0, mock_dealer_req(1), 3));
    assert!(matches!(again, SubmitOutcome::Enqueued));
}

#[test]
fn test_duplicate_party_rejected() {
    // Party 0 submits twice: both sinks receive `Duplicate party ID`.
    let mut dealer = Dealer::new();
    let rid: u128 = 9;
    let req = mock_dealer_req(2);

    let first = dealer.handle_request(DealerJob::new(rid, PARTY0, req.clone(), 1));
    assert!(matches!(first, SubmitOutcome::Enqueued));
    match dealer.handle_request(DealerJob::new(rid, PARTY0, req, 2)) {
        SubmitOutcome::Rejected { stored_sink, arrived_sink, error } => {
            assert_eq!(stored_sink, 1);
            assert_eq!(arrived_sink, 2);
            assert_eq!(error.message(), "Duplicate party ID");
        },
        _ => panic!("expected a rejection"),
    }
}

#[test]
fn test_lone_submission_waits() {
    // A single party's submission is held; nothing is delivered, and an
    // unrelated request ID is not disturbed.
    let mut dealer = Dealer::new();
    let r = dealer.handle_request(DealerJob::new(123, PARTY0, mock_dealer_req(3), 1));
    assert!(matches!(r, SubmitOutcome::Enqueued));
    let r2 = dealer.handle_request(DealerJob::new(456, PARTY1, mock_dealer_req(3), 2));
    assert!(matches!(r2, SubmitOutcome::Enqueued));
    assert_eq!(dealer.open_requests.len(), 2);
}

#[test]
fn test_all_zero_counts() {
    // All-zero counts produce empty vectors and a well-formed MAC-key share.
    let (resp0, resp1) = get_mock_dealer_response(0);
    assert!(resp0.random_bits.is_empty());
    assert!(resp0.random_values.is_empty());
    assert!(resp0.input_masks.0.is_empty());
    assert!(resp0.input_masks.1.is_empty());
    assert!(resp0.input_masks.2.is_empty());
    assert!(resp0.inverse_pairs.0.is_empty());
    assert!(resp0.inverse_pairs.1.is_empty());
    assert!(resp0.beaver_triples.0.is_empty());
    assert!(resp0.beaver_triples.1.is_empty());
    assert!(resp0.beaver_triples.2.is_empty());
    assert!(resp1.random_bits.is_empty());
    // The MAC-key shares are canonical field elements: they survive a
    // round trip through the curve library unchanged.
    let k0 = to_fr(&resp0.mac_key_share);
    let k1 = to_fr(&resp1.mac_key_share);
    assert_eq!(k0.into_bigint().0, resp0.mac_key_share.limbs);
    assert_eq!(k1.into_bigint().0, resp1.mac_key_share.limbs);
}

#[test]
fn test_input_mask_cross_link() {
    // Party 0 asks for three input masks; opening its own shares against
    // party 1's counterpart shares recovers party 0's cleartext.
    let mut dealer = Dealer::new();
    let rid: u128 = 31;
    let req = mock_dealer_req(0).with_n_input_masks(3);
    let first = dealer.handle_request(DealerJob::new(rid, PARTY0, req.clone(), 1));
    assert!(matches!(first, SubmitOutcome::Enqueued));
    let (resp0, resp1) = match dealer.handle_request(DealerJob::new(rid, PARTY1, req, 2)) {
        SubmitOutcome::Paired { resp0, resp1, .. } => (resp0, resp1),
        _ => panic!("expected a paired outcome"),
    };

    assert_eq!(resp0.input_masks.0.len(), 3);
    for i in 0..3 {
        let opened0 = to_fr(&resp0.input_masks.1[i].share) + to_fr(&resp1.input_masks.2[i].share);
        assert_eq!(opened0, to_fr(&resp0.input_masks.0[i]));
        let opened1 = to_fr(&resp1.input_masks.1[i].share) + to_fr(&resp0.input_masks.2[i].share);
        assert_eq!(opened1, to_fr(&resp1.input_masks.0[i]));
    }
}

#[test]
fn test_pid_assignment_independent_of_arrival_order() {
    // Party 1 arrives first; party 0 still receives the response labelled
    // for party 0 on its own sink.
    let mut dealer = Dealer::new();
    let rid: u128 = 64;
    let req = mock_dealer_req(1);
    let first = dealer.handle_request(DealerJob::new(rid, PARTY1, req.clone(), 11));
    assert!(matches!(first, SubmitOutcome::Enqueued));
    match dealer.handle_request(DealerJob::new(rid, PARTY0, req, 22)) {
        SubmitOutcome::Paired { sink0, sink1, .. } => {
            assert_eq!(sink0, 22);
            assert_eq!(sink1, 11);
        },
        _ => panic!("expected a paired outcome"),
    }
}

#[test]
fn test_inverse_pairs_multiply_to_one() {
    let mac_key = sample_scalar();
    let (p0, p1) = Dealer::gen_inverse_pairs(8, &mac_key);
    for i in 0..8 {
        let r = to_fr(&p0.0[i].share) + to_fr(&p1.0[i].share);
        let r_inv = to_fr(&p0.1[i].share) + to_fr(&p1.1[i].share);
        assert_eq!(r * r_inv, Fr::from(1u64));
        assert_eq!(r.inverse().unwrap(), r_inv);
    }
}

#[test]
fn test_random_bits_domain() {
    let mac_key = sample_scalar();
    let (b0, b1) = Dealer::gen_random_bits(64, &mac_key);
    for i in 0..64 {
        let bit = to_fr(&b0[i].share) + to_fr(&b1[i].share);
        assert!(bit == Fr::from(0u64) || bit == Fr::from(1u64));
    }
}

#[test]
fn test_share_distribution_nondegenerate() {
    // A weak check of share hiding: the first-party shares of many values
    // are pairwise distinct (a repeat would all but prove a broken sampler),
    // and the opened random bits are roughly balanced.
    let mac_key = sample_scalar();
    let (s0, _s1) = Dealer::gen_random_values(256, &mac_key);
    let mut limbs: Vec<[u64; 4]> = s0.iter().map(|s| s.share.limbs).collect();
    limbs.sort();
    limbs.dedup();
    assert_eq!(limbs.len(), 256);

    let (b0, b1) = Dealer::gen_random_bits(2000, &mac_key);
    let mut ones = 0u32;
    for i in 0..2000 {
        if to_fr(&b0[i].share) + to_fr(&b1[i].share) == Fr::from(1u64) {
            ones += 1;
        }
    }
    assert!(ones > 700 && ones < 1300);
}

#[test]
fn test_share_builder_exact_macs() {
    // Small known values: the MAC of v under key k is exactly v * k.
    let key = Scalar { limbs: [3, 0, 0, 0] };
    let vals = vec![Scalar { limbs: [2, 0, 0, 0] }, Scalar { limbs: [5, 0, 0, 0] }];

    let macs = Dealer::compute_macs(&key, &vals);
    assert_eq!(macs[0].limbs, [6, 0, 0, 0]);
    assert_eq!(macs[1].limbs, [15, 0, 0, 0]);

    let (s1, s2) = Dealer::gen_secret_shares(&vals);
    for i in 0..2 {
        assert_eq!(to_fr(&s1[i]) + to_fr(&s2[i]), to_fr(&vals[i]));
    }

    let (a1, a2) = Dealer::gen_authenticated_secret_shares(&key, &vals);
    assert_eq!(a1.len(), 2);
    assert_eq!(a2.len(), 2);
    for i in 0..2 {
        assert_eq!(to_fr(&a1[i].share) + to_fr(&a2[i].share), to_fr(&vals[i]));
        assert_eq!(to_fr(&a1[i].mac) + to_fr(&a2[i].mac), to_fr(&vals[i]) * to_fr(&key));
    }

    let collected = Dealer::collect_shares(&vals, &macs);
    assert_eq!(collected[1].share.limbs, [5, 0, 0, 0]);
    assert_eq!(collected[1].mac.limbs, [15, 0, 0, 0]);
}
