//! Tests of the API types: request builders, totals, and error shaping.

use renegade_dealer::request::{DealerError, DealerRequest, MAX_REQUEST_SIZE};

#[test]
fn test_request_builders() {
    let req = DealerRequest::new(vec![1, 2, 3], vec![4, 5, 6])
        .with_n_random_bits(1)
        .with_n_random_values(2)
        .with_n_input_masks(3)
        .with_n_inverse_pairs(4)
        .with_n_triples(5);
    assert_eq!(req.first_party_key, vec![1, 2, 3]);
    assert_eq!(req.second_party_key, vec![4, 5, 6]);
    assert_eq!(req.n_random_bits, 1);
    assert_eq!(req.n_random_values, 2);
    assert_eq!(req.n_input_masks, 3);
    assert_eq!(req.n_inverse_pairs, 4);
    assert_eq!(req.n_triples, 5);
    assert_eq!(req.total_values(), 15);

    let empty = DealerRequest::new(vec![], vec![]);
    assert_eq!(empty.total_values(), 0);
}

#[test]
fn test_total_values_no_overflow() {
    // Five maximal counts sum without wrapping.
    let req = DealerRequest::new(vec![], vec![])
        .with_n_random_bits(u32::MAX)
        .with_n_random_values(u32::MAX)
        .with_n_input_masks(u32::MAX)
        .with_n_inverse_pairs(u32::MAX)
        .with_n_triples(u32::MAX);
    assert_eq!(req.total_values(), 5 * (u32::MAX as u64));
    assert!(req.total_values() > MAX_REQUEST_SIZE as u64);
}

#[test]
fn test_same_request_compares_bodies() {
    let a = DealerRequest::new(vec![1], vec![2]).with_n_triples(10);
    let b = DealerRequest::new(vec![1], vec![2]).with_n_triples(10);
    let c = DealerRequest::new(vec![1], vec![2]).with_n_triples(11);
    let d = DealerRequest::new(vec![9], vec![2]).with_n_triples(10);
    assert!(a.same_request(&b));
    assert!(!a.same_request(&c));
    assert!(!a.same_request(&d));
}

#[test]
fn test_error_responses() {
    assert_eq!(DealerError::RequestTooLarge.to_error_response().code, 400);
    assert_eq!(DealerError::RequestTooLarge.to_error_response().message, "Request size too large");
    assert_eq!(DealerError::InvalidPartyId.to_error_response().code, 400);
    assert_eq!(DealerError::InvalidPartyId.to_error_response().message, "Invalid party ID");
    assert_eq!(DealerError::InvalidSignature.to_error_response().code, 401);
    assert_eq!(DealerError::InvalidSignature.to_error_response().message, "Invalid signature");
    assert_eq!(DealerError::DuplicatePartyId.to_error_response().code, 400);
    assert_eq!(DealerError::DuplicatePartyId.to_error_response().message, "Duplicate party ID");
    assert_eq!(DealerError::MismatchedRequests.to_error_response().code, 400);
    assert_eq!(DealerError::MismatchedRequests.to_error_response().message, "Mismatched requests");
}
