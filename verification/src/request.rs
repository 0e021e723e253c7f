//! Request and error types of the dealer's API surface.

use vstd::prelude::*;

verus! {

/// The largest number of correlated values a pair of parties may request at
/// once.
pub const MAX_REQUEST_SIZE: u32 = 1_500_000;

/// A request for offline-phase randomness from the dealer.
///
/// The two public keys are the parties' verifying keys in their standard
/// byte encoding; each count asks for so many values of one primitive family.
#[derive(Clone, Debug)]
pub struct DealerRequest {
    /// The public key of the first party, encoded as bytes.
    pub first_party_key: Vec<u8>,
    /// The public key of the second party, encoded as bytes.
    pub second_party_key: Vec<u8>,
    /// The number of random bits to generate.
    pub n_random_bits: u32,
    /// The number of shared random values to generate.
    pub n_random_values: u32,
    /// The number of input masks to generate.
    pub n_input_masks: u32,
    /// The number of inverse pairs to generate.
    pub n_inverse_pairs: u32,
    /// The number of Beaver triples to generate.
    pub n_triples: u32,
}

impl DealerRequest {
    /// The total number of requested values, as a mathematical integer.
    pub open spec fn total_spec(self) -> int {
        self.n_random_bits + self.n_random_values + self.n_input_masks + self.n_inverse_pairs
            + self.n_triples
    }

    /// Two requests ask for the same thing: same keys, same counts.
    pub open spec fn matches(self, other: DealerRequest) -> bool {
        &&& self.first_party_key@ == other.first_party_key@
        &&& self.second_party_key@ == other.second_party_key@
        &&& self.n_random_bits == other.n_random_bits
        &&& self.n_random_values == other.n_random_values
        &&& self.n_input_masks == other.n_input_masks
        &&& self.n_inverse_pairs == other.n_inverse_pairs
        &&& self.n_triples == other.n_triples
    }

    /// Create a new request from a pair of keys, with all counts zero.
    pub fn new(first_party_key: Vec<u8>, second_party_key: Vec<u8>) -> (r: DealerRequest)
        ensures
            r.first_party_key@ == first_party_key@,
            r.second_party_key@ == second_party_key@,
            r.n_random_bits == 0,
            r.n_random_values == 0,
            r.n_input_masks == 0,
            r.n_inverse_pairs == 0,
            r.n_triples == 0,
    {
        DealerRequest {
            first_party_key,
            second_party_key,
            n_random_bits: 0,
            n_random_values: 0,
            n_input_masks: 0,
            n_inverse_pairs: 0,
            n_triples: 0,
        }
    }

    /// Return the total number of requested values.
    pub fn total_values(&self) -> (r: u64)
        ensures
            r == self.total_spec(),
    {
        self.n_random_bits as u64 + self.n_random_values as u64 + self.n_input_masks as u64
            + self.n_inverse_pairs as u64 + self.n_triples as u64
    }

    /// Set the number of random bits to generate.
    pub fn with_n_random_bits(self, n_random_bits: u32) -> (r: DealerRequest)
        ensures
            r == (DealerRequest { n_random_bits, ..self }),
    {
        DealerRequest { n_random_bits, ..self }
    }

    /// Set the number of shared random values to generate.
    pub fn with_n_random_values(self, n_random_values: u32) -> (r: DealerRequest)
        ensures
            r == (DealerRequest { n_random_values, ..self }),
    {
        DealerRequest { n_random_values, ..self }
    }

    /// Set the number of input masks to generate.
    pub fn with_n_input_masks(self, n_input_masks: u32) -> (r: DealerRequest)
        ensures
            r == (DealerRequest { n_input_masks, ..self }),
    {
        DealerRequest { n_input_masks, ..self }
    }

    /// Set the number of inverse pairs to generate.
    pub fn with_n_inverse_pairs(self, n_inverse_pairs: u32) -> (r: DealerRequest)
        ensures
            r == (DealerRequest { n_inverse_pairs, ..self }),
    {
        DealerRequest { n_inverse_pairs, ..self }
    }

    /// Set the number of Beaver triples to generate.
    pub fn with_n_triples(self, n_triples: u32) -> (r: DealerRequest)
        ensures
            r == (DealerRequest { n_triples, ..self }),
    {
        DealerRequest { n_triples, ..self }
    }

    /// Decide whether this request asks for the same thing as `other`.
    pub fn same_request(&self, other: &DealerRequest) -> (r: bool)
        ensures
            r == self.matches(*other),
    {
        bytes_eq(&self.first_party_key, &other.first_party_key) && bytes_eq(
            &self.second_party_key,
            &other.second_party_key,
        ) && self.n_random_bits == other.n_random_bits && self.n_random_values
            == other.n_random_values && self.n_input_masks == other.n_input_masks
            && self.n_inverse_pairs == other.n_inverse_pairs && self.n_triples == other.n_triples
    }
}

/// Byte-vector equality, element by element.
fn bytes_eq(a: &Vec<u8>, b: &Vec<u8>) -> (r: bool)
    ensures
        r == (a@ == b@),
{
    if a.len() != b.len() {
        proof {
            assert(a@ != b@);
        }
        return false;
    }
    let n = a.len();
    let mut i: usize = 0;
    while i < n
        invariant
            n == a.len() == b.len(),
            0 <= i <= n,
            forall|j: int| 0 <= j < i ==> a@[j] == b@[j],
        decreases n - i,
    {
        if a[i] != b[i] {
            return false;
        }
        i += 1;
    }
    proof {
        assert(a@ =~= b@);
    }
    true
}

/// Why the dealer turned a submission down.
#[derive(Clone, Copy, Debug, PartialEq, Eq, Structural)]
pub enum DealerError {
    /// The request asked for more than [`MAX_REQUEST_SIZE`] values.
    RequestTooLarge,
    /// The submitting party's ID was neither of the two legal ones.
    InvalidPartyId,
    /// The submission's signature did not verify under the submitted key.
    InvalidSignature,
    /// Both submissions under one request ID came from the same party.
    DuplicatePartyId,
    /// The two submissions under one request ID differed.
    MismatchedRequests,
}

/// An error reply, as it is delivered on the wire.
#[derive(Clone, Copy, Debug)]
pub struct ErrorResponse {
    /// The error code associated with the response.
    pub code: u32,
    /// The error message associated with the response.
    pub message: &'static str,
}

impl DealerError {
    /// Signature failures are authorization failures; everything else is a
    /// bad request.
    pub open spec fn is_unauthorized(self) -> bool {
        self is InvalidSignature
    }

    /// The human-readable message for this error.
    pub fn message(&self) -> (r: &'static str)
        ensures
            *self is RequestTooLarge ==> r@ == "Request size too large"@,
            *self is InvalidPartyId ==> r@ == "Invalid party ID"@,
            *self is InvalidSignature ==> r@ == "Invalid signature"@,
            *self is DuplicatePartyId ==> r@ == "Duplicate party ID"@,
            *self is MismatchedRequests ==> r@ == "Mismatched requests"@,
    {
        match self {
            DealerError::RequestTooLarge => "Request size too large",
            DealerError::InvalidPartyId => "Invalid party ID",
            DealerError::InvalidSignature => "Invalid signature",
            DealerError::DuplicatePartyId => "Duplicate party ID",
            DealerError::MismatchedRequests => "Mismatched requests",
        }
    }

    /// Shape this error for the wire: `401` for an authorization failure,
    /// `400` for a bad request, with the matching message.
    pub fn to_error_response(&self) -> (r: ErrorResponse)
        ensures
            r.code == if self.is_unauthorized() {
                401int
            } else {
                400int
            },
            *self is RequestTooLarge ==> r.message@ == "Request size too large"@,
            *self is InvalidPartyId ==> r.message@ == "Invalid party ID"@,
            *self is InvalidSignature ==> r.message@ == "Invalid signature"@,
            *self is DuplicatePartyId ==> r.message@ == "Duplicate party ID"@,
            *self is MismatchedRequests ==> r.message@ == "Mismatched requests"@,
    {
        let code: u32 = if matches!(self, DealerError::InvalidSignature) {
            401
        } else {
            400
        };
        ErrorResponse { code, message: self.message() }
    }
}

} // verus!
