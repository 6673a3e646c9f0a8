//! Commitments, opening proofs and their verification.
//!
//! Blobs are read in evaluation form over the bit-reversed roots of unity,
//! matching the Lagrange-form setup that `TrustedSetup::load` accepts.
use vstd::prelude::*;
use crate::codec::{Blob, BYTES_PER_BLOB, is_canonical, valid_blob};
use crate::setup::TrustedSetup;

verus! {

/// A compressed first-group point: a commitment or a proof.
pub type Bytes48 = [u8; 48];

/// A serialized field element: an evaluation point or value.
pub type Bytes32 = [u8; 32];

/// Why a proof could not be computed. It is not expected for valid inputs.
#[derive(Debug, Clone, Copy, PartialEq, Eq, Structural)]
pub enum ProofError {
    /// The curve library reported an internal failure.
    EvaluationError,
}

/// The commitment that the curve library computes for a blob.
pub uninterp spec fn kzg_commitment_of(blob: Seq<u8>, g1: Seq<u8>, g2: Seq<u8>) -> Seq<u8>;

/// The proof and the evaluation value that the curve library computes when it
/// opens a blob's polynomial at a point.
pub uninterp spec fn kzg_point_opening(blob: Seq<u8>, z: Seq<u8>, g1: Seq<u8>, g2: Seq<u8>) -> (
    Seq<u8>,
    Seq<u8>,
);

/// The proof that the curve library computes for a blob and its commitment, at
/// the point it derives from both by hashing.
pub uninterp spec fn kzg_blob_proof_of(blob: Seq<u8>, commitment: Seq<u8>, g1: Seq<u8>, g2: Seq<u8>) -> Seq<u8>;

/// Whether the curve library decodes these 48 bytes as a commitment: a
/// compressed first-group point in the prime-order subgroup.
pub uninterp spec fn kzg_commitment_decodes(commitment: Seq<u8>) -> bool;

/// The outcome of the curve library's pairing check: `None` where an input
/// does not decode (a byte string that is not a point, a value not below the
/// modulus), else whether the check holds.
pub uninterp spec fn kzg_verify_outcome(
    commitment: Seq<u8>,
    z: Seq<u8>,
    y: Seq<u8>,
    proof: Seq<u8>,
    g1: Seq<u8>,
    g2: Seq<u8>,
) -> Option<bool>;

/// Relies on `c_kzg::KzgCommitment::blob_to_kzg_commitment`: it fails only on
/// an element that is not below the modulus (allocation failure aside, which
/// aborts the process anywhere else in Rust), and its result is a function of
/// the blob and the setup.
#[verifier::external_body]
fn ckzg_blob_to_commitment(blob: &[u8], setup: &TrustedSetup) -> (r: Result<Bytes48, c_kzg::Error>)
    requires
        blob@.len() == BYTES_PER_BLOB,
    ensures
        valid_blob(blob@) ==> r is Ok,
        r matches Ok(c) ==> c@ == kzg_commitment_of(blob@, setup.g1_points(), setup.g2_points()),
{
    let blob = c_kzg::Blob::from_bytes(blob)?;
    let c = c_kzg::KzgCommitment::blob_to_kzg_commitment(&blob, &setup.settings)?;
    Ok(c.to_bytes().into_inner())
}

/// Relies on `c_kzg::KzgProof::compute_kzg_proof`: on a valid blob it fails
/// only where `z` is not below the modulus (allocation failure aside), and its
/// result, the proof and the value at `z`, is a function of the blob, the
/// point and the setup.
#[verifier::external_body]
fn ckzg_compute_kzg_proof(blob: &[u8], z: &Bytes32, setup: &TrustedSetup) -> (r: Result<(Bytes48, Bytes32), c_kzg::Error>)
    requires
        blob@.len() == BYTES_PER_BLOB,
    ensures
        valid_blob(blob@) ==> (r is Ok <==> is_canonical(z@)),
        r matches Ok(o) ==> (o.0@, o.1@) == kzg_point_opening(
            blob@,
            z@,
            setup.g1_points(),
            setup.g2_points(),
        ),
{
    let blob = c_kzg::Blob::from_bytes(blob)?;
    let z = c_kzg::Bytes32::from(*z);
    let (proof, y) = c_kzg::KzgProof::compute_kzg_proof(&blob, &z, &setup.settings)?;
    Ok((proof.to_bytes().into_inner(), *y))
}

/// Relies on `c_kzg::KzgProof::compute_blob_kzg_proof`: on a valid blob it
/// fails only where the commitment does not decode (allocation failure
/// aside), and its result is a function of the blob, the commitment and the
/// setup.
#[verifier::external_body]
fn ckzg_compute_blob_kzg_proof(blob: &[u8], commitment: &Bytes48, setup: &TrustedSetup) -> (r: Result<Bytes48, c_kzg::Error>)
    requires
        blob@.len() == BYTES_PER_BLOB,
    ensures
        valid_blob(blob@) ==> (r is Ok <==> kzg_commitment_decodes(commitment@)),
        r matches Ok(p) ==> p@ == kzg_blob_proof_of(
            blob@,
            commitment@,
            setup.g1_points(),
            setup.g2_points(),
        ),
{
    let blob = c_kzg::Blob::from_bytes(blob)?;
    let c = c_kzg::Bytes48::from(*commitment);
    let proof = c_kzg::KzgProof::compute_blob_kzg_proof(&blob, &c, &setup.settings)?;
    Ok(proof.to_bytes().into_inner())
}

/// Relies on `c_kzg::KzgProof::verify_kzg_proof`, which decodes its inputs
/// and runs one pairing check without allocating: its outcome is a function of
/// its arguments and the setup.
#[verifier::external_body]
fn ckzg_verify_kzg_proof(
    commitment: &Bytes48,
    z: &Bytes32,
    y: &Bytes32,
    proof: &Bytes48,
    setup: &TrustedSetup,
) -> (r: Result<bool, c_kzg::Error>)
    ensures
        r matches Ok(b) ==> kzg_verify_outcome(
            commitment@,
            z@,
            y@,
            proof@,
            setup.g1_points(),
            setup.g2_points(),
        ) == Some(b),
        r is Err ==> kzg_verify_outcome(
            commitment@,
            z@,
            y@,
            proof@,
            setup.g1_points(),
            setup.g2_points(),
        ) is None,
{
    c_kzg::KzgProof::verify_kzg_proof(
        &c_kzg::Bytes48::from(*commitment),
        &c_kzg::Bytes32::from(*z),
        &c_kzg::Bytes32::from(*y),
        &c_kzg::Bytes48::from(*proof),
        &setup.settings,
    )
}

/// Commits to a blob's polynomial. Only a validated blob reaches it, and
/// committing to one always succeeds.
pub fn commit(blob: &Blob, setup: &TrustedSetup) -> (r: Result<Bytes48, ProofError>)
    ensures
        valid_blob(blob@),
        r is Ok,
        r matches Ok(c) ==> c@ == kzg_commitment_of(blob@, setup.g1_points(), setup.g2_points()),
{
    let bytes = blob.as_bytes();
    match ckzg_blob_to_commitment(bytes, setup) {
        Ok(c) => Ok(c),
        Err(_) => Err(ProofError::EvaluationError),
    }
}

/// Opens a blob's polynomial at `z`: returns a proof and the value `y` of the
/// polynomial at `z`. It succeeds exactly when `z` is a canonical field
/// element.
pub fn open_at_point(blob: &Blob, z: &Bytes32, setup: &TrustedSetup) -> (r: Result<(Bytes48, Bytes32), ProofError>)
    ensures
        valid_blob(blob@),
        r is Ok <==> is_canonical(z@),
        r matches Ok(o) ==> (o.0@, o.1@) == kzg_point_opening(
            blob@,
            z@,
            setup.g1_points(),
            setup.g2_points(),
        ),
{
    let bytes = blob.as_bytes();
    match ckzg_compute_kzg_proof(bytes, z, setup) {
        Ok(o) => Ok(o),
        Err(_) => Err(ProofError::EvaluationError),
    }
}

/// Proves a blob against its commitment, at the point derived by hashing the
/// blob together with the commitment. It succeeds exactly when the
/// commitment decodes as a point.
pub fn open_blob(blob: &Blob, commitment: &Bytes48, setup: &TrustedSetup) -> (r: Result<Bytes48, ProofError>)
    ensures
        valid_blob(blob@),
        r is Ok <==> kzg_commitment_decodes(commitment@),
        r matches Ok(p) ==> p@ == kzg_blob_proof_of(
            blob@,
            commitment@,
            setup.g1_points(),
            setup.g2_points(),
        ),
{
    let bytes = blob.as_bytes();
    match ckzg_compute_blob_kzg_proof(bytes, commitment, setup) {
        Ok(p) => Ok(p),
        Err(_) => Err(ProofError::EvaluationError),
    }
}

/// Whether `proof` shows that the polynomial committed to by `commitment`
/// takes the value `y` at `z`. Inputs that do not decode give `false`, never an
/// error.
pub fn verify(
    commitment: &Bytes48,
    z: &Bytes32,
    y: &Bytes32,
    proof: &Bytes48,
    setup: &TrustedSetup,
) -> (r: bool)
    ensures
        r == (kzg_verify_outcome(
            commitment@,
            z@,
            y@,
            proof@,
            setup.g1_points(),
            setup.g2_points(),
        ) == Some(true)),
{
    match ckzg_verify_kzg_proof(commitment, z, y, proof, setup) {
        Ok(b) => b,
        Err(_) => false,
    }
}

/// Committing is deterministic: under one setup, two successful commitments
/// to blobs with the same bytes are the same bytes.
pub proof fn lemma_commit_deterministic(b1: Blob, b2: Blob, setup: TrustedSetup, c1: Bytes48, c2: Bytes48)
    requires
        b1@ == b2@,
        c1@ == kzg_commitment_of(b1@, setup.g1_points(), setup.g2_points()),
        c2@ == kzg_commitment_of(b2@, setup.g1_points(), setup.g2_points()),
    ensures
        c1@ == c2@,
{
}

/// A blob proof depends on nothing but the blob, the commitment and the
/// setup: the same blob proved against the same commitment gives the same
/// proof.
pub proof fn lemma_blob_proof_determined(
    b1: Blob,
    b2: Blob,
    commitment: Bytes48,
    setup: TrustedSetup,
    first: Bytes48,
    second: Bytes48,
)
    requires
        b1@ == b2@,
        first@ == kzg_blob_proof_of(b1@, commitment@, setup.g1_points(), setup.g2_points()),
        second@ == kzg_blob_proof_of(b2@, commitment@, setup.g1_points(), setup.g2_points()),
    ensures
        first@ == second@,
{
}

} // verus!
