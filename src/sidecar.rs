//! Commitments and blob proofs for a batch of blobs.
use vstd::prelude::*;
use crate::codec::{Blob, FormatError, bytes_to_blob, is_canonical, valid_blob, BYTES_PER_BLOB};
use crate::kzg::{
    Bytes32,
    Bytes48,
    ProofError,
    commit,
    kzg_blob_proof_of,
    kzg_commitment_decodes,
    kzg_commitment_of,
    open_at_point,
    open_blob,
};
use crate::setup::TrustedSetup;

verus! {

/// Index-aligned blobs, their commitments and their blob proofs.
pub struct Sidecar {
    pub blobs: Vec<Blob>,
    pub commitments: Vec<Bytes48>,
    pub proofs: Vec<Bytes48>,
}

/// The first failure met while assembling a sidecar.
#[derive(Debug, Clone, Copy, PartialEq, Eq, Structural)]
pub enum SidecarError {
    /// The buffer at `index` is not a valid blob.
    InvalidBlob { index: usize, error: FormatError },
    /// A proof for the blob at `index` could not be computed.
    Proof { index: usize, cause: ProofError },
}

/// Entry `i` of a sidecar is the `i`-th buffer, its commitment, and its blob
/// proof under that commitment.
pub open spec fn sidecar_entry_ok(sc: Sidecar, data: Seq<Vec<u8>>, i: int, setup: TrustedSetup) -> bool {
    &&& valid_blob(data[i]@)
    &&& sc.blobs@[i]@ == data[i]@
    &&& sc.commitments@[i]@ == kzg_commitment_of(data[i]@, setup.g1_points(), setup.g2_points())
    &&& sc.proofs@[i]@ == kzg_blob_proof_of(
        data[i]@,
        sc.commitments@[i]@,
        setup.g1_points(),
        setup.g2_points(),
    )
}

/// The buffer at `i` is a valid blob whose commitment decodes as a point.
pub open spec fn buffer_provable(data: Seq<Vec<u8>>, i: int, setup: TrustedSetup) -> bool {
    &&& valid_blob(data[i]@)
    &&& kzg_commitment_decodes(kzg_commitment_of(data[i]@, setup.g1_points(), setup.g2_points()))
}

/// Builds the sidecar of a batch of buffers, in order. Each buffer is
/// validated as a blob, opened at `z` (so `z` must be a canonical field
/// element), committed to and proved against its commitment. The first
/// failure aborts the whole batch: no partial sidecar is returned.
pub fn assemble(state_diff: &[Vec<u8>], z: &Bytes32, setup: &TrustedSetup) -> (r: Result<Sidecar, SidecarError>)
    ensures
        r matches Ok(sc) ==> {
            &&& sc.blobs@.len() == state_diff@.len()
            &&& sc.commitments@.len() == state_diff@.len()
            &&& sc.proofs@.len() == state_diff@.len()
            &&& forall|i: int|
                0 <= i < state_diff@.len() ==> #[trigger] sidecar_entry_ok(sc, state_diff@, i, *setup)
        },
        (exists|k: int| 0 <= k < state_diff@.len() && !valid_blob(#[trigger] state_diff@[k]@))
            ==> r is Err,
        r matches Err(SidecarError::InvalidBlob { index, error }) ==> {
            &&& index < state_diff@.len()
            &&& !valid_blob(state_diff@[index as int]@)
            &&& (error == FormatError::WrongLength) == (state_diff@[index as int]@.len() != BYTES_PER_BLOB)
            &&& forall|j: int| 0 <= j < index ==> valid_blob(#[trigger] state_diff@[j]@)
        },
        r matches Err(SidecarError::Proof { index, cause }) ==> {
            &&& index < state_diff@.len()
            &&& forall|j: int| 0 <= j <= index ==> valid_blob(#[trigger] state_diff@[j]@)
            &&& (!is_canonical(z@) || !kzg_commitment_decodes(
                kzg_commitment_of(state_diff@[index as int]@, setup.g1_points(), setup.g2_points()),
            ))
        },
        r matches Err(SidecarError::InvalidBlob { index, error }) ==> forall|j: int|
            0 <= j < index ==> #[trigger] buffer_provable(state_diff@, j, *setup) && is_canonical(z@),
        (is_canonical(z@) && forall|i: int|
            0 <= i < state_diff@.len() ==> #[trigger] buffer_provable(state_diff@, i, *setup)) ==> r is Ok,
{
    let mut blobs: Vec<Blob> = Vec::new();
    let mut commitments: Vec<Bytes48> = Vec::new();
    let mut proofs: Vec<Bytes48> = Vec::new();
    let mut i: usize = 0;
    while i < state_diff.len()
        invariant
            i <= state_diff@.len(),
            blobs@.len() == i,
            commitments@.len() == i,
            proofs@.len() == i,
            i > 0 ==> is_canonical(z@),
            forall|j: int| 0 <= j < i ==> #[trigger] buffer_provable(state_diff@, j, *setup),
            forall|j: int|
                0 <= j < i ==> #[trigger] sidecar_entry_ok(
                    Sidecar { blobs, commitments, proofs },
                    state_diff@,
                    j,
                    *setup,
                ),
        decreases state_diff@.len() - i,
    {
        let blob = match bytes_to_blob(state_diff[i].as_slice()) {
            Ok(b) => b,
            Err(error) => {
                proof {
                    assert forall|j: int| 0 <= j < i implies valid_blob(#[trigger] state_diff@[j]@) by {
                        assert(sidecar_entry_ok(Sidecar { blobs, commitments, proofs }, state_diff@, j, *setup));
                    }
                }
                assert(!buffer_provable(state_diff@, i as int, *setup));
                return Err(SidecarError::InvalidBlob { index: i, error });
            },
        };
        proof {
            assert forall|j: int| 0 <= j <= i implies valid_blob(#[trigger] state_diff@[j]@) by {
                if j < i {
                    assert(sidecar_entry_ok(Sidecar { blobs, commitments, proofs }, state_diff@, j, *setup));
                }
            }
        }
        // The opening itself is not kept: it checks that `z` is a canonical point.
        if let Err(error) = open_at_point(&blob, z, setup) {
            return Err(SidecarError::Proof { index: i, cause: error });
        }
        let commitment = match commit(&blob, setup) {
            Ok(c) => c,
            Err(error) => {
                return Err(SidecarError::Proof { index: i, cause: error });
            },
        };
        let proof = match open_blob(&blob, &commitment, setup) {
            Ok(p) => p,
            Err(error) => {
                assert(!buffer_provable(state_diff@, i as int, *setup));
                return Err(SidecarError::Proof { index: i, cause: error });
            },
        };
        let ghost old_sc = Sidecar { blobs, commitments, proofs };
        blobs.push(blob);
        commitments.push(commitment);
        proofs.push(proof);
        proof {
            let sc = Sidecar { blobs, commitments, proofs };
            assert forall|j: int| 0 <= j < i + 1 implies #[trigger] sidecar_entry_ok(sc, state_diff@, j, *setup) by {
                if j < i {
                    assert(sidecar_entry_ok(old_sc, state_diff@, j, *setup));
                }
            }
        }
        i = i + 1;
    }
    proof {
        assert forall|k: int| 0 <= k < state_diff@.len() implies valid_blob(#[trigger] state_diff@[k]@) by {
            assert(sidecar_entry_ok(Sidecar { blobs, commitments, proofs }, state_diff@, k, *setup));
        }
    }
    Ok(Sidecar { blobs, commitments, proofs })
}

} // verus!
