use blob_kzg::codec::{bytes_to_blob, Blob, FormatError, BYTES_PER_BLOB};
use blob_kzg::kzg::{commit, open_at_point, open_blob, verify, ProofError};
use blob_kzg::setup::{SetupError, TrustedSetup, NUM_G1_POINTS, NUM_G2_POINTS};
use blob_kzg::sidecar::{assemble, SidecarError};

const G1_GENERATOR: &str = "97f1d3a73197d7942695638c4fa9ac0fc3688c4f9774b905a14e3a3f171bac586c55e83ff97a1aeffb3af00adb22c6bb";
const G2_GENERATOR: &str = "93e02b6052719f607dacd3a088274f65596bd0d09920b61ab5da61bbdc7f5049334cf11213945d57e5ac7d055d042b7e024aa2b2f08f0a91260805272dc51051c6e47ad4fa403b02b4510b647ae3d1770bac0326a805bbefd48056c8c121bdb8";

fn hex(s: &str) -> Vec<u8> {
    (0..s.len() / 2)
        .map(|i| u8::from_str_radix(&s[2 * i..2 * i + 2], 16).unwrap())
        .collect()
}

fn g1_infinity() -> Vec<u8> {
    let mut p = vec![0u8; 48];
    p[0] = 0xc0;
    p
}

fn g2_infinity() -> Vec<u8> {
    let mut p = vec![0u8; 96];
    p[0] = 0xc0;
    p
}

/// A setup in Lagrange form for the secret 1: the Lagrange basis at 1 is the
/// generator at the first root of unity (1) and zero elsewhere, and the
/// second group holds the generator and the generator times 1.
fn unit_secret_setup() -> TrustedSetup {
    let mut g1 = hex(G1_GENERATOR);
    for _ in 1..NUM_G1_POINTS {
        g1.extend(g1_infinity());
    }
    let mut g2 = hex(G2_GENERATOR);
    g2.extend(hex(G2_GENERATOR));
    for _ in 2..NUM_G2_POINTS {
        g2.extend(g2_infinity());
    }
    TrustedSetup::load(&g1, &g2).unwrap()
}

fn element(value: u64) -> [u8; 32] {
    let mut e = [0u8; 32];
    e[24..].copy_from_slice(&value.to_be_bytes());
    e
}

fn blob_from(f: impl Fn(usize) -> u64) -> Blob {
    let mut buf = vec![0u8; BYTES_PER_BLOB];
    for i in 0..4096 {
        buf[i * 32..i * 32 + 32].copy_from_slice(&element(f(i)));
    }
    bytes_to_blob(&buf).unwrap()
}

fn as_48(v: Vec<u8>) -> [u8; 48] {
    v.try_into().unwrap()
}

#[test]
fn setup_with_wrong_sizes_is_refused() {
    let g1 = vec![0u8; 48 * NUM_G1_POINTS];
    let g2 = vec![0u8; 96 * NUM_G2_POINTS];
    assert_eq!(TrustedSetup::load(&g1[48..], &g2).err(), Some(SetupError::SizeMismatch));
    assert_eq!(TrustedSetup::load(&g1, &g2[..96]).err(), Some(SetupError::SizeMismatch));
    assert_eq!(TrustedSetup::load(&[], &[]).err(), Some(SetupError::SizeMismatch));
}

#[test]
fn setup_with_undecodable_points_is_malformed() {
    let g1 = vec![0u8; 48 * NUM_G1_POINTS];
    let g2 = vec![0u8; 96 * NUM_G2_POINTS];
    assert_eq!(TrustedSetup::load(&g1, &g2).err(), Some(SetupError::Malformed));
}

#[test]
fn setup_in_monomial_form_is_malformed() {
    let mut g1 = Vec::new();
    for _ in 0..NUM_G1_POINTS {
        g1.extend(g1_infinity());
    }
    let mut g2 = Vec::new();
    for _ in 0..NUM_G2_POINTS {
        g2.extend(g2_infinity());
    }
    assert_eq!(TrustedSetup::load(&g1, &g2).err(), Some(SetupError::Malformed));
}

#[test]
fn commitment_is_deterministic() {
    let setup = unit_secret_setup();
    let blob = blob_from(|i| (i as u64) * 7 + 3);
    let c1 = commit(&blob, &setup).unwrap();
    let c2 = commit(&blob.clone(), &setup).unwrap();
    assert_eq!(c1, c2);
}

#[test]
fn commitment_values_under_unit_secret() {
    let setup = unit_secret_setup();
    assert_eq!(commit(&blob_from(|_| 0), &setup).unwrap(), as_48(g1_infinity()));
    assert_eq!(commit(&blob_from(|i| if i == 0 { 1 } else { 0 }), &setup).unwrap(), as_48(hex(G1_GENERATOR)));
    assert_eq!(commit(&blob_from(|_| 1), &setup).unwrap(), as_48(hex(G1_GENERATOR)));
}

#[test]
fn known_vector_for_a_constant_blob() {
    let setup = unit_secret_setup();
    let blob = blob_from(|_| 1);
    let commitment = commit(&blob, &setup).unwrap();
    let z = element(12345);
    let (proof, y) = open_at_point(&blob, &z, &setup).unwrap();
    assert_eq!(commitment, as_48(hex(G1_GENERATOR)));
    assert_eq!(y, element(1));
    assert_eq!(proof, as_48(g1_infinity()));
    assert!(verify(&commitment, &z, &y, &proof, &setup));
}

#[test]
fn opening_round_trips_through_verify() {
    let setup = unit_secret_setup();
    let blob = blob_from(|i| (i as u64) * (i as u64) + 11);
    let commitment = commit(&blob, &setup).unwrap();
    for z in [element(0), element(2), element(987654321), [0x11u8; 32]] {
        let (proof, y) = open_at_point(&blob, &z, &setup).unwrap();
        assert!(verify(&commitment, &z, &y, &proof, &setup));
    }
}

#[test]
fn tampering_makes_verification_fail() {
    let setup = unit_secret_setup();
    let blob = blob_from(|i| (i as u64) * 31 + 5);
    let commitment = commit(&blob, &setup).unwrap();
    let z = element(424242);
    let (proof, y) = open_at_point(&blob, &z, &setup).unwrap();
    assert!(verify(&commitment, &z, &y, &proof, &setup));
    for i in [0usize, 1, 20, 47] {
        let mut p = proof;
        p[i] ^= 0x01;
        assert!(!verify(&commitment, &z, &y, &p, &setup));
        let mut c = commitment;
        c[i] ^= 0x01;
        assert!(!verify(&c, &z, &y, &proof, &setup));
    }
    for i in [0usize, 15, 31] {
        let mut v = y;
        v[i] ^= 0x01;
        assert!(!verify(&commitment, &z, &v, &proof, &setup));
    }
}

#[test]
fn undecodable_verification_inputs_give_false() {
    let setup = unit_secret_setup();
    let z = element(1);
    let y = element(0);
    assert!(!verify(&[0xffu8; 48], &z, &y, &[0xffu8; 48], &setup));
    assert!(!verify(&as_48(g1_infinity()), &z, &[0xffu8; 32], &as_48(g1_infinity()), &setup));
}

#[test]
fn blob_proof_depends_on_the_commitment() {
    let setup = unit_secret_setup();
    let blob = blob_from(|i| (i as u64) + 3);
    let commitment = commit(&blob, &setup).unwrap();
    let proof_a = open_blob(&blob, &commitment, &setup).unwrap();
    let proof_b = open_blob(&blob, &commitment, &setup).unwrap();
    assert_eq!(proof_a, proof_b);
    let other = as_48(hex(G1_GENERATOR));
    assert_ne!(commitment, other);
    let proof_other = open_blob(&blob, &other, &setup).unwrap();
    assert_ne!(proof_a, proof_other);
}

#[test]
fn blob_proof_with_undecodable_commitment_fails() {
    let setup = unit_secret_setup();
    let blob = blob_from(|i| i as u64);
    assert_eq!(open_blob(&blob, &[0xffu8; 48], &setup).err(), Some(ProofError::EvaluationError));
}

#[test]
fn sidecar_is_index_aligned() {
    let setup = unit_secret_setup();
    let a = blob_from(|i| i as u64);
    let b = blob_from(|_| 1);
    let data = vec![a.as_bytes().to_vec(), b.as_bytes().to_vec()];
    let sc = assemble(&data, &element(99), &setup).unwrap();
    assert_eq!(sc.blobs.len(), 2);
    assert_eq!(sc.commitments.len(), 2);
    assert_eq!(sc.proofs.len(), 2);
    assert_eq!(sc.blobs[0].as_bytes(), a.as_bytes());
    assert_eq!(sc.blobs[1].as_bytes(), b.as_bytes());
    assert_eq!(sc.commitments[0], commit(&a, &setup).unwrap());
    assert_eq!(sc.commitments[1], as_48(hex(G1_GENERATOR)));
    assert_eq!(sc.proofs[0], open_blob(&a, &sc.commitments[0], &setup).unwrap());
    assert_eq!(sc.proofs[1], open_blob(&b, &sc.commitments[1], &setup).unwrap());
}

#[test]
fn empty_batch_gives_empty_sidecar() {
    let setup = unit_secret_setup();
    let sc = assemble(&[], &element(1), &setup).unwrap();
    assert!(sc.blobs.is_empty() && sc.commitments.is_empty() && sc.proofs.is_empty());
}

#[test]
fn sidecar_fails_fast_on_an_invalid_blob() {
    let setup = unit_secret_setup();
    let good = blob_from(|i| i as u64).as_bytes().to_vec();
    let mut bad = good.clone();
    bad[64..96].copy_from_slice(&[0xff; 32]);
    let data = vec![good.clone(), good.clone(), bad, good.clone()];
    assert_eq!(
        assemble(&data, &element(5), &setup).err(),
        Some(SidecarError::InvalidBlob { index: 2, error: FormatError::NonCanonicalElement(2) })
    );
    let short = vec![good.clone(), vec![0u8; 10]];
    assert_eq!(
        assemble(&short, &element(5), &setup).err(),
        Some(SidecarError::InvalidBlob { index: 1, error: FormatError::WrongLength })
    );
}

#[test]
fn sidecar_fails_on_a_non_canonical_point() {
    let setup = unit_secret_setup();
    let data = vec![blob_from(|_| 0).as_bytes().to_vec()];
    assert_eq!(
        assemble(&data, &[0xff; 32], &setup).err(),
        Some(SidecarError::Proof { index: 0, cause: ProofError::EvaluationError })
    );
}

fn setup_text_lines() -> Vec<String> {
    let mut lines = vec!["4096".to_string(), "65".to_string()];
    lines.push(G1_GENERATOR.to_string());
    let inf1 = format!("c0{}", "0".repeat(94));
    let inf2 = format!("c0{}", "0".repeat(190));
    for _ in 1..NUM_G1_POINTS {
        lines.push(inf1.clone());
    }
    lines.push(G2_GENERATOR.to_string());
    lines.push(G2_GENERATOR.to_uppercase());
    for _ in 2..NUM_G2_POINTS {
        lines.push(inf2.clone());
    }
    lines
}

fn text(lines: &[String]) -> String {
    let mut t = lines.join("\n");
    t.push('\n');
    t
}

#[test]
fn setup_text_loads_like_points() {
    let from_text = TrustedSetup::load_text(&text(&setup_text_lines())).unwrap();
    let from_points = unit_secret_setup();
    let blob = blob_from(|i| (i as u64) + 2);
    assert_eq!(commit(&blob, &from_text).unwrap(), commit(&blob, &from_points).unwrap());
    let mut lines = setup_text_lines();
    lines[0] = "04096".to_string();
    assert!(TrustedSetup::load_text(&text(&lines)).is_ok());
}

#[test]
fn setup_text_with_bad_header_is_malformed() {
    let mut lines = setup_text_lines();
    lines[0] = "40x6".to_string();
    assert_eq!(TrustedSetup::load_text(&text(&lines)).err(), Some(SetupError::Malformed));
    assert_eq!(TrustedSetup::load_text("4096\n").err(), Some(SetupError::Malformed));
    assert_eq!(TrustedSetup::load_text("").err(), Some(SetupError::Malformed));
}

#[test]
fn setup_text_with_wrong_counts_is_malformed() {
    let mut lines = setup_text_lines();
    lines[1] = "64".to_string();
    assert_eq!(TrustedSetup::load_text(&text(&lines)).err(), Some(SetupError::Malformed));
    let mut lines = setup_text_lines();
    lines.pop();
    assert_eq!(TrustedSetup::load_text(&text(&lines)).err(), Some(SetupError::Malformed));
    let mut lines = setup_text_lines();
    lines.push(String::from("00"));
    assert_eq!(TrustedSetup::load_text(&text(&lines)).err(), Some(SetupError::Malformed));
}

#[test]
fn setup_text_with_bad_points_is_malformed() {
    let mut lines = setup_text_lines();
    lines[10] = "c0".to_string();
    assert_eq!(TrustedSetup::load_text(&text(&lines)).err(), Some(SetupError::Malformed));
    let mut lines = setup_text_lines();
    lines[2].replace_range(5..6, "g");
    assert_eq!(TrustedSetup::load_text(&text(&lines)).err(), Some(SetupError::Malformed));
    let mut lines = setup_text_lines();
    lines[2] = format!("c0{}", "0".repeat(94));
    assert_eq!(TrustedSetup::load_text(&text(&lines)).err(), Some(SetupError::Malformed));
}

#[test]
fn point_opening_fails_only_on_a_non_canonical_point() {
    let setup = unit_secret_setup();
    let blob = blob_from(|i| i as u64);
    assert_eq!(open_at_point(&blob, &[0xff; 32], &setup).err(), Some(ProofError::EvaluationError));
    let mut modulus = [0u8; 32];
    modulus.copy_from_slice(&hex("73eda753299d7d483339d80809a1d80553bda402fffe5bfeffffffff00000001"));
    assert!(open_at_point(&blob, &modulus, &setup).is_err());
    modulus[31] = 0;
    assert!(open_at_point(&blob, &modulus, &setup).is_ok());
}

#[test]
fn sidecar_with_canonical_point_succeeds_on_valid_blobs() {
    let setup = unit_secret_setup();
    let data: Vec<Vec<u8>> = (0..3u64).map(|k| blob_from(|i| i as u64 + k).as_bytes().to_vec()).collect();
    let sc = assemble(&data, &[0x11; 32], &setup).unwrap();
    assert_eq!(sc.commitments.len(), 3);
    assert_eq!(assemble(&[], &[0xff; 32], &setup).unwrap().blobs.len(), 0);
}
