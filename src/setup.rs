//! The trusted setup (structured reference string) that every commitment,
//! opening and verification runs against.
use vstd::prelude::*;

verus! {

/// Number of points in the first group.
pub const NUM_G1_POINTS: usize = 4096;

/// Number of points in the second group.
pub const NUM_G2_POINTS: usize = 65;

/// Width in bytes of a compressed point of the first group.
pub const BYTES_PER_G1_POINT: usize = 48;

/// Width in bytes of a compressed point of the second group.
pub const BYTES_PER_G2_POINT: usize = 96;

#[verifier::external_type_specification]
#[verifier::external_body]
pub struct ExKzgSettings(c_kzg::KzgSettings);

#[verifier::external_type_specification]
#[verifier::external_body]
pub struct ExKzgError(c_kzg::Error);

/// Why a trusted setup could not be loaded.
#[derive(Debug, Clone, Copy, PartialEq, Eq, Structural)]
pub enum SetupError {
    /// The points do not form a usable setup: a point does not decode, or
    /// the setup is not in Lagrange form.
    Malformed,
    /// The number of points in either group is not the expected one.
    SizeMismatch,
}

/// The point sections have the sizes a setup needs.
pub open spec fn setup_sizes_ok(g1: Seq<u8>, g2: Seq<u8>) -> bool {
    &&& g1.len() == NUM_G1_POINTS * BYTES_PER_G1_POINT
    &&& g2.len() == NUM_G2_POINTS * BYTES_PER_G2_POINT
}

/// Whether the curve library accepts these points as a setup: every point
/// decodes, and the setup is in Lagrange form rather than monomial form.
pub uninterp spec fn kzg_setup_accepts(g1: Seq<u8>, g2: Seq<u8>) -> bool;

/// The point sections that the curve library decodes from the text of a
/// setup file, where the text is well formed: a line with each count, then
/// one hexadecimal line per point.
pub uninterp spec fn kzg_setup_text_points(text: Seq<char>) -> Option<(Seq<u8>, Seq<u8>)>;

/// Relies on `c_kzg::KzgSettings::load_trusted_setup`, which builds the
/// settings from the compressed points of both groups. With the counts right
/// it fails only where it refuses the points (allocation failure aside, which
/// aborts the process anywhere else in Rust).
#[verifier::external_body]
fn ckzg_load_trusted_setup(g1: &[u8], g2: &[u8]) -> (r: Result<c_kzg::KzgSettings, c_kzg::Error>)
    requires
        setup_sizes_ok(g1@, g2@),
    ensures
        r is Ok <==> kzg_setup_accepts(g1@, g2@),
{
    let (g1_points, _) = g1.as_chunks::<48>();
    let (g2_points, _) = g2.as_chunks::<96>();
    c_kzg::KzgSettings::load_trusted_setup(g1_points, g2_points)
}

/// A loaded trusted setup. It is immutable once loaded and is shared by
/// reference with every operation that needs it.
pub struct TrustedSetup {
    pub(crate) settings: c_kzg::KzgSettings,
    g1: Ghost<Seq<u8>>,
    g2: Ghost<Seq<u8>>,
}

impl TrustedSetup {
    #[verifier::type_invariant]
    closed spec fn inv(&self) -> bool {
        setup_sizes_ok(self.g1@, self.g2@)
    }

    /// The compressed first-group points this setup was loaded from.
    pub closed spec fn g1_points(&self) -> Seq<u8> {
        self.g1@
    }

    /// The compressed second-group points this setup was loaded from.
    pub closed spec fn g2_points(&self) -> Seq<u8> {
        self.g2@
    }

    /// Loads a setup from the concatenated compressed points of the first
    /// group (`NUM_G1_POINTS` of them) and of the second group
    /// (`NUM_G2_POINTS`).
    ///
    /// Wrong section sizes give `SizeMismatch` before any point is read;
    /// points the curve library refuses give `Malformed`.
    pub fn load(g1: &[u8], g2: &[u8]) -> (r: Result<TrustedSetup, SetupError>)
        ensures
            (r == Err::<TrustedSetup, SetupError>(SetupError::SizeMismatch)) <==> !setup_sizes_ok(
                g1@,
                g2@,
            ),
            setup_sizes_ok(g1@, g2@) ==> (r is Ok <==> kzg_setup_accepts(g1@, g2@)),
            r is Err ==> r == Err::<TrustedSetup, SetupError>(SetupError::SizeMismatch) || r
                == Err::<TrustedSetup, SetupError>(SetupError::Malformed),
            r matches Ok(s) ==> s.g1_points() == g1@ && s.g2_points() == g2@,
    {
        if g1.len() != NUM_G1_POINTS * BYTES_PER_G1_POINT || g2.len() != NUM_G2_POINTS
            * BYTES_PER_G2_POINT {
            return Err(SetupError::SizeMismatch);
        }
        match ckzg_load_trusted_setup(g1, g2) {
            Ok(settings) => Ok(TrustedSetup { settings, g1: Ghost(g1@), g2: Ghost(g2@) }),
            Err(_) => Err(SetupError::Malformed),
        }
    }
}

/// Relies on `c_kzg::KzgSettings::parse_kzg_trusted_setup`, which reads the
/// two counts, checks them against the expected ones, decodes one hexadecimal
/// point per line with no line left over, and loads the decoded points with
/// `load_trusted_setup`.
#[verifier::external_body]
fn ckzg_parse_trusted_setup(text: &str) -> (r: Result<c_kzg::KzgSettings, c_kzg::Error>)
    ensures
        r is Ok <==> (kzg_setup_text_points(text@) matches Some(p) && setup_sizes_ok(p.0, p.1)
            && kzg_setup_accepts(p.0, p.1)),
{
    c_kzg::KzgSettings::parse_kzg_trusted_setup(text)
}

impl TrustedSetup {
    /// Loads a setup from the text of a setup file: a line with the number of
    /// first-group points, a line with the number of second-group points,
    /// then one line per point in hexadecimal, first group first.
    ///
    /// Text that does not have this shape with the expected counts, or whose
    /// points the curve library refuses, is `Malformed`.
    pub fn load_text(text: &str) -> (r: Result<TrustedSetup, SetupError>)
        ensures
            r is Ok <==> (kzg_setup_text_points(text@) matches Some(p) && setup_sizes_ok(p.0, p.1)
                && kzg_setup_accepts(p.0, p.1)),
            r is Err ==> r == Err::<TrustedSetup, SetupError>(SetupError::Malformed),
            r matches Ok(s) ==> kzg_setup_text_points(text@) == Some((s.g1_points(), s.g2_points())),
    {
        match ckzg_parse_trusted_setup(text) {
            Ok(settings) => {
                let ghost p = kzg_setup_text_points(text@)->Some_0;
                Ok(TrustedSetup { settings, g1: Ghost(p.0), g2: Ghost(p.1) })
            },
            Err(_) => Err(SetupError::Malformed),
        }
    }
}

} // verus!
