//! Conversion of raw byte buffers into blobs of canonical field elements.
use vstd::prelude::*;
use vstd::string::StringSliceAdditionalSpecFns;

verus! {

/// Width in bytes of one serialized field element.
pub const BYTES_PER_FIELD_ELEMENT: usize = 32;

/// Number of field elements in a blob.
pub const FIELD_ELEMENTS_PER_BLOB: usize = 4096;

/// Length in bytes of a blob.
pub const BYTES_PER_BLOB: usize = 131072;

/// Length in bytes of a compressed commitment or proof.
pub const BYTES_PER_COMMITMENT: usize = 48;

/// The modulus of the BLS12-381 scalar field, as 32 big-endian bytes.
pub open spec fn modulus_bytes() -> Seq<u8> {
    seq![
        0x73u8, 0xed, 0xa7, 0x53, 0x29, 0x9d, 0x7d, 0x48,
        0x33, 0x39, 0xd8, 0x08, 0x09, 0xa1, 0xd8, 0x05,
        0x53, 0xbd, 0xa4, 0x02, 0xff, 0xfe, 0x5b, 0xfe,
        0xff, 0xff, 0xff, 0xff, 0x00, 0x00, 0x00, 0x01,
    ]
}

/// `a` is lexicographically smaller than `b`: at the first position where
/// they differ, `a` holds the smaller byte. For two big-endian numbers of the
/// same width this is the numeric order.
pub open spec fn bytes_lt(a: Seq<u8>, b: Seq<u8>) -> bool {
    exists|i: int|
        0 <= i < a.len() && i < b.len() && #[trigger] a[i] < b[i] && (forall|j: int|
            0 <= j < i ==> a[j] == b[j])
}

/// A 32-byte big-endian encoding of a value strictly below the field modulus.
pub open spec fn is_canonical(e: Seq<u8>) -> bool {
    e.len() == BYTES_PER_FIELD_ELEMENT && bytes_lt(e, modulus_bytes())
}

/// The `i`-th serialized field element of a byte buffer.
pub open spec fn element(s: Seq<u8>, i: int) -> Seq<u8> {
    s.subrange(i * 32, i * 32 + 32)
}

/// A well-formed blob: the exact length, and every element canonical.
pub open spec fn valid_blob(s: Seq<u8>) -> bool {
    &&& s.len() == BYTES_PER_BLOB
    &&& forall|i: int| 0 <= i < FIELD_ELEMENTS_PER_BLOB ==> is_canonical(#[trigger] element(s, i))
}

/// Why a byte buffer is not a blob.
#[derive(Debug, Clone, Copy, PartialEq, Eq, Structural)]
pub enum FormatError {
    /// The buffer does not hold exactly `BYTES_PER_BLOB` bytes.
    WrongLength,
    /// The element at this index is not below the field modulus.
    NonCanonicalElement(usize),
}

/// A validated blob: `BYTES_PER_BLOB` bytes of canonical field elements.
pub struct Blob {
    bytes: Vec<u8>,
}

impl View for Blob {
    type V = Seq<u8>;

    closed spec fn view(&self) -> Seq<u8> {
        self.bytes@
    }
}

impl Blob {
    #[verifier::type_invariant]
    closed spec fn inv(&self) -> bool {
        valid_blob(self.bytes@)
    }

    /// The blob's bytes.
    pub fn as_bytes(&self) -> (r: &[u8])
        ensures
            r@ == self@,
            valid_blob(r@),
    {
        proof {
            use_type_invariant(self);
        }
        self.bytes.as_slice()
    }
}

impl Clone for Blob {
    fn clone(&self) -> (r: Blob)
        ensures
            r@ == self@,
    {
        proof {
            use_type_invariant(self);
        }
        Blob { bytes: self.bytes.clone() }
    }
}

/// Whether the 32 bytes of `buf` from `start` on encode a value below the
/// field modulus.
pub fn is_canonical_at(buf: &[u8], start: usize) -> (r: bool)
    requires
        start + BYTES_PER_FIELD_ELEMENT <= buf@.len(),
    ensures
        r == is_canonical(buf@.subrange(start as int, start + 32)),
{
    let modulus: [u8; 32] = [
        0x73u8, 0xed, 0xa7, 0x53, 0x29, 0x9d, 0x7d, 0x48,
        0x33, 0x39, 0xd8, 0x08, 0x09, 0xa1, 0xd8, 0x05,
        0x53, 0xbd, 0xa4, 0x02, 0xff, 0xfe, 0x5b, 0xfe,
        0xff, 0xff, 0xff, 0xff, 0x00, 0x00, 0x00, 0x01,
    ];
    assert(modulus@ =~= modulus_bytes());
    let ghost e = buf@.subrange(start as int, start + 32);
    let ghost m = modulus_bytes();
    let n = buf.len();
    let mut k: usize = 0;
    while k < 32
        invariant
            k <= 32,
            n == buf@.len(),
            start + 32 <= buf@.len(),
            e == buf@.subrange(start as int, start + 32),
            m == modulus_bytes(),
            modulus@ == m,
            forall|j: int| 0 <= j < k ==> e[j] == m[j],
        decreases 32 - k,
    {
        let a = buf[start + k];
        let b = modulus[k];
        if a < b {
            assert(e[k as int] < m[k as int]);
            return true;
        }
        if a > b {
            assert(!bytes_lt(e, m)) by {
                if bytes_lt(e, m) {
                    let i = choose|i: int|
                        0 <= i < e.len() && i < m.len() && #[trigger] e[i] < m[i] && (forall|j: int|
                            0 <= j < i ==> e[j] == m[j]);
                    if i > k {
                        assert(e[k as int] == m[k as int]);
                    }
                }
            }
            return false;
        }
        k = k + 1;
    }
    false
}

/// Checks a byte buffer and turns it into a blob.
///
/// A buffer of the wrong length gives `WrongLength`; otherwise the first
/// element that is not below the field modulus gives `NonCanonicalElement`
/// with its index.
pub fn bytes_to_blob(buf: &[u8]) -> (r: Result<Blob, FormatError>)
    ensures
        (r == Err::<Blob, FormatError>(FormatError::WrongLength)) <==> buf@.len() != BYTES_PER_BLOB,
        r matches Err(FormatError::NonCanonicalElement(k)) ==> {
            &&& buf@.len() == BYTES_PER_BLOB
            &&& k < FIELD_ELEMENTS_PER_BLOB
            &&& !is_canonical(element(buf@, k as int))
            &&& forall|j: int| 0 <= j < k ==> is_canonical(#[trigger] element(buf@, j))
        },
        r is Ok <==> valid_blob(buf@),
        r matches Ok(b) ==> b@ == buf@,
{
    if buf.len() != BYTES_PER_BLOB {
        return Err(FormatError::WrongLength);
    }
    let mut i: usize = 0;
    while i < FIELD_ELEMENTS_PER_BLOB
        invariant
            i <= FIELD_ELEMENTS_PER_BLOB,
            buf@.len() == BYTES_PER_BLOB,
            forall|j: int| 0 <= j < i ==> is_canonical(#[trigger] element(buf@, j)),
        decreases FIELD_ELEMENTS_PER_BLOB - i,
    {
        let ok = is_canonical_at(buf, i * BYTES_PER_FIELD_ELEMENT);
        assert(ok == is_canonical(element(buf@, i as int)));
        if !ok {
            return Err(FormatError::NonCanonicalElement(i));
        }
        i = i + 1;
    }
    let bytes = vstd::slice::slice_to_vec(buf);
    Ok(Blob { bytes })
}

/// Truncates or zero-pads the bytes of `s` to a 32-byte array.
///
/// This is a convenience for picking an evaluation point by hand. It gives no
/// collision resistance: strings that share their first 32 bytes, or that
/// differ only by trailing zero bytes, give the same array. Nor is the result
/// checked to be a canonical field element.
pub fn string_to_fixed_array(s: &str) -> (r: Result<[u8; 32], String>)
    ensures
        r matches Ok(a) && a@ == fixed_width(s.spec_bytes(), 32),
{
    let bytes = s.as_bytes();
    let mut array = [0u8; 32];
    let n = if bytes.len() > 32 { 32 } else { bytes.len() };
    let mut i: usize = 0;
    while i < n
        invariant
            n <= 32,
            n <= bytes@.len(),
            n == if bytes@.len() > 32 { 32 } else { bytes@.len() },
            i <= n,
            forall|j: int| 0 <= j < i ==> array@[j] == bytes@[j],
            forall|j: int| n <= j < 32 ==> array@[j] == 0,
        decreases n - i,
    {
        array[i] = bytes[i];
        i = i + 1;
    }
    assert(array@ =~= fixed_width(bytes@, 32));
    Ok(array)
}

/// The first `width` bytes of `b`, followed by zeros where `b` is shorter.
pub open spec fn fixed_width(b: Seq<u8>, width: nat) -> Seq<u8> {
    Seq::new(width, |i: int| if i < b.len() { b[i] } else { 0u8 })
}

/// An ASCII hexadecimal digit, of either case.
pub open spec fn is_hex_digit(c: u8) -> bool {
    (0x30 <= c <= 0x39) || (0x41 <= c <= 0x46) || (0x61 <= c <= 0x66)
}

/// The value of a hexadecimal digit.
pub open spec fn hex_value(c: u8) -> u8 {
    if c <= 0x39 {
        (c - 0x30) as u8
    } else if c <= 0x46 {
        (c - 0x41 + 10) as u8
    } else {
        (c - 0x61 + 10) as u8
    }
}

/// The hexadecimal digits of `s`, in order, with everything else left out.
pub open spec fn hex_digits(s: Seq<u8>) -> Seq<u8> {
    s.filter(|c: u8| is_hex_digit(c))
}

/// The bytes that a sequence of hexadecimal digits denotes, two digits per
/// byte, high digit first. A lone last digit stands for a byte of its own.
pub open spec fn decode_hex_digits(d: Seq<u8>) -> Seq<u8> {
    Seq::new(
        ((d.len() + 1) / 2) as nat,
        |i: int|
            if 2 * i + 1 < d.len() {
                (hex_value(d[2 * i]) * 16 + hex_value(d[2 * i + 1])) as u8
            } else {
                hex_value(d[2 * i])
            },
    )
}

fn hex_digit_value(c: u8) -> (r: Option<u8>)
    ensures
        r == (if is_hex_digit(c) { Some(hex_value(c)) } else { None::<u8> }),
{
    if 0x30 <= c && c <= 0x39 {
        Some(c - 0x30)
    } else if 0x41 <= c && c <= 0x46 {
        Some(c - 0x41 + 10)
    } else if 0x61 <= c && c <= 0x66 {
        Some(c - 0x61 + 10)
    } else {
        None
    }
}

/// Decodes the hexadecimal digits of a string into bytes, skipping every
/// character that is not a hexadecimal digit (spaces, line breaks, a `0x`
/// prefix's `x`).
pub fn hex_string_to_u8_vec(hex_str: &str) -> (r: Result<Vec<u8>, String>)
    ensures
        r matches Ok(v) && v@ == decode_hex_digits(hex_digits(hex_str.spec_bytes())),
{
    let bytes = hex_str.as_bytes();
    let mut values: Vec<u8> = Vec::new();
    let ghost mut digits: Seq<u8> = Seq::empty();
    let mut i: usize = 0;
    while i < bytes.len()
        invariant
            i <= bytes@.len(),
            digits == hex_digits(bytes@.subrange(0, i as int)),
            values@.len() == digits.len(),
            forall|j: int| 0 <= j < digits.len() ==> is_hex_digit(#[trigger] digits[j]),
            forall|j: int| 0 <= j < digits.len() ==> values@[j] == hex_value(#[trigger] digits[j]),
        decreases bytes@.len() - i,
    {
        let c = bytes[i];
        proof {
            let next = bytes@.subrange(0, i + 1);
            assert(next.drop_last() =~= bytes@.subrange(0, i as int));
            assert(next.last() == c);
            reveal(Seq::filter);
            assert(hex_digits(next) == if is_hex_digit(c) {
                hex_digits(bytes@.subrange(0, i as int)).push(c)
            } else {
                hex_digits(bytes@.subrange(0, i as int))
            });
        }
        match hex_digit_value(c) {
            Some(v) => {
                values.push(v);
                proof {
                    digits = digits.push(c);
                }
            },
            None => {},
        }
        i = i + 1;
    }
    assert(bytes@.subrange(0, bytes@.len() as int) =~= bytes@);
    let n = values.len();
    let pairs: usize = n / 2 + n % 2;
    let mut result: Vec<u8> = Vec::new();
    let mut p: usize = 0;
    while p < pairs
        invariant
            n == values@.len() == digits.len(),
            pairs == n / 2 + n % 2,
            forall|j: int| 0 <= j < digits.len() ==> values@[j] == hex_value(#[trigger] digits[j]),
            forall|j: int| 0 <= j < digits.len() ==> is_hex_digit(#[trigger] digits[j]),
            p <= pairs,
            result@.len() == p,
            forall|j: int|
                0 <= j < result@.len() ==> result@[j] == #[trigger] decode_hex_digits(digits)[j],
        decreases pairs - p,
    {
        let k = 2 * p;
        let hi = values[k];
        assert(hi < 16) by {
            assert(is_hex_digit(digits[k as int]));
        }
        if k + 1 < n {
            let lo = values[k + 1];
            assert(lo < 16) by {
                assert(is_hex_digit(digits[k + 1]));
            }
            result.push(hi * 16 + lo);
        } else {
            result.push(hi);
        }
        p = p + 1;
    }
    assert(result@ =~= decode_hex_digits(digits));
    Ok(result)
}

/// `256` to the power `n`.
pub open spec fn pow256(n: nat) -> nat
    decreases n,
{
    if n == 0 {
        1
    } else {
        256 * pow256((n - 1) as nat)
    }
}

/// The number that a big-endian byte string denotes.
pub open spec fn be_value(s: Seq<u8>) -> nat
    decreases s.len(),
{
    if s.len() == 0 {
        0
    } else {
        s[0] as nat * pow256((s.len() - 1) as nat) + be_value(s.subrange(1, s.len() as int))
    }
}

proof fn lemma_be_value_bound(s: Seq<u8>)
    ensures
        be_value(s) < pow256(s.len()),
    decreases s.len(),
{
    if s.len() > 0 {
        let p = pow256((s.len() - 1) as nat);
        let t = s.subrange(1, s.len() as int);
        lemma_be_value_bound(t);
        let x = s[0] as nat;
        assert(x * p + be_value(t) < 256 * p) by (nonlinear_arith)
            requires
                x <= 255,
                be_value(t) < p,
        ;
    }
}

proof fn lemma_bytes_lt_front(a: Seq<u8>, b: Seq<u8>)
    requires
        a.len() == b.len(),
        a.len() > 0,
    ensures
        bytes_lt(a, b) == (a[0] < b[0] || (a[0] == b[0] && bytes_lt(
            a.subrange(1, a.len() as int),
            b.subrange(1, b.len() as int),
        ))),
{
    let ta = a.subrange(1, a.len() as int);
    let tb = b.subrange(1, b.len() as int);
    if bytes_lt(a, b) {
        let i = choose|i: int|
            0 <= i < a.len() && i < b.len() && #[trigger] a[i] < b[i] && (forall|j: int|
                0 <= j < i ==> a[j] == b[j]);
        if i > 0 {
            assert(a[0] == b[0]);
            assert(ta[i - 1] < tb[i - 1]);
            assert forall|j: int| 0 <= j < i - 1 implies ta[j] == tb[j] by {
                assert(a[j + 1] == b[j + 1]);
            }
        }
    }
    if a[0] < b[0] {
        assert(bytes_lt(a, b)) by {
            assert(a[0] < b[0]);
        }
    } else if a[0] == b[0] && bytes_lt(ta, tb) {
        let i = choose|i: int|
            0 <= i < ta.len() && i < tb.len() && #[trigger] ta[i] < tb[i] && (forall|j: int|
                0 <= j < i ==> ta[j] == tb[j]);
        assert(a[i + 1] < b[i + 1]);
        assert forall|j: int| 0 <= j < i + 1 implies a[j] == b[j] by {
            if j > 0 {
                assert(ta[j - 1] == tb[j - 1]);
            }
        }
    }
}

/// For byte strings of one length, the byte-wise order is the order of the
/// big-endian numbers they denote.
pub proof fn lemma_bytes_lt_is_numeric(a: Seq<u8>, b: Seq<u8>)
    requires
        a.len() == b.len(),
    ensures
        bytes_lt(a, b) <==> be_value(a) < be_value(b),
    decreases a.len(),
{
    if a.len() == 0 {
        assert(!bytes_lt(a, b));
    } else {
        let n = a.len();
        let ta = a.subrange(1, n as int);
        let tb = b.subrange(1, n as int);
        let p = pow256((n - 1) as nat);
        lemma_bytes_lt_front(a, b);
        lemma_bytes_lt_is_numeric(ta, tb);
        lemma_be_value_bound(ta);
        lemma_be_value_bound(tb);
        let x = a[0] as nat;
        let y = b[0] as nat;
        let va = be_value(ta);
        let vb = be_value(tb);
        assert(be_value(a) == x * p + va);
        assert(be_value(b) == y * p + vb);
        if x < y {
            assert(x * p + va < y * p + vb) by (nonlinear_arith)
                requires
                    x < y,
                    va < p,
            ;
        } else if x > y {
            assert(y * p + vb < x * p + va) by (nonlinear_arith)
                requires
                    y < x,
                    vb < p,
            ;
        }
    }
}

/// A serialized element is canonical exactly when the big-endian number it
/// denotes is below the field modulus.
pub proof fn lemma_canonical_is_below_modulus(e: Seq<u8>)
    requires
        e.len() == BYTES_PER_FIELD_ELEMENT,
    ensures
        is_canonical(e) <==> be_value(e) < be_value(modulus_bytes()),
{
    lemma_bytes_lt_is_numeric(e, modulus_bytes());
}

} // verus!
