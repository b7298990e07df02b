//! App data that an app authenticates with a BLAKE3 hash, in the current
//! length-prefixed format and in the legacy format that older apps send.

use vstd::bytes::spec_u32_to_le_bytes;
use vstd::bytes::u32_to_le_bytes;
use vstd::prelude::*;
use vstd::utf8::encode_utf8;

verus! {

broadcast use vstd::utf8::encode_utf8_decode_utf8;

/// The `pcp_version` that the legacy format leaves out of the hash.
pub const PCP_VERSION_DEFAULT: u32 = 2;

/// The data that an app vouches for, and the format version of its hash.
#[derive(Debug, Clone, PartialEq, Eq)]
pub struct AppAuthenticatedData {
    pub self_custody_public_key: String,
    pub identity_commitment: String,
    pub os: String,
    pub os_version: String,
    pub pcp_version: u32,
    pub version: u32,
}

pub struct AppAuthenticatedDataView {
    pub self_custody_public_key: Seq<char>,
    pub identity_commitment: Seq<char>,
    pub os: Seq<char>,
    pub os_version: Seq<char>,
    pub pcp_version: u32,
    pub version: u32,
}

impl View for AppAuthenticatedData {
    type V = AppAuthenticatedDataView;

    open spec fn view(&self) -> AppAuthenticatedDataView {
        AppAuthenticatedDataView {
            self_custody_public_key: self.self_custody_public_key@,
            identity_commitment: self.identity_commitment@,
            os: self.os@,
            os_version: self.os_version@,
            pcp_version: self.pcp_version,
            version: self.version,
        }
    }
}

/// BLAKE3 in extendable-output mode: the first `len` bytes of the output
/// for `input`.
pub uninterp spec fn blake3_xof_output(input: Seq<u8>, len: usize) -> Seq<u8>;

/// Hashes `input` with BLAKE3 and reads `len` bytes of extendable output.
///
/// Calls `blake3::Hasher::new`, `Hasher::update`, `Hasher::finalize_xof` and
/// `OutputReader::fill`: BLAKE3 of the bytes given to `update`, read from the
/// start. The contract claims that the output is that function of `input`
/// and `len` alone, and (as `fill` documents) that it fills all `len` bytes.
#[verifier::external_body]
fn blake3_xof(input: &[u8], len: usize) -> (out: Vec<u8>)
    ensures
        out@ == blake3_xof_output(input@, len),
        out@.len() == len,
{
    let mut hasher = blake3::Hasher::new();
    hasher.update(input);
    let mut output = vec![0u8; len];
    hasher.finalize_xof().fill(&mut output);
    output
}

/// A string field as the hash reads it: its UTF-8 bytes.
pub open spec fn utf8(s: Seq<char>) -> Seq<u8> {
    encode_utf8(s)
}

/// The length of a field fits the four bytes of its prefix.
pub open spec fn fits_prefix(s: Seq<char>) -> bool {
    utf8(s).len() <= u32::MAX
}

/// A field in the current format: its byte length as four little-endian
/// bytes, then its bytes.
pub open spec fn framed(s: Seq<char>) -> Seq<u8> {
    spec_u32_to_le_bytes(utf8(s).len() as u32) + utf8(s)
}

/// Every string field can be length-prefixed.
pub open spec fn fields_fit(d: AppAuthenticatedDataView) -> bool {
    &&& fits_prefix(d.self_custody_public_key)
    &&& fits_prefix(d.identity_commitment)
    &&& fits_prefix(d.os)
    &&& fits_prefix(d.os_version)
}

/// The bytes that the current format hashes: the four string fields framed,
/// in declaration order, then `pcp_version` and `version` little-endian.
pub open spec fn current_preimage(d: AppAuthenticatedDataView) -> Seq<u8> {
    framed(d.self_custody_public_key) + (framed(d.identity_commitment) + (framed(d.os) + (
    framed(d.os_version) + (spec_u32_to_le_bytes(d.pcp_version) + spec_u32_to_le_bytes(
        d.version,
    )))))
}

/// The bytes that the legacy format hashes: identity commitment, public
/// key, OS version and OS, unframed, then `pcp_version` unless it is the
/// default.
pub open spec fn legacy_preimage(d: AppAuthenticatedDataView) -> Seq<u8> {
    utf8(d.identity_commitment) + utf8(d.self_custody_public_key) + utf8(d.os_version) + utf8(
        d.os,
    ) + if d.pcp_version != PCP_VERSION_DEFAULT {
        spec_u32_to_le_bytes(d.pcp_version)
    } else {
        Seq::<u8>::empty()
    }
}

/// The current hash of `d`, `len` bytes long.
pub open spec fn current_hash(d: AppAuthenticatedDataView, len: usize) -> Seq<u8> {
    blake3_xof_output(current_preimage(d), len)
}

/// The legacy hash of `d`, `len` bytes long.
pub open spec fn legacy_hash(d: AppAuthenticatedDataView, len: usize) -> Seq<u8> {
    blake3_xof_output(legacy_preimage(d), len)
}

/// Whether `hash` authenticates `d`: it is not empty, and it is the hash of
/// its own length in the format that `d.version` names (current for
/// version 1, legacy for version 0, none for any other version).
pub open spec fn verifies(d: AppAuthenticatedDataView, hash: Seq<u8>) -> bool {
    &&& hash.len() > 0
    &&& if d.version == AppAuthenticatedData::VERSION {
        hash == current_hash(d, hash.len() as usize)
    } else if d.version == 0 {
        hash == legacy_hash(d, hash.len() as usize)
    } else {
        false
    }
}

/// Appends the bytes of `src` to `out`.
fn append_bytes(out: &mut Vec<u8>, src: &[u8])
    ensures
        final(out)@ == old(out)@ + src@,
{
    let ghost start = out@;
    let n = src.len();
    for i in 0..n
        invariant
            n == src@.len(),
            out@ == start + src@.subrange(0, i as int),
    {
        out.push(src[i]);
        assert(src@.subrange(0, (i + 1) as int) == src@.subrange(0, i as int).push(src@[i as int]));
    }
    assert(src@.subrange(0, n as int) == src@);
}

/// Appends `s` to `out` in the framed form of the current format.
fn append_framed(out: &mut Vec<u8>, s: &String)
    requires
        fits_prefix(s@),
    ensures
        final(out)@ == old(out)@ + framed(s@),
{
    let bytes = s.as_str().as_bytes();
    let len = bytes.len();
    assert(len == utf8(s@).len());
    let prefix = u32_to_le_bytes(len as u32);
    append_bytes(out, prefix.as_slice());
    append_bytes(out, bytes);
    assert(final(out)@ == old(out)@ + framed(s@)) by {
        assert(old(out)@ + prefix@ + bytes@ == old(out)@ + (prefix@ + bytes@));
    }
}

impl AppAuthenticatedData {
    /// The hash format version that new producers use.
    pub const VERSION: u32 = 1;

    /// The bytes that the current format hashes.
    fn current_preimage(&self) -> (out: Vec<u8>)
        requires
            fields_fit(self@),
        ensures
            out@ == current_preimage(self@),
    {
        let mut out: Vec<u8> = Vec::new();
        append_framed(&mut out, &self.self_custody_public_key);
        append_framed(&mut out, &self.identity_commitment);
        append_framed(&mut out, &self.os);
        append_framed(&mut out, &self.os_version);
        let pcp = u32_to_le_bytes(self.pcp_version);
        append_bytes(&mut out, pcp.as_slice());
        let version = u32_to_le_bytes(self.version);
        append_bytes(&mut out, version.as_slice());
        let ghost d = self@;
        assert(out@ == current_preimage(self@)) by {
            let a = framed(d.self_custody_public_key);
            let b = framed(d.identity_commitment);
            let c = framed(d.os);
            let e = framed(d.os_version);
            let f = spec_u32_to_le_bytes(d.pcp_version);
            let g = spec_u32_to_le_bytes(d.version);
            assert(Seq::<u8>::empty() + a + b + c + e + f + g == a + (b + (c + (e + (f + g)))));
        }
        out
    }

    /// The bytes that the legacy format hashes.
    fn legacy_preimage(&self) -> (out: Vec<u8>)
        ensures
            out@ == legacy_preimage(self@),
    {
        let mut out: Vec<u8> = Vec::new();
        append_bytes(&mut out, self.identity_commitment.as_str().as_bytes());
        append_bytes(&mut out, self.self_custody_public_key.as_str().as_bytes());
        append_bytes(&mut out, self.os_version.as_str().as_bytes());
        append_bytes(&mut out, self.os.as_str().as_bytes());
        if self.pcp_version != PCP_VERSION_DEFAULT {
            let pcp = u32_to_le_bytes(self.pcp_version);
            append_bytes(&mut out, pcp.as_slice());
        }
        let ghost d = self@;
        assert(out@ == legacy_preimage(self@)) by {
            assert(Seq::<u8>::empty() + utf8(d.identity_commitment) == utf8(d.identity_commitment));
            if d.pcp_version == PCP_VERSION_DEFAULT {
                let base = utf8(d.identity_commitment) + utf8(d.self_custody_public_key) + utf8(
                    d.os_version,
                ) + utf8(d.os);
                assert(base + Seq::<u8>::empty() == base);
            }
        }
        out
    }

    /// The current length-prefixed BLAKE3 hash of this data, `n` bytes long.
    ///
    /// Only data of the current version is hashed this way, and every string
    /// field must be shorter than 2^32 bytes.
    pub fn hash(&self, n: usize) -> (out: Vec<u8>)
        requires
            self.version == Self::VERSION,
            fields_fit(self@),
        ensures
            out@ == current_hash(self@, n),
            out@.len() == n,
            verifies(self@, out@) == (n > 0),
    {
        let preimage = self.current_preimage();
        blake3_xof(preimage.as_slice(), n)
    }

    /// The legacy BLAKE3 hash of this data, `n` bytes long. Kept for data
    /// from apps that send no version; it lets bytes move between adjacent
    /// fields without changing the hash.
    fn legacy_hash(&self, n: usize) -> (out: Vec<u8>)
        ensures
            out@ == legacy_hash(self@, n),
            out@.len() == n,
    {
        let preimage = self.legacy_preimage();
        blake3_xof(preimage.as_slice(), n)
    }

    /// Whether `hash` authenticates this data: the current format for
    /// version 1, the legacy format for version 0, never for another
    /// version, and never for an empty hash.
    pub fn verify(&self, hash: &[u8]) -> (r: bool)
        requires
            self.version == Self::VERSION ==> fields_fit(self@),
        ensures
            r == verifies(self@, hash@),
    {
        let len = hash.len();
        if len == 0 {
            return false;
        }
        if self.version == Self::VERSION {
            let expected = self.hash(len);
            bytes_equal(hash, expected.as_slice())
        } else if self.version == 0 {
            let expected = self.legacy_hash(len);
            bytes_equal(hash, expected.as_slice())
        } else {
            false
        }
    }
}

/// Whether two byte strings are equal.
fn bytes_equal(a: &[u8], b: &[u8]) -> (r: bool)
    ensures
        r == (a@ == b@),
{
    if a.len() != b.len() {
        return false;
    }
    let n = a.len();
    for i in 0..n
        invariant
            n == a@.len(),
            n == b@.len(),
            forall|j: int| 0 <= j < i ==> a@[j] == b@[j],
    {
        if a[i] != b[i] {
            return false;
        }
    }
    assert(a@ == b@);
    true
}

/// Splitting a framed field off the front of two equal byte strings gives
/// equal fields and equal rests: the frame tells where a field ends.
proof fn lemma_framed_prefix_unique(s1: Seq<char>, s2: Seq<char>, r1: Seq<u8>, r2: Seq<u8>)
    requires
        fits_prefix(s1),
        fits_prefix(s2),
        framed(s1) + r1 == framed(s2) + r2,
    ensures
        s1 == s2,
        r1 == r2,
{
    vstd::bytes::lemma_auto_spec_u32_to_from_le_bytes();
    let b1 = utf8(s1);
    let b2 = utf8(s2);
    let p1 = spec_u32_to_le_bytes(b1.len() as u32);
    let p2 = spec_u32_to_le_bytes(b2.len() as u32);
    let whole = framed(s1) + r1;
    assert(whole == p1 + (b1 + r1));
    assert(whole == p2 + (b2 + r2));
    assert(p1 == whole.subrange(0, 4));
    assert(p2 == whole.subrange(0, 4));
    assert(b1.len() == b2.len());
    let n = b1.len() as int;
    assert(b1 == whole.subrange(4, 4 + n));
    assert(b2 == whole.subrange(4, 4 + n));
    assert(decode_first(b1) == s1);
    assert(r1 == whole.subrange(4 + n, whole.len() as int));
    assert(r2 == whole.subrange(4 + n, whole.len() as int));
}

spec fn decode_first(b: Seq<u8>) -> Seq<char> {
    vstd::utf8::decode_utf8(b)
}

/// The current format hashes different data through different bytes: equal
/// preimages come only from equal data. Its length prefixes keep bytes from
/// moving between adjacent fields.
pub proof fn lemma_current_preimage_injective(a: AppAuthenticatedDataView, b: AppAuthenticatedDataView)
    requires
        fields_fit(a),
        fields_fit(b),
        current_preimage(a) == current_preimage(b),
    ensures
        a == b,
{
    vstd::bytes::lemma_auto_spec_u32_to_from_le_bytes();
    let tail_a = spec_u32_to_le_bytes(a.pcp_version) + spec_u32_to_le_bytes(a.version);
    let tail_b = spec_u32_to_le_bytes(b.pcp_version) + spec_u32_to_le_bytes(b.version);
    let r3a = framed(a.os_version) + tail_a;
    let r3b = framed(b.os_version) + tail_b;
    let r2a = framed(a.os) + r3a;
    let r2b = framed(b.os) + r3b;
    let r1a = framed(a.identity_commitment) + r2a;
    let r1b = framed(b.identity_commitment) + r2b;
    lemma_framed_prefix_unique(a.self_custody_public_key, b.self_custody_public_key, r1a, r1b);
    lemma_framed_prefix_unique(a.identity_commitment, b.identity_commitment, r2a, r2b);
    lemma_framed_prefix_unique(a.os, b.os, r3a, r3b);
    lemma_framed_prefix_unique(a.os_version, b.os_version, tail_a, tail_b);
    assert(spec_u32_to_le_bytes(a.pcp_version) == tail_a.subrange(0, 4));
    assert(spec_u32_to_le_bytes(b.pcp_version) == tail_b.subrange(0, 4));
    assert(spec_u32_to_le_bytes(a.version) == tail_a.subrange(4, 8));
    assert(spec_u32_to_le_bytes(b.version) == tail_b.subrange(4, 8));
}


/// The legacy format hashes `pcp_version` exactly when it is not the default:
/// the preimage is the four unframed fields, followed by the version's four
/// little-endian bytes when `pcp_version != 2` and by nothing otherwise.
/// Hence legacy data that differ only in `pcp_version` hash different bytes.
pub proof fn lemma_legacy_preimage_pcp_version(a: AppAuthenticatedDataView, b: AppAuthenticatedDataView)
    requires
        a.self_custody_public_key == b.self_custody_public_key,
        a.identity_commitment == b.identity_commitment,
        a.os == b.os,
        a.os_version == b.os_version,
    ensures
        ({
            let fields = utf8(a.identity_commitment) + utf8(a.self_custody_public_key) + utf8(a.os_version) + utf8(a.os);
            &&& a.pcp_version != 2 ==> legacy_preimage(a) == fields + spec_u32_to_le_bytes(a.pcp_version)
            &&& a.pcp_version == 2 ==> legacy_preimage(a) == fields
            &&& legacy_preimage(a) == legacy_preimage(b) ==> a.pcp_version == b.pcp_version
        }),
{
    vstd::bytes::lemma_auto_spec_u32_to_from_le_bytes();
    let fields = utf8(a.identity_commitment) + utf8(a.self_custody_public_key) + utf8(a.os_version) + utf8(a.os);
    assert(fields + Seq::<u8>::empty() == fields);
    if legacy_preimage(a) == legacy_preimage(b) && a.pcp_version != b.pcp_version {
        if a.pcp_version != 2 && b.pcp_version != 2 {
            let n = fields.len() as int;
            assert(spec_u32_to_le_bytes(a.pcp_version) == legacy_preimage(a).subrange(n, n + 4));
            assert(spec_u32_to_le_bytes(b.pcp_version) == legacy_preimage(b).subrange(n, n + 4));
        } else {
            assert(legacy_preimage(a).len() != legacy_preimage(b).len());
        }
    }
}


/// Which hash authenticates which data: an empty hash never does; data of
/// version 1 are authenticated by the BLAKE3 output of their length-prefixed
/// preimage, data of version 0 by that of their legacy preimage, and data of
/// any other version by nothing.
pub proof fn lemma_verify_by_version(d: AppAuthenticatedDataView, h: Seq<u8>)
    ensures
        h.len() == 0 ==> !verifies(d, h),
        h.len() > 0 && d.version == 1 ==> (verifies(d, h) <==> h == blake3_xof_output(current_preimage(d), h.len() as usize)),
        h.len() > 0 && d.version == 0 ==> (verifies(d, h) <==> h == blake3_xof_output(legacy_preimage(d), h.len() as usize)),
        d.version != 0 && d.version != 1 ==> !verifies(d, h),
{
}

} // verus!
