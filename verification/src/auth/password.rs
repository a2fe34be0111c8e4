//! The stored credential: a versioned container that encodes to and
//! decodes from a colon-delimited text form, and that checks a candidate
//! plaintext against its stored hash.
//!
//! The version-1 encoding is
//! `:1:pbkdf2:<algorithm>:<rounds>:<len>:<base64url salt>:<base64url hash>`,
//! and the sentinel encodes as `:invalid`. Decoding inverts encoding for
//! every credential value, and rejects malformed input with an error
//! naming the field that failed.

use vstd::prelude::*;

verus! {

use vstd::string::StringSliceAdditionalSpecFns;
use vstd::utf8::valid_utf8;
use crate::auth::hash::{
    Algorithm,
    HashError,
    Hasher,
    hmac_sha3_512_name,
    pbkdf2_tag,
    spec_derived,
    spec_parse_hasher,
};
use crate::codec::{
    COLON,
    all_digits,
    ascii_seq,
    bytes_eq,
    dec_digits,
    dec_field,
    dec_value,
    join_colon,
    join_with_colons,
    lemma_ascii_valid_utf8,
    lemma_dec_digits,
    lemma_digits_ascii,
    lemma_join_ascii,
    lemma_split_join,
    lemma_split_len,
    no_colon,
    split_colon,
    split_colons,
    utf8_is_valid,
};
use crate::entropy::random_bytes_16;

/// Why a stored credential failed to decode, field by field, or why a
/// comparison failed to hash.
#[derive(Debug, Clone, Copy, PartialEq, Eq, Structural)]
pub enum PasswordError {
    /// The input is not a credential encoding at all: no leading colon,
    /// or bytes that are not text.
    Invalid,
    /// The version field is missing or names no known version.
    VariantComp,
    /// The hasher descriptor is malformed: family, algorithm name,
    /// rounds or length.
    HasherComp,
    /// The salt field is not valid base64.
    SaltComp,
    /// The hash field is not valid base64.
    HashComp,
    /// Hashing itself failed while comparing.
    Hash(HashError),
}

/// Which bytes padded base64url may produce: the URL-safe alphabet plus
/// the padding symbol.
pub open spec fn is_base64url_byte(b: u8) -> bool {
    (65 <= b <= 90) || (97 <= b <= 122) || (48 <= b <= 57) || b == 45 || b == 95 || b == 61
}

/// What padded base64url encoding of `data` produces.
pub uninterp spec fn b64url_of(data: Seq<u8>) -> Seq<u8>;

/// What padded base64url decoding yields: the encoded bytes, or nothing
/// when the input is not canonical padded base64url.
pub uninterp spec fn b64url_decode_of(data: Seq<u8>) -> Option<Seq<u8>>;

/// Relies on base64's `BASE64_URL_SAFE` engine `encode`: four output
/// bytes for every three input bytes, padded, all from the URL-safe
/// alphabet (so never a colon), and a pure function of the input;
/// `decode` of the output gives the input back.
#[verifier::external_body]
fn b64_encode(data: &[u8]) -> (r: Vec<u8>)
    ensures
        r@ == b64url_of(data@),
        r@.len() == ((data@.len() + 2) / 3) * 4,
        forall|i: int| 0 <= i < r@.len() ==> is_base64url_byte(#[trigger] r@[i]),
        b64url_decode_of(r@) == Some(data@),
{
    base64::Engine::encode(&base64::prelude::BASE64_URL_SAFE, data).into_bytes()
}

/// Relies on base64's `BASE64_URL_SAFE` engine `decode`: it yields the
/// bytes the input encodes, or rejects input that is not canonical
/// padded base64url; acceptance and result depend on the input alone.
#[verifier::external_body]
fn b64_decode(data: &[u8]) -> (r: Option<Vec<u8>>)
    ensures
        match r {
            Some(v) => b64url_decode_of(data@) == Some(v@),
            None => b64url_decode_of(data@) is None,
        },
{
    base64::Engine::decode(&base64::prelude::BASE64_URL_SAFE, data).ok()
}

/// Draws a fresh 16-byte salt from the secure generator.
fn generate_salt() -> (r: Vec<u8>)
    ensures
        r@.len() == 16,
{
    random_bytes_16()
}

/// The bytes of the version tag `"1"`.
pub open spec fn tag_v1() -> Seq<u8> {
    seq![49u8]
}

/// The bytes of the sentinel body `"invalid"`.
pub open spec fn tag_invalid() -> Seq<u8> {
    seq![105u8, 110, 118, 97, 108, 105, 100]
}

/// The spec-level value of a version-1 credential.
pub struct PasswordV1Spec {
    pub hasher: Hasher,
    pub salt: Seq<u8>,
    pub hash: Seq<u8>,
}

/// The spec-level value of a stored credential.
pub enum PasswordSpec {
    V1(PasswordV1Spec),
    Invalid,
}

/// A version-1 credential: the hasher configuration, the salt, and the
/// hash that hasher derived from the password and that salt.
#[derive(Debug, Clone)]
pub struct PasswordV1 {
    pub hasher: Hasher,
    pub salt: Vec<u8>,
    pub hash: Vec<u8>,
}

impl View for PasswordV1 {
    type V = PasswordV1Spec;

    open spec fn view(&self) -> PasswordV1Spec {
        PasswordV1Spec { hasher: self.hasher, salt: self.salt@, hash: self.hash@ }
    }
}

/// A stored credential: a versioned value, or the sentinel that can
/// never authenticate. The sentinel stands for a credential that failed
/// to decode or was deliberately revoked.
#[derive(Debug, Clone)]
pub enum Password {
    V1(PasswordV1),
    Invalid,
}

impl View for Password {
    type V = PasswordSpec;

    open spec fn view(&self) -> PasswordSpec {
        match self {
            Password::V1(v) => PasswordSpec::V1(v@),
            Password::Invalid => PasswordSpec::Invalid,
        }
    }
}

impl Default for Password {
    /// The default credential is the sentinel: unusable until replaced.
    fn default() -> (r: Self)
        ensures
            r@ is Invalid,
    {
        Password::Invalid
    }
}

/// The colon-separated fields of the encoding of `p`, leading empty
/// field included.
pub open spec fn spec_segments(p: PasswordSpec) -> Seq<Seq<u8>> {
    match p {
        PasswordSpec::Invalid => seq![Seq::<u8>::empty(), tag_invalid()],
        PasswordSpec::V1(v) => seq![
            Seq::<u8>::empty(),
            tag_v1(),
            pbkdf2_tag(),
            v.hasher.spec_algorithm().spec_name_bytes(),
            dec_digits(v.hasher.spec_rounds() as nat),
            dec_digits(v.hasher.spec_len() as nat),
            b64url_of(v.salt),
            b64url_of(v.hash),
        ],
    }
}

/// The encoding of `p`: its fields joined with colons.
pub open spec fn spec_encode(p: PasswordSpec) -> Seq<u8> {
    join_colon(spec_segments(p))
}

/// What parsing a version-1 body from the fields `segs` yields: the
/// hasher descriptor, then the base64 salt, then the base64 hash.
pub open spec fn spec_parse_v1(segs: Seq<Seq<u8>>) -> Result<PasswordSpec, PasswordError> {
    match spec_parse_hasher(segs) {
        Err(e) => Err(e),
        Ok(hasher) => if segs.len() < 5 || b64url_decode_of(segs[4]) is None {
            Err(PasswordError::SaltComp)
        } else if segs.len() < 6 || b64url_decode_of(segs[5]) is None {
            Err(PasswordError::HashComp)
        } else {
            Ok(
                PasswordSpec::V1(
                    PasswordV1Spec {
                        hasher,
                        salt: b64url_decode_of(segs[4]).unwrap(),
                        hash: b64url_decode_of(segs[5]).unwrap(),
                    },
                ),
            )
        },
    }
}

/// What dispatching on the version field yields. Fields past the last
/// one a version reads are ignored: old readers must stay indifferent
/// to additions they do not know.
pub open spec fn spec_parse_variant(segs: Seq<Seq<u8>>) -> Result<PasswordSpec, PasswordError> {
    if segs.len() < 1 {
        Err(PasswordError::VariantComp)
    } else if segs[0] == tag_v1() {
        spec_parse_v1(segs.skip(1))
    } else if segs[0] == tag_invalid() {
        Ok(PasswordSpec::Invalid)
    } else {
        Err(PasswordError::VariantComp)
    }
}

/// What decoding stored bytes yields: a credential value, or the error
/// naming the first field that failed. Input that does not begin with a
/// colon, or is not text at all, is no credential encoding.
pub open spec fn spec_decode(s: Seq<u8>) -> Result<PasswordSpec, PasswordError> {
    if s.len() == 0 || s[0] != COLON {
        Err(PasswordError::Invalid)
    } else if !valid_utf8(s) {
        Err(PasswordError::Invalid)
    } else {
        spec_parse_variant(split_colon(s).skip(1))
    }
}

/// Whether `password` verifies against the credential `p`: the sentinel
/// never matches; a version-1 credential matches exactly when the stored
/// hasher derives the stored hash from `password` and the stored salt.
pub open spec fn spec_matches(p: PasswordSpec, password: Seq<u8>) -> bool {
    match p {
        PasswordSpec::Invalid => false,
        PasswordSpec::V1(v) => v.hash == spec_derived(v.hasher, password, v.salt),
    }
}

/// The current default hasher: PBKDF2 over HMAC-SHA3-512, 10000 rounds,
/// 64 derived bytes. New credentials record these parameters, so the
/// default can move without breaking stored credentials.
pub open spec fn spec_default_hasher() -> Hasher {
    Hasher::Pbkdf2 { algorithm: Algorithm::HmacSha3_512, rounds: 10000, len: 64 }
}

/// What a successful generation guarantees of the credential `v` built
/// for `password` with the given optional salt and hasher.
pub open spec fn spec_generate_ok(
    v: PasswordV1Spec,
    password: Seq<u8>,
    salt: Option<Vec<u8>>,
    hasher: Option<Hasher>,
) -> bool {
    &&& v.hasher == (match hasher {
        Some(h) => h,
        None => spec_default_hasher(),
    })
    &&& (match salt {
        Some(s) => v.salt == s@,
        None => v.salt.len() == 16,
    })
    &&& v.hash == spec_derived(v.hasher, password, v.salt)
    &&& v.hash.len() == v.hasher.spec_len()
}

/// A credential just generated verifies against the password it was
/// generated from: the stored hash is the derivation the comparison
/// recomputes.
pub proof fn lemma_generated_matches(
    v: PasswordV1Spec,
    password: Seq<u8>,
    salt: Option<Vec<u8>>,
    hasher: Option<Hasher>,
)
    requires
        spec_generate_ok(v, password, salt, hasher),
    ensures
        spec_matches(PasswordSpec::V1(v), password),
{
}

/// The sentinel matches nothing: no plaintext ever verifies against it.
pub proof fn lemma_invalid_never_matches(password: Seq<u8>)
    ensures
        !spec_matches(PasswordSpec::Invalid, password),
{
}

/// Comparison decides by the derivation alone: a candidate verifies
/// against a version-1 credential exactly when the stored hasher
/// derives the stored hash from it. A wrong password can therefore
/// verify only where the derivation collides with the right one's.
pub proof fn lemma_compare_decides_by_derivation(v: PasswordV1Spec, candidate: Seq<u8>)
    ensures
        spec_matches(PasswordSpec::V1(v), candidate) <==> v.hash == spec_derived(
            v.hasher,
            candidate,
            v.salt,
        ),
{
}

impl PasswordV1 {
    /// Generates a fresh credential: a random 16-byte salt unless one is
    /// given, the current default hasher unless one is given, and the
    /// hash the hasher derives from the password and that salt.
    fn generate(password: &str, salt: Option<Vec<u8>>, hasher: Option<Hasher>) -> (r: Result<
        PasswordV1,
        HashError,
    >)
        ensures
            r matches Ok(v) && spec_generate_ok(v@, password.spec_bytes(), salt, hasher),
    {
        let hasher = match hasher {
            Some(h) => h,
            None => Hasher::new_pbkdf2(Algorithm::HmacSha3_512, 10000, 64),
        };
        let salt = match salt {
            Some(s) => s,
            None => generate_salt(),
        };
        let hash = match hasher.hash(password.as_bytes(), salt.as_slice()) {
            Ok(h) => h,
            Err(e) => {
                return Err(e);
            },
        };
        Ok(PasswordV1 { hasher, salt, hash })
    }

    /// Recomputes the derivation for `other` with the stored hasher and
    /// salt and compares it, byte for byte, to the stored hash.
    fn compare(&self, other: &str) -> (r: Result<bool, PasswordError>)
        ensures
            r == Ok::<bool, PasswordError>(
                spec_matches(PasswordSpec::V1(self@), other.spec_bytes()),
            ),
    {
        let derived = match self.hasher.hash(other.as_bytes(), self.salt.as_slice()) {
            Ok(d) => d,
            Err(e) => {
                return Err(PasswordError::Hash(e));
            },
        };
        Ok(bytes_eq(self.hash.as_slice(), derived.as_slice()))
    }

    /// Parses a version-1 body from the fields `segs[from..]`.
    fn parse(segs: &Vec<Vec<u8>>, from: usize) -> (r: Result<PasswordV1, PasswordError>)
        requires
            from <= segs@.len(),
        ensures
            match r {
                Ok(v) => spec_parse_v1(segs.deep_view().skip(from as int)) == Ok::<
                    PasswordSpec,
                    PasswordError,
                >(PasswordSpec::V1(v@)),
                Err(e) => spec_parse_v1(segs.deep_view().skip(from as int)) == Err::<
                    PasswordSpec,
                    PasswordError,
                >(e),
            },
    {
        let ghost dv = segs.deep_view().skip(from as int);
        proof {
            assert(segs.deep_view().len() == segs@.len());
        }
        let hasher = match Hasher::parse(segs, from) {
            Ok(h) => h,
            Err(e) => {
                return Err(e);
            },
        };
        let avail = segs.len() - from;
        if avail < 5 {
            return Err(PasswordError::SaltComp);
        }
        proof {
            assert(dv[4] =~= segs@[from as int + 4]@);
        }
        let salt = match b64_decode(segs[from + 4].as_slice()) {
            Some(v) => v,
            None => {
                return Err(PasswordError::SaltComp);
            },
        };
        if avail < 6 {
            return Err(PasswordError::HashComp);
        }
        proof {
            assert(dv[5] =~= segs@[from as int + 5]@);
        }
        let hash = match b64_decode(segs[from + 5].as_slice()) {
            Some(v) => v,
            None => {
                return Err(PasswordError::HashComp);
            },
        };
        Ok(PasswordV1 { hasher, salt, hash })
    }

    /// Encodes `self` as the full version-1 credential text, and proves
    /// the decoder reads the same value back.
    fn encode_full(&self) -> (r: Vec<u8>)
        ensures
            r@ == spec_encode(PasswordSpec::V1(self@)),
            spec_decode(r@) == Ok::<PasswordSpec, PasswordError>(PasswordSpec::V1(self@)),
    {
        let (rounds, len) = match &self.hasher {
            Hasher::Pbkdf2 { rounds, len, .. } => (*rounds, *len),
        };
        let mut segs: Vec<Vec<u8>> = Vec::new();
        segs.push(Vec::new());
        let mut t1: Vec<u8> = Vec::new();
        t1.push(49);
        segs.push(t1);
        let mut tp: Vec<u8> = Vec::new();
        tp.push(112);
        tp.push(98);
        tp.push(107);
        tp.push(100);
        tp.push(102);
        tp.push(50);
        segs.push(tp);
        let mut nm: Vec<u8> = Vec::new();
        nm.push(104);
        nm.push(109);
        nm.push(97);
        nm.push(99);
        nm.push(45);
        nm.push(115);
        nm.push(104);
        nm.push(97);
        nm.push(51);
        nm.push(45);
        nm.push(53);
        nm.push(49);
        nm.push(50);
        segs.push(nm);
        segs.push(dec_field(rounds as u64));
        segs.push(dec_field(len as u64));
        segs.push(b64_encode(self.salt.as_slice()));
        segs.push(b64_encode(self.hash.as_slice()));
        let ghost sv = spec_segments(PasswordSpec::V1(self@));
        proof {
            assert((len as u64) as nat == len as nat);
            assert(segs.deep_view() =~~= sv);
        }
        let out = join_with_colons(&segs);
        proof {
            lemma_encode_decode_v1(self@);
        }
        out
    }
}

/// Joined version-1 fields decode back to the credential they encode:
/// the round trip behind `Password::encode`.
proof fn lemma_encode_decode_v1(v: PasswordV1Spec)
    requires
        no_colon(b64url_of(v.salt)),
        no_colon(b64url_of(v.hash)),
        ascii_seq(b64url_of(v.salt)),
        ascii_seq(b64url_of(v.hash)),
        b64url_decode_of(b64url_of(v.salt)) == Some(v.salt),
        b64url_decode_of(b64url_of(v.hash)) == Some(v.hash),
    ensures
        spec_decode(spec_encode(PasswordSpec::V1(v))) == Ok::<PasswordSpec, PasswordError>(
            PasswordSpec::V1(v),
        ),
{
    let segs = spec_segments(PasswordSpec::V1(v));
    let out = spec_encode(PasswordSpec::V1(v));
    let rounds = v.hasher.spec_rounds();
    let len = v.hasher.spec_len();
    lemma_dec_digits(rounds as nat);
    lemma_dec_digits(len as nat);
    lemma_digits_ascii(dec_digits(rounds as nat));
    lemma_digits_ascii(dec_digits(len as nat));
    assert(no_colon(segs[0]));
    assert(no_colon(segs[1]));
    assert(no_colon(segs[2]));
    assert(no_colon(segs[3]));
    assert(ascii_seq(segs[0]));
    assert(ascii_seq(segs[1]));
    assert(ascii_seq(segs[2]));
    assert(ascii_seq(segs[3]));
    assert(forall|k: int| 0 <= k < segs.len() ==> no_colon(#[trigger] segs[k]));
    assert(forall|k: int| 0 <= k < segs.len() ==> ascii_seq(#[trigger] segs[k]));
    lemma_split_join(segs);
    lemma_join_ascii(segs);
    lemma_ascii_valid_utf8(out);
    assert(out == segs[0] + seq![COLON] + join_colon(segs.drop_first()));
    assert(out[0] == COLON);
    let vsegs = split_colon(out).skip(1);
    assert(vsegs =~~= segs.skip(1));
    assert(vsegs[0] == tag_v1());
    assert(tag_v1().len() != tag_invalid().len());
    let psegs = vsegs.skip(1);
    assert(psegs =~~= segs.skip(2));
    assert(psegs[0] == pbkdf2_tag());
    let hsegs = psegs.skip(1);
    assert(hsegs =~~= segs.skip(3));
    assert(hsegs[0] == v.hasher.spec_algorithm().spec_name_bytes());
    assert(hsegs[0] == hmac_sha3_512_name());
    assert(hsegs[1] == dec_digits(rounds as nat));
    assert(hsegs[2] == dec_digits(len as nat));
    assert(dec_value(hsegs[1]) == rounds as nat);
    assert(dec_value(hsegs[2]) == len as nat);
    assert(psegs[4] == b64url_of(v.salt));
    assert(psegs[5] == b64url_of(v.hash));
    assert(spec_parse_hasher(psegs) == Ok::<Hasher, PasswordError>(v.hasher));
    assert(spec_parse_v1(psegs) == Ok::<PasswordSpec, PasswordError>(PasswordSpec::V1(v)));
    assert(spec_parse_variant(vsegs) == Ok::<PasswordSpec, PasswordError>(PasswordSpec::V1(v)));
}

impl Password {
    /// Generates a credential under the current encoding version.
    pub fn generate_current(password: &str, salt: Option<Vec<u8>>, hasher: Option<Hasher>) -> (r:
        Result<Password, HashError>)
        ensures
            r matches Ok(p) && p@ matches PasswordSpec::V1(v) && spec_generate_ok(
                v,
                password.spec_bytes(),
                salt,
                hasher,
            ),
    {
        Self::generate_v1(password, salt, hasher)
    }

    /// Generates a version-1 credential.
    pub fn generate_v1(password: &str, salt: Option<Vec<u8>>, hasher: Option<Hasher>) -> (r:
        Result<Password, HashError>)
        ensures
            r matches Ok(p) && p@ matches PasswordSpec::V1(v) && spec_generate_ok(
                v,
                password.spec_bytes(),
                salt,
                hasher,
            ),
    {
        match PasswordV1::generate(password, salt, hasher) {
            Ok(v) => Ok(Password::V1(v)),
            Err(e) => Err(e),
        }
    }

    /// Generates a credential for `password` and collapses any hashing
    /// error into the sentinel: a credential that fails to generate must
    /// still leave some representable, never-authenticating value.
    pub fn from_plaintext(password: &str) -> (p: Password)
        ensures
            p@ matches PasswordSpec::V1(v) && spec_generate_ok(
                v,
                password.spec_bytes(),
                None::<Vec<u8>>,
                None::<Hasher>,
            ),
    {
        match Self::generate_current(password, None, None) {
            Ok(p) => p,
            Err(_) => Password::Invalid,
        }
    }

    /// Decodes stored bytes into a credential, or says which field of
    /// the encoding failed.
    pub fn from_encoded(encoded: &[u8]) -> (r: Result<Password, PasswordError>)
        ensures
            match r {
                Ok(p) => spec_decode(encoded@) == Ok::<PasswordSpec, PasswordError>(p@),
                Err(e) => spec_decode(encoded@) == Err::<PasswordSpec, PasswordError>(e),
            },
    {
        if encoded.len() == 0 || encoded[0] != COLON {
            return Err(PasswordError::Invalid);
        }
        if !utf8_is_valid(encoded) {
            return Err(PasswordError::Invalid);
        }
        let segs = split_colons(encoded);
        proof {
            lemma_split_len(encoded@.drop_first());
            assert(split_colon(encoded@).len() >= 2);
            assert(segs.deep_view().len() == segs@.len());
        }
        Self::parse_variant(&segs)
    }

    /// Decodes stored bytes and collapses any decode error into the
    /// sentinel, so a corrupted credential safely fails every future
    /// comparison instead of blocking the read path.
    pub fn from_stored(encoded: &[u8]) -> (p: Password)
        ensures
            match spec_decode(encoded@) {
                Ok(v) => p@ == v,
                Err(_) => p@ is Invalid,
            },
    {
        match Self::from_encoded(encoded) {
            Ok(p) => p,
            Err(_) => Password::Invalid,
        }
    }

    /// Dispatches on the version field in `segs[1..]`.
    fn parse_variant(segs: &Vec<Vec<u8>>) -> (r: Result<Password, PasswordError>)
        requires
            1 <= segs@.len(),
        ensures
            match r {
                Ok(p) => spec_parse_variant(segs.deep_view().skip(1)) == Ok::<
                    PasswordSpec,
                    PasswordError,
                >(p@),
                Err(e) => spec_parse_variant(segs.deep_view().skip(1)) == Err::<
                    PasswordSpec,
                    PasswordError,
                >(e),
            },
    {
        let ghost dv = segs.deep_view().skip(1);
        proof {
            assert(segs.deep_view().len() == segs@.len());
        }
        if segs.len() < 2 {
            return Err(PasswordError::VariantComp);
        }
        proof {
            assert(dv[0] =~= segs@[1]@);
        }
        let t1: [u8; 1] = [49];
        let ti: [u8; 7] = [105, 110, 118, 97, 108, 105, 100];
        if bytes_eq(segs[1].as_slice(), t1.as_slice()) {
            proof {
                assert(t1@ =~= tag_v1());
                assert(dv.skip(1) =~= segs.deep_view().skip(2));
            }
            match PasswordV1::parse(segs, 2) {
                Ok(v) => Ok(Password::V1(v)),
                Err(e) => Err(e),
            }
        } else if bytes_eq(segs[1].as_slice(), ti.as_slice()) {
            proof {
                assert(t1@ =~= tag_v1());
                assert(ti@ =~= tag_invalid());
            }
            Ok(Password::Invalid)
        } else {
            proof {
                assert(t1@ =~= tag_v1());
                assert(ti@ =~= tag_invalid());
            }
            Err(PasswordError::VariantComp)
        }
    }

    /// Checks `other` against this credential: the sentinel is always
    /// false, with no error and no hashing; a version-1 credential
    /// recomputes and compares the derivation.
    pub fn compare(&self, other: &str) -> (r: Result<bool, PasswordError>)
        ensures
            r == Ok::<bool, PasswordError>(spec_matches(self@, other.spec_bytes())),
    {
        match self {
            Password::V1(v) => v.compare(other),
            Password::Invalid => Ok(false),
        }
    }

    /// True for every credential but the sentinel.
    pub fn is_valid(&self) -> (r: bool)
        ensures
            r == !(self@ is Invalid),
    {
        match self {
            Password::V1(_) => true,
            Password::Invalid => false,
        }
    }

    /// Encodes this credential as its stored text. Decoding the result
    /// yields this credential back: the encode/decode round trip.
    pub fn encode(&self) -> (r: Vec<u8>)
        ensures
            r@ == spec_encode(self@),
            spec_decode(r@) == Ok::<PasswordSpec, PasswordError>(self@),
    {
        match self {
            Password::V1(v) => v.encode_full(),
            Password::Invalid => {
                let mut segs: Vec<Vec<u8>> = Vec::new();
                segs.push(Vec::new());
                let mut ti: Vec<u8> = Vec::new();
                ti.push(105);
                ti.push(110);
                ti.push(118);
                ti.push(97);
                ti.push(108);
                ti.push(105);
                ti.push(100);
                segs.push(ti);
                let ghost sv = spec_segments(PasswordSpec::Invalid);
                proof {
                    assert(segs.deep_view() =~~= sv);
                }
                let out = join_with_colons(&segs);
                proof {
                    assert(forall|k: int| 0 <= k < sv.len() ==> no_colon(#[trigger] sv[k]));
                    assert(forall|k: int| 0 <= k < sv.len() ==> ascii_seq(#[trigger] sv[k]));
                    lemma_split_join(sv);
                    lemma_join_ascii(sv);
                    lemma_ascii_valid_utf8(out@);
                    assert(out@ == sv[0] + seq![COLON] + join_colon(sv.drop_first()));
                    assert(out@[0] == COLON);
                    let vsegs = split_colon(out@).skip(1);
                    assert(vsegs =~~= sv.skip(1));
                    assert(vsegs[0] == tag_invalid());
                    assert(tag_invalid().len() != tag_v1().len());
                }
                out
            },
        }
    }

    /// Encodes this credential as a `String`; the text holds exactly the
    /// bytes `encode` produces.
    pub fn encode_string(&self) -> (r: String)
        ensures
            vstd::utf8::encode_utf8(r@) == spec_encode(self@),
            r@ == vstd::utf8::decode_utf8(spec_encode(self@)),
    {
        let bytes = self.encode();
        proof {
            assert(valid_utf8(bytes@));
            vstd::utf8::decode_utf8_encode_utf8(bytes@);
        }
        match String::from_utf8(bytes) {
            Ok(s) => s,
            Err(_) => {
                proof {
                    assert(false);
                }
                String::new()
            },
        }
    }
}

} // verus!
