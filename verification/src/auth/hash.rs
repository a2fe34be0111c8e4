//! The hash-algorithm registry and the configured hasher: an algorithm
//! identifier, a round count and an output length, applied to password
//! and salt bytes through PBKDF2.

use vstd::prelude::*;

verus! {

use crate::auth::password::PasswordError;
use crate::codec::{all_digits, bytes_eq, dec_value, parse_u64, str_eq};

/// The key-derivation primitives the registry knows. Every variant has a
/// unique, stable symbolic name; unknown names fail to parse rather than
/// defaulting.
#[derive(Debug, Clone, Copy, PartialEq, Eq, Structural)]
pub enum Algorithm {
    HmacSha3_512,
}

/// The bytes of the symbolic name `"hmac-sha3-512"`.
pub open spec fn hmac_sha3_512_name() -> Seq<u8> {
    seq![104u8, 109, 97, 99, 45, 115, 104, 97, 51, 45, 53, 49, 50]
}

/// The byte-level reverse lookup the credential parser goes through:
/// a case-sensitive exact match against the fixed name table.
pub open spec fn spec_algorithm_from_name(s: Seq<u8>) -> Option<Algorithm> {
    if s == hmac_sha3_512_name() {
        Some(Algorithm::HmacSha3_512)
    } else {
        None
    }
}

impl Algorithm {
    /// The symbolic name of `self`, at spec level.
    pub open spec fn spec_name_bytes(self) -> Seq<u8> {
        match self {
            Algorithm::HmacSha3_512 => hmac_sha3_512_name(),
        }
    }

    /// Looks an algorithm up by its symbolic name: a case-sensitive
    /// exact match, so prefixes and suffixes of a valid name miss.
    pub fn from_name(name: &str) -> (r: Option<Algorithm>)
        ensures
            r == if name@ == "hmac-sha3-512"@ {
                Some(Algorithm::HmacSha3_512)
            } else {
                None::<Algorithm>
            },
    {
        if str_eq(name, "hmac-sha3-512") {
            Some(Algorithm::HmacSha3_512)
        } else {
            None
        }
    }

    /// The inverse mapping: the stable symbolic name of `self`.
    pub fn name(&self) -> (r: &'static str)
        ensures
            r@ == "hmac-sha3-512"@,
    {
        match self {
            Algorithm::HmacSha3_512 => "hmac-sha3-512",
        }
    }
}

/// `from_name` inverts `name`: every algorithm is found again under the
/// name it prints.
pub proof fn lemma_name_round_trip(a: Algorithm)
    ensures
        spec_algorithm_from_name(a.spec_name_bytes()) == Some(a),
{
}

/// What PBKDF2 over HMAC-SHA3-512 derives from a password and a salt
/// with the given round count and output length. The derivation is a
/// pure function of these four arguments; its value is fixed by the
/// algorithm's definition and is not restated here.
pub uninterp spec fn pbkdf2_hmac_sha3_512(
    password: Seq<u8>,
    salt: Seq<u8>,
    rounds: u32,
    len: nat,
) -> Seq<u8>;

/// Relies on `pbkdf2::pbkdf2` with `hmac::Hmac<sha3::Sha3_512>`: it fills
/// the whole output buffer with the derived key, a pure function of the
/// password, salt, round count and buffer length. HMAC accepts keys of
/// any length, so the underlying call cannot fail.
#[verifier::external_body]
fn derive_pbkdf2_hmac_sha3_512(password: &[u8], salt: &[u8], rounds: u32, len: usize) -> (r: Vec<
    u8,
>)
    ensures
        r@ == pbkdf2_hmac_sha3_512(password@, salt@, rounds, len as nat),
        r@.len() == len,
{
    let mut buf = vec![0u8; len];
    pbkdf2::pbkdf2::<hmac::Hmac<sha3::Sha3_512>>(password, salt, rounds, &mut buf)
        .expect("HMAC accepts keys of any length");
    buf
}

/// A configured key-derivation invocation: algorithm, cost and output
/// length. Immutable once constructed; the parameters are stored with
/// every credential so old credentials stay verifiable after the
/// defaults move on.
#[derive(Debug, Clone, Copy, PartialEq, Eq, Structural)]
pub enum Hasher {
    Pbkdf2 { algorithm: Algorithm, rounds: u32, len: usize },
}

/// The bytes of the hasher-family tag `"pbkdf2"`.
pub open spec fn pbkdf2_tag() -> Seq<u8> {
    seq![112u8, 98, 107, 100, 102, 50]
}

/// The bytes derived by `h` for the given password and salt.
pub open spec fn spec_derived(h: Hasher, password: Seq<u8>, salt: Seq<u8>) -> Seq<u8> {
    match h {
        Hasher::Pbkdf2 { algorithm: Algorithm::HmacSha3_512, rounds, len } => pbkdf2_hmac_sha3_512(
            password,
            salt,
            rounds,
            len as nat,
        ),
    }
}

/// What parsing a hasher descriptor from the fields `segs` yields: the
/// family tag, then the algorithm name, then two decimal fields.
pub open spec fn spec_parse_hasher(segs: Seq<Seq<u8>>) -> Result<Hasher, PasswordError> {
    if segs.len() < 1 || segs[0] != pbkdf2_tag() {
        Err(PasswordError::HasherComp)
    } else {
        spec_parse_pbkdf2(segs.skip(1))
    }
}

/// The body of a `pbkdf2` descriptor: algorithm name, rounds, length.
pub open spec fn spec_parse_pbkdf2(segs: Seq<Seq<u8>>) -> Result<Hasher, PasswordError> {
    if segs.len() < 1 || spec_algorithm_from_name(segs[0]) is None {
        Err(PasswordError::HasherComp)
    } else if segs.len() < 2 || !(all_digits(segs[1]) && dec_value(segs[1]) <= u32::MAX) {
        Err(PasswordError::HasherComp)
    } else if segs.len() < 3 || !(all_digits(segs[2]) && dec_value(segs[2]) <= usize::MAX) {
        Err(PasswordError::HasherComp)
    } else {
        Ok(
            Hasher::Pbkdf2 {
                algorithm: spec_algorithm_from_name(segs[0]).unwrap(),
                rounds: dec_value(segs[1]) as u32,
                len: dec_value(segs[2]) as usize,
            },
        )
    }
}

impl Hasher {
    /// The configured algorithm.
    pub open spec fn spec_algorithm(self) -> Algorithm {
        match self {
            Hasher::Pbkdf2 { algorithm, .. } => algorithm,
        }
    }

    /// The configured round count.
    pub open spec fn spec_rounds(self) -> u32 {
        match self {
            Hasher::Pbkdf2 { rounds, .. } => rounds,
        }
    }

    /// The configured output length.
    pub open spec fn spec_len(self) -> usize {
        match self {
            Hasher::Pbkdf2 { len, .. } => len,
        }
    }

    pub fn new_pbkdf2(algorithm: Algorithm, rounds: u32, len: usize) -> (h: Hasher)
        ensures
            h == (Hasher::Pbkdf2 { algorithm, rounds, len }),
    {
        Hasher::Pbkdf2 { algorithm, rounds, len }
    }

    /// Derives `self.spec_len()` bytes from the password and salt with
    /// the configured algorithm and rounds.
    pub fn hash(&self, password: &[u8], salt: &[u8]) -> (r: Result<Vec<u8>, HashError>)
        ensures
            r matches Ok(h) && h@ == spec_derived(*self, password@, salt@) && h@.len()
                == self.spec_len(),
    {
        match self {
            Hasher::Pbkdf2 { algorithm, rounds, len } => Self::hash_pbkdf2(
                password,
                salt,
                *algorithm,
                *rounds,
                *len,
            ),
        }
    }

    fn hash_pbkdf2(
        password: &[u8],
        salt: &[u8],
        algorithm: Algorithm,
        rounds: u32,
        len: usize,
    ) -> (r: Result<Vec<u8>, HashError>)
        ensures
            r matches Ok(h) && h@ == spec_derived(
                Hasher::Pbkdf2 { algorithm, rounds, len },
                password@,
                salt@,
            ) && h@.len() == len,
    {
        match algorithm {
            Algorithm::HmacSha3_512 => Ok(derive_pbkdf2_hmac_sha3_512(password, salt, rounds, len)),
        }
    }

    /// Parses a hasher descriptor from the fields `segs[from..]`.
    pub fn parse(segs: &Vec<Vec<u8>>, from: usize) -> (r: Result<Hasher, PasswordError>)
        requires
            from <= segs@.len(),
        ensures
            r == spec_parse_hasher(segs.deep_view().skip(from as int)),
    {
        let ghost dv = segs.deep_view().skip(from as int);
        proof {
            assert(segs.deep_view().len() == segs@.len());
        }
        if segs.len() <= from {
            return Err(PasswordError::HasherComp);
        }
        proof {
            assert(dv[0] =~= segs@[from as int]@);
        }
        let tag: [u8; 6] = [112, 98, 107, 100, 102, 50];
        if bytes_eq(segs[from].as_slice(), tag.as_slice()) {
            proof {
                assert(tag@ =~= pbkdf2_tag());
                assert(dv.skip(1) =~= segs.deep_view().skip(from as int + 1));
            }
            Self::parse_pbkdf2(segs, from + 1)
        } else {
            proof {
                assert(tag@ =~= pbkdf2_tag());
            }
            Err(PasswordError::HasherComp)
        }
    }

    /// Parses the body of a `pbkdf2` descriptor from `segs[from..]`.
    fn parse_pbkdf2(segs: &Vec<Vec<u8>>, from: usize) -> (r: Result<Hasher, PasswordError>)
        requires
            from <= segs@.len(),
        ensures
            r == spec_parse_pbkdf2(segs.deep_view().skip(from as int)),
    {
        let ghost dv = segs.deep_view().skip(from as int);
        proof {
            assert(segs.deep_view().len() == segs@.len());
        }
        if segs.len() <= from {
            return Err(PasswordError::HasherComp);
        }
        proof {
            assert(dv[0] =~= segs@[from as int]@);
        }
        let name: [u8; 13] = [104, 109, 97, 99, 45, 115, 104, 97, 51, 45, 53, 49, 50];
        let algorithm = if bytes_eq(segs[from].as_slice(), name.as_slice()) {
            Algorithm::HmacSha3_512
        } else {
            proof {
                assert(name@ =~= hmac_sha3_512_name());
            }
            return Err(PasswordError::HasherComp);
        };
        proof {
            assert(name@ =~= hmac_sha3_512_name());
        }
        if segs.len() <= from + 1 {
            return Err(PasswordError::HasherComp);
        }
        proof {
            assert(dv[1] =~= segs@[from as int + 1]@);
        }
        let rounds = match parse_u64(segs[from + 1].as_slice()) {
            Some(v) if v <= u32::MAX as u64 => v as u32,
            _ => {
                return Err(PasswordError::HasherComp);
            },
        };
        if segs.len() <= from + 2 {
            return Err(PasswordError::HasherComp);
        }
        proof {
            assert(dv[2] =~= segs@[from as int + 2]@);
        }
        let len = match parse_u64(segs[from + 2].as_slice()) {
            Some(v) if v <= usize::MAX as u64 => v as usize,
            _ => {
                return Err(PasswordError::HasherComp);
            },
        };
        Ok(Hasher::Pbkdf2 { algorithm, rounds, len })
    }
}

/// How a hashing invocation can fail: the derived-buffer length was not
/// acceptable to the configured algorithm. A configuration error, not a
/// runtime one; the supported algorithm accepts every length.
#[derive(Debug, Clone, Copy, PartialEq, Eq, Structural)]
pub enum HashError {
    BufLen(usize),
}

} // verus!
