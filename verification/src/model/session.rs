//! Session-token issuance: unguessable tokens bound to a user and an
//! optional expiry. A token is sixteen bytes of secure randomness as
//! twenty-two characters of unpadded base64url; uniqueness against the
//! session store is won by retrying fresh candidates until the store
//! reports no collision.
//!
//! The store itself is an external collaborator doing I/O, so the live
//! loop runs outside this library: it draws candidates with
//! [`new_token_candidate`], asks the store about each, and the decision
//! over the recorded answers is [`select_fresh_token`].

use vstd::prelude::*;

verus! {

use crate::entropy::random_bytes_16;

/// What unpadded base64url encoding of `data` produces, as text.
pub uninterp spec fn b64url_nopad_of(data: Seq<u8>) -> Seq<char>;

/// The URL-safe base64 alphabet an unpadded token is drawn from.
pub open spec fn is_base64url_char(c: char) -> bool {
    ('A' <= c <= 'Z') || ('a' <= c <= 'z') || ('0' <= c <= '9') || c == '-' || c == '_'
}

/// Relies on base64's `BASE64_URL_SAFE_NO_PAD` engine `encode`: a pure
/// function of the input, one character per six bits of input, rounded
/// up, all from the URL-safe alphabet, with no padding.
#[verifier::external_body]
fn b64_nopad_encode(data: &[u8]) -> (r: String)
    ensures
        r@ == b64url_nopad_of(data@),
        r@.len() == (data@.len() * 4 + 2) / 3,
        forall|i: int| 0 <= i < r@.len() ==> is_base64url_char(#[trigger] r@[i]),
{
    base64::Engine::encode(&base64::prelude::BASE64_URL_SAFE_NO_PAD, data)
}

/// A login session: the opaque token the client holds, the user it
/// authenticates, and the instant it stops being honoured, if any.
/// Instants are integral UTC timestamps; their unit is the store's
/// affair and only their order matters here.
pub struct Session {
    pub token: String,
    pub user_id: i64,
    pub expire_on: Option<i64>,
}

impl Session {
    /// Pairs a store-checked token with its user and optional expiry.
    /// Persisting the result is the session store's job.
    pub fn new(token: String, user_id: i64, expire_on: Option<i64>) -> (s: Session)
        ensures
            s.token == token,
            s.user_id == user_id,
            s.expire_on == expire_on,
    {
        Session { token, user_id, expire_on }
    }

    /// Whether this session has expired at `now`: never without an
    /// expiry, and otherwise exactly when the expiry lies strictly
    /// before `now` — a session expiring at `now` itself still holds.
    pub fn is_expired(&self, now: i64) -> (b: bool)
        ensures
            b == (self.expire_on matches Some(t) && t < now),
    {
        match self.expire_on {
            Some(ts) => now > ts,
            None => false,
        }
    }
}

/// Draws a fresh token candidate: sixteen random bytes, encoded as
/// twenty-two characters of unpadded base64url. Distinct calls draw
/// independent randomness, so nothing relates one candidate to the next.
pub fn new_token_candidate() -> (t: String)
    ensures
        t@.len() == 22,
        forall|i: int| 0 <= i < t@.len() ==> is_base64url_char(#[trigger] t@[i]),
{
    let bytes = random_bytes_16();
    b64_nopad_encode(bytes.as_slice())
}

/// The position of the first store answer that reports no collision.
pub open spec fn first_free(taken: Seq<bool>) -> int
    decreases taken.len(),
{
    if taken.len() == 0 {
        0
    } else if !taken[0] {
        0
    } else {
        1 + first_free(taken.drop_first())
    }
}

proof fn lemma_first_free(taken: Seq<bool>, i: int)
    requires
        0 <= i < taken.len(),
        !taken[i],
        forall|j: int| 0 <= j < i ==> taken[j],
    ensures
        first_free(taken) == i,
    decreases i,
{
    if i > 0 {
        let rest = taken.drop_first();
        assert(forall|j: int| 0 <= j < i - 1 ==> rest[j] == taken[j + 1]);
        lemma_first_free(rest, i - 1);
    }
}

/// The issuer's retry decision over one recorded round of store
/// answers: candidates were drawn in order and the store reported, for
/// each, whether it already holds that token. The first candidate the
/// store does not hold is the token; if the store held every candidate,
/// the round is exhausted and yields none. The walk is bounded by the
/// candidate list, so a finite round of collisions cannot loop forever.
pub fn select_fresh_token(candidates: &Vec<String>, taken: &Vec<bool>) -> (r: Option<String>)
    requires
        candidates@.len() == taken@.len(),
    ensures
        match r {
            Some(t) => {
                let i = first_free(taken@);
                &&& 0 <= i < candidates@.len()
                &&& !taken@[i]
                &&& (forall|j: int| 0 <= j < i ==> taken@[j])
                &&& t == candidates@[i]
            },
            None => forall|j: int| 0 <= j < taken@.len() ==> taken@[j],
        },
{
    let mut i: usize = 0;
    while i < taken.len()
        invariant
            candidates@.len() == taken@.len(),
            i <= taken@.len(),
            forall|j: int| 0 <= j < i ==> taken@[j],
        decreases taken@.len() - i,
    {
        if !taken[i] {
            proof {
                lemma_first_free(taken@, i as int);
            }
            return Some(candidates[i].clone());
        }
        i += 1;
    }
    None
}

} // verus!
