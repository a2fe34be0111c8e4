//! The login form's data and outcome: how a submitted identifier is
//! classified and how an attempt's status is reported back in the
//! redirect query.

use vstd::prelude::*;

verus! {

use vstd::string::StringExecFns;
use vstd::string::StrSliceExecFns;

/// What a login form submits: an identifier and a plaintext password.
#[derive(Debug, Clone)]
pub struct LoginData {
    pub id: String,
    pub password: String,
}

impl LoginData {
    /// How the identifier should be looked up: as an email when it
    /// contains `'@'`, as a user name otherwise.
    pub fn kind(&self) -> (k: LoginKind)
        ensures
            k == (if self.id@.contains('@') {
                LoginKind::Email
            } else {
                LoginKind::Username
            }),
    {
        let s = self.id.as_str();
        let n = s.unicode_len();
        let mut i: usize = 0;
        while i < n
            invariant
                n == s@.len(),
                s@ == self.id@,
                i <= n,
                forall|j: int| 0 <= j < i ==> s@[j] != '@',
            decreases n - i,
        {
            if s.get_char(i) == '@' {
                return LoginKind::Email;
            }
            i += 1;
        }
        LoginKind::Username
    }
}

/// Which lookup a login identifier asks for.
#[derive(Debug, Clone, Copy, PartialEq, Eq, Structural)]
pub enum LoginKind {
    Username,
    Email,
}

/// How a login attempt ended: wrong credentials, an already-logged-in
/// client, or success.
#[derive(Debug, Clone, Copy, PartialEq, Eq, Structural)]
pub enum LoginStatus {
    Failure,
    Duplicate,
    Success,
}

impl LoginStatus {
    /// The text of this status in a redirect query.
    pub open spec fn spec_text(self) -> Seq<char> {
        match self {
            LoginStatus::Failure => "failure"@,
            LoginStatus::Success => "success"@,
            LoginStatus::Duplicate => "duplicate"@,
        }
    }

    /// Renders this status as the query fragment `status=<text>`.
    pub fn into_query(self) -> (r: String)
        ensures
            r@ == "status="@ + self.spec_text(),
    {
        let tail = match self {
            LoginStatus::Failure => "failure",
            LoginStatus::Success => "success",
            LoginStatus::Duplicate => "duplicate",
        };
        String::from_str("status=").concat(tail)
    }
}

impl From<bool> for LoginStatus {
    /// A comparison result as a status: success exactly on `true`.
    fn from(value: bool) -> (r: Self) {
        if value {
            LoginStatus::Success
        } else {
            LoginStatus::Failure
        }
    }
}

impl vstd::std_specs::convert::FromSpecImpl<bool> for LoginStatus {
    open spec fn obeys_from_spec() -> bool {
        true
    }

    open spec fn from_spec(v: bool) -> Self {
        if v {
            LoginStatus::Success
        } else {
            LoginStatus::Failure
        }
    }
}

} // verus!
