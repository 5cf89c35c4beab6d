//! Credential providers: the extension point through which callers hand
//! credentials to the client, and the environment-backed provider's
//! suffix bookkeeping.

use vstd::prelude::*;

verus! {

/// A source of credentials.  Implementations live with the caller; the
/// environment-backed one reads process variables and therefore belongs
/// to the unverified rim.
pub trait SecurityProvider {
    fn security(&self) -> SecurityHolder;
}

/// An access-key / secret-key pair with an optional session token, as a
/// provider hands it out.
#[derive(Debug, Default, Clone)]
pub struct SecurityHolder {
    ak: String,
    sk: String,
    security_token: String,
}

impl SecurityHolder {
    /// View of the access key.
    pub closed spec fn ak_spec(&self) -> Seq<char> {
        self.ak@
    }

    /// View of the secret key.
    pub closed spec fn sk_spec(&self) -> Seq<char> {
        self.sk@
    }

    /// View of the session token.
    pub closed spec fn token_spec(&self) -> Seq<char> {
        self.security_token@
    }

    pub fn new(ak: String, sk: String, security_token: String) -> (r: SecurityHolder)
        ensures
            r.ak_spec() == ak@,
            r.sk_spec() == sk@,
            r.token_spec() == security_token@,
    {
        SecurityHolder { ak, sk, security_token }
    }

    pub fn ak(&self) -> (r: &str)
        ensures
            r@ == self.ak_spec(),
    {
        self.ak.as_str()
    }

    pub fn sk(&self) -> (r: &str)
        ensures
            r@ == self.sk_spec(),
    {
        self.sk.as_str()
    }

    pub fn security_token(&self) -> (r: &str)
        ensures
            r@ == self.token_spec(),
    {
        self.security_token.as_str()
    }
}

/// Bookkeeping of the environment-backed provider: it remembers a suffix
/// that is appended to every value read.  Reading the environment itself
/// is the unverified rim's job.
pub struct EnvSecurityProvider {
    sh: SecurityHolder,
    suffix: String,
}

impl EnvSecurityProvider {
    /// View of the stored suffix.
    pub closed spec fn suffix_spec(&self) -> Seq<char> {
        self.suffix@
    }

    /// A non-empty suffix is stored with a leading underscore; an empty
    /// one is kept as it is.
    pub fn new(suffix: String) -> (r: EnvSecurityProvider)
        ensures
            suffix@.len() == 0 ==> r.suffix_spec() == suffix@,
            suffix@.len() > 0 ==> r.suffix_spec() == "_"@ + suffix@,
    {
        let suffix = if !suffix.as_str().is_empty() {
            let mut s = String::from_str("_");
            s.append(suffix.as_str());
            s
        } else {
            suffix
        };
        EnvSecurityProvider {
            sh: SecurityHolder::new(String::new(), String::new(), String::new()),
            suffix,
        }
    }

    /// The stored suffix.
    pub fn suffix(&self) -> (r: &str)
        ensures
            r@ == self.suffix_spec(),
    {
        self.suffix.as_str()
    }
}

} // verus!
