//! The configuration builder: collects endpoint, region, credentials and
//! signing dialect, and hands a finished [`Config`] to the transport
//! layer.

use crate::config::{Config, SecurityHolder, SignatureType};
use crate::strutil::{has_prefix, is_prefix_of};
use core::time::Duration;
use vstd::prelude::*;

verus! {

/// The endpoint value with a leading URL scheme removed.
pub open spec fn spec_strip_scheme(s: Seq<char>) -> Seq<char> {
    if is_prefix_of("https://"@, s) {
        s.skip("https://"@.len() as int)
    } else if is_prefix_of("http://"@, s) {
        s.skip("http://"@.len() as int)
    } else {
        s
    }
}

/// Drops a leading `https://` or `http://` from an endpoint value.
fn strip_scheme(value: &str) -> (r: String)
    ensures
        r@ == spec_strip_scheme(value@),
{
    proof {
        reveal_strlit("https://");
        reveal_strlit("http://");
    }
    if has_prefix(value, "https://") {
        let n = value.unicode_len();
        value.substring_char(8, n).to_owned()
    } else if has_prefix(value, "http://") {
        let n = value.unicode_len();
        value.substring_char(7, n).to_owned()
    } else {
        value.to_owned()
    }
}

/// Builds a [`Config`] step by step.  Fresh builders start with no
/// credentials, an empty endpoint and region, a three-second timeout and
/// the V2 signing dialect.
#[derive(Debug)]
pub struct ClientBuilder {
    config: Config,
}

impl ClientBuilder {
    /// The configuration built so far.
    pub closed spec fn spec_config(&self) -> Config {
        self.config
    }

    pub fn new() -> (r: ClientBuilder)
        ensures
            r.spec_config().security_providers@ == Seq::<SecurityHolder>::empty(),
            r.spec_config().endpoint@ == Seq::<char>::empty(),
            r.spec_config().is_secure == false,
            r.spec_config().region@ == Seq::<char>::empty(),
            r.spec_config().signature_type is V2,
    {
        let r = ClientBuilder {
            config: Config {
                security_providers: Vec::new(),
                endpoint: String::new(),
                is_secure: false,
                region: String::new(),
                timeout: Duration::from_secs(3),
                signature_type: SignatureType::V2,
            },
        };
        assert(r.spec_config().security_providers@ =~= Seq::<SecurityHolder>::empty());
        r
    }

    /// Selects the signing dialect.
    pub fn signature_type(self, st: SignatureType) -> (r: ClientBuilder)
        ensures
            r.spec_config() == (Config { signature_type: st, ..self.spec_config() }),
    {
        let mut b = self;
        b.config.set_signature_type(st);
        b
    }

    /// Replaces the configured credentials.
    pub fn security_providers(self, sps: Vec<SecurityHolder>) -> (r: ClientBuilder)
        ensures
            r.spec_config() == (Config { security_providers: sps, ..self.spec_config() }),
    {
        let mut b = self;
        b.config.set_security_providers(sps);
        b
    }

    /// Sets the endpoint; a leading `https://` or `http://` is dropped,
    /// so all three spellings of an endpoint name the same host.
    pub fn endpoint(self, value: &str) -> (r: ClientBuilder)
        ensures
            r.spec_config().endpoint@ == spec_strip_scheme(value@),
            r.spec_config().security_providers == self.spec_config().security_providers,
            r.spec_config().is_secure == self.spec_config().is_secure,
            r.spec_config().region == self.spec_config().region,
            r.spec_config().timeout == self.spec_config().timeout,
            r.spec_config().signature_type == self.spec_config().signature_type,
    {
        let mut b = self;
        let stripped = strip_scheme(value);
        b.config.set_endpoint(stripped);
        b
    }

    /// Appends a credential made of an access key and a secret key, with
    /// no session token.
    pub fn security_provider(self, ak: &str, sk: &str) -> (r: ClientBuilder)
        ensures
            ({
                let ps = r.spec_config().security_providers@;
                let old_ps = self.spec_config().security_providers@;
                &&& ps.len() == old_ps.len() + 1
                &&& ps.take(old_ps.len() as int) == old_ps
                &&& ps.last().ak_spec() == ak@
                &&& ps.last().sk_spec() == sk@
                &&& ps.last().token_spec() == Seq::<char>::empty()
            }),
            r.spec_config().endpoint == self.spec_config().endpoint,
            r.spec_config().is_secure == self.spec_config().is_secure,
            r.spec_config().region == self.spec_config().region,
            r.spec_config().timeout == self.spec_config().timeout,
            r.spec_config().signature_type == self.spec_config().signature_type,
    {
        let mut b = self;
        let holder = SecurityHolder::new(ak.to_owned(), sk.to_owned(), String::new());
        b.config.security_providers.push(holder);
        assert(b.spec_config().security_providers@.take(
            self.spec_config().security_providers@.len() as int,
        ) =~= self.spec_config().security_providers@);
        b
    }

    /// Sets the transport timeout.
    pub fn timeout(self, duration: Duration) -> (r: ClientBuilder)
        ensures
            r.spec_config() == (Config { timeout: duration, ..self.spec_config() }),
    {
        let mut b = self;
        b.config.set_timeout(duration);
        b
    }

    /// Sets the region.
    pub fn region(self, value: &str) -> (r: ClientBuilder)
        ensures
            r.spec_config() == (Config { region: r.spec_config().region, ..self.spec_config() }),
            r.spec_config().region@ == value@,
    {
        let mut b = self;
        b.config.set_region(value.to_owned());
        b
    }

    /// Chooses between secure and plain transport.
    pub fn is_secure(self, value: bool) -> (r: ClientBuilder)
        ensures
            r.spec_config() == (Config { is_secure: value, ..self.spec_config() }),
    {
        let mut b = self;
        b.config.set_is_secure(value);
        b
    }

    /// Finishes the builder, handing out the configuration for the
    /// transport layer to wrap.
    pub fn build_config(self) -> (r: Config)
        ensures
            r == self.spec_config(),
    {
        self.config
    }
}

} // verus!
