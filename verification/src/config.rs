//! Client configuration: credentials, endpoint, signature flavour, and the
//! canonical-resource construction with its fixed whitelist of signable
//! sub-resource query parameters.

use crate::strutil::{join_seq, join_with, str_eq};
use core::time::Duration;
use vstd::prelude::*;

verus! {

/// Relies on `core::time::Duration::from_secs` from std; the value is
/// carried opaquely and only handed back to the transport layer.
pub assume_specification[ Duration::from_secs ](secs: u64) -> Duration;

/// Relies on `Clone` for `core::time::Duration` from std, which copies
/// the value.
pub assume_specification[ <Duration as Clone>::clone ](d: &Duration) -> (r: Duration)
    ensures
        r == *d,
;

/// Which signing dialect the client speaks.
#[derive(Debug, Clone)]
pub enum SignatureType {
    V2,
    V4,
    OBS,
}

/// An access-key / secret-key pair with an optional session token.
#[derive(Debug, Default, Clone)]
pub struct SecurityHolder {
    ak: String,
    sk: String,
    security_token: String,
}

impl SecurityHolder {
    /// View of the access key.
    pub closed spec fn ak_spec(&self) -> Seq<char> {
        self.ak@
    }

    /// View of the secret key.
    pub closed spec fn sk_spec(&self) -> Seq<char> {
        self.sk@
    }

    /// View of the session token.
    pub closed spec fn token_spec(&self) -> Seq<char> {
        self.security_token@
    }

    pub fn new(ak: String, sk: String, security_token: String) -> (r: SecurityHolder)
        ensures
            r.ak_spec() == ak@,
            r.sk_spec() == sk@,
            r.token_spec() == security_token@,
    {
        SecurityHolder { ak, sk, security_token }
    }

    pub fn ak(&self) -> (r: &str)
        ensures
            r@ == self.ak_spec(),
    {
        self.ak.as_str()
    }

    pub fn sk(&self) -> (r: &str)
        ensures
            r@ == self.sk_spec(),
    {
        self.sk.as_str()
    }

    pub fn security_token(&self) -> (r: &str)
        ensures
            r@ == self.token_spec(),
    {
        self.security_token.as_str()
    }

    /// A copy of this credential, equal to it.
    pub fn clone_holder(&self) -> (r: SecurityHolder)
        ensures
            r == *self,
    {
        SecurityHolder {
            ak: self.ak.clone(),
            sk: self.sk.clone(),
            security_token: self.security_token.clone(),
        }
    }
}

/// A credential is usable when both of its key fields are non-empty.
pub open spec fn spec_valid_holder(h: SecurityHolder) -> bool {
    h.ak_spec().len() > 0 && h.sk_spec().len() > 0
}

/// The first usable credential, if any: credential selection is by
/// priority order.
pub open spec fn spec_first_valid(providers: Seq<SecurityHolder>) -> Option<SecurityHolder>
    decreases providers.len(),
{
    if providers.len() == 0 {
        None
    } else if spec_valid_holder(providers[0]) {
        Some(providers[0])
    } else {
        spec_first_valid(providers.drop_first())
    }
}

/// The fixed table of sub-resource query-parameter names that the service
/// folds into its own signature computation.  Everything else stays out of
/// the canonical resource.
pub open spec fn is_sub_resource_name(s: Seq<char>) -> bool {
    ||| s == "CDNNotifyConfiguration"@
    ||| s == "acl"@
    ||| s == "append"@
    ||| s == "attname"@
    ||| s == "backtosource"@
    ||| s == "cors"@
    ||| s == "customdomain"@
    ||| s == "delete"@
    ||| s == "deletebucket"@
    ||| s == "directcoldaccess"@
    ||| s == "encryption"@
    ||| s == "inventory"@
    ||| s == "length"@
    ||| s == "lifecycle"@
    ||| s == "location"@
    ||| s == "logging"@
    ||| s == "metadata"@
    ||| s == "mirrorBackToSource"@
    ||| s == "modify"@
    ||| s == "name"@
    ||| s == "notification"@
    ||| s == "obscompresspolicy"@
    ||| s == "orchestration"@
    ||| s == "partNumber"@
    ||| s == "policy"@
    ||| s == "position"@
    ||| s == "quota"@
    ||| s == "rename"@
    ||| s == "replication"@
    ||| s == "response-cache-control"@
    ||| s == "response-content-disposition"@
    ||| s == "response-content-encoding"@
    ||| s == "response-content-language"@
    ||| s == "response-content-type"@
    ||| s == "response-expires"@
    ||| s == "restore"@
    ||| s == "storageClass"@
    ||| s == "storagePolicy"@
    ||| s == "storageinfo"@
    ||| s == "tagging"@
    ||| s == "torrent"@
    ||| s == "truncate"@
    ||| s == "uploadId"@
    ||| s == "uploads"@
    ||| s == "versionId"@
    ||| s == "versioning"@
    ||| s == "versions"@
    ||| s == "website"@
    ||| s == "x-image-process"@
    ||| s == "x-image-save-bucket"@
    ||| s == "x-image-save-object"@
    ||| s == "x-obs-security-token"@
    ||| s == "object-lock"@
    ||| s == "retention"@
}

/// Exec counterpart of [`is_sub_resource_name`].
pub fn is_sub_resource(s: &str) -> (r: bool)
    ensures
        r == is_sub_resource_name(s@),
{
    str_eq(s, "CDNNotifyConfiguration") || str_eq(s, "acl") || str_eq(s, "append") || str_eq(
        s,
        "attname",
    ) || str_eq(s, "backtosource") || str_eq(s, "cors") || str_eq(s, "customdomain") || str_eq(
        s,
        "delete",
    ) || str_eq(s, "deletebucket") || str_eq(s, "directcoldaccess") || str_eq(s, "encryption")
        || str_eq(s, "inventory") || str_eq(s, "length") || str_eq(s, "lifecycle") || str_eq(
        s,
        "location",
    ) || str_eq(s, "logging") || str_eq(s, "metadata") || str_eq(s, "mirrorBackToSource") || str_eq(
        s,
        "modify",
    ) || str_eq(s, "name") || str_eq(s, "notification") || str_eq(s, "obscompresspolicy") || str_eq(
        s,
        "orchestration",
    ) || str_eq(s, "partNumber") || str_eq(s, "policy") || str_eq(s, "position") || str_eq(
        s,
        "quota",
    ) || str_eq(s, "rename") || str_eq(s, "replication") || str_eq(s, "response-cache-control")
        || str_eq(s, "response-content-disposition") || str_eq(s, "response-content-encoding")
        || str_eq(s, "response-content-language") || str_eq(s, "response-content-type") || str_eq(
        s,
        "response-expires",
    ) || str_eq(s, "restore") || str_eq(s, "storageClass") || str_eq(s, "storagePolicy") || str_eq(
        s,
        "storageinfo",
    ) || str_eq(s, "tagging") || str_eq(s, "torrent") || str_eq(s, "truncate") || str_eq(
        s,
        "uploadId",
    ) || str_eq(s, "uploads") || str_eq(s, "versionId") || str_eq(s, "versioning") || str_eq(
        s,
        "versions",
    ) || str_eq(s, "website") || str_eq(s, "x-image-process") || str_eq(s, "x-image-save-bucket")
        || str_eq(s, "x-image-save-object") || str_eq(s, "x-obs-security-token") || str_eq(
        s,
        "object-lock",
    ) || str_eq(s, "retention")
}

/// A canonical resource is carried as a plain string.
pub type CanonicalizedResource = String;

/// Views of a list of query parameters.
pub open spec fn params_view(s: Seq<(String, String)>) -> Seq<(Seq<char>, Seq<char>)> {
    s.map_values(|p: (String, String)| (p.0@, p.1@))
}

/// `key=value` rendering of one query parameter.
pub open spec fn render_param(p: (Seq<char>, Seq<char>)) -> Seq<char> {
    p.0 + "="@ + p.1
}

/// The `key=value` renderings of the whitelisted parameters, in input
/// order.
pub open spec fn spec_signed_params(ps: Seq<(Seq<char>, Seq<char>)>) -> Seq<Seq<char>>
    decreases ps.len(),
{
    if ps.len() == 0 {
        Seq::<Seq<char>>::empty()
    } else {
        let rest = spec_signed_params(ps.drop_first());
        if is_sub_resource_name(ps[0].0) {
            seq![render_param(ps[0])] + rest
        } else {
            rest
        }
    }
}

/// Query-string part of a canonical resource: empty when no parameter is
/// whitelisted, else `?` followed by the whitelisted pairs joined with
/// `&`.
pub open spec fn spec_query(ps: Seq<(Seq<char>, Seq<char>)>) -> Seq<char> {
    let rendered = spec_signed_params(ps);
    if rendered.len() == 0 {
        Seq::<char>::empty()
    } else {
        "?"@ + join_seq(rendered, "&"@)
    }
}

/// The canonical resource of a request: `/` when no bucket is named or
/// under the V4 placeholder policy, else `/{bucket}/{key}` followed by
/// the whitelisted query parameters.
pub open spec fn spec_canonical_resource(
    bucket: Seq<char>,
    key: Seq<char>,
    params: Option<Seq<(Seq<char>, Seq<char>)>>,
    st: SignatureType,
) -> Seq<char> {
    if bucket.len() == 0 {
        "/"@
    } else if st is V4 {
        "/"@
    } else {
        let base = "/"@ + bucket + "/"@ + key;
        match params {
            Some(ps) => base + spec_query(ps),
            None => base,
        }
    }
}

/// Path part of the canonical URL: `/` for no bucket or under V4, else
/// `/{bucket}/` or `/{bucket}/{uri}`.
pub open spec fn spec_canonicalized_url(bucket: Seq<char>, uri: Seq<char>, st: SignatureType) -> Seq<
    char,
> {
    if bucket.len() == 0 {
        "/"@
    } else if st is V4 {
        "/"@
    } else if uri.len() == 0 {
        "/"@ + bucket + "/"@
    } else {
        "/"@ + bucket + "/"@ + uri
    }
}

/// Everything a client needs to know to sign and address requests.
#[derive(Debug, Clone)]
pub struct Config {
    pub security_providers: Vec<SecurityHolder>,
    pub endpoint: String,
    pub is_secure: bool,
    pub region: String,
    pub timeout: Duration,
    pub signature_type: SignatureType,
}

impl Config {
    /// View of the configured credentials, in priority order.
    pub open spec fn spec_providers(&self) -> Seq<SecurityHolder> {
        self.security_providers@
    }

    /// The configured signing dialect.
    pub open spec fn spec_signature_type(&self) -> SignatureType {
        self.signature_type
    }

    /// View of the endpoint host.
    pub open spec fn spec_endpoint(&self) -> Seq<char> {
        self.endpoint@
    }

    /// The configured credentials, in priority order.
    pub fn security_providers(&self) -> (r: &Vec<SecurityHolder>)
        ensures
            r@ == self.spec_providers(),
    {
        &self.security_providers
    }

    /// Builds the canonical resource for the string-to-sign.  Only
    /// whitelisted sub-resource parameters enter the result; everything
    /// else is left unsigned.
    pub fn format_urls(
        &self,
        bucket_name: &str,
        object_key: &str,
        params: Option<&Vec<(String, String)>>,
    ) -> (r: CanonicalizedResource)
        ensures
            r@ == spec_canonical_resource(
                bucket_name@,
                object_key@,
                match params {
                    Some(ps) => Some(params_view(ps@)),
                    None => None,
                },
                self.spec_signature_type(),
            ),
    {
        if bucket_name.unicode_len() == 0 {
            return "/".to_owned();
        }
        if matches!(self.signature_type, SignatureType::V4) {
            return "/".to_owned();
        }
        let mut r = "/".to_owned();
        r.append(bucket_name);
        r.append("/");
        r.append(object_key);
        match params {
            Some(ps) => {
                let rendered = signed_params(ps);
                if rendered.len() > 0 {
                    r.append("?");
                    let joined = join_with(&rendered, "&");
                    r.append(joined.as_str());
                }
            },
            None => {},
        }
        r
    }

    /// Builds the canonical URL path for a bucket and key.
    pub fn canonicalized_url(&self, bucket_name: &str, uri: &str) -> (r: String)
        ensures
            r@ == spec_canonicalized_url(bucket_name@, uri@, self.spec_signature_type()),
    {
        if bucket_name.unicode_len() == 0 {
            return "/".to_owned();
        }
        if matches!(self.signature_type, SignatureType::V4) {
            return "/".to_owned();
        }
        let mut r = "/".to_owned();
        r.append(bucket_name);
        r.append("/");
        r.append(uri);
        r
    }

    pub(crate) fn set_security_providers(&mut self, security_providers: Vec<SecurityHolder>)
        ensures
            *final(self) == (Config { security_providers, ..*old(self) }),
    {
        self.security_providers = security_providers;
    }

    pub(crate) fn set_endpoint(&mut self, endpoint: String)
        ensures
            *final(self) == (Config { endpoint, ..*old(self) }),
    {
        self.endpoint = endpoint;
    }

    pub(crate) fn set_is_secure(&mut self, is_secure: bool)
        ensures
            *final(self) == (Config { is_secure, ..*old(self) }),
    {
        self.is_secure = is_secure;
    }

    pub(crate) fn set_region(&mut self, region: String)
        ensures
            *final(self) == (Config { region, ..*old(self) }),
    {
        self.region = region;
    }

    pub(crate) fn set_timeout(&mut self, timeout: Duration)
        ensures
            *final(self) == (Config { timeout, ..*old(self) }),
    {
        self.timeout = timeout;
    }

    pub(crate) fn set_signature_type(&mut self, signature_type: SignatureType)
        ensures
            *final(self) == (Config { signature_type, ..*old(self) }),
    {
        self.signature_type = signature_type;
    }

    pub(crate) fn timeout(&self) -> (r: Duration)
        ensures
            r == self.timeout,
    {
        self.timeout
    }

    /// The bare endpoint host.
    pub fn endpoint(&self) -> (r: &str)
        ensures
            r@ == self.spec_endpoint(),
    {
        self.endpoint.as_str()
    }
}

/// Renders the whitelisted parameters to `key=value` strings, in input
/// order.
fn signed_params(ps: &Vec<(String, String)>) -> (r: Vec<String>)
    ensures
        r.deep_view() == spec_signed_params(params_view(ps@)),
{
    let ghost all = params_view(ps@);
    let mut r: Vec<String> = Vec::new();
    proof {
        assert(all.skip(0) =~= all);
        assert(r.deep_view() =~= Seq::<Seq<char>>::empty());
        assert(Seq::<Seq<char>>::empty() + spec_signed_params(all) =~= spec_signed_params(all));
    }
    let n = ps.len();
    let mut i: usize = 0;
    while i < n
        invariant
            n == ps.len(),
            all == params_view(ps@),
            all.len() == n,
            i <= n,
            r.deep_view() + spec_signed_params(all.skip(i as int)) == spec_signed_params(all),
        decreases n - i,
    {
        let ghost pre = r.deep_view();
        proof {
            assert(all.skip(i as int).drop_first() =~= all.skip(i + 1));
            assert(all.skip(i as int)[0] == all[i as int]);
        }
        if is_sub_resource(ps[i].0.as_str()) {
            let mut line = ps[i].0.clone();
            line.append("=");
            line.append(ps[i].1.as_str());
            proof {
                assert(all[i as int] == (ps@[i as int].0@, ps@[i as int].1@));
                assert(line@ =~= render_param(all[i as int]));
            }
            r.push(line);
            proof {
                assert(r.deep_view() =~= pre.push(render_param(all[i as int])));
                assert(pre.push(render_param(all[i as int])) + spec_signed_params(
                    all.skip(i + 1),
                ) =~= pre + (seq![render_param(all[i as int])] + spec_signed_params(
                    all.skip(i + 1),
                )));
            }
        }
        i = i + 1;
    }
    proof {
        assert(all.skip(n as int) =~= Seq::<(Seq<char>, Seq<char>)>::empty());
        assert(r.deep_view() + Seq::<Seq<char>>::empty() =~= r.deep_view());
    }
    r
}

/// Input position that the signed query pair at position `j` renders.
pub open spec fn signed_param_source(ps: Seq<(Seq<char>, Seq<char>)>, j: int) -> int
    decreases ps.len(),
{
    if ps.len() == 0 {
        0
    } else if is_sub_resource_name(ps[0].0) {
        if j == 0 {
            0
        } else {
            1 + signed_param_source(ps.drop_first(), j - 1)
        }
    } else {
        1 + signed_param_source(ps.drop_first(), j)
    }
}

/// The whitelist decides membership in the signed query pairs: the
/// rendering of every whitelisted input pair appears among them, and each
/// of them renders a whitelisted input pair.
pub proof fn lemma_signed_params_membership(ps: Seq<(Seq<char>, Seq<char>)>)
    ensures
        forall|i: int|
            #![trigger render_param(ps[i])]
            0 <= i < ps.len() && is_sub_resource_name(ps[i].0) ==> spec_signed_params(ps).contains(
                render_param(ps[i]),
            ),
        forall|j: int|
            #![trigger signed_param_source(ps, j)]
            0 <= j < spec_signed_params(ps).len() ==> {
                let i = signed_param_source(ps, j);
                &&& 0 <= i < ps.len()
                &&& is_sub_resource_name(ps[i].0)
                &&& spec_signed_params(ps)[j] == render_param(ps[i])
            },
    decreases ps.len(),
{
    if ps.len() > 0 {
        lemma_signed_params_membership(ps.drop_first());
        let rest = spec_signed_params(ps.drop_first());
        assert forall|i: int|
            0 <= i < ps.len() && is_sub_resource_name(
                ps[i].0,
            ) implies spec_signed_params(ps).contains(render_param(ps[i])) by {
            if i == 0 {
                assert(spec_signed_params(ps)[0] == render_param(ps[0]));
            } else {
                assert(ps.drop_first()[i - 1] == ps[i]);
                assert(rest.contains(render_param(ps.drop_first()[i - 1])));
                let j = choose|j: int| 0 <= j < rest.len() && rest[j] == render_param(ps[i]);
                if is_sub_resource_name(ps[0].0) {
                    assert(spec_signed_params(ps)[j + 1] == render_param(ps[i]));
                } else {
                    assert(spec_signed_params(ps)[j] == render_param(ps[i]));
                }
            }
        }
        assert forall|j: int|
            #![trigger signed_param_source(ps, j)]
        0 <= j < spec_signed_params(ps).len() implies {
            let i = signed_param_source(ps, j);
            &&& 0 <= i < ps.len()
            &&& is_sub_resource_name(ps[i].0)
            &&& spec_signed_params(ps)[j] == render_param(ps[i])
        } by {
            if is_sub_resource_name(ps[0].0) {
                assert(spec_signed_params(ps) == seq![render_param(ps[0])] + rest);
                if j > 0 {
                    assert(signed_param_source(ps.drop_first(), j - 1) == signed_param_source(
                        ps,
                        j,
                    ) - 1);
                    assert(ps.drop_first()[signed_param_source(ps, j) - 1] == ps[
                        signed_param_source(ps, j)]);
                    assert(spec_signed_params(ps)[j] == rest[j - 1]);
                }
            } else {
                assert(spec_signed_params(ps) == rest);
                assert(signed_param_source(ps.drop_first(), j) == signed_param_source(ps, j) - 1);
                assert(ps.drop_first()[signed_param_source(ps, j) - 1] == ps[signed_param_source(
                    ps,
                    j,
                )]);
            }
        }
    }
}

} // verus!
