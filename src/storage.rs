use vstd::prelude::*;
use vstd::string::*;

use crate::canonical::has_prefix;

verus! {

/// Settings of the S3-compatible object store.
#[derive(Debug)]
pub struct S3Config {
    pub endpoint: String,
    pub access_key: String,
    pub secret_key: String,
    pub bucket_name: String,
    pub region: String,
}

/// The given setting, or the default when it is not set.
pub open spec fn setting_or(value: Option<String>, default: &str) -> Seq<char> {
    match value {
        Some(v) => v@,
        None => default@,
    }
}

fn setting(value: Option<String>, default: &str) -> (r: String)
    ensures
        r@ == setting_or(value, default),
{
    match value {
        Some(v) => v,
        None => String::from_str(default),
    }
}

impl S3Config {
    /// Settings from the values that are set; each missing one takes its
    /// default: a local endpoint on port 9000, "admin" / "password"
    /// credentials, the "slatehub" bucket and the "us-east-1" region.
    pub fn from_settings(
        endpoint: Option<String>,
        access_key: Option<String>,
        secret_key: Option<String>,
        bucket_name: Option<String>,
        region: Option<String>,
    ) -> (r: S3Config)
        ensures
            r.endpoint@ == setting_or(endpoint, "http://localhost:9000"),
            r.access_key@ == setting_or(access_key, "admin"),
            r.secret_key@ == setting_or(secret_key, "password"),
            r.bucket_name@ == setting_or(bucket_name, "slatehub"),
            r.region@ == setting_or(region, "us-east-1"),
    {
        S3Config {
            endpoint: setting(endpoint, "http://localhost:9000"),
            access_key: setting(access_key, "admin"),
            secret_key: setting(secret_key, "password"),
            bucket_name: setting(bucket_name, "slatehub"),
            region: setting(region, "us-east-1"),
        }
    }
}

/// Objects under these prefixes are readable by anyone.
pub open spec fn is_public_key_spec(key: Seq<char>) -> bool {
    has_prefix(key, "profiles/"@) || has_prefix(key, "organizations/"@)
}

fn starts_with(s: &str, p: &str) -> (r: bool)
    ensures
        r == has_prefix(s@, p@),
{
    let n = p.unicode_len();
    if n > s.unicode_len() {
        return false;
    }
    let mut i: usize = 0;
    while i < n
        invariant
            n == p@.len(),
            n <= s@.len(),
            i <= n,
            forall|j: int| 0 <= j < i ==> s@[j] == p@[j],
        decreases n - i,
    {
        if s.get_char(i) != p.get_char(i) {
            assert(s@.subrange(0, n as int)[i as int] == s@[i as int]);
            return false;
        }
        i = i + 1;
    }
    assert(s@.subrange(0, n as int) =~= p@);
    true
}

/// Whether an object is uploaded publicly readable: profile images and
/// organization logos are.
pub fn is_public_key(key: &str) -> (r: bool)
    ensures
        r == is_public_key_spec(key@),
{
    starts_with(key, "profiles/") || starts_with(key, "organizations/")
}

/// The address of a stored object: endpoint, bucket and key, joined with "/".
pub fn object_url(config: &S3Config, key: &str) -> (r: String)
    ensures
        r@ == config.endpoint@ + "/"@ + config.bucket_name@ + "/"@ + key@,
{
    let mut r = String::from_str(config.endpoint.as_str());
    r.append("/");
    r.append(config.bucket_name.as_str());
    r.append("/");
    r.append(key);
    r
}

pub const POLICY_HEAD: &'static str = "{\n                \"Version\": \"2012-10-17\",\n                \"Statement\": [\n                    {\n                        \"Effect\": \"Allow\",\n                        \"Principal\": {\"AWS\": [\"*\"]},\n                        \"Action\": [\"s3:GetObject\"],\n                        \"Resource\": [\"arn:aws:s3:::";

pub const POLICY_MIDDLE: &'static str = "/profiles/*\"]\n                    },\n                    {\n                        \"Effect\": \"Allow\",\n                        \"Principal\": {\"AWS\": [\"*\"]},\n                        \"Action\": [\"s3:GetObject\"],\n                        \"Resource\": [\"arn:aws:s3:::";

pub const POLICY_TAIL: &'static str = "/organizations/*\"]\n                    }\n                ]\n            }";

/// The bucket policy that lets anyone read the objects under "profiles/"
/// and "organizations/" of the bucket.
pub open spec fn public_read_policy_spec(bucket: Seq<char>) -> Seq<char> {
    POLICY_HEAD@ + bucket + POLICY_MIDDLE@ + bucket + POLICY_TAIL@
}

/// The public-read policy document of a bucket.
pub fn public_read_policy(bucket: &str) -> (r: String)
    ensures
        r@ == public_read_policy_spec(bucket@),
{
    let mut r = String::from_str(POLICY_HEAD);
    r.append(bucket);
    r.append(POLICY_MIDDLE);
    r.append(bucket);
    r.append(POLICY_TAIL);
    r
}

} // verus!
