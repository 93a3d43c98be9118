//! Configuration of a provisioning session, and the names of the resources
//! it creates.
use vstd::prelude::*;
use crate::bootstrap::random_bytes;
use crate::ledger::{CleanupResources, Tags};

verus! {

/// Opens every name of a created resource.
pub const NAME_PREFIX: &'static str = "aws-throwaway-";

/// How a provisioning session is set up: its cleanup scope, its addressing
/// mode, and the network, subnet and security group it uses when given.
pub struct AwsBuilder {
    pub cleanup: CleanupResources,
    pub use_public_addresses: bool,
    pub vpc_id: Option<String>,
    pub subnet_id: Option<String>,
    pub security_group_id: Option<String>,
}

impl AwsBuilder {
    /// The default configuration under the cleanup scope `cleanup`: public
    /// addresses, default network and subnet, a new security group.
    pub fn new(cleanup: CleanupResources) -> (r: AwsBuilder)
        ensures
            r.cleanup == cleanup,
            r.use_public_addresses,
            r.vpc_id.is_none(),
            r.subnet_id.is_none(),
            r.security_group_id.is_none(),
    {
        AwsBuilder { cleanup, use_public_addresses: true, vpc_id: None, subnet_id: None, security_group_id: None }
    }

    /// Connect to the public address (`true`) or the private address of the
    /// machines created.
    pub fn use_public_addresses(self, use_public_addresses: bool) -> (r: Self)
        ensures
            r == (AwsBuilder { use_public_addresses, ..self }),
    {
        AwsBuilder { use_public_addresses, ..self }
    }

    /// Put all resources into this network, or into the default one.
    pub fn use_vpc_id(self, vpc_id: Option<String>) -> (r: Self)
        ensures
            r == (AwsBuilder { vpc_id, ..self }),
    {
        AwsBuilder { vpc_id, ..self }
    }

    /// Put all machines into this subnet, or into the default one of the zone.
    pub fn use_subnet_id(self, subnet_id: Option<String>) -> (r: Self)
        ensures
            r == (AwsBuilder { subnet_id, ..self }),
    {
        AwsBuilder { subnet_id, ..self }
    }

    /// Use this security group for all machines, or create one.
    pub fn use_security_group_id(self, security_group_id: Option<String>) -> (r: Self)
        ensures
            r == (AwsBuilder { security_group_id, ..self }),
    {
        AwsBuilder { security_group_id, ..self }
    }

    /// The ownership tags of a session of principal `user_name` under this
    /// configuration.
    pub fn into_tags(self, user_name: String) -> (r: Tags)
        ensures
            r == (Tags { user_name, cleanup: self.cleanup }),
    {
        Tags { user_name, cleanup: self.cleanup }
    }
}

/// The name of a resource of principal `user_name` with random part `suffix`.
pub open spec fn resource_name_of(user_name: Seq<char>, suffix: Seq<char>) -> Seq<char> {
    NAME_PREFIX@ + user_name + seq!['-'] + suffix
}

/// Builds the name of a resource of principal `user_name` with random part `suffix`.
pub fn resource_name(user_name: &str, suffix: &str) -> (r: String)
    ensures
        r@ == resource_name_of(user_name@, suffix@),
{
    let mut s = String::from_str(NAME_PREFIX);
    s.append(user_name);
    s.append("-");
    s.append(suffix);
    proof {
        reveal_strlit("-");
    }
    assert(s@ =~= resource_name_of(user_name@, suffix@));
    s
}

pub open spec fn is_lower_hex(c: char) -> bool {
    ('0' <= c <= '9') || ('a' <= c <= 'f')
}

/// `s` is a version 4 UUID in hyphenated lower-case hex: groups of 8, 4, 4,
/// 4 and 12 digits, the version digit 4, the variant digit one of 8, 9, a, b.
pub open spec fn is_v4_uuid_text(s: Seq<char>) -> bool {
    &&& s.len() == 36
    &&& forall|i: int| 0 <= i < 36 ==> (#[trigger] s[i] == '-') == (i == 8 || i == 13 || i == 18 || i == 23)
    &&& forall|i: int| 0 <= i < 36 && i != 8 && i != 13 && i != 18 && i != 23 ==> is_lower_hex(#[trigger] s[i])
    &&& s[14] == '4'
    &&& (s[19] == '8' || s[19] == '9' || s[19] == 'a' || s[19] == 'b')
}

/// Relies on uuid: `Builder::from_random_bytes` (sets the version 4 and RFC
/// 4122 variant bits) and the text form of the `Uuid`, hyphenated lower-case hex.
#[verifier::external_body]
fn uuid_v4_text(bytes: &[u8]) -> (r: String)
    requires
        bytes@.len() == 16,
    ensures
        is_v4_uuid_text(r@),
{
    let b: [u8; 16] = bytes.try_into().unwrap();
    uuid::Builder::from_random_bytes(b).into_uuid().to_string()
}

/// A fresh name for a resource of principal `user_name`: the principal and
/// a version 4 UUID drawn from the OS random source, so that concurrent
/// sessions never pick the same name. `None` where that source fails.
pub fn fresh_resource_name(user_name: &str) -> (r: Option<String>)
    ensures
        r.is_some() ==> exists|suffix: Seq<char>| is_v4_uuid_text(suffix) && r.unwrap()@ == resource_name_of(user_name@, suffix),
{
    match random_bytes(16) {
        Some(bytes) => {
            let suffix = uuid_v4_text(bytes.as_slice());
            Some(resource_name(user_name, suffix.as_str()))
        },
        None => None,
    }
}

} // verus!
