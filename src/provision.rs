//! Launching one machine: what the launch call carries, when an elastic
//! address is needed, how long to retry attaching it, and when the machine
//! counts as reachable.
use vstd::prelude::*;
use crate::bootstrap::{base64_of, boot_script_of, user_data, BootstrapError, HostIdentity};
use crate::definition::Ec2InstanceDefinition;
use crate::ledger::{QueryFilter, TagPair, Tags};

verus! {

/// The one availability zone that every resource is created in.
pub const AVAILABILITY_ZONE: &'static str = "us-east-1c";

/// The purpose tag of the resources of a session.
pub const RESOURCE_PURPOSE: &'static str = "aws-throwaway";

/// How long attaching an elastic address is retried, in milliseconds.
pub const ASSOCIATE_DEADLINE_MILLIS: u64 = 120000;

/// The pause between two attempts to attach an elastic address, in seconds.
pub const ASSOCIATE_RETRY_SECONDS: u64 = 2;

/// The pause before each readiness query, in seconds.
pub const READINESS_POLL_SECONDS: u64 = 1;

/// The error code of a query on an instance that the provider does not list yet.
pub const INSTANCE_NOT_FOUND: &'static str = "InvalidInstanceID.NotFound";

/// The decimal text of `n`.
pub open spec fn decimal(n: nat) -> Seq<char>
    decreases n,
{
    if n < 10 {
        seq![digit_char(n)]
    } else {
        decimal(n / 10) + seq![digit_char(n % 10)]
    }
}

pub open spec fn digit_char(d: nat) -> char {
    if d == 0 { '0' } else if d == 1 { '1' } else if d == 2 { '2' } else if d == 3 { '3' }
    else if d == 4 { '4' } else if d == 5 { '5' } else if d == 6 { '6' } else if d == 7 { '7' }
    else if d == 8 { '8' } else { '9' }
}

fn digit_str(d: u32) -> (r: &'static str)
    requires
        d < 10,
    ensures
        r@ == seq![digit_char(d as nat)],
{
    let r = if d == 0 { "0" } else if d == 1 { "1" } else if d == 2 { "2" } else if d == 3 { "3" }
    else if d == 4 { "4" } else if d == 5 { "5" } else if d == 6 { "6" } else if d == 7 { "7" }
    else if d == 8 { "8" } else { "9" };
    proof {
        reveal_strlit("0"); reveal_strlit("1"); reveal_strlit("2"); reveal_strlit("3"); reveal_strlit("4");
        reveal_strlit("5"); reveal_strlit("6"); reveal_strlit("7"); reveal_strlit("8"); reveal_strlit("9");
    }
    assert(r@ =~= seq![digit_char(d as nat)]);
    r
}

/// Writes `n` in decimal.
pub fn decimal_string(n: u32) -> (r: String)
    ensures
        r@ == decimal(n as nat),
    decreases n,
{
    if n < 10 {
        String::from_str(digit_str(n))
    } else {
        let mut s = decimal_string(n / 10);
        s.append(digit_str(n % 10));
        s
    }
}

/// One explicitly specified network interface of a launch.
pub struct InterfaceSpec {
    pub device_index: u32,
    pub description: String,
    pub subnet_id: String,
    pub security_group_id: String,
    pub delete_on_termination: bool,
    pub associate_public_ip_address: bool,
}

/// Everything one launch call carries.
pub struct LaunchPlan {
    pub instance_type: String,
    pub image_id: String,
    pub availability_zone: String,
    pub placement_group_name: String,
    /// The subnet of a machine with a single interface; `None` when the
    /// interfaces are listed one by one.
    pub subnet_id: Option<String>,
    /// The instance-level security groups; `None` when the interfaces are
    /// listed one by one.
    pub security_group_ids: Option<Vec<String>>,
    /// The interfaces listed one by one, for a machine with more than one.
    pub network_interfaces: Option<Vec<InterfaceSpec>>,
    pub volume_size_gb: u32,
    pub key_name: String,
    /// The base64-encoded boot script.
    pub user_data: String,
    pub tags: Vec<TagPair>,
    /// Whether an elastic address is to be allocated before the launch.
    pub allocate_elastic_ip: bool,
}

/// What a session has set up before it launches machines.
pub struct LaunchContext {
    pub tags: Tags,
    pub key_name: String,
    pub client_private_key: String,
    pub security_group_id: String,
    pub placement_group_name: String,
    pub subnet_id: String,
    pub subnet_map_public_ip_on_launch: bool,
    pub use_public_addresses: bool,
    pub host: HostIdentity,
    /// The boot payload that installs `host` on each machine.
    pub user_data: String,
}

/// The boot payload for a host identity.
pub open spec fn user_data_of(host: HostIdentity) -> Seq<char> {
    base64_of(vstd::utf8::encode_utf8(boot_script_of(host.public_key@, host.private_key@)))
}

/// The provider's limit on user data, in bytes before base64 encoding.
pub const MAX_USER_DATA_BYTES: usize = 16384;

impl LaunchContext {
    pub open spec fn wf(&self) -> bool {
        self.user_data@ == user_data_of(self.host)
    }

    /// A session context, with the boot payload made from `host`. Fails when
    /// the boot script would exceed the provider's user-data limit.
    pub fn new(
        tags: Tags,
        key_name: String,
        client_private_key: String,
        security_group_id: String,
        placement_group_name: String,
        subnet_id: String,
        subnet_map_public_ip_on_launch: bool,
        use_public_addresses: bool,
        host: HostIdentity,
    ) -> (r: Result<LaunchContext, BootstrapError>)
        ensures
            match r {
                Ok(c) => c.wf() && c.tags == tags && c.key_name == key_name && c.client_private_key
                    == client_private_key && c.security_group_id == security_group_id
                    && c.placement_group_name == placement_group_name && c.subnet_id == subnet_id
                    && c.subnet_map_public_ip_on_launch == subnet_map_public_ip_on_launch
                    && c.use_public_addresses == use_public_addresses && c.host == host,
                Err(e) => e == BootstrapError::UserDataTooLarge && vstd::utf8::encode_utf8(
                    boot_script_of(host.public_key@, host.private_key@),
                ).len() > MAX_USER_DATA_BYTES,
            },
    {
        let script = crate::bootstrap::boot_script(host.public_key.as_str(), host.private_key.as_str());
        let script_len = script.as_str().as_bytes().len();
        if script_len > MAX_USER_DATA_BYTES {
            return Err(BootstrapError::UserDataTooLarge);
        }
        let user_data = user_data(host.public_key.as_str(), host.private_key.as_str());
        Ok(LaunchContext {
            tags,
            key_name,
            client_private_key,
            security_group_id,
            placement_group_name,
            subnet_id,
            subnet_map_public_ip_on_launch,
            use_public_addresses,
            host,
            user_data,
        })
    }

    /// An elastic address is needed: the machine has several interfaces, so
    /// gets no automatic public address, and the session connects publicly.
    pub open spec fn spec_needs_elastic_ip(&self, def: Ec2InstanceDefinition) -> bool {
        self.use_public_addresses && def.network_interface_count > 1
    }

    /// The interface with device index `i` of a machine with several.
    pub open spec fn interface_matches(&self, i: int, s: InterfaceSpec) -> bool {
        &&& s.device_index == i
        &&& s.description@ == decimal(i as nat)
        &&& s.subnet_id@ == self.subnet_id@
        &&& s.security_group_id@ == self.security_group_id@
        &&& s.delete_on_termination
        &&& !s.associate_public_ip_address
    }

    /// `plan` is the launch of `def` in this session.
    pub open spec fn plan_matches(&self, def: Ec2InstanceDefinition, plan: LaunchPlan) -> bool {
        &&& plan.instance_type@ == def.instance_type@
        &&& plan.image_id@ == def.spec_image_id()
        &&& plan.availability_zone@ == AVAILABILITY_ZONE@
        &&& plan.placement_group_name@ == self.placement_group_name@
        &&& plan.volume_size_gb == def.volume_size_gb
        &&& plan.key_name@ == self.key_name@
        &&& plan.user_data@ == user_data_of(self.host)
        &&& plan.tags@.map_values(|p: TagPair| p@) == self.tags.spec_tag_pairs(RESOURCE_PURPOSE@)
        &&& plan.allocate_elastic_ip == self.spec_needs_elastic_ip(def)
        &&& if def.network_interface_count == 1 {
            &&& plan.subnet_id.is_some() && plan.subnet_id.unwrap()@ == self.subnet_id@
            &&& plan.security_group_ids.is_some() && plan.security_group_ids.unwrap()@.len() == 1
            &&& plan.security_group_ids.unwrap()@[0]@ == self.security_group_id@
            &&& plan.network_interfaces.is_none()
        } else {
            &&& plan.subnet_id.is_none()
            &&& plan.security_group_ids.is_none()
            &&& plan.network_interfaces.is_some()
            &&& plan.network_interfaces.unwrap()@.len() == def.network_interface_count
            &&& forall|i: int| 0 <= i < def.network_interface_count ==> self.interface_matches(i, #[trigger] plan.network_interfaces.unwrap()@[i])
        }
    }

    /// Whether launching `def` needs an elastic address.
    pub fn needs_elastic_ip(&self, def: &Ec2InstanceDefinition) -> (r: bool)
        ensures
            r == self.spec_needs_elastic_ip(*def),
    {
        self.use_public_addresses && def.network_interface_count > 1
    }

    /// What the launch call for `def` carries: a single subnet and security
    /// group for one interface, else one explicit specification per device
    /// index and neither of those.
    pub fn plan_launch(&self, def: &Ec2InstanceDefinition) -> (r: LaunchPlan)
        requires
            self.wf(),
        ensures
            self.plan_matches(*def, r),
    {
        let count = def.network_interface_count;
        let (subnet_id, security_group_ids, network_interfaces) = if count == 1 {
            let mut groups: Vec<String> = Vec::new();
            groups.push(self.security_group_id.clone());
            (Some(self.subnet_id.clone()), Some(groups), None)
        } else {
            let mut specs: Vec<InterfaceSpec> = Vec::new();
            let mut i: u32 = 0;
            while i < count
                invariant
                    i <= count,
                    specs@.len() == i,
                    forall|j: int| 0 <= j < i ==> self.interface_matches(j, #[trigger] specs@[j]),
                decreases count - i,
            {
                specs.push(InterfaceSpec {
                    device_index: i,
                    description: decimal_string(i),
                    subnet_id: self.subnet_id.clone(),
                    security_group_id: self.security_group_id.clone(),
                    delete_on_termination: true,
                    associate_public_ip_address: false,
                });
                i += 1;
            }
            (None, None, Some(specs))
        };
        LaunchPlan {
            instance_type: def.instance_type.clone(),
            image_id: def.image_id(),
            availability_zone: String::from_str(AVAILABILITY_ZONE),
            placement_group_name: self.placement_group_name.clone(),
            subnet_id,
            security_group_ids,
            network_interfaces,
            volume_size_gb: def.volume_size_gb,
            key_name: self.key_name.clone(),
            user_data: self.user_data.clone(),
            tags: self.tags.create_tags(RESOURCE_PURPOSE),
            allocate_elastic_ip: self.needs_elastic_ip(def),
        }
    }

    /// A public address is awaited: the session connects publicly, or the
    /// subnet assigns one on launch.
    pub open spec fn spec_public_ip_expected(&self) -> bool {
        self.use_public_addresses || self.subnet_map_public_ip_on_launch
    }

    /// The readiness state right after a launch; `elastic_ip` is the public
    /// address of the elastic address attached, if any.
    pub fn start_readiness(&self, elastic_ip: Option<String>) -> (r: Readiness)
        ensures
            r.public_ip == elastic_ip,
            r.private_ip.is_none(),
            r.public_ip_expected == self.spec_public_ip_expected(),
    {
        Readiness {
            public_ip: elastic_ip,
            private_ip: None,
            public_ip_expected: self.use_public_addresses || self.subnet_map_public_ip_on_launch,
        }
    }

    /// The address that commands are run against: public or private as the
    /// session is configured.
    pub fn connect_address(&self, ready: &Readiness) -> (r: String)
        requires
            ready.spec_is_ready(),
            ready.public_ip_expected == self.spec_public_ip_expected(),
        ensures
            r@ == if self.use_public_addresses { ready.public_ip.unwrap()@ } else { ready.private_ip.unwrap()@ },
    {
        if self.use_public_addresses {
            match &ready.public_ip {
                Some(a) => a.clone(),
                None => String::new(),
            }
        } else {
            match &ready.private_ip {
                Some(a) => a.clone(),
                None => String::new(),
            }
        }
    }
}

/// The filters that find the subnet to launch in: the given one, else the
/// default subnet of the availability zone.
pub open spec fn subnet_filters_of(subnet_id: Option<Seq<char>>) -> Seq<(Seq<char>, Seq<char>)> {
    match subnet_id {
        Some(id) => seq![("subnet-id"@, id)],
        None => seq![("default-for-az"@, "true"@), ("availability-zone"@, AVAILABILITY_ZONE@)],
    }
}

/// Builds the query filters that find the subnet to launch in.
pub fn subnet_filters(subnet_id: &Option<String>) -> (r: Vec<QueryFilter>)
    ensures
        r@.map_values(|f: QueryFilter| f@) == subnet_filters_of(opt_view(*subnet_id)),
{
    let mut r: Vec<QueryFilter> = Vec::new();
    match subnet_id {
        Some(id) => {
            r.push(QueryFilter { name: String::from_str("subnet-id"), value: id.clone() });
        },
        None => {
            r.push(QueryFilter { name: String::from_str("default-for-az"), value: String::from_str("true") });
            r.push(
                QueryFilter { name: String::from_str("availability-zone"), value: String::from_str(AVAILABILITY_ZONE) },
            );
        },
    }
    assert(r@.map_values(|f: QueryFilter| f@) =~= subnet_filters_of(opt_view(*subnet_id)));
    r
}

/// What to do after an attempt to attach the elastic address.
#[derive(Clone, Copy, PartialEq, Eq, Debug)]
pub enum AssociateAction {
    /// Attached; go on.
    Done,
    /// Wait this many seconds and try again.
    RetryAfterSeconds(u64),
    /// The deadline has passed: fail.
    GiveUp,
}

/// The decision after an attempt to attach the elastic address: done once
/// attached, else retry after a pause until the deadline has passed.
pub open spec fn associate_action(attached: bool, elapsed_millis: u64) -> AssociateAction {
    if attached {
        AssociateAction::Done
    } else if elapsed_millis > ASSOCIATE_DEADLINE_MILLIS {
        AssociateAction::GiveUp
    } else {
        AssociateAction::RetryAfterSeconds(ASSOCIATE_RETRY_SECONDS)
    }
}

/// Decides after an attempt to attach the elastic address, `elapsed_millis`
/// after the first attempt began.
pub fn associate_step(attached: bool, elapsed_millis: u64) -> (r: AssociateAction)
    ensures
        r == associate_action(attached, elapsed_millis),
{
    if attached {
        AssociateAction::Done
    } else if elapsed_millis > ASSOCIATE_DEADLINE_MILLIS {
        AssociateAction::GiveUp
    } else {
        AssociateAction::RetryAfterSeconds(ASSOCIATE_RETRY_SECONDS)
    }
}

/// The addresses learnt so far while waiting for a machine.
pub struct Readiness {
    pub public_ip: Option<String>,
    pub private_ip: Option<String>,
    pub public_ip_expected: bool,
}

/// The addresses one query reports for one machine: public, then private.
pub struct ObservedAddresses {
    pub public_ip: Option<String>,
    pub private_ip: Option<String>,
}

/// The outcome of one query on the launched machine.
pub enum DescribeOutcome {
    /// The addresses reported for each machine listed.
    Described(Vec<ObservedAddresses>),
    /// The query failed with this error code, if the provider gave one.
    Failed(Option<String>),
}

/// Why waiting for a machine stopped.
#[derive(Clone, Copy, PartialEq, Eq, Debug)]
pub enum ReadinessError {
    /// A query failed with another error than "instance not found".
    DescribeFailed,
}

pub open spec fn opt_view(o: Option<String>) -> Option<Seq<char>> {
    match o {
        Some(s) => Some(s@),
        None => None,
    }
}

impl Readiness {
    /// The machine has a private address, and a public one if one is awaited.
    pub open spec fn spec_is_ready(&self) -> bool {
        self.private_ip.is_some() && (self.public_ip_expected ==> self.public_ip.is_some())
    }

    /// Whether the wait is over.
    pub fn is_ready(&self) -> (r: bool)
        ensures
            r == self.spec_is_ready(),
    {
        self.private_ip.is_some() && (!self.public_ip_expected || self.public_ip.is_some())
    }

    /// The addresses after the reports `obs`: a public address once known
    /// is kept, the private address is the last one reported.
    pub open spec fn observed(public_ip: Option<Seq<char>>, private_ip: Option<Seq<char>>, obs: Seq<ObservedAddresses>) -> (
        Option<Seq<char>>,
        Option<Seq<char>>,
    )
        decreases obs.len(),
    {
        if obs.len() == 0 {
            (public_ip, private_ip)
        } else {
            let last = obs.last();
            let (p, _) = Self::observed(public_ip, private_ip, obs.drop_last());
            let public = if p.is_none() { opt_view(last.public_ip) } else { p };
            (public, opt_view(last.private_ip))
        }
    }

    /// Takes in the outcome of one query. A failure other than "instance not
    /// found" ends the wait; "instance not found" changes nothing.
    pub fn observe(&mut self, outcome: DescribeOutcome) -> (r: Result<(), ReadinessError>)
        ensures
            final(self).public_ip_expected == old(self).public_ip_expected,
            match outcome {
                DescribeOutcome::Described(obs) => r.is_ok() && (opt_view(final(self).public_ip), opt_view(
                    final(self).private_ip,
                )) == Self::observed(opt_view(old(self).public_ip), opt_view(old(self).private_ip), obs@),
                DescribeOutcome::Failed(code) => if code.is_some() && code.unwrap()@ == INSTANCE_NOT_FOUND@ {
                    r.is_ok() && *final(self) == *old(self)
                } else {
                    r == Err::<(), ReadinessError>(ReadinessError::DescribeFailed) && *final(self) == *old(self)
                },
            },
    {
        match outcome {
            DescribeOutcome::Described(obs) => {
                let mut i: usize = 0;
                while i < obs.len()
                    invariant
                        i <= obs@.len(),
                        self.public_ip_expected == old(self).public_ip_expected,
                        (opt_view(self.public_ip), opt_view(self.private_ip)) == Self::observed(
                            opt_view(old(self).public_ip),
                            opt_view(old(self).private_ip),
                            obs@.subrange(0, i as int),
                        ),
                    decreases obs@.len() - i,
                {
                    let o = &obs[i];
                    proof {
                        assert(obs@.subrange(0, i + 1).drop_last() =~= obs@.subrange(0, i as int));
                        assert(obs@.subrange(0, i + 1).last() == obs@[i as int]);
                    }
                    if self.public_ip.is_none() {
                        self.public_ip = o.public_ip.clone();
                    }
                    self.private_ip = o.private_ip.clone();
                    i += 1;
                }
                assert(obs@.subrange(0, obs@.len() as int) =~= obs@);
                Ok(())
            },
            DescribeOutcome::Failed(code) => {
                let not_found = String::from_str(INSTANCE_NOT_FOUND);
                match code {
                    Some(c) => {
                        if c == not_found {
                            Ok(())
                        } else {
                            Err(ReadinessError::DescribeFailed)
                        }
                    },
                    None => Err(ReadinessError::DescribeFailed),
                }
            },
        }
    }
}

/// With one network interface, a launch attaches exactly one security group
/// at instance level and asks for no elastic address. With several and
/// public addressing, it asks for exactly one elastic address and lists the
/// interfaces instead of an instance-level group; that address counts as
/// attached only once an attempt succeeded, and the wait ends in failure
/// only after the deadline.
pub proof fn lemma_interface_count_policy(
    ctx: LaunchContext,
    def: Ec2InstanceDefinition,
    plan: LaunchPlan,
    attached: bool,
    elapsed_millis: u64,
)
    requires
        ctx.plan_matches(def, plan),
    ensures
        def.network_interface_count == 1 ==> {
            &&& plan.security_group_ids.is_some() && plan.security_group_ids.unwrap()@.len() == 1
            &&& plan.network_interfaces.is_none()
            &&& !plan.allocate_elastic_ip
        },
        def.network_interface_count > 1 && ctx.use_public_addresses ==> {
            &&& plan.allocate_elastic_ip
            &&& plan.security_group_ids.is_none()
            &&& plan.subnet_id.is_none()
            &&& plan.network_interfaces.is_some()
        },
        def.network_interface_count > 1 && !ctx.use_public_addresses ==> !plan.allocate_elastic_ip,
        (associate_action(attached, elapsed_millis) == AssociateAction::Done) == attached,
        (associate_action(attached, elapsed_millis) == AssociateAction::GiveUp) == (!attached && elapsed_millis
            > ASSOCIATE_DEADLINE_MILLIS),
{
}

} // verus!
