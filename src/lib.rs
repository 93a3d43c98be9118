//! Disposable EC2 machines: ownership tagging, launch planning, host-key
//! bootstrap and the retry/readiness decisions of provisioning and teardown.

pub mod bootstrap;
pub mod builder;
pub mod definition;
pub mod provision;
pub mod teardown;
pub mod ledger;

pub use bootstrap::{boot_script, known_hosts_line, parse_known_hosts_line, user_data, BootstrapError, HostIdentity};
pub use builder::{fresh_resource_name, resource_name, AwsBuilder};
pub use definition::{arch_of_instance_type, CpuArch, Ec2InstanceDefinition, InstanceOs};
pub use ledger::{CleanupResources, QueryFilter, ResourceKind, TagPair, TagRecord, Tags};
pub use provision::{
    associate_step, decimal_string, subnet_filters, AssociateAction, DescribeOutcome, InterfaceSpec, LaunchContext, LaunchPlan,
    ObservedAddresses, Readiness, ReadinessError,
};
pub use teardown::{keypair_failure, termination_batch, KeypairFailure};
