use aws_throwaway::{
    arch_of_instance_type, associate_step, decimal_string, fresh_resource_name, resource_name, subnet_filters,
    AssociateAction, AwsBuilder, CleanupResources, CpuArch, DescribeOutcome, Ec2InstanceDefinition, HostIdentity,
    BootstrapError, InstanceOs, LaunchContext, ObservedAddresses, Readiness, ReadinessError, Tags,
};

fn context(use_public: bool, subnet_public: bool) -> LaunchContext {
    let host = HostIdentity {
        public_key_bytes: vec![1, 2, 3],
        public_key: "ssh-ed25519 AAAA".to_owned(),
        private_key: "PRIVATE".to_owned(),
    };
    LaunchContext::new(
        Tags { user_name: "alice".to_owned(), cleanup: CleanupResources::AllResources },
        "key-1".to_owned(),
        "client".to_owned(),
        "sg-1".to_owned(),
        "pg-1".to_owned(),
        "subnet-1".to_owned(),
        subnet_public,
        use_public,
        host,
    )
    .unwrap()
}

#[test]
fn default_definition_single_interface_plan() {
    let def = Ec2InstanceDefinition::new("t2.micro".to_owned());
    assert_eq!(def.volume_size_gb, 8);
    assert_eq!(def.network_interface_count, 1);
    let ctx = context(true, true);
    let plan = ctx.plan_launch(&def);
    assert_eq!(plan.subnet_id, Some("subnet-1".to_owned()));
    assert_eq!(plan.security_group_ids, Some(vec!["sg-1".to_owned()]));
    assert!(plan.network_interfaces.is_none());
    assert!(!plan.allocate_elastic_ip);
    assert_eq!(plan.volume_size_gb, 8);
    assert_eq!(plan.availability_zone, "us-east-1c");
    assert_eq!(plan.placement_group_name, "pg-1");
    assert_eq!(plan.key_name, "key-1");
    assert_eq!(plan.user_data, ctx.user_data);
    assert_eq!(
        plan.image_id,
        "resolve:ssm:/aws/service/canonical/ubuntu/server/22.04/stable/current/amd64/hvm/ebs-gp2/ami-id"
    );
}

#[test]
fn two_interfaces_plan_one_elastic_address_and_indexed_specs() {
    let def = Ec2InstanceDefinition::new("t2.micro".to_owned()).network_interface_count(2);
    let plan = context(true, true).plan_launch(&def);
    assert!(plan.allocate_elastic_ip);
    assert!(plan.security_group_ids.is_none());
    assert!(plan.subnet_id.is_none());
    let specs = plan.network_interfaces.unwrap();
    assert_eq!(specs.len(), 2);
    assert_eq!(specs[0].device_index, 0);
    assert_eq!(specs[1].device_index, 1);
    assert_eq!(specs[1].description, "1");
    assert_eq!(specs[0].subnet_id, "subnet-1");
    assert_eq!(specs[0].security_group_id, "sg-1");
    assert!(!specs[0].associate_public_ip_address);
    assert!(specs[1].delete_on_termination);
}

#[test]
fn two_interfaces_private_addressing_needs_no_elastic_address() {
    let def = Ec2InstanceDefinition::new("t2.micro".to_owned()).network_interface_count(2);
    assert!(!context(false, false).plan_launch(&def).allocate_elastic_ip);
}

#[test]
fn image_of_graviton_shape_and_explicit_image() {
    let def = Ec2InstanceDefinition::new("m6gd.large".to_owned()).os(InstanceOs::Ubuntu20_04);
    assert_eq!(
        def.image_id(),
        "resolve:ssm:/aws/service/canonical/ubuntu/server/20.04/stable/current/arm64/hvm/ebs-gp2/ami-id"
    );
    let def = def.override_ami(Some("ami-123".to_owned()));
    assert_eq!(def.image_id(), "ami-123");
}

#[test]
fn architecture_of_shapes() {
    assert_eq!(arch_of_instance_type("t2.micro"), CpuArch::X86_64);
    assert_eq!(arch_of_instance_type("t4g.micro"), CpuArch::Aarch64);
    assert_eq!(arch_of_instance_type("c7gn.xlarge"), CpuArch::Aarch64);
    assert_eq!(arch_of_instance_type("a1.medium"), CpuArch::Aarch64);
    assert_eq!(arch_of_instance_type("g4dn.xlarge"), CpuArch::X86_64);
    assert_eq!(arch_of_instance_type("g5g.xlarge"), CpuArch::Aarch64);
    assert_eq!(arch_of_instance_type("c5.large"), CpuArch::X86_64);
    assert_eq!(arch_of_instance_type(""), CpuArch::X86_64);
}

#[test]
fn volume_size_setter() {
    let def = Ec2InstanceDefinition::new("t2.micro".to_owned()).volume_size_gigabytes(20);
    assert_eq!(def.volume_size_gb, 20);
    assert_eq!(def.instance_type, "t2.micro");
}

#[test]
fn decimal_strings() {
    assert_eq!(decimal_string(0), "0");
    assert_eq!(decimal_string(7), "7");
    assert_eq!(decimal_string(10), "10");
    assert_eq!(decimal_string(4294967295), "4294967295");
}

#[test]
fn association_retries_until_deadline() {
    assert_eq!(associate_step(true, 500_000), AssociateAction::Done);
    assert_eq!(associate_step(false, 0), AssociateAction::RetryAfterSeconds(2));
    assert_eq!(associate_step(false, 120_000), AssociateAction::RetryAfterSeconds(2));
    assert_eq!(associate_step(false, 120_001), AssociateAction::GiveUp);
}

#[test]
fn readiness_waits_for_public_and_private_address() {
    let ctx = context(true, false);
    let mut r = ctx.start_readiness(None);
    assert!(!r.is_ready());
    assert_eq!(r.observe(DescribeOutcome::Failed(Some("InvalidInstanceID.NotFound".to_owned()))), Ok(()));
    assert!(!r.is_ready());
    let obs = vec![ObservedAddresses { public_ip: None, private_ip: Some("10.0.0.5".to_owned()) }];
    assert_eq!(r.observe(DescribeOutcome::Described(obs)), Ok(()));
    assert!(!r.is_ready());
    let obs = vec![ObservedAddresses { public_ip: Some("203.0.113.9".to_owned()), private_ip: Some("10.0.0.5".to_owned()) }];
    assert_eq!(r.observe(DescribeOutcome::Described(obs)), Ok(()));
    assert!(r.is_ready());
    assert_eq!(ctx.connect_address(&r), "203.0.113.9");
}

#[test]
fn readiness_keeps_first_public_address() {
    let mut r = Readiness { public_ip: Some("1.1.1.1".to_owned()), private_ip: None, public_ip_expected: true };
    let obs = vec![ObservedAddresses { public_ip: Some("2.2.2.2".to_owned()), private_ip: Some("10.0.0.1".to_owned()) }];
    r.observe(DescribeOutcome::Described(obs)).unwrap();
    assert_eq!(r.public_ip, Some("1.1.1.1".to_owned()));
    assert_eq!(r.private_ip, Some("10.0.0.1".to_owned()));
}

#[test]
fn readiness_private_only_connects_privately() {
    let ctx = context(false, false);
    let mut r = ctx.start_readiness(None);
    let obs = vec![ObservedAddresses { public_ip: None, private_ip: Some("10.0.0.5".to_owned()) }];
    r.observe(DescribeOutcome::Described(obs)).unwrap();
    assert!(r.is_ready());
    assert_eq!(ctx.connect_address(&r), "10.0.0.5");
}

#[test]
fn readiness_fails_on_other_errors() {
    let mut r = context(true, true).start_readiness(None);
    assert_eq!(r.observe(DescribeOutcome::Failed(Some("AuthFailure".to_owned()))), Err(ReadinessError::DescribeFailed));
    assert_eq!(r.observe(DescribeOutcome::Failed(None)), Err(ReadinessError::DescribeFailed));
}

#[test]
fn subnet_filters_given_or_default() {
    let f = subnet_filters(&Some("subnet-9".to_owned()));
    assert_eq!(f.len(), 1);
    assert_eq!((f[0].name.as_str(), f[0].value.as_str()), ("subnet-id", "subnet-9"));
    let f = subnet_filters(&None);
    assert_eq!(f.len(), 2);
    assert_eq!((f[0].name.as_str(), f[0].value.as_str()), ("default-for-az", "true"));
    assert_eq!((f[1].name.as_str(), f[1].value.as_str()), ("availability-zone", "us-east-1c"));
}

#[test]
fn builder_defaults_and_setters() {
    let b = AwsBuilder::new(CleanupResources::AllResources);
    assert!(b.use_public_addresses);
    assert!(b.vpc_id.is_none() && b.subnet_id.is_none() && b.security_group_id.is_none());
    let b = b
        .use_public_addresses(false)
        .use_vpc_id(Some("vpc-1".to_owned()))
        .use_subnet_id(Some("subnet-1".to_owned()))
        .use_security_group_id(Some("sg-1".to_owned()));
    assert!(!b.use_public_addresses);
    assert_eq!(b.vpc_id, Some("vpc-1".to_owned()));
    assert_eq!(b.subnet_id, Some("subnet-1".to_owned()));
    assert_eq!(b.security_group_id, Some("sg-1".to_owned()));
    let tags = b.into_tags("alice".to_owned());
    assert_eq!(tags.user_name, "alice");
}

#[test]
fn resource_names() {
    assert_eq!(resource_name("alice", "x"), "aws-throwaway-alice-x");
    let a = fresh_resource_name("alice").unwrap();
    let b = fresh_resource_name("alice").unwrap();
    assert!(a.starts_with("aws-throwaway-alice-"));
    assert_eq!(a.len(), "aws-throwaway-alice-".len() + 36);
    assert_ne!(a, b);
    let suffix: Vec<char> = a["aws-throwaway-alice-".len()..].chars().collect();
    for (i, c) in suffix.iter().enumerate() {
        if i == 8 || i == 13 || i == 18 || i == 23 {
            assert_eq!(*c, '-');
        } else {
            assert!(c.is_ascii_hexdigit() && !c.is_ascii_uppercase());
        }
    }
    assert_eq!(suffix[14], '4');
    assert!(matches!(suffix[19], '8' | '9' | 'a' | 'b'));
}

#[test]
fn oversized_user_data_is_refused() {
    let host = HostIdentity {
        public_key_bytes: vec![1, 2, 3],
        public_key: "ssh-ed25519 AAAA".to_owned(),
        private_key: "x".repeat(16384),
    };
    let r = LaunchContext::new(
        Tags { user_name: "alice".to_owned(), cleanup: CleanupResources::AllResources },
        "key-1".to_owned(),
        "client".to_owned(),
        "sg-1".to_owned(),
        "pg-1".to_owned(),
        "subnet-1".to_owned(),
        true,
        true,
        host,
    );
    assert!(matches!(r, Err(BootstrapError::UserDataTooLarge)));
}
