use aws_throwaway::{CleanupResources, ResourceKind, TagRecord, Tags};

fn rec(id: Option<&str>, key: &str, value: &str) -> TagRecord {
    TagRecord { resource_id: id.map(|s| s.to_owned()), key: key.to_owned(), value: value.to_owned() }
}

const USER_KEY: &str = "aws-throwaway-23c2d22c-d929-43fc-b2a4-c1c72f0b733f:user";
const APP_KEY: &str = "aws-throwaway-23c2d22c-d929-43fc-b2a4-c1c72f0b733f:app";

fn scoped(user: &str, label: Option<&str>) -> Tags {
    Tags {
        user_name: user.to_owned(),
        cleanup: match label {
            Some(l) => CleanupResources::WithAppTag(l.to_owned()),
            None => CleanupResources::AllResources,
        },
    }
}

#[test]
fn create_tags_without_label() {
    let tags = scoped("alice", None);
    let t = tags.create_tags("aws-throwaway");
    let pairs: Vec<(String, String)> = t.into_iter().map(|p| (p.key, p.value)).collect();
    assert_eq!(
        pairs,
        vec![
            ("Name".to_owned(), "aws-throwaway".to_owned()),
            (USER_KEY.to_owned(), "alice".to_owned()),
        ]
    );
}

#[test]
fn create_tags_with_label() {
    let tags = scoped("alice", Some("bench"));
    let t = tags.create_tags("ssh");
    assert_eq!(t.len(), 3);
    assert_eq!(t[0].value, "ssh");
    assert_eq!(t[1].key, USER_KEY);
    assert_eq!(t[2].key, APP_KEY);
    assert_eq!(t[2].value, "bench");
}

#[test]
fn tag_filters_name_kind_key_and_value() {
    let tags = scoped("alice", Some("bench"));
    let f = tags.user_tag_filters(ResourceKind::ElasticIp);
    let got: Vec<(String, String)> = f.into_iter().map(|f| (f.name, f.value)).collect();
    assert_eq!(
        got,
        vec![
            ("resource-type".to_owned(), "elastic-ip".to_owned()),
            ("key".to_owned(), USER_KEY.to_owned()),
            ("value".to_owned(), "alice".to_owned()),
        ]
    );
    let a = tags.app_tag_filters(ResourceKind::PlacementGroup).unwrap();
    assert_eq!(a[0].value, "placement-group");
    assert_eq!(a[1].value, APP_KEY);
    assert_eq!(a[2].value, "bench");
    assert!(scoped("alice", None).app_tag_filters(ResourceKind::Instance).is_none());
}

#[test]
fn owned_ids_without_label_are_the_principals() {
    let tags = scoped("alice", None);
    let user = vec![rec(Some("i-1"), USER_KEY, "alice"), rec(None, USER_KEY, "alice"), rec(Some("i-2"), USER_KEY, "alice")];
    let ids = tags.owned_resource_ids(&user, &vec![]);
    assert_eq!(ids, vec!["i-1".to_owned(), "i-2".to_owned()]);
}

#[test]
fn owned_ids_with_label_are_the_intersection() {
    let tags = scoped("alice", Some("bench"));
    let user = vec![rec(Some("i-1"), USER_KEY, "alice"), rec(Some("i-2"), USER_KEY, "alice")];
    // i-3 carries the label but belongs to another principal.
    let app = vec![rec(Some("i-2"), APP_KEY, "bench"), rec(Some("i-3"), APP_KEY, "bench")];
    let ids = tags.owned_resource_ids(&user, &app);
    assert_eq!(ids, vec!["i-2".to_owned()]);
}

#[test]
fn owned_ids_ignore_records_of_other_principals_and_labels() {
    let tags = scoped("alice", Some("bench"));
    let user = vec![rec(Some("i-1"), USER_KEY, "bob"), rec(Some("i-2"), USER_KEY, "alice")];
    let app = vec![rec(Some("i-1"), APP_KEY, "bench"), rec(Some("i-2"), APP_KEY, "other")];
    assert!(tags.owned_resource_ids(&user, &app).is_empty());
}

#[test]
fn owned_ids_of_empty_index_are_empty() {
    let tags = scoped("alice", Some("bench"));
    assert!(tags.owned_resource_ids(&vec![], &vec![]).is_empty());
}

#[test]
fn provisioned_resource_is_discovered_and_foreign_one_is_not() {
    // A resource tagged by this scope and one tagged by another principal
    // under the same label.
    let mine = scoped("alice", Some("bench"));
    let theirs = scoped("bob", Some("bench"));
    let mut index = vec![];
    for p in mine.create_tags("aws-throwaway") {
        index.push(TagRecord { resource_id: Some("i-mine".to_owned()), key: p.key, value: p.value });
    }
    for p in theirs.create_tags("aws-throwaway") {
        index.push(TagRecord { resource_id: Some("i-theirs".to_owned()), key: p.key, value: p.value });
    }
    let copy: Vec<TagRecord> = index
        .iter()
        .map(|r| TagRecord { resource_id: r.resource_id.clone(), key: r.key.clone(), value: r.value.clone() })
        .collect();
    assert_eq!(mine.owned_resource_ids(&index, &copy), vec!["i-mine".to_owned()]);
    assert_eq!(theirs.owned_resource_ids(&index, &copy), vec!["i-theirs".to_owned()]);
}

#[test]
fn filter_names_of_kinds() {
    assert_eq!(ResourceKind::KeyPair.filter_name(), "key-pair");
    assert_eq!(ResourceKind::SecurityGroup.filter_name(), "security-group");
    assert_eq!(ResourceKind::Instance.filter_name(), "instance");
}

#[test]
fn owned_ids_with_label_keep_the_label_query_order() {
    let tags = scoped("alice", Some("bench"));
    let user = vec![rec(Some("i-1"), USER_KEY, "alice"), rec(Some("i-2"), USER_KEY, "alice"), rec(Some("i-3"), USER_KEY, "alice")];
    let app = vec![rec(Some("i-3"), APP_KEY, "bench"), rec(Some("i-9"), APP_KEY, "bench"), rec(Some("i-1"), APP_KEY, "bench")];
    assert_eq!(tags.owned_resource_ids(&user, &app), vec!["i-3".to_owned(), "i-1".to_owned()]);
}
