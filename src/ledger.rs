//! Ownership tags: which tags each created resource carries, and which
//! resources a process may treat as its own when it cleans up.
use vstd::prelude::*;

verus! {

/// Key of the tag that names the principal owning a resource.
pub const USER_TAG_KEY: &'static str = "aws-throwaway-23c2d22c-d929-43fc-b2a4-c1c72f0b733f:user";

/// Key of the tag that names the application label of a resource.
pub const APP_TAG_KEY: &'static str = "aws-throwaway-23c2d22c-d929-43fc-b2a4-c1c72f0b733f:app";

/// Key of the descriptive tag shown in the console.
pub const NAME_TAG_KEY: &'static str = "Name";

pub open spec fn user_key() -> Seq<char> {
    USER_TAG_KEY@
}

pub open spec fn app_key() -> Seq<char> {
    APP_TAG_KEY@
}

pub open spec fn name_key() -> Seq<char> {
    NAME_TAG_KEY@
}

/// Which resources a cleanup treats as owned.
pub enum CleanupResources {
    /// Resources of this principal that also carry this application label.
    WithAppTag(String),
    /// Every resource of this principal.
    AllResources,
}

impl CleanupResources {
    /// The application label that scopes ownership, if any.
    pub open spec fn label(&self) -> Option<Seq<char>> {
        match self {
            CleanupResources::WithAppTag(l) => Some(l@),
            CleanupResources::AllResources => None,
        }
    }
}

/// The kinds of resource that carry ownership tags.
#[derive(Clone, Copy, PartialEq, Eq, Debug)]
pub enum ResourceKind {
    KeyPair,
    SecurityGroup,
    SecurityGroupRule,
    PlacementGroup,
    ElasticIp,
    Instance,
}

impl ResourceKind {
    pub open spec fn spec_filter_name(self) -> Seq<char> {
        match self {
            ResourceKind::KeyPair => "key-pair"@,
            ResourceKind::SecurityGroup => "security-group"@,
            ResourceKind::SecurityGroupRule => "security-group-rule"@,
            ResourceKind::PlacementGroup => "placement-group"@,
            ResourceKind::ElasticIp => "elastic-ip"@,
            ResourceKind::Instance => "instance"@,
        }
    }

    /// The resource-type value used when querying the tag index for this kind.
    pub fn filter_name(&self) -> (r: &'static str)
        ensures
            r@ == self.spec_filter_name(),
    {
        match self {
            ResourceKind::KeyPair => "key-pair",
            ResourceKind::SecurityGroup => "security-group",
            ResourceKind::SecurityGroupRule => "security-group-rule",
            ResourceKind::PlacementGroup => "placement-group",
            ResourceKind::ElasticIp => "elastic-ip",
            ResourceKind::Instance => "instance",
        }
    }
}

/// One tag: a key and its value.
pub struct TagPair {
    pub key: String,
    pub value: String,
}

impl View for TagPair {
    type V = (Seq<char>, Seq<char>);

    open spec fn view(&self) -> (Seq<char>, Seq<char>) {
        (self.key@, self.value@)
    }
}

/// One entry of the provider's tag index: the tagged resource (when the
/// provider reports it), and the tag's key and value.
pub struct TagRecord {
    pub resource_id: Option<String>,
    pub key: String,
    pub value: String,
}

/// A tag index entry as plain values.
pub type TagRecordView = (Option<Seq<char>>, Seq<char>, Seq<char>);

impl View for TagRecord {
    type V = TagRecordView;

    open spec fn view(&self) -> TagRecordView {
        (
            match self.resource_id {
                Some(id) => Some(id@),
                None => None,
            },
            self.key@,
            self.value@,
        )
    }
}

pub open spec fn records_view(recs: Seq<TagRecord>) -> Seq<TagRecordView> {
    recs.map_values(|r: TagRecord| r@)
}

/// The index records `id` under the tag `key` = `value`.
pub open spec fn has_tag(index: Seq<TagRecordView>, id: Seq<char>, key: Seq<char>, value: Seq<char>) -> bool {
    exists|i: int| 0 <= i < index.len() && #[trigger] index[i] == (Some(id), key, value)
}

/// A filter of a provider query: a field name and the value it must have.
pub struct QueryFilter {
    pub name: String,
    pub value: String,
}

impl View for QueryFilter {
    type V = (Seq<char>, Seq<char>);

    open spec fn view(&self) -> (Seq<char>, Seq<char>) {
        (self.name@, self.value@)
    }
}

/// The filters that select the tag index entries of kind `kind` with tag
/// `key` = `value`.
pub open spec fn tag_filters_of(kind: ResourceKind, key: Seq<char>, value: Seq<char>) -> Seq<(Seq<char>, Seq<char>)> {
    seq![("resource-type"@, kind.spec_filter_name()), ("key"@, key), ("value"@, value)]
}

fn tag_filters(kind: ResourceKind, key: &str, value: &str) -> (r: Vec<QueryFilter>)
    ensures
        r@.map_values(|f: QueryFilter| f@) == tag_filters_of(kind, key@, value@),
{
    let mut r: Vec<QueryFilter> = Vec::new();
    r.push(QueryFilter { name: String::from_str("resource-type"), value: String::from_str(kind.filter_name()) });
    r.push(QueryFilter { name: String::from_str("key"), value: String::from_str(key) });
    r.push(QueryFilter { name: String::from_str("value"), value: String::from_str(value) });
    assert(r@.map_values(|f: QueryFilter| f@) =~= tag_filters_of(kind, key@, value@));
    r
}

pub open spec fn strings_view(v: Seq<String>) -> Seq<Seq<char>> {
    v.map_values(|s: String| s@)
}

/// The resource ids of the entries of `recs` with tag `key` = `value`, in
/// the order of `recs`; entries without a resource id are skipped.
pub open spec fn ids_tagged(recs: Seq<TagRecordView>, key: Seq<char>, value: Seq<char>) -> Seq<Seq<char>>
    decreases recs.len(),
{
    if recs.len() == 0 {
        seq![]
    } else {
        let prev = ids_tagged(recs.drop_last(), key, value);
        let r = recs.last();
        if r.0.is_some() && r.1 == key && r.2 == value {
            prev.push(r.0.unwrap())
        } else {
            prev
        }
    }
}

/// The elements of `ids` that `among` holds, in the order of `ids`.
pub open spec fn kept_in(ids: Seq<Seq<char>>, among: Seq<Seq<char>>) -> Seq<Seq<char>>
    decreases ids.len(),
{
    if ids.len() == 0 {
        seq![]
    } else {
        let prev = kept_in(ids.drop_last(), among);
        if among.contains(ids.last()) {
            prev.push(ids.last())
        } else {
            prev
        }
    }
}

/// Whether `ids` holds a string equal to `id`.
fn contains_id(ids: &Vec<String>, id: &String) -> (r: bool)
    ensures
        r == exists|k: int| 0 <= k < ids@.len() && #[trigger] ids@[k]@ == id@,
{
    let mut m: usize = 0;
    while m < ids.len()
        invariant
            m <= ids@.len(),
            forall|k: int| 0 <= k < m ==> (#[trigger] ids@[k])@ != id@,
        decreases ids@.len() - m,
    {
        if ids[m] == *id {
            return true;
        }
        m += 1;
    }
    false
}

/// The principal and the ownership scope of one process.
pub struct Tags {
    pub user_name: String,
    pub cleanup: CleanupResources,
}

impl Tags {
    /// The tags put on a resource created under this scope, described by `purpose`.
    pub open spec fn spec_tag_pairs(&self, purpose: Seq<char>) -> Seq<(Seq<char>, Seq<char>)> {
        let base = seq![(name_key(), purpose), (user_key(), self.user_name@)];
        match self.cleanup.label() {
            Some(l) => base.push((app_key(), l)),
            None => base,
        }
    }

    /// `id` counts as owned, given the records found under the principal's
    /// tag and those found under the application label's tag.
    pub open spec fn is_owned(
        &self,
        user_records: Seq<TagRecordView>,
        app_records: Seq<TagRecordView>,
        id: Seq<char>,
    ) -> bool {
        &&& has_tag(user_records, id, user_key(), self.user_name@)
        &&& match self.cleanup.label() {
            Some(l) => has_tag(app_records, id, app_key(), l),
            None => true,
        }
    }

    /// The owned ids as a sequence: without a label, the ids listed under
    /// the principal's tag; with one, the ids listed under the label's tag,
    /// in that order, that are also listed under the principal's tag.
    pub open spec fn spec_owned_ids(&self, user_records: Seq<TagRecordView>, app_records: Seq<TagRecordView>) -> Seq<
        Seq<char>,
    > {
        let of_user = ids_tagged(user_records, user_key(), self.user_name@);
        match self.cleanup.label() {
            Some(l) => kept_in(ids_tagged(app_records, app_key(), l), of_user),
            None => of_user,
        }
    }

    /// The tags to put on a new resource, described by `purpose`.
    pub fn create_tags(&self, purpose: &str) -> (r: Vec<TagPair>)
        ensures
            r@.map_values(|p: TagPair| p@) == self.spec_tag_pairs(purpose@),
    {
        let mut r: Vec<TagPair> = Vec::new();
        r.push(TagPair { key: String::from_str(NAME_TAG_KEY), value: String::from_str(purpose) });
        r.push(TagPair { key: String::from_str(USER_TAG_KEY), value: self.user_name.clone() });
        match &self.cleanup {
            CleanupResources::WithAppTag(l) => {
                r.push(TagPair { key: String::from_str(APP_TAG_KEY), value: l.clone() });
            },
            CleanupResources::AllResources => {},
        }
        assert(r@.map_values(|p: TagPair| p@) =~= self.spec_tag_pairs(purpose@));
        r
    }

    /// The query filters that list the principal's resources of kind `kind`
    /// in the tag index.
    pub fn user_tag_filters(&self, kind: ResourceKind) -> (r: Vec<QueryFilter>)
        ensures
            r@.map_values(|f: QueryFilter| f@) == tag_filters_of(kind, user_key(), self.user_name@),
    {
        tag_filters(kind, USER_TAG_KEY, self.user_name.as_str())
    }

    /// The query filters that list the resources of kind `kind` carrying the
    /// scope's application label; `None` when the scope has no label.
    pub fn app_tag_filters(&self, kind: ResourceKind) -> (r: Option<Vec<QueryFilter>>)
        ensures
            match self.cleanup.label() {
                Some(l) => r.is_some() && r.unwrap()@.map_values(|f: QueryFilter| f@) == tag_filters_of(
                    kind,
                    app_key(),
                    l,
                ),
                None => r.is_none(),
            },
    {
        match &self.cleanup {
            CleanupResources::WithAppTag(l) => Some(tag_filters(kind, APP_TAG_KEY, l.as_str())),
            CleanupResources::AllResources => None,
        }
    }

    /// The resources owned by this scope: those listed under the principal's
    /// tag and, when the scope has a label, also under the label's tag.
    /// `app_records` is read only when the scope has a label.
    pub fn owned_resource_ids(&self, user_records: &Vec<TagRecord>, app_records: &Vec<TagRecord>) -> (r: Vec<String>)
        ensures
            strings_view(r@) == self.spec_owned_ids(records_view(user_records@), records_view(app_records@)),
            forall|k: int| 0 <= k < r@.len() ==> self.is_owned(
                records_view(user_records@),
                records_view(app_records@),
                #[trigger] r@[k]@,
            ),
            forall|id: Seq<char>| self.is_owned(records_view(user_records@), records_view(app_records@), id)
                ==> exists|k: int| 0 <= k < r@.len() && #[trigger] r@[k]@ == id,
    {
        let ghost uv = records_view(user_records@);
        let ghost av = records_view(app_records@);
        let user_key_text = String::from_str(USER_TAG_KEY);
        let app_key_text = String::from_str(APP_TAG_KEY);
        let mut of_user: Vec<String> = Vec::new();
        let mut i: usize = 0;
        while i < user_records.len()
            invariant
                i <= user_records@.len(),
                uv == records_view(user_records@),
                user_key_text@ == user_key(),
                strings_view(of_user@) == ids_tagged(uv.subrange(0, i as int), user_key(), self.user_name@),
                forall|k: int| 0 <= k < of_user@.len() ==> has_tag(uv, #[trigger] of_user@[k]@, user_key(), self.user_name@),
                forall|j: int| 0 <= j < i ==> #[trigger] uv[j].1 == user_key() && uv[j].2 == self.user_name@ && uv[j].0.is_some()
                    ==> exists|k: int| 0 <= k < of_user@.len() && Some(#[trigger] of_user@[k]@) == uv[j].0,
            decreases user_records@.len() - i,
        {
            let rec = &user_records[i];
            let ghost prev = of_user@;
            assert(uv[i as int] == rec@);
            assert(uv.subrange(0, i + 1).drop_last() =~= uv.subrange(0, i as int));
            assert(uv.subrange(0, i + 1).last() == uv[i as int]);
            if rec.key == user_key_text && rec.value == self.user_name {
                match &rec.resource_id {
                    Some(id) => {
                        assert(uv[i as int] == (Some(id@), user_key(), self.user_name@));
                        of_user.push(id.clone());
                        assert(of_user@[of_user@.len() - 1]@ == id@);
                    },
                    None => {},
                }
            }
            proof {
                assert forall|j: int| 0 <= j < i && #[trigger] uv[j].1 == user_key() && uv[j].2 == self.user_name@
                    && uv[j].0.is_some() implies exists|k: int| 0 <= k < of_user@.len() && Some(
                    #[trigger] of_user@[k]@,
                ) == uv[j].0 by {
                    let k = choose|k: int| 0 <= k < prev.len() && Some(#[trigger] prev[k]@) == uv[j].0;
                    assert(of_user@[k] == prev[k]);
                }
                assert(strings_view(of_user@) =~= ids_tagged(uv.subrange(0, i + 1), user_key(), self.user_name@));
            }
            i += 1;
        }
        proof {
            assert(uv.subrange(0, uv.len() as int) =~= uv);
            assert forall|id: Seq<char>| has_tag(uv, id, user_key(), self.user_name@)
                implies exists|k: int| 0 <= k < of_user@.len() && #[trigger] of_user@[k]@ == id by {
                let j = choose|j: int| 0 <= j < uv.len() && #[trigger] uv[j] == (Some(id), user_key(), self.user_name@);
                assert(uv[j].1 == user_key() && uv[j].2 == self.user_name@ && uv[j].0.is_some());
            }
        }
        match &self.cleanup {
            CleanupResources::AllResources => of_user,
            CleanupResources::WithAppTag(label) => {
                let mut both: Vec<String> = Vec::new();
                let mut i: usize = 0;
                while i < app_records.len()
                    invariant
                        i <= app_records@.len(),
                        av == records_view(app_records@),
                        app_key_text@ == app_key(),
                        self.cleanup.label() == Some(label@),
                        strings_view(of_user@) == ids_tagged(uv, user_key(), self.user_name@),
                        strings_view(both@) == kept_in(ids_tagged(av.subrange(0, i as int), app_key(), label@), strings_view(of_user@)),
                        forall|k: int| 0 <= k < both@.len() ==> self.is_owned(uv, av, #[trigger] both@[k]@),
                        forall|j: int| 0 <= j < i ==> #[trigger] av[j].1 == app_key() && av[j].2 == label@ && av[j].0.is_some()
                            && has_tag(uv, av[j].0.unwrap(), user_key(), self.user_name@)
                            ==> exists|k: int| 0 <= k < both@.len() && Some(#[trigger] both@[k]@) == av[j].0,
                        forall|id: Seq<char>| has_tag(uv, id, user_key(), self.user_name@)
                            ==> exists|k: int| 0 <= k < of_user@.len() && #[trigger] of_user@[k]@ == id,
                        forall|k: int| 0 <= k < of_user@.len() ==> has_tag(uv, #[trigger] of_user@[k]@, user_key(), self.user_name@),
                    decreases app_records@.len() - i,
                {
                    let rec = &app_records[i];
                    let ghost prev = both@;
                    let ghost u = strings_view(of_user@);
                    assert(av[i as int] == rec@);
                    assert(av.subrange(0, i + 1).drop_last() =~= av.subrange(0, i as int));
                    assert(av.subrange(0, i + 1).last() == av[i as int]);
                    if rec.key == app_key_text && rec.value == *label {
                        match &rec.resource_id {
                            Some(id) => {
                                let found = contains_id(&of_user, id);
                                proof {
                                    let t = ids_tagged(av.subrange(0, i as int), app_key(), label@);
                                    assert(t.push(id@).drop_last() =~= t);
                                    if found {
                                        let k = choose|k: int| 0 <= k < of_user@.len() && #[trigger] of_user@[k]@ == id@;
                                        assert(u[k] == id@);
                                    } else {
                                        assert(!u.contains(id@)) by {
                                            if u.contains(id@) {
                                                let k = choose|k: int| 0 <= k < u.len() && u[k] == id@;
                                                assert(of_user@[k]@ == id@);
                                            }
                                        }
                                    }
                                }
                                if found {
                                    assert(av[i as int] == (Some(id@), app_key(), label@));
                                    assert(has_tag(av, id@, app_key(), label@));
                                    both.push(id.clone());
                                    assert(both@[both@.len() - 1]@ == id@);
                                }
                            },
                            None => {},
                        }
                    }
                    proof {
                        assert forall|j: int| 0 <= j < i && #[trigger] av[j].1 == app_key() && av[j].2 == label@
                            && av[j].0.is_some() && has_tag(uv, av[j].0.unwrap(), user_key(), self.user_name@)
                            implies exists|k: int| 0 <= k < both@.len() && Some(#[trigger] both@[k]@) == av[j].0 by {
                            let k = choose|k: int| 0 <= k < prev.len() && Some(#[trigger] prev[k]@) == av[j].0;
                            assert(both@[k] == prev[k]);
                        }
                        assert(strings_view(both@) =~= kept_in(ids_tagged(av.subrange(0, i + 1), app_key(), label@), u));
                    }
                    i += 1;
                }
                proof {
                    assert(av.subrange(0, av.len() as int) =~= av);
                    assert forall|id: Seq<char>| self.is_owned(uv, av, id)
                        implies exists|k: int| 0 <= k < both@.len() && #[trigger] both@[k]@ == id by {
                        let j = choose|j: int| 0 <= j < av.len() && #[trigger] av[j] == (Some(id), app_key(), label@);
                        assert(av[j].1 == app_key() && av[j].2 == label@ && av[j].0.is_some());
                    }
                }
                both
            },
        }
    }
}

/// A resource tagged at creation under `tags`, whose tags the index has
/// recorded, is owned by that scope.
pub proof fn lemma_created_resource_is_owned(
    tags: Tags,
    purpose: Seq<char>,
    index: Seq<TagRecordView>,
    id: Seq<char>,
)
    requires
        forall|k: int| 0 <= k < tags.spec_tag_pairs(purpose).len()
            ==> #[trigger] has_tag(index, id, tags.spec_tag_pairs(purpose)[k].0, tags.spec_tag_pairs(purpose)[k].1),
    ensures
        tags.is_owned(index, index, id),
{
    let pairs = tags.spec_tag_pairs(purpose);
    assert(pairs[1] == (user_key(), tags.user_name@));
    assert(has_tag(index, id, pairs[1].0, pairs[1].1));
    match tags.cleanup.label() {
        Some(l) => {
            assert(pairs[2] == (app_key(), l));
            assert(has_tag(index, id, pairs[2].0, pairs[2].1));
        },
        None => {},
    }
}

/// A resource whose every index entry comes from the tags of another scope,
/// with another principal or another application label than `tags` asks
/// for, is not owned by `tags`.
pub proof fn lemma_foreign_resource_is_not_owned(
    tags: Tags,
    other: Tags,
    purpose: Seq<char>,
    index: Seq<TagRecordView>,
    id: Seq<char>,
)
    requires
        other.user_name@ != tags.user_name@ || (tags.cleanup.label().is_some()
            && other.cleanup.label() != tags.cleanup.label()),
        forall|i: int| 0 <= i < index.len() && (#[trigger] index[i]).0 == Some(id)
            ==> other.spec_tag_pairs(purpose).contains((index[i].1, index[i].2)),
    ensures
        !tags.is_owned(index, index, id),
{
    reveal_strlit("Name");
    reveal_strlit("aws-throwaway-23c2d22c-d929-43fc-b2a4-c1c72f0b733f:user");
    reveal_strlit("aws-throwaway-23c2d22c-d929-43fc-b2a4-c1c72f0b733f:app");
    let pairs = other.spec_tag_pairs(purpose);
    assert(name_key() != user_key()) by { assert(name_key().len() != user_key().len()); }
    assert(name_key() != app_key()) by { assert(name_key().len() != app_key().len()); }
    assert(user_key() != app_key()) by { assert(user_key()[user_key().len() - 1] != app_key()[app_key().len() - 1]); }
    if has_tag(index, id, user_key(), tags.user_name@) {
        let i = choose|i: int| 0 <= i < index.len() && #[trigger] index[i] == (Some(id), user_key(), tags.user_name@);
        assert(pairs.contains((index[i].1, index[i].2)));
        let k = choose|k: int| 0 <= k < pairs.len() && pairs[k] == (index[i].1, index[i].2);
        assert(other.user_name@ == tags.user_name@);
        let l = tags.cleanup.label().unwrap();
        if has_tag(index, id, app_key(), l) {
            let i2 = choose|i2: int| 0 <= i2 < index.len() && #[trigger] index[i2] == (Some(id), app_key(), l);
            assert(pairs.contains((index[i2].1, index[i2].2)));
            let k2 = choose|k2: int| 0 <= k2 < pairs.len() && pairs[k2] == (index[i2].1, index[i2].2);
        }
    }
}

} // verus!
