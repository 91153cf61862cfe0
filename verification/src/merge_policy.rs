//! The policy that rows are merged under: how a configuration makes it, and how it is reported.
use vstd::prelude::*;
use vstd::string::*;

use crate::conflict_paths::{
    internal_resolver_allowed_for_subject, resolver_allowed, RowMergeInternalResolver,
};
use crate::conflicts::labels_of;
use crate::order::KeyMap;
use crate::show::views;
use crate::text::{copy_texts, texts};

verus! {

/// Settings of a policy that merging reads and that are reported as they stand: JSON texts.
#[derive(Debug, Clone, PartialEq, Eq)]
pub struct PolicySettings<S = String> {
    pub same_row_merge: S,
    pub semantic_keys: S,
    pub semantic_key_collations: S,
    pub column_resolvers: S,
}

pub type PolicySettingsView = PolicySettings<Seq<char>>;

impl View for PolicySettings<String> {
    type V = PolicySettingsView;

    open spec fn view(&self) -> PolicySettingsView {
        PolicySettings {
            same_row_merge: self.same_row_merge@,
            semantic_keys: self.semantic_keys@,
            semantic_key_collations: self.semantic_key_collations@,
            column_resolvers: self.column_resolvers@,
        }
    }
}

fn copy_settings(settings: &PolicySettings) -> (r: PolicySettings)
    ensures
        r@ == settings@,
{
    PolicySettings {
        same_row_merge: settings.same_row_merge.clone(),
        semantic_keys: settings.semantic_keys.clone(),
        semantic_key_collations: settings.semantic_key_collations.clone(),
        column_resolvers: settings.column_resolvers.clone(),
    }
}

/// The policy that rows are merged under. Resolvers stand under the names that they are reported
/// by: for SQLite's own tables by the table, for changes of the schema by the operation.
#[derive(Debug, Clone)]
pub struct RowMergePolicy {
    pub settings: PolicySettings,
    pub default_semantic_keys: Vec<String>,
    pub internal_resolvers: KeyMap<String>,
    pub schema_resolvers: KeyMap<String>,
    pub generated_columns: KeyMap<Vec<String>>,
}

impl RowMergePolicy {
    pub open spec fn wf(&self) -> bool {
        self.internal_resolvers.wf() && self.schema_resolvers.wf() && self.generated_columns.wf()
    }
}

/// A resolver that a configuration names for one of SQLite's own tables; there is none where the
/// name is not known.
#[derive(Debug, Clone, PartialEq, Eq)]
pub struct ConfiguredResolver<S = String> {
    pub subject: S,
    pub resolver: Option<RowMergeInternalResolver>,
    pub name: S,
}

pub type ConfiguredResolverView = ConfiguredResolver<Seq<char>>;

impl View for ConfiguredResolver<String> {
    type V = ConfiguredResolverView;

    open spec fn view(&self) -> ConfiguredResolverView {
        ConfiguredResolver { subject: self.subject@, resolver: self.resolver, name: self.name@ }
    }
}

/// A resolver that a configuration names for an operation on the schema.
#[derive(Debug, Clone, PartialEq, Eq)]
pub struct ConfiguredSchemaResolver<S = String> {
    pub operation: S,
    pub known: bool,
    pub name: S,
}

pub type ConfiguredSchemaResolverView = ConfiguredSchemaResolver<Seq<char>>;

impl View for ConfiguredSchemaResolver<String> {
    type V = ConfiguredSchemaResolverView;

    open spec fn view(&self) -> ConfiguredSchemaResolverView {
        ConfiguredSchemaResolver { operation: self.operation@, known: self.known, name: self.name@ }
    }
}

/// The part of a repository's configuration that speaks of merging.
#[derive(Debug, Clone)]
pub struct MergeConfig {
    pub settings: PolicySettings,
    pub default_semantic_keys: Vec<String>,
    pub generated_columns: KeyMap<Vec<String>>,
    pub internal_resolvers: Vec<ConfiguredResolver>,
    pub schema_resolvers: Vec<ConfiguredSchemaResolver>,
}

/// A configured resolver is known and made for its subject.
pub open spec fn resolver_counts(entry: ConfiguredResolverView) -> bool {
    entry.resolver matches Some(resolver) && resolver_allowed(entry.subject, resolver)
}

/// The resolvers by their subjects, after those of a configuration: one that does not count is
/// passed over, any other takes the place of the one before it.
pub open spec fn resolvers_with(
    base: Map<Seq<char>, Seq<char>>,
    list: Seq<ConfiguredResolverView>,
) -> Map<Seq<char>, Seq<char>>
    decreases list.len(),
{
    if list.len() == 0 {
        base
    } else {
        let rest = resolvers_with(base, list.drop_last());
        if resolver_counts(list.last()) {
            rest.insert(list.last().subject, list.last().name)
        } else {
            rest
        }
    }
}

/// The resolvers by their operations, after those of a configuration.
pub open spec fn schema_resolvers_with(
    base: Map<Seq<char>, Seq<char>>,
    list: Seq<ConfiguredSchemaResolverView>,
) -> Map<Seq<char>, Seq<char>>
    decreases list.len(),
{
    if list.len() == 0 {
        base
    } else {
        let rest = schema_resolvers_with(base, list.drop_last());
        if list.last().known {
            rest.insert(list.last().operation, list.last().name)
        } else {
            rest
        }
    }
}

fn add_resolvers(base: KeyMap<String>, list: Vec<ConfiguredResolver>) -> (r: KeyMap<String>)
    requires
        base.wf(),
    ensures
        r.wf(),
        labels_of(r@) == resolvers_with(labels_of(base@), views(list@)),
{
    let ghost all = views(list@);
    let mut map = base;
    proof {
        assert(all.take(0) =~= Seq::empty());
    }
    for e in it: list
        invariant
            all == views(it.seq()),
            map.wf(),
            labels_of(map@) == resolvers_with(labels_of(base@), all.take(it.index() as int)),
    {
        let ghost was = map@;
        proof {
            let i = it.index() as int;
            assert(all.take(i + 1).drop_last() =~= all.take(i));
            assert(all.take(i + 1).last() == e@);
        }
        if let Some(resolver) = e.resolver {
            if internal_resolver_allowed_for_subject(e.subject.as_str(), resolver) {
                let name = e.name;
                map.put(e.subject.as_str(), name);
                proof {
                    assert(labels_of(map@) =~= labels_of(was).insert(e.subject@, name@));
                }
            }
        }
    }
    proof {
        assert(all.take(all.len() as int) =~= all);
    }
    map
}

fn add_schema_resolvers(base: KeyMap<String>, list: Vec<ConfiguredSchemaResolver>) -> (r: KeyMap<String>)
    requires
        base.wf(),
    ensures
        r.wf(),
        labels_of(r@) == schema_resolvers_with(labels_of(base@), views(list@)),
{
    let ghost all = views(list@);
    let mut map = base;
    proof {
        assert(all.take(0) =~= Seq::empty());
    }
    for e in it: list
        invariant
            all == views(it.seq()),
            map.wf(),
            labels_of(map@) == schema_resolvers_with(labels_of(base@), all.take(it.index() as int)),
    {
        let ghost was = map@;
        proof {
            let i = it.index() as int;
            assert(all.take(i + 1).drop_last() =~= all.take(i));
            assert(all.take(i + 1).last() == e@);
        }
        if e.known {
            let name = e.name;
            map.put(e.operation.as_str(), name);
            proof {
                assert(labels_of(map@) =~= labels_of(was).insert(e.operation@, name@));
            }
        }
    }
    proof {
        assert(all.take(all.len() as int) =~= all);
    }
    map
}

/// The policy of a configuration; `default` holds the resolvers that need not be named.
pub fn row_merge_policy_from_config(config: MergeConfig, default: RowMergePolicy) -> (r: RowMergePolicy)
    requires
        default.wf(),
        config.generated_columns.wf(),
    ensures
        r.wf(),
        r.settings == config.settings,
        r.default_semantic_keys == config.default_semantic_keys,
        r.generated_columns == config.generated_columns,
        labels_of(r.internal_resolvers@) == resolvers_with(
            labels_of(default.internal_resolvers@),
            views(config.internal_resolvers@),
        ),
        labels_of(r.schema_resolvers@) == schema_resolvers_with(
            labels_of(default.schema_resolvers@),
            views(config.schema_resolvers@),
        ),
{
    RowMergePolicy {
        settings: config.settings,
        default_semantic_keys: config.default_semantic_keys,
        internal_resolvers: add_resolvers(default.internal_resolvers, config.internal_resolvers),
        schema_resolvers: add_schema_resolvers(default.schema_resolvers, config.schema_resolvers),
        generated_columns: config.generated_columns,
    }
}

/// A configuration changes the resolver of a subject only by naming one that is made for it.
pub proof fn law_resolvers_fit_their_subjects(
    base: Map<Seq<char>, Seq<char>>,
    list: Seq<ConfiguredResolverView>,
    subject: Seq<char>,
)
    ensures
        ({
            let all = resolvers_with(base, list);
            ||| all.contains_key(subject) == base.contains_key(subject) && (base.contains_key(
                subject,
            ) ==> all[subject] == base[subject])
            ||| all.contains_key(subject) && exists|i: int|
                0 <= i < list.len() && list[i].subject == subject && list[i].name == all[subject]
                    && #[trigger] resolver_counts(list[i])
        }),
    decreases list.len(),
{
    if list.len() > 0 {
        let last = list.len() - 1;
        law_resolvers_fit_their_subjects(base, list.drop_last(), subject);
        if resolver_counts(list.last()) && list.last().subject == subject {
            assert(resolver_counts(list[last]));
        } else {
            let rest = resolvers_with(base, list.drop_last());
            assert(resolvers_with(base, list).contains_key(subject) == rest.contains_key(subject));
            if exists|i: int|
                0 <= i < list.drop_last().len() && list.drop_last()[i].subject == subject
                    && list.drop_last()[i].name == rest[subject] && #[trigger] resolver_counts(
                    list.drop_last()[i],
                ) {
                let i = choose|i: int|
                    0 <= i < list.drop_last().len() && list.drop_last()[i].subject == subject
                        && list.drop_last()[i].name == rest[subject] && #[trigger] resolver_counts(
                        list.drop_last()[i],
                    );
                assert(resolver_counts(list[i]));
            }
        }
    }
}

/// A resolver of one of SQLite's own tables as JSON.
#[derive(Debug, Clone, PartialEq, Eq)]
pub struct JsonRowMergeInternalResolver<S = String> {
    pub table: S,
    pub resolver: S,
}

pub type JsonRowMergeInternalResolverView = JsonRowMergeInternalResolver<Seq<char>>;

impl View for JsonRowMergeInternalResolver<String> {
    type V = JsonRowMergeInternalResolverView;

    open spec fn view(&self) -> JsonRowMergeInternalResolverView {
        JsonRowMergeInternalResolver { table: self.table@, resolver: self.resolver@ }
    }
}

/// A resolver of changes of the schema as JSON.
#[derive(Debug, Clone, PartialEq, Eq)]
pub struct JsonRowMergeSchemaResolver<S = String> {
    pub operation: S,
    pub resolver: S,
}

pub type JsonRowMergeSchemaResolverView = JsonRowMergeSchemaResolver<Seq<char>>;

impl View for JsonRowMergeSchemaResolver<String> {
    type V = JsonRowMergeSchemaResolverView;

    open spec fn view(&self) -> JsonRowMergeSchemaResolverView {
        JsonRowMergeSchemaResolver { operation: self.operation@, resolver: self.resolver@ }
    }
}

/// The generated columns of a table as JSON.
#[derive(Debug, Clone, PartialEq, Eq)]
pub struct JsonRowMergeGeneratedColumns<S = String, L = Vec<String>> {
    pub table: S,
    pub columns: L,
}

pub type JsonRowMergeGeneratedColumnsView = JsonRowMergeGeneratedColumns<Seq<char>, Seq<Seq<char>>>;

impl View for JsonRowMergeGeneratedColumns<String, Vec<String>> {
    type V = JsonRowMergeGeneratedColumnsView;

    open spec fn view(&self) -> JsonRowMergeGeneratedColumnsView {
        JsonRowMergeGeneratedColumns { table: self.table@, columns: texts(self.columns@) }
    }
}

/// How a merge is applied, as JSON.
#[derive(Debug, Clone, PartialEq, Eq)]
pub struct JsonRowMergeApplyPolicy<S = String, L = Vec<String>, P = PolicySettings, R = Vec<JsonRowMergeInternalResolver>, O = Vec<JsonRowMergeSchemaResolver>, G = Vec<JsonRowMergeGeneratedColumns>> {
    pub foreign_keys: S,
    pub triggers: S,
    pub validation: L,
    pub settings: P,
    pub default_semantic_keys: L,
    pub internal_resolvers: R,
    pub schema_resolvers: O,
    pub generated_columns: G,
}

pub type JsonRowMergeApplyPolicyView = JsonRowMergeApplyPolicy<Seq<char>, Seq<Seq<char>>, PolicySettingsView, Seq<JsonRowMergeInternalResolverView>, Seq<JsonRowMergeSchemaResolverView>, Seq<JsonRowMergeGeneratedColumnsView>>;

impl View for JsonRowMergeApplyPolicy<String, Vec<String>, PolicySettings, Vec<JsonRowMergeInternalResolver>, Vec<JsonRowMergeSchemaResolver>, Vec<JsonRowMergeGeneratedColumns>> {
    type V = JsonRowMergeApplyPolicyView;

    open spec fn view(&self) -> JsonRowMergeApplyPolicyView {
        JsonRowMergeApplyPolicy {
            foreign_keys: self.foreign_keys@,
            triggers: self.triggers@,
            validation: texts(self.validation@),
            settings: self.settings@,
            default_semantic_keys: texts(self.default_semantic_keys@),
            internal_resolvers: views(self.internal_resolvers@),
            schema_resolvers: views(self.schema_resolvers@),
            generated_columns: views(self.generated_columns@),
        }
    }
}

/// The resolvers of SQLite's own tables in the order of the tables.
pub open spec fn internal_resolvers_json(resolvers: KeyMap<String>) -> Seq<JsonRowMergeInternalResolverView> {
    Seq::new(
        resolvers.keys@.len(),
        |i: int|
            JsonRowMergeInternalResolver {
                table: resolvers.keys@[i]@,
                resolver: resolvers.values@[i]@,
            },
    )
}

/// The resolvers of changes of the schema in the order of the operations.
pub open spec fn schema_resolvers_json(resolvers: KeyMap<String>) -> Seq<JsonRowMergeSchemaResolverView> {
    Seq::new(
        resolvers.keys@.len(),
        |i: int|
            JsonRowMergeSchemaResolver {
                operation: resolvers.keys@[i]@,
                resolver: resolvers.values@[i]@,
            },
    )
}

/// The generated columns in the order of their tables.
pub open spec fn generated_columns_json(columns: KeyMap<Vec<String>>) -> Seq<JsonRowMergeGeneratedColumnsView> {
    Seq::new(
        columns.keys@.len(),
        |i: int|
            JsonRowMergeGeneratedColumns {
                table: columns.keys@[i]@,
                columns: texts(columns.values@[i]@),
            },
    )
}

/// How a merge under a policy is applied.
pub open spec fn apply_policy_json(policy: RowMergePolicy) -> JsonRowMergeApplyPolicyView {
    JsonRowMergeApplyPolicy {
        foreign_keys: "disabled_during_apply_checked_after"@,
        triggers: "disabled_during_apply"@,
        validation: seq!["integrity_check"@, "foreign_key_check"@],
        settings: policy.settings@,
        default_semantic_keys: texts(policy.default_semantic_keys@),
        internal_resolvers: internal_resolvers_json(policy.internal_resolvers),
        schema_resolvers: schema_resolvers_json(policy.schema_resolvers),
        generated_columns: generated_columns_json(policy.generated_columns),
    }
}

pub fn json_internal_resolvers(policy: &RowMergePolicy) -> (r: Vec<JsonRowMergeInternalResolver>)
    requires
        policy.wf(),
    ensures
        views(r@) == internal_resolvers_json(policy.internal_resolvers),
{
    let mut out: Vec<JsonRowMergeInternalResolver> = Vec::new();
    let n: usize = policy.internal_resolvers.keys.len();
    let mut i: usize = 0;
    while i < n
        invariant
            policy.wf(),
            n == policy.internal_resolvers.keys@.len(),
            0 <= i <= n,
            out@.len() == i,
            forall|k: int|
                0 <= k < i ==> #[trigger] out@[k]@ == internal_resolvers_json(
                    policy.internal_resolvers,
                )[k],
        decreases n - i,
    {
        out.push(
            JsonRowMergeInternalResolver {
                table: policy.internal_resolvers.keys[i].clone(),
                resolver: policy.internal_resolvers.values[i].clone(),
            },
        );
        i += 1;
    }
    proof {
        assert(views(out@) =~= internal_resolvers_json(policy.internal_resolvers));
    }
    out
}

fn json_schema_resolvers(policy: &RowMergePolicy) -> (r: Vec<JsonRowMergeSchemaResolver>)
    requires
        policy.wf(),
    ensures
        views(r@) == schema_resolvers_json(policy.schema_resolvers),
{
    let mut out: Vec<JsonRowMergeSchemaResolver> = Vec::new();
    let n: usize = policy.schema_resolvers.keys.len();
    let mut i: usize = 0;
    while i < n
        invariant
            policy.wf(),
            n == policy.schema_resolvers.keys@.len(),
            0 <= i <= n,
            out@.len() == i,
            forall|k: int|
                0 <= k < i ==> #[trigger] out@[k]@ == schema_resolvers_json(policy.schema_resolvers)[k],
        decreases n - i,
    {
        out.push(
            JsonRowMergeSchemaResolver {
                operation: policy.schema_resolvers.keys[i].clone(),
                resolver: policy.schema_resolvers.values[i].clone(),
            },
        );
        i += 1;
    }
    proof {
        assert(views(out@) =~= schema_resolvers_json(policy.schema_resolvers));
    }
    out
}

fn json_generated_columns(policy: &RowMergePolicy) -> (r: Vec<JsonRowMergeGeneratedColumns>)
    requires
        policy.wf(),
    ensures
        views(r@) == generated_columns_json(policy.generated_columns),
{
    let mut out: Vec<JsonRowMergeGeneratedColumns> = Vec::new();
    let n: usize = policy.generated_columns.keys.len();
    let mut i: usize = 0;
    while i < n
        invariant
            policy.wf(),
            n == policy.generated_columns.keys@.len(),
            0 <= i <= n,
            out@.len() == i,
            forall|k: int|
                0 <= k < i ==> #[trigger] out@[k]@ == generated_columns_json(
                    policy.generated_columns,
                )[k],
        decreases n - i,
    {
        out.push(
            JsonRowMergeGeneratedColumns {
                table: policy.generated_columns.keys[i].clone(),
                columns: copy_texts(&policy.generated_columns.values[i]),
            },
        );
        i += 1;
    }
    proof {
        assert(views(out@) =~= generated_columns_json(policy.generated_columns));
    }
    out
}

pub fn row_merge_apply_policy(policy: &RowMergePolicy) -> (r: JsonRowMergeApplyPolicy)
    requires
        policy.wf(),
    ensures
        r@ == apply_policy_json(*policy),
{
    let mut validation: Vec<String> = Vec::new();
    validation.push("integrity_check".to_owned());
    validation.push("foreign_key_check".to_owned());
    proof {
        assert(texts(validation@) =~= seq!["integrity_check"@, "foreign_key_check"@]);
    }
    JsonRowMergeApplyPolicy {
        foreign_keys: "disabled_during_apply_checked_after".to_owned(),
        triggers: "disabled_during_apply".to_owned(),
        validation,
        settings: copy_settings(&policy.settings),
        default_semantic_keys: copy_texts(&policy.default_semantic_keys),
        internal_resolvers: json_internal_resolvers(policy),
        schema_resolvers: json_schema_resolvers(policy),
        generated_columns: json_generated_columns(policy),
    }
}

} // verus!
