//! Policies: the three kinds that the directory service holds, what each
//! offers to an enforcement handler, and how their settings are stored.

use crate::error::PolicyError;
use crate::pattern::{regex_is_match, Pattern};
use crate::setting::{
    clone_setting, clone_settings, instance_views, setting_resolved, setting_views,
    ConfigurationPolicySetting, DefinitionView, GroupPolicyDefinition, InstanceView, PolicySetting,
    Setting, SettingView,
};
use vstd::prelude::*;

verus! {

/// A policy as a mathematical value: its identifier, its name, and its
/// settings once they have been loaded.
pub struct PolicyView {
    pub id: Seq<char>,
    pub name: Seq<char>,
    pub settings: Option<Seq<SettingView>>,
}

/// The view of an optional list of settings.
pub open spec fn opt_settings(o: Option<Vec<Setting>>) -> Option<Seq<SettingView>> {
    match o {
        Some(v) => Some(setting_views(v@)),
        None => None,
    }
}

/// Whether a handler's pattern selects a setting.
pub open spec fn selects(pattern: Seq<char>, setting: SettingView) -> bool {
    regex_is_match(pattern, setting_resolved(setting).compare_pattern)
}

/// The settings that a handler's pattern selects, in their order.
pub open spec fn matching(settings: Seq<SettingView>, pattern: Seq<char>) -> Seq<SettingView> {
    settings.filter(|s: SettingView| selects(pattern, s))
}

/// What listing the settings of a policy returns.
pub open spec fn listed(
    settings: Option<Seq<SettingView>>,
    pattern: Seq<char>,
    r: Result<Vec<Setting>, PolicyError>,
) -> bool {
    match settings {
        Some(loaded) => r matches Ok(found) && setting_views(found@) == matching(loaded, pattern),
        None => r matches Err(e) && e@ == crate::error::ErrorView::NotLoaded,
    }
}

/// Selecting from one setting more either adds that setting or changes
/// nothing.
proof fn lemma_matching_step(settings: Seq<SettingView>, pattern: Seq<char>, i: int)
    requires
        0 <= i < settings.len(),
    ensures
        matching(settings.take(i + 1), pattern) == if selects(pattern, settings[i]) {
            matching(settings.take(i), pattern).push(settings[i])
        } else {
            matching(settings.take(i), pattern)
        },
{
    reveal(Seq::filter);
    assert(settings.take(i + 1).drop_last() =~= settings.take(i));
}

/// The settings among `settings` that `pattern` selects, in their order.
pub fn select_settings(settings: &Vec<Setting>, pattern: &Pattern) -> (found: Vec<Setting>)
    ensures
        setting_views(found@) == matching(setting_views(settings@), pattern@),
{
    let ghost all = setting_views(settings@);
    let mut found: Vec<Setting> = Vec::new();
    let mut i: usize = 0;
    proof {
        reveal(Seq::filter);
        assert(all.take(0) =~= Seq::empty());
        assert(setting_views(found@) =~= matching(all.take(0), pattern@));
    }
    while i < settings.len()
        invariant
            i <= settings.len(),
            all == setting_views(settings@),
            setting_views(found@) == matching(all.take(i as int), pattern@),
        decreases settings.len() - i,
    {
        let setting = &settings[i];
        let key = setting.get_compare_pattern();
        proof {
            lemma_matching_step(all, pattern@, i as int);
            assert(all[i as int] == setting@);
        }
        if pattern.is_match(key.as_str()) {
            let ghost before = found@;
            let copy = clone_setting(setting);
            found.push(copy);
            assert(setting_views(found@) =~= setting_views(before).push(setting@));
        }
        i += 1;
    }
    assert(all.take(settings.len() as int) =~= all);
    found
}

/// What every kind of policy offers to an enforcement handler.
pub trait Policy {
    /// The policy as a mathematical value.
    spec fn model(&self) -> PolicyView;

    /// The identifier that the directory service gave the policy.
    fn get_id(&self) -> (r: String)
        ensures
            r@ == self.model().id,
    ;

    /// The name that the directory service gave the policy.
    fn get_name(&self) -> (r: String)
        ensures
            r@ == self.model().name,
    ;

    /// The loaded settings whose comparison key `pattern` matches, in their
    /// order; the error `NotLoaded` while no settings have been loaded.
    fn list_policy_settings(&self, pattern: &Pattern) -> (r: Result<Vec<Setting>, PolicyError>)
        ensures
            listed(self.model().settings, pattern@, r),
    ;
}

/// A device configuration policy.
#[derive(Debug, PartialEq, Eq)]
pub struct ConfigurationPolicy {
    pub id: String,
    pub name: String,
    pub policy_definitions: Option<Vec<Setting>>,
}

/// A device compliance policy.
#[derive(Debug, PartialEq, Eq)]
pub struct CompliancePolicy {
    pub id: String,
    pub name: String,
    pub policy_definitions: Option<Vec<Setting>>,
}

/// A group policy configuration.
#[derive(Debug, PartialEq, Eq)]
pub struct GroupPolicy {
    pub id: String,
    pub name: String,
    pub policy_definitions: Option<Vec<Setting>>,
}

impl View for ConfigurationPolicy {
    type V = PolicyView;

    open spec fn view(&self) -> PolicyView {
        PolicyView {
            id: self.id@,
            name: self.name@,
            settings: opt_settings(self.policy_definitions),
        }
    }
}

impl View for CompliancePolicy {
    type V = PolicyView;

    open spec fn view(&self) -> PolicyView {
        PolicyView {
            id: self.id@,
            name: self.name@,
            settings: opt_settings(self.policy_definitions),
        }
    }
}

impl View for GroupPolicy {
    type V = PolicyView;

    open spec fn view(&self) -> PolicyView {
        PolicyView {
            id: self.id@,
            name: self.name@,
            settings: opt_settings(self.policy_definitions),
        }
    }
}

/// The settings that stand for a list of setting instances, in order.
pub open spec fn configuration_settings(instances: Seq<InstanceView>) -> Seq<SettingView> {
    instances.map_values(|c: InstanceView| SettingView::Configuration(c))
}

/// The settings that stand for a list of definitions, in order.
pub open spec fn group_settings(definitions: Seq<DefinitionView>) -> Seq<SettingView> {
    definitions.map_values(|d: DefinitionView| SettingView::Group(d))
}

/// The views of a list of configuration settings, in order.
pub open spec fn configuration_views(v: Seq<ConfigurationPolicySetting>) -> Seq<InstanceView> {
    v.map_values(|c: ConfigurationPolicySetting| c@)
}

/// The views of a list of definitions, in order.
pub open spec fn definition_views(v: Seq<GroupPolicyDefinition>) -> Seq<DefinitionView> {
    v.map_values(|d: GroupPolicyDefinition| d@)
}

/// Each configuration setting as a setting of any policy, in order.
pub fn wrap_configuration_settings(settings: Vec<ConfigurationPolicySetting>) -> (r: Vec<Setting>)
    ensures
        setting_views(r@) == configuration_settings(configuration_views(settings@)),
{
    let mut r: Vec<Setting> = Vec::new();
    for setting in it: settings
        invariant
            r@.len() == it.index(),
            forall|k: int| 0 <= k < it.index() ==> (#[trigger] r@[k])@ == SettingView::Configuration(it.seq()[k]@),
    {
        r.push(Setting::Configuration(setting));
    }
    assert(setting_views(r@) =~= configuration_settings(configuration_views(settings@)));
    r
}

/// An optional list of settings, copied.
fn clone_loaded(settings: &Option<Vec<Setting>>) -> (r: Option<Vec<Setting>>)
    ensures
        opt_settings(r) == opt_settings(*settings),
{
    match settings {
        Some(v) => Some(clone_settings(v)),
        None => None,
    }
}

/// Lists from an optional list of settings.
fn list_loaded(settings: &Option<Vec<Setting>>, pattern: &Pattern) -> (r: Result<
    Vec<Setting>,
    PolicyError,
>)
    ensures
        listed(opt_settings(*settings), pattern@, r),
{
    match settings {
        Some(loaded) => Ok(select_settings(loaded, pattern)),
        None => Err(PolicyError::NotLoaded),
    }
}

impl ConfigurationPolicy {
    /// A policy as the directory service lists it: without settings.
    pub fn new(id: String, name: String) -> (r: Self)
        ensures
            r@ == (PolicyView { id: id@, name: name@, settings: None }),
    {
        ConfigurationPolicy { id, name, policy_definitions: None }
    }

    /// Stores the settings that were fetched for this policy.
    pub fn load_policy_settings(&mut self, settings: Vec<ConfigurationPolicySetting>) -> (r: bool)
        ensures
            r,
            final(self)@ == (PolicyView {
                settings: Some(configuration_settings(configuration_views(settings@))),
                ..old(self)@
            }),
    {
        self.policy_definitions = Some(wrap_configuration_settings(settings));
        true
    }
}

impl Policy for ConfigurationPolicy {
    open spec fn model(&self) -> PolicyView {
        self@
    }

    fn get_id(&self) -> (r: String) {
        self.id.clone()
    }

    fn get_name(&self) -> (r: String) {
        self.name.clone()
    }

    fn list_policy_settings(&self, pattern: &Pattern) -> (r: Result<Vec<Setting>, PolicyError>) {
        list_loaded(&self.policy_definitions, pattern)
    }
}

impl Clone for ConfigurationPolicy {
    fn clone(&self) -> (r: Self)
        ensures
            r@ == self@,
    {
        ConfigurationPolicy {
            id: self.id.clone(),
            name: self.name.clone(),
            policy_definitions: clone_loaded(&self.policy_definitions),
        }
    }
}

/// Each definition as a setting of any policy, in order.
pub fn wrap_definitions(definitions: Vec<GroupPolicyDefinition>) -> (r: Vec<Setting>)
    ensures
        setting_views(r@) == group_settings(definition_views(definitions@)),
{
    let mut r: Vec<Setting> = Vec::new();
    for definition in it: definitions
        invariant
            r@.len() == it.index(),
            forall|k: int|
                0 <= k < it.index() ==> (#[trigger] r@[k])@ == SettingView::Group(it.seq()[k]@),
    {
        r.push(Setting::Group(definition));
    }
    assert(setting_views(r@) =~= group_settings(definition_views(definitions@)));
    r
}

impl CompliancePolicy {
    /// A policy as the directory service lists it: without settings.
    pub fn new(id: String, name: String) -> (r: Self)
        ensures
            r@ == (PolicyView { id: id@, name: name@, settings: None }),
    {
        CompliancePolicy { id, name, policy_definitions: None }
    }

    /// Stores the settings that were fetched for this policy.
    pub fn load_policy_settings(&mut self, settings: Vec<ConfigurationPolicySetting>) -> (r: bool)
        ensures
            r,
            final(self)@ == (PolicyView {
                settings: Some(configuration_settings(configuration_views(settings@))),
                ..old(self)@
            }),
    {
        self.policy_definitions = Some(wrap_configuration_settings(settings));
        true
    }
}

impl Policy for CompliancePolicy {
    open spec fn model(&self) -> PolicyView {
        self@
    }

    fn get_id(&self) -> (r: String) {
        self.id.clone()
    }

    fn get_name(&self) -> (r: String) {
        self.name.clone()
    }

    fn list_policy_settings(&self, pattern: &Pattern) -> (r: Result<Vec<Setting>, PolicyError>) {
        list_loaded(&self.policy_definitions, pattern)
    }
}

impl Clone for CompliancePolicy {
    fn clone(&self) -> (r: Self)
        ensures
            r@ == self@,
    {
        CompliancePolicy {
            id: self.id.clone(),
            name: self.name.clone(),
            policy_definitions: clone_loaded(&self.policy_definitions),
        }
    }
}

impl GroupPolicy {
    /// A policy as the directory service lists it: without settings.
    pub fn new(id: String, name: String) -> (r: Self)
        ensures
            r@ == (PolicyView { id: id@, name: name@, settings: None }),
    {
        GroupPolicy { id, name, policy_definitions: None }
    }

    /// Stores the definitions that were fetched and merged for this policy.
    pub fn load_policy_settings(&mut self, definitions: Vec<GroupPolicyDefinition>) -> (r: bool)
        ensures
            r,
            final(self)@ == (PolicyView {
                settings: Some(group_settings(definition_views(definitions@))),
                ..old(self)@
            }),
    {
        self.policy_definitions = Some(wrap_definitions(definitions));
        true
    }
}

impl Policy for GroupPolicy {
    open spec fn model(&self) -> PolicyView {
        self@
    }

    fn get_id(&self) -> (r: String) {
        self.id.clone()
    }

    fn get_name(&self) -> (r: String) {
        self.name.clone()
    }

    fn list_policy_settings(&self, pattern: &Pattern) -> (r: Result<Vec<Setting>, PolicyError>) {
        list_loaded(&self.policy_definitions, pattern)
    }
}

impl Clone for GroupPolicy {
    fn clone(&self) -> (r: Self)
        ensures
            r@ == self@,
    {
        GroupPolicy {
            id: self.id.clone(),
            name: self.name.clone(),
            policy_definitions: clone_loaded(&self.policy_definitions),
        }
    }
}

/// A policy of any of the three kinds.
#[derive(Debug, PartialEq, Eq)]
pub enum AppliedPolicy {
    Configuration(ConfigurationPolicy),
    Group(GroupPolicy),
    Compliance(CompliancePolicy),
}

/// A policy of any kind as a mathematical value.
pub enum AppliedView {
    Configuration(PolicyView),
    Group(PolicyView),
    Compliance(PolicyView),
}

impl AppliedView {
    /// The policy without its kind.
    pub open spec fn policy(self) -> PolicyView {
        match self {
            AppliedView::Configuration(p) => p,
            AppliedView::Group(p) => p,
            AppliedView::Compliance(p) => p,
        }
    }
}

impl View for AppliedPolicy {
    type V = AppliedView;

    open spec fn view(&self) -> AppliedView {
        match self {
            AppliedPolicy::Configuration(p) => AppliedView::Configuration(p@),
            AppliedPolicy::Group(p) => AppliedView::Group(p@),
            AppliedPolicy::Compliance(p) => AppliedView::Compliance(p@),
        }
    }
}

/// The views of a list of policies, in order.
pub open spec fn applied_views(v: Seq<AppliedPolicy>) -> Seq<AppliedView> {
    v.map_values(|p: AppliedPolicy| p@)
}

impl Policy for AppliedPolicy {
    open spec fn model(&self) -> PolicyView {
        self@.policy()
    }

    fn get_id(&self) -> (r: String) {
        match self {
            AppliedPolicy::Configuration(p) => p.get_id(),
            AppliedPolicy::Group(p) => p.get_id(),
            AppliedPolicy::Compliance(p) => p.get_id(),
        }
    }

    fn get_name(&self) -> (r: String) {
        match self {
            AppliedPolicy::Configuration(p) => p.get_name(),
            AppliedPolicy::Group(p) => p.get_name(),
            AppliedPolicy::Compliance(p) => p.get_name(),
        }
    }

    fn list_policy_settings(&self, pattern: &Pattern) -> (r: Result<Vec<Setting>, PolicyError>) {
        match self {
            AppliedPolicy::Configuration(p) => p.list_policy_settings(pattern),
            AppliedPolicy::Group(p) => p.list_policy_settings(pattern),
            AppliedPolicy::Compliance(p) => p.list_policy_settings(pattern),
        }
    }
}

impl Clone for AppliedPolicy {
    fn clone(&self) -> (r: Self)
        ensures
            r@ == self@,
    {
        match self {
            AppliedPolicy::Configuration(p) => AppliedPolicy::Configuration(p.clone()),
            AppliedPolicy::Group(p) => AppliedPolicy::Group(p.clone()),
            AppliedPolicy::Compliance(p) => AppliedPolicy::Compliance(p.clone()),
        }
    }
}

/// A copy of a list of policies, for a handler of its own.
pub fn clone_policies(policies: &Vec<AppliedPolicy>) -> (r: Vec<AppliedPolicy>)
    ensures
        applied_views(r@) == applied_views(policies@),
{
    let mut r: Vec<AppliedPolicy> = Vec::new();
    let mut i: usize = 0;
    while i < policies.len()
        invariant
            i <= policies.len(),
            r@.len() == i,
            forall|k: int| 0 <= k < i ==> (#[trigger] r@[k])@ == policies@[k]@,
        decreases policies.len() - i,
    {
        r.push(policies[i].clone());
        i += 1;
    }
    assert(applied_views(r@) =~= applied_views(policies@));
    r
}

/// A policy whose settings were never loaded refuses to list them, whatever
/// its kind and whatever the pattern.
pub proof fn lemma_not_loaded(
    settings: Option<Seq<SettingView>>,
    pattern: Seq<char>,
    r: Result<Vec<Setting>, PolicyError>,
)
    requires
        settings is None,
        listed(settings, pattern, r),
    ensures
        r is Err,
        r->Err_0@ == crate::error::ErrorView::NotLoaded,
{
}

} // verus!
