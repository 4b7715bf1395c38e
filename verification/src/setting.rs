//! Settings: what a policy holds, as the directory service lists it, and what
//! an enforcement handler reads from it.

use crate::text::{opt_text, same_text, starts_with, strip_prefix};
use crate::value::{
    clone_value, opt_value, parse_input_value, parse_scalar, value_view, PolicyType, ValueType,
    ValueView,
};
use vstd::prelude::*;

verus! {

/// Kind of a setting instance that holds one scalar.
pub const SIMPLE_SETTING: &'static str =
    "#microsoft.graph.deviceManagementConfigurationSimpleSettingInstance";

/// Kind of a setting instance that holds one of the choices of its definition.
pub const CHOICE_SETTING: &'static str =
    "#microsoft.graph.deviceManagementConfigurationChoiceSettingInstance";

/// Kind of a setting instance that holds groups of further instances.
pub const GROUP_COLLECTION_SETTING: &'static str =
    "#microsoft.graph.deviceManagementConfigurationGroupSettingCollectionInstance";

/// One group of a group-collection instance.
#[derive(Debug, PartialEq, Eq)]
pub struct GroupSettingCollectionValue {
    pub children: Vec<SettingInstance>,
}

/// A setting instance of a configuration or compliance policy.
#[derive(Debug, PartialEq, Eq)]
pub struct SettingInstance {
    pub odata_type: String,
    pub setting_definition_id: String,
    pub simple_value: Option<String>,
    pub choice_value: Option<String>,
    pub group_value: Option<Vec<GroupSettingCollectionValue>>,
}

/// A setting instance as a mathematical value.
pub struct InstanceView {
    pub odata_type: Seq<char>,
    pub setting_definition_id: Seq<char>,
    pub simple_value: Option<Seq<char>>,
    pub choice_value: Option<Seq<char>>,
    pub group_value: Option<Seq<Seq<InstanceView>>>,
}

/// The mathematical value of a group of instances.
pub open spec fn group_view(group: GroupSettingCollectionValue) -> Seq<InstanceView>
    decreases group,
{
    Seq::new(
        group.children@.len(),
        |i: int|
            if 0 <= i < group.children@.len() {
                instance_view(group.children@[i])
            } else {
                arbitrary()
            },
    )
}

/// The mathematical value of a setting instance.
pub open spec fn instance_view(instance: SettingInstance) -> InstanceView
    decreases instance,
{
    InstanceView {
        odata_type: instance.odata_type@,
        setting_definition_id: instance.setting_definition_id@,
        simple_value: opt_text(instance.simple_value),
        choice_value: opt_text(instance.choice_value),
        group_value: match instance.group_value {
            Some(groups) => Some(
                Seq::new(
                    groups@.len(),
                    |i: int|
                        if 0 <= i < groups@.len() {
                            group_view(groups@[i])
                        } else {
                            arbitrary()
                        },
                ),
            ),
            None => None,
        },
    }
}

impl View for GroupSettingCollectionValue {
    type V = Seq<InstanceView>;

    open spec fn view(&self) -> Seq<InstanceView> {
        group_view(*self)
    }
}

impl View for SettingInstance {
    type V = InstanceView;

    open spec fn view(&self) -> InstanceView {
        instance_view(*self)
    }
}

/// The views of a list of instances, in order.
pub open spec fn instance_views(v: Seq<SettingInstance>) -> Seq<InstanceView> {
    v.map_values(|c: SettingInstance| c@)
}

/// The views of a list of groups, in order.
pub open spec fn group_views(v: Seq<GroupSettingCollectionValue>) -> Seq<Seq<InstanceView>> {
    v.map_values(|g: GroupSettingCollectionValue| g@)
}

/// A group's view holds the views of its children, in order.
pub proof fn lemma_group_view(group: GroupSettingCollectionValue)
    ensures
        group@ == instance_views(group.children@),
{
    assert(group@ =~= instance_views(group.children@));
}

/// An instance's view holds the views of its groups, in order.
pub proof fn lemma_instance_groups(instance: SettingInstance)
    ensures
        instance@.group_value == match instance.group_value {
            Some(groups) => Some(group_views(groups@)),
            None => None,
        },
{
    match instance.group_value {
        Some(groups) => {
            assert(instance@.group_value->0 =~= group_views(groups@));
        },
        None => {},
    }
}

/// A copy of a list of instances.
pub fn clone_instances(v: &Vec<SettingInstance>) -> (r: Vec<SettingInstance>)
    ensures
        instance_views(r@) == instance_views(v@),
    decreases v, 0nat,
{
    let mut r: Vec<SettingInstance> = Vec::new();
    let mut i: usize = 0;
    while i < v.len()
        invariant
            i <= v.len(),
            r@.len() == i,
            forall|k: int| 0 <= k < i ==> (#[trigger] r@[k])@ == v@[k]@,
        decreases v.len() - i,
    {
        r.push(clone_instance(&v[i]));
        i += 1;
    }
    assert(instance_views(r@) =~= instance_views(v@));
    r
}

/// A copy of a list of groups.
pub fn clone_groups(v: &Vec<GroupSettingCollectionValue>) -> (r: Vec<GroupSettingCollectionValue>)
    ensures
        group_views(r@) == group_views(v@),
    decreases v, 0nat,
{
    let mut r: Vec<GroupSettingCollectionValue> = Vec::new();
    let mut i: usize = 0;
    while i < v.len()
        invariant
            i <= v.len(),
            r@.len() == i,
            forall|k: int| 0 <= k < i ==> (#[trigger] r@[k])@ == v@[k]@,
        decreases v.len() - i,
    {
        let children = clone_instances(&v[i].children);
        let group = GroupSettingCollectionValue { children };
        proof {
            lemma_group_view(group);
            lemma_group_view(v@[i as int]);
        }
        r.push(group);
        i += 1;
    }
    assert(group_views(r@) =~= group_views(v@));
    r
}

/// A copy of an instance.
pub fn clone_instance(instance: &SettingInstance) -> (r: SettingInstance)
    ensures
        r@ == instance@,
    decreases instance, 1nat,
{
    let r = SettingInstance {
        odata_type: instance.odata_type.clone(),
        setting_definition_id: instance.setting_definition_id.clone(),
        simple_value: match &instance.simple_value {
            Some(v) => Some(v.clone()),
            None => None,
        },
        choice_value: match &instance.choice_value {
            Some(v) => Some(v.clone()),
            None => None,
        },
        group_value: match &instance.group_value {
            Some(groups) => Some(clone_groups(groups)),
            None => None,
        },
    };
    proof {
        lemma_instance_groups(r);
        lemma_instance_groups(*instance);
    }
    r
}

impl Clone for GroupSettingCollectionValue {
    fn clone(&self) -> (r: Self)
        ensures
            r@ == self@,
    {
        let r = GroupSettingCollectionValue { children: clone_instances(&self.children) };
        proof {
            lemma_group_view(r);
            lemma_group_view(*self);
        }
        r
    }
}

impl Clone for SettingInstance {
    fn clone(&self) -> (r: Self)
        ensures
            r@ == self@,
    {
        clone_instance(self)
    }
}

/// A setting of a configuration or compliance policy.
#[derive(Debug, PartialEq, Eq)]
pub struct ConfigurationPolicySetting {
    pub setting_instance: SettingInstance,
}

impl View for ConfigurationPolicySetting {
    type V = InstanceView;

    open spec fn view(&self) -> InstanceView {
        self.setting_instance@
    }
}

/// The value that a group-policy definition is set to, as the directory
/// service presents it.
#[derive(Debug, PartialEq, Eq)]
pub struct PresentationValue {
    pub value: Option<ValueType>,
    pub values: Option<ValueType>,
}

/// A presentation value as a mathematical value.
pub struct PresentationView {
    pub value: Option<ValueView>,
    pub values: Option<ValueView>,
}

/// The mathematical value of a presentation value.
pub open spec fn presentation_view(p: PresentationValue) -> PresentationView
    decreases p,
{
    PresentationView {
        value: match p.value {
            Some(v) => Some(value_view(v)),
            None => None,
        },
        values: match p.values {
            Some(v) => Some(value_view(v)),
            None => None,
        },
    }
}

impl View for PresentationValue {
    type V = PresentationView;

    open spec fn view(&self) -> PresentationView {
        presentation_view(*self)
    }
}

impl Default for PresentationValue {
    fn default() -> (r: Self)
        ensures
            r.value is None,
            r.values is None,
    {
        PresentationValue { value: None, values: None }
    }
}

/// A group-policy definition together with whether it is switched on and what
/// it is set to.
#[derive(Debug, PartialEq, Eq)]
pub struct GroupPolicyDefinition {
    pub enabled: bool,
    pub class_type: String,
    pub display_name: String,
    pub category_path: String,
    pub value: PresentationValue,
}

/// A group-policy definition as a mathematical value.
pub struct DefinitionView {
    pub enabled: bool,
    pub class_type: Seq<char>,
    pub display_name: Seq<char>,
    pub category_path: Seq<char>,
    pub value: PresentationView,
}

/// The mathematical value of a group-policy definition.
pub open spec fn definition_view(d: GroupPolicyDefinition) -> DefinitionView
    decreases d,
{
    DefinitionView {
        enabled: d.enabled,
        class_type: d.class_type@,
        display_name: d.display_name@,
        category_path: d.category_path@,
        value: presentation_view(d.value),
    }
}

impl View for GroupPolicyDefinition {
    type V = DefinitionView;

    open spec fn view(&self) -> DefinitionView {
        definition_view(*self)
    }
}

/// A setting of any policy.
#[derive(Debug, PartialEq, Eq)]
pub enum Setting {
    Configuration(ConfigurationPolicySetting),
    Group(GroupPolicyDefinition),
}

/// A setting as a mathematical value.
pub enum SettingView {
    Configuration(InstanceView),
    Group(DefinitionView),
}

/// The mathematical value of a setting.
pub open spec fn setting_view(s: Setting) -> SettingView
    decreases s,
{
    match s {
        Setting::Configuration(c) => SettingView::Configuration(instance_view(c.setting_instance)),
        Setting::Group(d) => SettingView::Group(definition_view(d)),
    }
}

impl View for Setting {
    type V = SettingView;

    open spec fn view(&self) -> SettingView {
        setting_view(*self)
    }
}

/// The views of a list of settings, in order.
pub open spec fn setting_views(v: Seq<Setting>) -> Seq<SettingView> {
    v.map_values(|s: Setting| s@)
}

/// A copy of a presentation value.
pub fn clone_presentation(p: &PresentationValue) -> (r: PresentationValue)
    ensures
        r@ == p@,
    decreases p,
{
    PresentationValue {
        value: match &p.value {
            Some(v) => Some(clone_value(v)),
            None => None,
        },
        values: match &p.values {
            Some(v) => Some(clone_value(v)),
            None => None,
        },
    }
}

/// A copy of a group-policy definition.
pub fn clone_definition(d: &GroupPolicyDefinition) -> (r: GroupPolicyDefinition)
    ensures
        r@ == d@,
    decreases d,
{
    GroupPolicyDefinition {
        enabled: d.enabled,
        class_type: d.class_type.clone(),
        display_name: d.display_name.clone(),
        category_path: d.category_path.clone(),
        value: clone_presentation(&d.value),
    }
}

/// A copy of a setting.
pub fn clone_setting(s: &Setting) -> (r: Setting)
    ensures
        r@ == s@,
    decreases s,
{
    match s {
        Setting::Configuration(c) => Setting::Configuration(
            ConfigurationPolicySetting { setting_instance: clone_instance(&c.setting_instance) },
        ),
        Setting::Group(d) => Setting::Group(clone_definition(d)),
    }
}

/// A copy of a list of settings.
pub fn clone_settings(v: &Vec<Setting>) -> (r: Vec<Setting>)
    ensures
        setting_views(r@) == setting_views(v@),
    decreases v,
{
    let mut r: Vec<Setting> = Vec::new();
    let mut i: usize = 0;
    while i < v.len()
        invariant
            i <= v.len(),
            r@.len() == i,
            forall|k: int| 0 <= k < i ==> (#[trigger] r@[k])@ == v@[k]@,
        decreases v.len() - i,
    {
        r.push(clone_setting(&v[i]));
        i += 1;
    }
    assert(setting_views(r@) =~= setting_views(v@));
    r
}

impl Clone for ConfigurationPolicySetting {
    fn clone(&self) -> (r: Self)
        ensures
            r@ == self@,
    {
        ConfigurationPolicySetting { setting_instance: clone_instance(&self.setting_instance) }
    }
}

impl Clone for PresentationValue {
    fn clone(&self) -> (r: Self)
        ensures
            r@ == self@,
    {
        clone_presentation(self)
    }
}

impl Clone for GroupPolicyDefinition {
    fn clone(&self) -> (r: Self)
        ensures
            r@ == self@,
    {
        clone_definition(self)
    }
}

impl Clone for Setting {
    fn clone(&self) -> (r: Self)
        ensures
            r@ == self@,
    {
        clone_setting(self)
    }
}

/// What an enforcement handler reads from a setting.
pub struct Resolved {
    /// Whether the setting is switched on.
    pub enabled: bool,
    /// Whom the setting is meant for.
    pub class: PolicyType,
    /// The name by which handlers recognise the setting.
    pub key: Seq<char>,
    /// What the setting is set to, if anything.
    pub value: Option<ValueView>,
    /// The text that handlers match their patterns against.
    pub compare_pattern: Seq<char>,
}

/// The class that the identifier of a setting definition names by its prefix.
pub open spec fn instance_class(id: Seq<char>) -> PolicyType {
    if "user_"@.is_prefix_of(id) {
        PolicyType::User
    } else if "device_"@.is_prefix_of(id) {
        PolicyType::Device
    } else {
        PolicyType::Unknown
    }
}

/// What precedes the choice itself in the value of a choice setting.
pub open spec fn choice_prefix(id: Seq<char>) -> Seq<char> {
    id + "_"@
}

/// The settings that stand for the children of all groups, in order.
pub open spec fn children_settings(groups: Seq<Seq<InstanceView>>) -> Seq<SettingView> {
    groups.flatten().map_values(|c: InstanceView| SettingView::Configuration(c))
}

/// The value of a setting instance: by its kind, the scalar that its text
/// denotes, the choice that follows the definition's identifier, or the
/// children of all its groups; nothing where the kind is none of these or the
/// instance lacks what its kind calls for.
pub open spec fn instance_value(instance: InstanceView) -> Option<ValueView> {
    if instance.odata_type == SIMPLE_SETTING@ {
        match instance.simple_value {
            Some(raw) => Some(parse_scalar(raw)),
            None => None,
        }
    } else if instance.odata_type == CHOICE_SETTING@ {
        match instance.choice_value {
            Some(raw) => {
                let prefix = choice_prefix(instance.setting_definition_id);
                if prefix.is_prefix_of(raw) {
                    Some(parse_scalar(raw.skip(prefix.len() as int)))
                } else {
                    None
                }
            },
            None => None,
        }
    } else if instance.odata_type == GROUP_COLLECTION_SETTING@ {
        match instance.group_value {
            Some(groups) => Some(ValueView::Collection(children_settings(groups))),
            None => None,
        }
    } else {
        None
    }
}

/// What a handler reads from a setting of a configuration or compliance
/// policy. Such a setting is always switched on.
pub open spec fn configuration_resolved(instance: InstanceView) -> Resolved {
    Resolved {
        enabled: true,
        class: instance_class(instance.setting_definition_id),
        key: instance.setting_definition_id,
        value: instance_value(instance),
        compare_pattern: instance.setting_definition_id,
    }
}

/// The class that a group-policy definition names.
pub open spec fn definition_class(class_type: Seq<char>) -> PolicyType {
    if class_type == "user"@ {
        PolicyType::User
    } else if class_type == "device"@ {
        PolicyType::Device
    } else {
        PolicyType::Unknown
    }
}

/// The value of a presentation: its single value where it has one, else its
/// list of values.
pub open spec fn presentation_value(p: PresentationView) -> Option<ValueView> {
    match p.value {
        Some(v) => Some(v),
        None => p.values,
    }
}

/// What a handler reads from a group-policy definition.
pub open spec fn definition_resolved(d: DefinitionView) -> Resolved {
    Resolved {
        enabled: d.enabled,
        class: definition_class(d.class_type),
        key: d.display_name,
        value: presentation_value(d.value),
        compare_pattern: d.category_path,
    }
}

/// What a handler reads from a setting.
pub open spec fn setting_resolved(s: SettingView) -> Resolved {
    match s {
        SettingView::Configuration(instance) => configuration_resolved(instance),
        SettingView::Group(d) => definition_resolved(d),
    }
}

/// What every kind of setting offers to an enforcement handler.
pub trait PolicySetting {
    /// What a handler reads from this setting.
    spec fn resolved(&self) -> Resolved;

    /// Whether the setting is switched on.
    fn enabled(&self) -> (r: bool)
        ensures
            r == self.resolved().enabled,
    ;

    /// Whom the setting is meant for.
    fn class_type(&self) -> (r: PolicyType)
        ensures
            r == self.resolved().class,
    ;

    /// The name by which handlers recognise the setting.
    fn key(&self) -> (r: String)
        ensures
            r@ == self.resolved().key,
    ;

    /// What the setting is set to, if anything.
    fn value(&self) -> (r: Option<ValueType>)
        ensures
            opt_value(r) == self.resolved().value,
    ;

    /// The text that handlers match their patterns against.
    fn get_compare_pattern(&self) -> (r: String)
        ensures
            r@ == self.resolved().compare_pattern,
    ;
}

/// The children of all groups, each as a setting of its own, in order.
pub fn collect_children(groups: &Vec<GroupSettingCollectionValue>) -> (r: Vec<Setting>)
    ensures
        setting_views(r@) == children_settings(group_views(groups@)),
{
    let ghost all = group_views(groups@);
    let mut r: Vec<Setting> = Vec::new();
    let mut i: usize = 0;
    assert(all.take(0) =~= Seq::empty());
    assert(setting_views(r@) =~= children_settings(all.take(0)));
    while i < groups.len()
        invariant
            i <= groups.len(),
            all == group_views(groups@),
            setting_views(r@) == children_settings(all.take(i as int)),
        decreases groups.len() - i,
    {
        let children = &groups[i].children;
        let ghost done = all.take(i as int).flatten();
        let ghost these = all[i as int];
        proof {
            lemma_group_view(groups@[i as int]);
            assert(these == instance_views(children@));
            assert(these.take(0) =~= Seq::empty());
            assert(done + these.take(0) =~= done);
        }
        let mut j: usize = 0;
        while j < children.len()
            invariant
                j <= children.len(),
                these == instance_views(children@),
                setting_views(r@) == (done + these.take(j as int)).map_values(
                    |c: InstanceView| SettingView::Configuration(c),
                ),
            decreases children.len() - j,
        {
            let child = clone_instance(&children[j]);
            let ghost before = r@;
            r.push(Setting::Configuration(ConfigurationPolicySetting { setting_instance: child }));
            proof {
                assert(setting_views(r@) =~= setting_views(before).push(
                    SettingView::Configuration(child@),
                ));
                assert(these[j as int] == child@);
                assert(these.take(j + 1) =~= these.take(j as int).push(these[j as int]));
                assert(done + these.take(j + 1) =~= (done + these.take(j as int)).push(
                    these[j as int],
                ));
                assert(setting_views(r@) =~= (done + these.take(j + 1)).map_values(
                    |c: InstanceView| SettingView::Configuration(c),
                ));
            }
            j += 1;
        }
        proof {
            assert(these.take(children.len() as int) =~= these);
            assert(all.take(i + 1) =~= all.take(i as int).push(these));
            all.take(i as int).lemma_flatten_push(these);
        }
        i += 1;
    }
    assert(all.take(groups.len() as int) =~= all);
    r
}

impl PolicySetting for ConfigurationPolicySetting {
    open spec fn resolved(&self) -> Resolved {
        configuration_resolved(self@)
    }

    fn enabled(&self) -> (r: bool) {
        true
    }

    fn class_type(&self) -> (r: PolicyType) {
        let id = self.setting_instance.setting_definition_id.as_str();
        if starts_with(id, "user_") {
            PolicyType::User
        } else if starts_with(id, "device_") {
            PolicyType::Device
        } else {
            PolicyType::Unknown
        }
    }

    fn key(&self) -> (r: String) {
        self.setting_instance.setting_definition_id.clone()
    }

    fn value(&self) -> (r: Option<ValueType>) {
        let instance = &self.setting_instance;
        let kind = instance.odata_type.as_str();
        proof {
            lemma_instance_groups(*instance);
        }
        if same_text(kind, SIMPLE_SETTING) {
            match &instance.simple_value {
                Some(raw) => Some(parse_input_value(raw.as_str())),
                None => None,
            }
        } else if same_text(kind, CHOICE_SETTING) {
            match &instance.choice_value {
                Some(raw) => {
                    let prefix = instance.setting_definition_id.clone().concat("_");
                    match strip_prefix(raw.as_str(), prefix.as_str()) {
                        Some(rest) => Some(parse_input_value(rest.as_str())),
                        None => None,
                    }
                },
                None => None,
            }
        } else if same_text(kind, GROUP_COLLECTION_SETTING) {
            match &instance.group_value {
                Some(groups) => {
                    let children = collect_children(groups);
                    proof {
                        crate::value::lemma_collection_view(children);
                    }
                    Some(ValueType::Collection(children))
                },
                None => None,
            }
        } else {
            None
        }
    }

    fn get_compare_pattern(&self) -> (r: String) {
        self.setting_instance.setting_definition_id.clone()
    }
}

impl PolicySetting for GroupPolicyDefinition {
    open spec fn resolved(&self) -> Resolved {
        definition_resolved(self@)
    }

    fn enabled(&self) -> (r: bool) {
        self.enabled
    }

    fn class_type(&self) -> (r: PolicyType) {
        if same_text(self.class_type.as_str(), "user") {
            PolicyType::User
        } else if same_text(self.class_type.as_str(), "device") {
            PolicyType::Device
        } else {
            PolicyType::Unknown
        }
    }

    fn key(&self) -> (r: String) {
        self.display_name.clone()
    }

    fn value(&self) -> (r: Option<ValueType>) {
        match &self.value.value {
            Some(value) => Some(clone_value(value)),
            None => match &self.value.values {
                Some(values) => Some(clone_value(values)),
                None => None,
            },
        }
    }

    fn get_compare_pattern(&self) -> (r: String) {
        self.category_path.clone()
    }
}

impl PolicySetting for Setting {
    open spec fn resolved(&self) -> Resolved {
        setting_resolved(self@)
    }

    fn enabled(&self) -> (r: bool) {
        match self {
            Setting::Configuration(s) => s.enabled(),
            Setting::Group(d) => d.enabled(),
        }
    }

    fn class_type(&self) -> (r: PolicyType) {
        match self {
            Setting::Configuration(s) => s.class_type(),
            Setting::Group(d) => d.class_type(),
        }
    }

    fn key(&self) -> (r: String) {
        match self {
            Setting::Configuration(s) => s.key(),
            Setting::Group(d) => d.key(),
        }
    }

    fn value(&self) -> (r: Option<ValueType>) {
        match self {
            Setting::Configuration(s) => s.value(),
            Setting::Group(d) => d.value(),
        }
    }

    fn get_compare_pattern(&self) -> (r: String) {
        match self {
            Setting::Configuration(s) => s.get_compare_pattern(),
            Setting::Group(d) => d.get_compare_pattern(),
        }
    }
}

/// The children of the groups of a collection come out in the order of the
/// groups: those of the first groups, then those of the groups after them.
pub proof fn lemma_children_of_concat(a: Seq<Seq<InstanceView>>, b: Seq<Seq<InstanceView>>)
    ensures
        children_settings(a + b) == children_settings(a) + children_settings(b),
{
    vstd::seq_lib::lemma_flatten_concat(a, b);
    assert(children_settings(a + b) =~= children_settings(a) + children_settings(b));
}

/// The value of a group collection holds one setting for each child of each
/// group, in order; what each of these settings reads as is again given by
/// the child, so that a nested collection unfolds in the same way.
pub proof fn lemma_collection_elements(instance: InstanceView, k: int)
    requires
        instance.odata_type == GROUP_COLLECTION_SETTING@,
        instance.group_value is Some,
        0 <= k < instance.group_value->0.flatten().len(),
    ensures
        instance_value(instance) matches Some(ValueView::Collection(elements))
            && elements.len() == instance.group_value->0.flatten().len()
            && elements[k] == SettingView::Configuration(instance.group_value->0.flatten()[k])
            && setting_resolved(elements[k]).value == instance_value(
            instance.group_value->0.flatten()[k],
        ),
{
    reveal_strlit("#microsoft.graph.deviceManagementConfigurationSimpleSettingInstance");
    reveal_strlit("#microsoft.graph.deviceManagementConfigurationChoiceSettingInstance");
    reveal_strlit("#microsoft.graph.deviceManagementConfigurationGroupSettingCollectionInstance");
    assert(SIMPLE_SETTING@.len() != GROUP_COLLECTION_SETTING@.len());
    assert(CHOICE_SETTING@.len() != GROUP_COLLECTION_SETTING@.len());
}

} // verus!
