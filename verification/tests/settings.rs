use policies::setting::{
    collect_children, ConfigurationPolicySetting, GroupPolicyDefinition,
    GroupSettingCollectionValue, PresentationValue, SettingInstance, CHOICE_SETTING,
    GROUP_COLLECTION_SETTING, SIMPLE_SETTING,
};
use policies::{PolicySetting, PolicyType, PresentationValueList, Setting, ValueType};

fn simple(id: &str, value: &str) -> SettingInstance {
    SettingInstance {
        odata_type: SIMPLE_SETTING.to_string(),
        setting_definition_id: id.to_string(),
        simple_value: Some(value.to_string()),
        choice_value: None,
        group_value: None,
    }
}

fn choice(id: &str, value: &str) -> SettingInstance {
    SettingInstance {
        odata_type: CHOICE_SETTING.to_string(),
        setting_definition_id: id.to_string(),
        simple_value: None,
        choice_value: Some(value.to_string()),
        group_value: None,
    }
}

fn collection(id: &str, groups: Vec<Vec<SettingInstance>>) -> SettingInstance {
    SettingInstance {
        odata_type: GROUP_COLLECTION_SETTING.to_string(),
        setting_definition_id: id.to_string(),
        simple_value: None,
        choice_value: None,
        group_value: Some(
            groups
                .into_iter()
                .map(|children| GroupSettingCollectionValue { children })
                .collect(),
        ),
    }
}

fn setting(instance: SettingInstance) -> ConfigurationPolicySetting {
    ConfigurationPolicySetting {
        setting_instance: instance,
    }
}

fn wrapped(instance: SettingInstance) -> Setting {
    Setting::Configuration(setting(instance))
}

fn definition(class_type: &str, value: PresentationValue) -> GroupPolicyDefinition {
    GroupPolicyDefinition {
        enabled: true,
        class_type: class_type.to_string(),
        display_name: "Foo".to_string(),
        category_path: "Bar".to_string(),
        value,
    }
}

#[test]
fn simple_setting_is_parsed() {
    let s = setting(simple("device_x", "5"));
    assert!(s.enabled());
    assert_eq!(s.class_type(), PolicyType::Device);
    assert_eq!(s.key(), "device_x");
    assert_eq!(s.get_compare_pattern(), "device_x");
    assert_eq!(s.value(), Some(ValueType::Decimal(5)));
    assert_eq!(
        setting(simple("user_y", "TRUE")).value(),
        Some(ValueType::Boolean(true))
    );
    assert_eq!(
        setting(simple("z", "on")).value(),
        Some(ValueType::Text("on".to_string()))
    );
}

#[test]
fn choice_prefix_is_stripped() {
    assert_eq!(
        setting(choice("device_foo", "device_foo_enabled")).value(),
        Some(ValueType::Text("enabled".to_string()))
    );
    assert_eq!(
        setting(choice("device_foo", "device_foo_5")).value(),
        Some(ValueType::Decimal(5))
    );
    assert_eq!(
        setting(choice("device_foo", "device_foo_false")).value(),
        Some(ValueType::Boolean(false))
    );
    assert_eq!(
        setting(choice("device_foo", "device_foo_")).value(),
        Some(ValueType::Text(String::new()))
    );
    assert_eq!(
        setting(choice("device_foo", "device_foo_device_foo_1")).value(),
        Some(ValueType::Text("device_foo_1".to_string()))
    );
}

#[test]
fn choice_without_prefix_has_no_value() {
    assert_eq!(setting(choice("device_foo", "enabled")).value(), None);
    assert_eq!(setting(choice("device_foo", "device_foo")).value(), None);
    assert_eq!(setting(choice("device_foo", "device_fooenabled")).value(), None);
    assert_eq!(setting(choice("device_foo", "xdevice_foo_1")).value(), None);
    assert_eq!(setting(choice("device_foo", "")).value(), None);
}

#[test]
fn class_follows_the_prefix() {
    assert_eq!(setting(simple("user_a", "1")).class_type(), PolicyType::User);
    assert_eq!(setting(simple("user_", "1")).class_type(), PolicyType::User);
    assert_eq!(
        setting(simple("device_a", "1")).class_type(),
        PolicyType::Device
    );
    assert_eq!(setting(simple("a", "1")).class_type(), PolicyType::Unknown);
    assert_eq!(setting(simple("", "1")).class_type(), PolicyType::Unknown);
    assert_eq!(setting(simple("user", "1")).class_type(), PolicyType::Unknown);
    assert_eq!(
        setting(simple("User_a", "1")).class_type(),
        PolicyType::Unknown
    );
    assert_eq!(
        setting(simple("xuser_a", "1")).class_type(),
        PolicyType::Unknown
    );
    assert_eq!(
        setting(simple("a\nuser_b", "1")).class_type(),
        PolicyType::Unknown
    );
    assert_eq!(
        setting(simple("devices_a", "1")).class_type(),
        PolicyType::Unknown
    );
}

#[test]
fn class_agrees_with_the_anchored_expressions() {
    let user = regex::Regex::new(r"^user_").unwrap();
    let device = regex::Regex::new(r"^device_").unwrap();
    let ids = [
        "user_a", "device_a", "user_device_", "device_user_", "", "u", "user", "x\nuser_",
        "user_\n", "USER_a", "\u{feff}user_a", "device_", " device_a",
    ];
    for id in ids.iter() {
        let expected = if user.is_match(id) {
            PolicyType::User
        } else if device.is_match(id) {
            PolicyType::Device
        } else {
            PolicyType::Unknown
        };
        assert_eq!(setting(simple(id, "1")).class_type(), expected, "id {:?}", id);
    }
}

#[test]
fn unknown_kind_has_no_value() {
    let mut instance = simple("device_x", "5");
    instance.odata_type = "#microsoft.graph.somethingElse".to_string();
    assert_eq!(setting(instance).value(), None);
    let mut instance = simple("device_x", "5");
    instance.odata_type = String::new();
    assert_eq!(setting(instance).value(), None);
}

#[test]
fn kind_without_its_value_has_no_value() {
    let mut instance = simple("device_x", "5");
    instance.simple_value = None;
    instance.choice_value = Some("device_x_1".to_string());
    assert_eq!(setting(instance).value(), None);
    let mut instance = choice("device_x", "device_x_1");
    instance.choice_value = None;
    instance.simple_value = Some("1".to_string());
    assert_eq!(setting(instance).value(), None);
    let mut instance = collection("device_x", vec![]);
    instance.group_value = None;
    assert_eq!(setting(instance).value(), None);
}

#[test]
fn collection_holds_children_in_order() {
    let c1 = simple("device_a", "1");
    let c2 = choice("device_b", "device_b_two");
    let c3 = simple("user_c", "three");
    let c4 = simple("d", "false");
    let instance = collection(
        "device_group",
        vec![vec![c1.clone(), c2.clone()], vec![], vec![c3.clone()], vec![c4.clone()]],
    );
    assert_eq!(
        setting(instance).value(),
        Some(ValueType::Collection(vec![
            wrapped(c1),
            wrapped(c2),
            wrapped(c3),
            wrapped(c4)
        ]))
    );
}

#[test]
fn empty_collections() {
    assert_eq!(
        setting(collection("g", vec![])).value(),
        Some(ValueType::Collection(vec![]))
    );
    assert_eq!(
        setting(collection("g", vec![vec![], vec![]])).value(),
        Some(ValueType::Collection(vec![]))
    );
}

#[test]
fn nested_collections_unfold() {
    let leaf1 = simple("device_leaf1", "1");
    let leaf2 = simple("device_leaf2", "2");
    let inner = collection("device_inner", vec![vec![leaf1.clone()], vec![leaf2.clone()]]);
    let sibling = simple("device_sibling", "s");
    let outer = collection("device_outer", vec![vec![inner.clone(), sibling.clone()]]);
    let value = setting(outer).value();
    let elements = match value {
        Some(ValueType::Collection(elements)) => elements,
        other => panic!("no collection: {:?}", other),
    };
    assert_eq!(elements, vec![wrapped(inner), wrapped(sibling)]);
    assert_eq!(elements[0].key(), "device_inner");
    assert_eq!(
        elements[0].value(),
        Some(ValueType::Collection(vec![wrapped(leaf1), wrapped(leaf2)]))
    );
    assert_eq!(
        elements[1].value(),
        Some(ValueType::Text("s".to_string()))
    );
}

#[test]
fn flattening_splits_with_the_groups() {
    let a = GroupSettingCollectionValue {
        children: vec![simple("a1", "1"), simple("a2", "2")],
    };
    let b = GroupSettingCollectionValue {
        children: vec![simple("b1", "3")],
    };
    let c = GroupSettingCollectionValue {
        children: vec![simple("c1", "4"), simple("c2", "5")],
    };
    let all = collect_children(&vec![a.clone(), b.clone(), c.clone()]);
    let mut left = collect_children(&vec![a.clone(), b.clone()]);
    left.extend(collect_children(&vec![c.clone()]));
    assert_eq!(all, left);
    let mut right = collect_children(&vec![a]);
    right.extend(collect_children(&vec![b, c]));
    assert_eq!(all, right);
    assert_eq!(all.len(), 5);
}

#[test]
fn definition_reads_its_fields() {
    let d = definition(
        "user",
        PresentationValue {
            value: Some(ValueType::Text("hello".to_string())),
            values: None,
        },
    );
    assert!(d.enabled());
    assert_eq!(d.class_type(), PolicyType::User);
    assert_eq!(d.key(), "Foo");
    assert_eq!(d.get_compare_pattern(), "Bar");
    assert_eq!(d.value(), Some(ValueType::Text("hello".to_string())));
    let mut off = definition("device", PresentationValue::default());
    off.enabled = false;
    assert!(!off.enabled());
    assert_eq!(off.class_type(), PolicyType::Device);
    assert_eq!(off.value(), None);
    assert_eq!(
        definition("machine", PresentationValue::default()).class_type(),
        PolicyType::Unknown
    );
    assert_eq!(
        definition("User", PresentationValue::default()).class_type(),
        PolicyType::Unknown
    );
    assert_eq!(
        definition("", PresentationValue::default()).class_type(),
        PolicyType::Unknown
    );
}

#[test]
fn definition_prefers_the_single_value() {
    let both = definition(
        "user",
        PresentationValue {
            value: Some(ValueType::Decimal(1)),
            values: Some(ValueType::MultiText(vec!["a".to_string()])),
        },
    );
    assert_eq!(both.value(), Some(ValueType::Decimal(1)));
    let list = definition(
        "user",
        PresentationValue {
            value: None,
            values: Some(ValueType::List(vec![
                PresentationValueList {
                    name: "n".to_string(),
                    value: Some("v".to_string()),
                },
                PresentationValueList {
                    name: "m".to_string(),
                    value: None,
                },
            ])),
        },
    );
    assert_eq!(
        list.value(),
        Some(ValueType::List(vec![
            PresentationValueList {
                name: "n".to_string(),
                value: Some("v".to_string()),
            },
            PresentationValueList {
                name: "m".to_string(),
                value: None,
            },
        ]))
    );
}

#[test]
fn any_setting_reads_as_what_it_wraps() {
    let c = setting(choice("user_mode", "user_mode_7"));
    let wrapped_c = Setting::Configuration(c.clone());
    assert_eq!(wrapped_c.enabled(), c.enabled());
    assert_eq!(wrapped_c.class_type(), PolicyType::User);
    assert_eq!(wrapped_c.key(), "user_mode");
    assert_eq!(wrapped_c.value(), Some(ValueType::Decimal(7)));
    assert_eq!(wrapped_c.get_compare_pattern(), "user_mode");
    let d = definition(
        "device",
        PresentationValue {
            value: None,
            values: Some(ValueType::MultiText(vec!["x".to_string(), "y".to_string()])),
        },
    );
    let wrapped_d = Setting::Group(d.clone());
    assert_eq!(wrapped_d.enabled(), true);
    assert_eq!(wrapped_d.class_type(), PolicyType::Device);
    assert_eq!(wrapped_d.key(), "Foo");
    assert_eq!(
        wrapped_d.value(),
        Some(ValueType::MultiText(vec!["x".to_string(), "y".to_string()]))
    );
    assert_eq!(wrapped_d.get_compare_pattern(), "Bar");
}

#[test]
fn copies_are_equal() {
    let nested = collection(
        "g",
        vec![vec![collection("h", vec![vec![simple("a", "1")]]), choice("b", "b_2")]],
    );
    assert_eq!(nested.clone(), nested);
    let value = ValueType::Collection(vec![
        wrapped(nested.clone()),
        Setting::Group(definition(
            "user",
            PresentationValue {
                value: Some(ValueType::Collection(vec![wrapped(simple("x", "y"))])),
                values: Some(ValueType::Boolean(true)),
            },
        )),
    ]);
    assert_eq!(value.clone(), value);
}
