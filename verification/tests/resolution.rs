use policies::assignment::{
    GroupPolicyAssignment, GroupPolicyAssignmentTarget, ALL_DEVICES_TARGET,
    ALL_LICENSED_USERS_TARGET, EXCLUSION_GROUP_TARGET, GROUP_TARGET,
};
use policies::request::{
    Endpoint, GroupPolicyConfiguration, Method, Payload, PolicyEntry, Reply, Request, Source,
};
use policies::resolver::{Progress, Resolution};
use policies::setting::{
    ConfigurationPolicySetting, GroupPolicyDefinition, PresentationValue, SettingInstance,
    SIMPLE_SETTING,
};
use policies::{
    AppliedPolicy, Pattern, Policy, PolicyError, PolicySetting, PolicyType, Setting, ValueType,
};

const GRAPH: &str = "https://graph.microsoft.com";
const BETA: &str = "https://graph.microsoft.com/beta/deviceManagement";

fn ok(payload: Payload) -> Reply {
    Reply::Response {
        status: 200,
        body: Ok(payload),
    }
}

fn status(code: u16) -> Reply {
    Reply::Response {
        status: code,
        body: Err("not the expected body".to_string()),
    }
}

fn entries(list: &[(&str, &str)]) -> Reply {
    ok(Payload::Policies(
        list.iter()
            .map(|(id, name)| PolicyEntry {
                id: id.to_string(),
                name: name.to_string(),
            })
            .collect(),
    ))
}

fn rule(odata_type: &str, group_id: Option<&str>, filter_id: Option<&str>) -> GroupPolicyAssignment {
    GroupPolicyAssignment {
        target: GroupPolicyAssignmentTarget {
            odata_type: odata_type.to_string(),
            filter_id: filter_id.map(|s| s.to_string()),
            group_id: group_id.map(|s| s.to_string()),
        },
    }
}

fn rules(list: Vec<GroupPolicyAssignment>) -> Reply {
    ok(Payload::Assignments(list))
}

fn everyone() -> Reply {
    rules(vec![rule(ALL_LICENSED_USERS_TARGET, None, None)])
}

fn nobody() -> Reply {
    rules(vec![])
}

fn simple(id: &str, value: &str) -> ConfigurationPolicySetting {
    ConfigurationPolicySetting {
        setting_instance: SettingInstance {
            odata_type: SIMPLE_SETTING.to_string(),
            setting_definition_id: id.to_string(),
            simple_value: Some(value.to_string()),
            choice_value: None,
            group_value: None,
        },
    }
}

fn settings(list: Vec<ConfigurationPolicySetting>) -> Reply {
    ok(Payload::Settings(list))
}

fn definition_values(list: &[(&str, bool)]) -> Reply {
    ok(Payload::DefinitionValues(
        list.iter()
            .map(|(id, enabled)| GroupPolicyConfiguration {
                id: id.to_string(),
                enabled: *enabled,
            })
            .collect(),
    ))
}

fn fetched_definition(class_type: &str, name: &str, path: &str) -> Reply {
    ok(Payload::Definition(GroupPolicyDefinition {
        enabled: false,
        class_type: class_type.to_string(),
        display_name: name.to_string(),
        category_path: path.to_string(),
        value: PresentationValue::default(),
    }))
}

fn text_value(s: &str) -> PresentationValue {
    PresentationValue {
        value: Some(ValueType::Text(s.to_string())),
        values: None,
    }
}

fn presentation(list: Option<Vec<PresentationValue>>) -> Reply {
    ok(Payload::PresentationValues(list))
}

fn member_of(groups: &[&str]) -> Reply {
    ok(Payload::MemberGroups(
        groups.iter().map(|g| g.to_string()).collect(),
    ))
}

fn path(request: &Request) -> String {
    let url = request.url.as_str();
    let url = url.split('?').next().unwrap();
    url.strip_prefix(GRAPH).unwrap().to_string()
}

fn run(
    answer: &dyn Fn(&Request) -> Reply,
) -> (Result<Vec<AppliedPolicy>, PolicyError>, Vec<String>) {
    let mut asked: Vec<String> = Vec::new();
    let mut progress = Resolution::start(GRAPH, "tok", "me");
    let mut steps = 0;
    loop {
        steps += 1;
        assert!(steps < 1000);
        match progress {
            Progress::Send(waiting, request) => {
                assert_eq!(request.authorization, "Bearer tok");
                asked.push(path(&request));
                progress = waiting.advance(answer(&request));
            }
            Progress::Done(policies) => return (Ok(policies), asked),
            Progress::Failed(e) => return (Err(e), asked),
        }
    }
}

fn empty_directory(request: &Request) -> Reply {
    match request.endpoint {
        Endpoint::Policies(_) => entries(&[]),
        _ => panic!("nothing to ask about: {}", request.url),
    }
}

#[test]
fn a_run_begins_with_the_configuration_policies() {
    match Resolution::start(GRAPH, "tok", "me") {
        Progress::Send(_, request) => {
            assert_eq!(request.endpoint, Endpoint::Policies(Source::Configuration));
            assert_eq!(request.method, Method::Get);
            assert_eq!(
                request.url,
                "https://graph.microsoft.com/beta/deviceManagement/configurationPolicies?%24select=name%2Cid&%24filter=%28platforms+eq+%27linux%27%29+and+%28technologies+has+%27linuxMdm%27%29"
            );
            assert_eq!(request.authorization, "Bearer tok");
            assert_eq!(request.content_type, None);
            assert_eq!(request.body, None);
        }
        _ => panic!("no request"),
    }
}

#[test]
fn a_run_cannot_begin_without_an_address() {
    match Resolution::start("no address", "tok", "me") {
        Progress::Failed(PolicyError::InvalidUrl(_)) => {}
        _ => panic!("an address was made"),
    }
}

#[test]
fn an_empty_directory_yields_no_policies() {
    let (result, asked) = run(&empty_directory);
    assert_eq!(result, Ok(vec![]));
    assert_eq!(
        asked,
        vec![
            "/beta/deviceManagement/configurationPolicies",
            "/beta/deviceManagement/groupPolicyConfigurations",
            "/beta/deviceManagement/compliancePolicies",
        ]
    );
}

#[test]
fn end_to_end_configuration_policy() {
    let answer = |request: &Request| -> Reply {
        match (request.endpoint, path(request).as_str()) {
            (Endpoint::Policies(Source::Configuration), _) => entries(&[("p1", "Baseline")]),
            (Endpoint::Policies(_), _) => entries(&[]),
            (
                Endpoint::Assignments(Source::Configuration),
                "/beta/deviceManagement/configurationPolicies/p1/assignments",
            ) => everyone(),
            (
                Endpoint::Settings(Source::Configuration),
                "/beta/deviceManagement/configurationPolicies/p1/settings",
            ) => settings(vec![simple("device_x", "5")]),
            _ => panic!("unexpected request {}", request.url),
        }
    };
    let (result, asked) = run(&answer);
    let policies = result.unwrap();
    assert_eq!(policies.len(), 1);
    assert!(matches!(policies[0], AppliedPolicy::Configuration(_)));
    assert_eq!(policies[0].get_id(), "p1");
    assert_eq!(policies[0].get_name(), "Baseline");
    let found = policies[0]
        .list_policy_settings(&Pattern::new("^device_x$").unwrap())
        .unwrap();
    assert_eq!(found.len(), 1);
    assert!(found[0].enabled());
    assert_eq!(found[0].class_type(), PolicyType::Device);
    assert_eq!(found[0].key(), "device_x");
    assert_eq!(found[0].value(), Some(ValueType::Decimal(5)));
    assert_eq!(found[0].get_compare_pattern(), "device_x");
    assert_eq!(
        asked,
        vec![
            "/beta/deviceManagement/configurationPolicies",
            "/beta/deviceManagement/configurationPolicies/p1/assignments",
            "/beta/deviceManagement/configurationPolicies/p1/settings",
            "/beta/deviceManagement/groupPolicyConfigurations",
            "/beta/deviceManagement/compliancePolicies",
        ]
    );
}

#[test]
fn end_to_end_group_policy() {
    let answer = |request: &Request| -> Reply {
        match (request.endpoint, path(request).as_str()) {
            (Endpoint::Policies(Source::Group), _) => entries(&[("g1", "Browser")]),
            (Endpoint::Policies(_), _) => entries(&[]),
            (
                Endpoint::Assignments(Source::Group),
                "/beta/deviceManagement/groupPolicyConfigurations/g1/assignments",
            ) => rules(vec![rule(ALL_DEVICES_TARGET, None, None)]),
            (
                Endpoint::DefinitionValues,
                "/beta/deviceManagement/groupPolicyConfigurations/g1/definitionValues",
            ) => definition_values(&[("d1", true)]),
            (
                Endpoint::Definition,
                "/beta/deviceManagement/groupPolicyConfigurations/g1/definitionValues/d1/definition",
            ) => fetched_definition("user", "Foo", "Bar"),
            (
                Endpoint::PresentationValues,
                "/beta/deviceManagement/groupPolicyConfigurations/g1/definitionValues/d1/presentationValues",
            ) => presentation(Some(vec![text_value("hello")])),
            _ => panic!("unexpected request {}", request.url),
        }
    };
    let (result, asked) = run(&answer);
    let policies = result.unwrap();
    assert_eq!(policies.len(), 1);
    assert!(matches!(policies[0], AppliedPolicy::Group(_)));
    assert_eq!(policies[0].get_id(), "g1");
    assert_eq!(policies[0].get_name(), "Browser");
    let found = policies[0]
        .list_policy_settings(&Pattern::new("Bar").unwrap())
        .unwrap();
    assert_eq!(found.len(), 1);
    assert_eq!(found[0].enabled(), true);
    assert_eq!(found[0].class_type(), PolicyType::User);
    assert_eq!(found[0].key(), "Foo");
    assert_eq!(found[0].get_compare_pattern(), "Bar");
    assert_eq!(found[0].value(), Some(ValueType::Text("hello".to_string())));
    assert_eq!(asked.len(), 7);
    assert_eq!(asked[1], "/beta/deviceManagement/groupPolicyConfigurations");
    assert_eq!(asked[6], "/beta/deviceManagement/compliancePolicies");
}

#[test]
fn the_enabled_flag_comes_from_the_definition_value() {
    let answer = |request: &Request| -> Reply {
        match request.endpoint {
            Endpoint::Policies(Source::Group) => entries(&[("g1", "Browser")]),
            Endpoint::Policies(_) => entries(&[]),
            Endpoint::Assignments(_) => everyone(),
            Endpoint::DefinitionValues => definition_values(&[("on", true), ("off", false)]),
            Endpoint::Definition => {
                if request.url.contains("/definitionValues/on/") {
                    fetched_definition("device", "On", "path")
                } else {
                    fetched_definition("device", "Off", "path")
                }
            }
            Endpoint::PresentationValues => presentation(Some(vec![text_value("v")])),
            _ => panic!("unexpected request {}", request.url),
        }
    };
    let (result, _) = run(&answer);
    let policies = result.unwrap();
    let found = policies[0]
        .list_policy_settings(&Pattern::new("").unwrap())
        .unwrap();
    assert_eq!(found.len(), 2);
    assert_eq!(found[0].key(), "On");
    assert!(found[0].enabled());
    assert_eq!(found[1].key(), "Off");
    assert!(!found[1].enabled());
}

#[test]
fn wrong_number_of_presentation_values_drops_the_setting() {
    let answer = |request: &Request| -> Reply {
        match request.endpoint {
            Endpoint::Policies(Source::Group) => entries(&[("g1", "Browser"), ("g2", "Desk")]),
            Endpoint::Policies(_) => entries(&[]),
            Endpoint::Assignments(_) => everyone(),
            Endpoint::DefinitionValues => {
                if request.url.contains("/g1/") {
                    definition_values(&[
                        ("none", true),
                        ("one", true),
                        ("two", true),
                        ("missing", true),
                        ("denied", true),
                        ("broken", true),
                        ("unreachable", true),
                        ("last", true),
                    ])
                } else {
                    definition_values(&[("only", true)])
                }
            }
            Endpoint::Definition => {
                let url = request.url.as_str();
                let id = url
                    .strip_suffix("/definition")
                    .unwrap()
                    .rsplit('/')
                    .next()
                    .unwrap();
                fetched_definition("user", id, "path")
            }
            Endpoint::PresentationValues => {
                let url = request.url.as_str();
                let id = url
                    .strip_suffix("/presentationValues")
                    .unwrap()
                    .rsplit('/')
                    .next()
                    .unwrap();
                match id {
                    "none" => presentation(Some(vec![])),
                    "one" => presentation(Some(vec![text_value("1")])),
                    "two" => presentation(Some(vec![text_value("a"), text_value("b")])),
                    "missing" => presentation(None),
                    "denied" => status(403),
                    "broken" => Reply::Response {
                        status: 200,
                        body: Err("trailing characters".to_string()),
                    },
                    "unreachable" => Reply::Failed("timed out".to_string()),
                    "last" => presentation(Some(vec![text_value("z")])),
                    "only" => presentation(Some(vec![])),
                    other => panic!("unknown definition {}", other),
                }
            }
            _ => panic!("unexpected request {}", request.url),
        }
    };
    let (result, asked) = run(&answer);
    let policies = result.unwrap();
    assert_eq!(policies.len(), 2);
    let any = Pattern::new("").unwrap();
    let found = policies[0].list_policy_settings(&any).unwrap();
    assert_eq!(found.len(), 2);
    assert_eq!(found[0].key(), "one");
    assert_eq!(found[0].value(), Some(ValueType::Text("1".to_string())));
    assert_eq!(found[1].key(), "last");
    assert_eq!(found[1].value(), Some(ValueType::Text("z".to_string())));
    assert_eq!(policies[1].get_id(), "g2");
    assert_eq!(policies[1].list_policy_settings(&any), Ok(vec![]));
    let definitions: Vec<&String> = asked.iter().filter(|p| p.ends_with("/definition")).collect();
    assert_eq!(definitions.len(), 9);
}

#[test]
fn a_definition_that_cannot_be_fetched_ends_the_run() {
    let answer = |request: &Request| -> Reply {
        match request.endpoint {
            Endpoint::Policies(Source::Group) => entries(&[("g1", "Browser")]),
            Endpoint::Policies(_) => entries(&[]),
            Endpoint::Assignments(_) => everyone(),
            Endpoint::DefinitionValues => definition_values(&[("d1", true), ("d2", true)]),
            Endpoint::Definition => status(404),
            _ => panic!("unexpected request {}", request.url),
        }
    };
    let (result, asked) = run(&answer);
    assert_eq!(result, Err(PolicyError::Status(404)));
    assert_eq!(asked.len(), 5);
}

#[test]
fn policies_come_in_order_of_kind_and_listing() {
    let answer = |request: &Request| -> Reply {
        match request.endpoint {
            Endpoint::Policies(Source::Configuration) => {
                entries(&[("c1", "C1"), ("c2", "C2"), ("c3", "C3")])
            }
            Endpoint::Policies(Source::Group) => entries(&[("g1", "G1"), ("g2", "G2")]),
            Endpoint::Policies(Source::Compliance) => entries(&[("k1", "K1"), ("k2", "K2")]),
            Endpoint::Assignments(_) => {
                if request.url.contains("/c2/") || request.url.contains("/k1/") {
                    nobody()
                } else {
                    everyone()
                }
            }
            Endpoint::Settings(_) => settings(vec![simple("device_a", "1")]),
            Endpoint::DefinitionValues => definition_values(&[]),
            _ => panic!("unexpected request {}", request.url),
        }
    };
    let (result, asked) = run(&answer);
    let policies = result.unwrap();
    let ids: Vec<String> = policies.iter().map(|p| p.get_id()).collect();
    assert_eq!(ids, vec!["c1", "c3", "g1", "g2", "k2"]);
    assert!(matches!(policies[0], AppliedPolicy::Configuration(_)));
    assert!(matches!(policies[1], AppliedPolicy::Configuration(_)));
    assert!(matches!(policies[2], AppliedPolicy::Group(_)));
    assert!(matches!(policies[3], AppliedPolicy::Group(_)));
    assert!(matches!(policies[4], AppliedPolicy::Compliance(_)));
    assert_eq!(
        asked,
        vec![
            "/beta/deviceManagement/configurationPolicies",
            "/beta/deviceManagement/configurationPolicies/c1/assignments",
            "/beta/deviceManagement/configurationPolicies/c1/settings",
            "/beta/deviceManagement/configurationPolicies/c2/assignments",
            "/beta/deviceManagement/configurationPolicies/c3/assignments",
            "/beta/deviceManagement/configurationPolicies/c3/settings",
            "/beta/deviceManagement/groupPolicyConfigurations",
            "/beta/deviceManagement/groupPolicyConfigurations/g1/assignments",
            "/beta/deviceManagement/groupPolicyConfigurations/g1/definitionValues",
            "/beta/deviceManagement/groupPolicyConfigurations/g2/assignments",
            "/beta/deviceManagement/groupPolicyConfigurations/g2/definitionValues",
            "/beta/deviceManagement/compliancePolicies",
            "/beta/deviceManagement/compliancePolicies/k1/assignments",
            "/beta/deviceManagement/compliancePolicies/k2/assignments",
            "/beta/deviceManagement/compliancePolicies/k2/settings",
        ]
    );
}

#[test]
fn memberships_are_looked_up_one_by_one() {
    let answer = |request: &Request| -> Reply {
        match request.endpoint {
            Endpoint::Policies(Source::Compliance) => {
                entries(&[("in", "In"), ("out", "Out"), ("excluded", "Excluded")])
            }
            Endpoint::Policies(_) => entries(&[]),
            Endpoint::Assignments(_) => {
                if request.url.contains("/in/") {
                    rules(vec![
                        rule(GROUP_TARGET, Some("strangers"), None),
                        rule(GROUP_TARGET, Some("staff"), None),
                    ])
                } else if request.url.contains("/out/") {
                    rules(vec![rule(GROUP_TARGET, Some("strangers"), None)])
                } else {
                    rules(vec![
                        rule(ALL_DEVICES_TARGET, None, None),
                        rule(EXCLUSION_GROUP_TARGET, Some("staff"), None),
                    ])
                }
            }
            Endpoint::MemberGroups => {
                assert_eq!(request.method, Method::Post);
                assert_eq!(request.content_type, Some("application/json".to_string()));
                assert_eq!(
                    request.url,
                    "https://graph.microsoft.com/v1.0/directoryObjects/me/checkMemberGroups"
                );
                let asked = &request.body.as_ref().unwrap().group_ids;
                assert_eq!(asked.len(), 1);
                if asked[0] == "staff" {
                    member_of(&["staff"])
                } else {
                    member_of(&[])
                }
            }
            Endpoint::Settings(_) => settings(vec![simple("user_a", "yes")]),
            _ => panic!("unexpected request {}", request.url),
        }
    };
    let (result, asked) = run(&answer);
    let policies = result.unwrap();
    let ids: Vec<String> = policies.iter().map(|p| p.get_id()).collect();
    assert_eq!(ids, vec!["in"]);
    assert_eq!(
        asked,
        vec![
            "/beta/deviceManagement/configurationPolicies",
            "/beta/deviceManagement/groupPolicyConfigurations",
            "/beta/deviceManagement/compliancePolicies",
            "/beta/deviceManagement/compliancePolicies/in/assignments",
            "/v1.0/directoryObjects/me/checkMemberGroups",
            "/v1.0/directoryObjects/me/checkMemberGroups",
            "/beta/deviceManagement/compliancePolicies/in/settings",
            "/beta/deviceManagement/compliancePolicies/out/assignments",
            "/v1.0/directoryObjects/me/checkMemberGroups",
            "/beta/deviceManagement/compliancePolicies/excluded/assignments",
            "/v1.0/directoryObjects/me/checkMemberGroups",
        ]
    );
}

#[test]
fn a_filter_rejects_without_lookups_or_settings() {
    let answer = |request: &Request| -> Reply {
        match request.endpoint {
            Endpoint::Policies(Source::Configuration) => entries(&[("f", "Filtered")]),
            Endpoint::Policies(_) => entries(&[]),
            Endpoint::Assignments(_) => rules(vec![
                rule(GROUP_TARGET, Some("staff"), None),
                rule(ALL_LICENSED_USERS_TARGET, None, Some("filter-1")),
            ]),
            _ => panic!("unexpected request {}", request.url),
        }
    };
    let (result, asked) = run(&answer);
    assert_eq!(result, Ok(vec![]));
    assert_eq!(
        asked,
        vec![
            "/beta/deviceManagement/configurationPolicies",
            "/beta/deviceManagement/configurationPolicies/f/assignments",
            "/beta/deviceManagement/groupPolicyConfigurations",
            "/beta/deviceManagement/compliancePolicies",
        ]
    );
}

#[test]
fn a_failed_listing_ends_the_run() {
    let (result, asked) = run(&|request: &Request| match request.endpoint {
        Endpoint::Policies(Source::Configuration) => entries(&[]),
        _ => status(503),
    });
    assert_eq!(result, Err(PolicyError::Status(503)));
    assert_eq!(asked.len(), 2);
    let (result, asked) = run(&|_request: &Request| Reply::Failed("no route".to_string()));
    assert_eq!(result, Err(PolicyError::Transport("no route".to_string())));
    assert_eq!(asked.len(), 1);
    let (result, _) = run(&|_request: &Request| Reply::Response {
        status: 200,
        body: Err("EOF while parsing".to_string()),
    });
    assert_eq!(
        result,
        Err(PolicyError::Malformed("EOF while parsing".to_string()))
    );
}

#[test]
fn failed_assignments_settings_or_lookups_end_the_run() {
    let (result, asked) = run(&|request: &Request| match request.endpoint {
        Endpoint::Policies(_) => entries(&[("p", "P")]),
        _ => status(401),
    });
    assert_eq!(result, Err(PolicyError::Status(401)));
    assert_eq!(asked.len(), 2);
    let (result, asked) = run(&|request: &Request| match request.endpoint {
        Endpoint::Policies(_) => entries(&[("p", "P")]),
        Endpoint::Assignments(_) => everyone(),
        _ => Reply::Failed("reset".to_string()),
    });
    assert_eq!(result, Err(PolicyError::Transport("reset".to_string())));
    assert_eq!(asked.len(), 3);
    let (result, asked) = run(&|request: &Request| match request.endpoint {
        Endpoint::Policies(_) => entries(&[("p", "P")]),
        Endpoint::Assignments(_) => rules(vec![rule(GROUP_TARGET, Some("g"), None)]),
        _ => status(429),
    });
    assert_eq!(result, Err(PolicyError::Status(429)));
    assert_eq!(asked.len(), 3);
    let (result, _) = run(&|request: &Request| match request.endpoint {
        Endpoint::Policies(Source::Configuration) => entries(&[]),
        Endpoint::Policies(_) => entries(&[("g", "G")]),
        Endpoint::Assignments(_) => everyone(),
        _ => status(500),
    });
    assert_eq!(result, Err(PolicyError::Status(500)));
}

#[test]
fn an_answer_to_another_question_ends_the_run() {
    let (result, asked) = run(&|_request: &Request| member_of(&["g"]));
    assert_eq!(result, Err(PolicyError::Unexpected));
    assert_eq!(asked.len(), 1);
    let (result, asked) = run(&|request: &Request| match request.endpoint {
        Endpoint::Policies(_) => entries(&[("p", "P")]),
        _ => entries(&[]),
    });
    assert_eq!(result, Err(PolicyError::Unexpected));
    assert_eq!(asked.len(), 2);
    let (result, _) = run(&|request: &Request| match request.endpoint {
        Endpoint::Policies(_) => entries(&[("p", "P")]),
        Endpoint::Assignments(_) => everyone(),
        _ => nobody(),
    });
    assert_eq!(result, Err(PolicyError::Unexpected));
}

#[test]
fn settings_of_every_kind_are_wrapped() {
    let answer = |request: &Request| -> Reply {
        match request.endpoint {
            Endpoint::Policies(Source::Compliance) => entries(&[("k", "K")]),
            Endpoint::Policies(_) => entries(&[]),
            Endpoint::Assignments(_) => everyone(),
            Endpoint::Settings(Source::Compliance) => {
                settings(vec![simple("device_a", "1"), simple("user_b", "false")])
            }
            _ => panic!("unexpected request {}", request.url),
        }
    };
    let (result, _) = run(&answer);
    let policies = result.unwrap();
    assert_eq!(policies.len(), 1);
    match &policies[0] {
        AppliedPolicy::Compliance(policy) => {
            assert_eq!(
                policy.policy_definitions,
                Some(vec![
                    Setting::Configuration(simple("device_a", "1")),
                    Setting::Configuration(simple("user_b", "false")),
                ])
            );
        }
        other => panic!("not a compliance policy: {:?}", other),
    }
    assert!(BETA.starts_with(GRAPH));
}
