use policies::request::{
    assignments_request, authorization_header, definition_request, definition_values_request,
    is_member, is_success, list_request, member_groups_request, payload_of,
    presentation_values_request, settings_request, single_presentation_value,
    why_no_presentation_value, Endpoint,
    MemberGroupsRequest, Method, Payload, PolicyEntry, Reply, Request, Source,
};
use policies::setting::PresentationValue;
use policies::text::{chars_of, same_text, starts_with, strip_prefix};
use policies::{PolicyError, ValueType};

const GRAPH: &str = "https://graph.microsoft.com";

fn get(endpoint: Endpoint, url: &str) -> Request {
    Request {
        endpoint,
        method: Method::Get,
        url: url.to_string(),
        authorization: "Bearer tok".to_string(),
        content_type: None,
        body: None,
    }
}

fn text_value(s: &str) -> PresentationValue {
    PresentationValue {
        value: Some(ValueType::Text(s.to_string())),
        values: None,
    }
}

#[test]
fn authorization_is_a_bearer_token() {
    assert_eq!(authorization_header("abc.def"), "Bearer abc.def");
    assert_eq!(authorization_header(""), "Bearer ");
}

#[test]
fn configuration_policies_are_listed_with_the_filter() {
    assert_eq!(
        list_request(GRAPH, "Bearer tok", Source::Configuration),
        Ok(get(
            Endpoint::Policies(Source::Configuration),
            "https://graph.microsoft.com/beta/deviceManagement/configurationPolicies?%24select=name%2Cid&%24filter=%28platforms+eq+%27linux%27%29+and+%28technologies+has+%27linuxMdm%27%29"
        ))
    );
}

#[test]
fn compliance_policies_are_listed_with_the_filter() {
    assert_eq!(
        list_request(GRAPH, "Bearer tok", Source::Compliance),
        Ok(get(
            Endpoint::Policies(Source::Compliance),
            "https://graph.microsoft.com/beta/deviceManagement/compliancePolicies?%24select=name%2Cid&%24filter=%28platforms+eq+%27linux%27%29+and+%28technologies+has+%27linuxMdm%27%29"
        ))
    );
}

#[test]
fn group_policies_are_listed_by_display_name() {
    assert_eq!(
        list_request(GRAPH, "Bearer tok", Source::Group),
        Ok(get(
            Endpoint::Policies(Source::Group),
            "https://graph.microsoft.com/beta/deviceManagement/groupPolicyConfigurations?%24select=displayName%2Cid"
        ))
    );
}

#[test]
fn list_addresses_are_those_of_the_url_crate() {
    let bases = [
        "https://graph.microsoft.com",
        "http://localhost:8080/proxy",
        "HTTPS://Graph.Example.ORG",
        "https://graph.microsoft.com?x=1",
    ];
    for base in bases.iter() {
        let expected = url::Url::parse_with_params(
            &format!("{}/beta/deviceManagement/groupPolicyConfigurations", base),
            &[("$select", "displayName,id")],
        )
        .unwrap();
        let request = list_request(base, "Bearer tok", Source::Group).unwrap();
        assert_eq!(request.url, expected.as_str());
        assert_ne!(
            request.url,
            format!("{}/beta/deviceManagement/groupPolicyConfigurations", base)
        );
    }
}

#[test]
fn an_address_that_is_none_cannot_be_listed() {
    for base in ["", "graph.microsoft.com", "://x", "https://[::1", "https://exa mple.org"].iter() {
        for source in [Source::Configuration, Source::Group, Source::Compliance].iter() {
            match list_request(base, "Bearer tok", *source) {
                Err(PolicyError::InvalidUrl(text)) => assert!(!text.is_empty()),
                other => panic!("{:?} gave {:?}", base, other),
            }
        }
    }
}

#[test]
fn assignments_have_their_addresses() {
    assert_eq!(
        assignments_request(GRAPH, "Bearer tok", Source::Configuration, "p1"),
        get(
            Endpoint::Assignments(Source::Configuration),
            "https://graph.microsoft.com/beta/deviceManagement/configurationPolicies/p1/assignments"
        )
    );
    assert_eq!(
        assignments_request(GRAPH, "Bearer tok", Source::Group, "p2"),
        get(
            Endpoint::Assignments(Source::Group),
            "https://graph.microsoft.com/beta/deviceManagement/groupPolicyConfigurations/p2/assignments"
        )
    );
    assert_eq!(
        assignments_request(GRAPH, "Bearer tok", Source::Compliance, "p3"),
        get(
            Endpoint::Assignments(Source::Compliance),
            "https://graph.microsoft.com/beta/deviceManagement/compliancePolicies/p3/assignments"
        )
    );
}

#[test]
fn settings_have_their_addresses() {
    assert_eq!(
        settings_request(GRAPH, "Bearer tok", Source::Configuration, "p1"),
        get(
            Endpoint::Settings(Source::Configuration),
            "https://graph.microsoft.com/beta/deviceManagement/configurationPolicies/p1/settings"
        )
    );
    assert_eq!(
        settings_request(GRAPH, "Bearer tok", Source::Compliance, "p3"),
        get(
            Endpoint::Settings(Source::Compliance),
            "https://graph.microsoft.com/beta/deviceManagement/compliancePolicies/p3/settings"
        )
    );
}

#[test]
fn group_policy_parts_have_their_addresses() {
    assert_eq!(
        definition_values_request(GRAPH, "Bearer tok", "p2"),
        get(
            Endpoint::DefinitionValues,
            "https://graph.microsoft.com/beta/deviceManagement/groupPolicyConfigurations/p2/definitionValues"
        )
    );
    assert_eq!(
        definition_request(GRAPH, "Bearer tok", "p2", "d1"),
        get(
            Endpoint::Definition,
            "https://graph.microsoft.com/beta/deviceManagement/groupPolicyConfigurations/p2/definitionValues/d1/definition"
        )
    );
    assert_eq!(
        presentation_values_request(GRAPH, "Bearer tok", "p2", "d1"),
        get(
            Endpoint::PresentationValues,
            "https://graph.microsoft.com/beta/deviceManagement/groupPolicyConfigurations/p2/definitionValues/d1/presentationValues"
        )
    );
}

#[test]
fn membership_is_asked_by_post() {
    assert_eq!(
        member_groups_request(GRAPH, "Bearer tok", "principal-1", "group-9"),
        Request {
            endpoint: Endpoint::MemberGroups,
            method: Method::Post,
            url: "https://graph.microsoft.com/v1.0/directoryObjects/principal-1/checkMemberGroups"
                .to_string(),
            authorization: "Bearer tok".to_string(),
            content_type: Some("application/json".to_string()),
            body: Some(MemberGroupsRequest {
                group_ids: vec!["group-9".to_string()],
            }),
        }
    );
}

#[test]
fn success_is_two_hundred_something() {
    assert!(!is_success(0));
    assert!(!is_success(100));
    assert!(!is_success(199));
    assert!(is_success(200));
    assert!(is_success(204));
    assert!(is_success(299));
    assert!(!is_success(300));
    assert!(!is_success(404));
    assert!(!is_success(500));
    assert!(!is_success(u16::MAX));
}

#[test]
fn replies_are_read_by_status_then_body() {
    assert_eq!(
        payload_of(Reply::Failed("connection refused".to_string())),
        Err(PolicyError::Transport("connection refused".to_string()))
    );
    assert_eq!(
        payload_of(Reply::Response {
            status: 403,
            body: Err("not decoded".to_string()),
        }),
        Err(PolicyError::Status(403))
    );
    assert_eq!(
        payload_of(Reply::Response {
            status: 500,
            body: Ok(Payload::MemberGroups(vec![])),
        }),
        Err(PolicyError::Status(500))
    );
    assert_eq!(
        payload_of(Reply::Response {
            status: 200,
            body: Err("expected value at line 1".to_string()),
        }),
        Err(PolicyError::Malformed("expected value at line 1".to_string()))
    );
    assert_eq!(
        payload_of(Reply::Response {
            status: 201,
            body: Ok(Payload::Policies(vec![PolicyEntry {
                id: "a".to_string(),
                name: "A".to_string(),
            }])),
        }),
        Ok(Payload::Policies(vec![PolicyEntry {
            id: "a".to_string(),
            name: "A".to_string(),
        }]))
    );
}

#[test]
fn exactly_one_presentation_value() {
    assert_eq!(single_presentation_value(None), Err(PolicyError::NoValues));
    assert_eq!(
        single_presentation_value(Some(vec![])),
        Err(PolicyError::WrongValueCount)
    );
    assert_eq!(
        single_presentation_value(Some(vec![text_value("a")])),
        Ok(text_value("a"))
    );
    assert_eq!(
        single_presentation_value(Some(vec![text_value("a"), text_value("b")])),
        Err(PolicyError::WrongValueCount)
    );
    assert_eq!(
        single_presentation_value(Some(vec![
            text_value("a"),
            text_value("b"),
            text_value("c")
        ])),
        Err(PolicyError::WrongValueCount)
    );
}

#[test]
fn membership_is_read_from_the_answer() {
    let groups = vec!["g1".to_string(), "g2".to_string()];
    assert!(is_member(&groups, "g1"));
    assert!(is_member(&groups, "g2"));
    assert!(!is_member(&groups, "g3"));
    assert!(!is_member(&groups, "G1"));
    assert!(!is_member(&groups, "g"));
    assert!(!is_member(&vec![], "g1"));
}

#[test]
fn text_helpers() {
    assert_eq!(chars_of("a\u{00e9}\u{1f600}"), vec!['a', '\u{00e9}', '\u{1f600}']);
    assert_eq!(chars_of(""), Vec::<char>::new());
    assert!(same_text("abc", "abc"));
    assert!(!same_text("abc", "abd"));
    assert!(!same_text("abc", "ab"));
    assert!(same_text("", ""));
    assert!(starts_with("user_x", "user_"));
    assert!(starts_with("user_", "user_"));
    assert!(starts_with("anything", ""));
    assert!(!starts_with("use", "user_"));
    assert!(!starts_with("xuser_", "user_"));
    assert_eq!(strip_prefix("device_foo_1", "device_foo_"), Some("1".to_string()));
    assert_eq!(strip_prefix("\u{00e9}t\u{00e9}_x", "\u{00e9}t\u{00e9}_"), Some("x".to_string()));
    assert_eq!(strip_prefix("abc", "abc"), Some(String::new()));
    assert_eq!(strip_prefix("abc", "abcd"), None);
    assert_eq!(strip_prefix("abc", "b"), None);
    for (s, p) in [("device_a", "device_"), ("a", "b"), ("", ""), ("ab", "a"), ("a", "ab")].iter() {
        assert_eq!(starts_with(s, p), s.starts_with(p));
        assert_eq!(strip_prefix(s, p), s.strip_prefix(p).map(|r| r.to_string()));
    }
}

#[test]
fn why_presentation_values_are_missing() {
    let ok = |list: Option<Vec<PresentationValue>>| Reply::Response {
        status: 200,
        body: Ok(Payload::PresentationValues(list)),
    };
    assert_eq!(why_no_presentation_value(&ok(Some(vec![text_value("a")]))), None);
    assert_eq!(
        why_no_presentation_value(&ok(Some(vec![]))),
        Some(PolicyError::WrongValueCount)
    );
    assert_eq!(
        why_no_presentation_value(&ok(Some(vec![text_value("a"), text_value("b")]))),
        Some(PolicyError::WrongValueCount)
    );
    assert_eq!(why_no_presentation_value(&ok(None)), Some(PolicyError::NoValues));
    assert_eq!(
        why_no_presentation_value(&Reply::Failed("down".to_string())),
        Some(PolicyError::Transport("down".to_string()))
    );
    assert_eq!(
        why_no_presentation_value(&Reply::Response {
            status: 404,
            body: Ok(Payload::PresentationValues(Some(vec![text_value("a")]))),
        }),
        Some(PolicyError::Status(404))
    );
    assert_eq!(
        why_no_presentation_value(&Reply::Response {
            status: 200,
            body: Err("bad".to_string()),
        }),
        Some(PolicyError::Malformed("bad".to_string()))
    );
    assert_eq!(
        why_no_presentation_value(&Reply::Response {
            status: 200,
            body: Ok(Payload::MemberGroups(vec![])),
        }),
        Some(PolicyError::Unexpected)
    );
}
