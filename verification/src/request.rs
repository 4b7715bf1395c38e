//! The calls to the directory service: the request that each one sends and
//! what its answer holds. Sending and decoding are the caller's; what to send
//! and how to read the answer are decided here.

use crate::assignment::{rules_of, AssignmentRule, GroupPolicyAssignment};
use crate::error::{ErrorView, PolicyError};
use crate::policy::{configuration_views, definition_views};
use crate::setting::{
    ConfigurationPolicySetting, DefinitionView, GroupPolicyDefinition, InstanceView,
    PresentationValue, PresentationView,
};
use crate::text::{same_text, texts};
use url::Url;
use vstd::prelude::*;

verus! {

#[verifier::external_type_specification]
#[verifier::external_body]
pub struct ExParseError(url::ParseError);

/// The three kinds of policy, in the order in which they are resolved.
#[derive(Debug, PartialEq, Eq, Structural, Clone, Copy)]
pub enum Source {
    Configuration,
    Group,
    Compliance,
}

/// How a request is sent.
#[derive(Debug, PartialEq, Eq, Structural, Clone, Copy)]
pub enum Method {
    Get,
    Post,
}

/// What a request asks the directory service for, and so what its answer
/// holds.
#[derive(Debug, PartialEq, Eq, Structural, Clone, Copy)]
pub enum Endpoint {
    /// The policies of one kind.
    Policies(Source),
    /// The assignment rules of one policy.
    Assignments(Source),
    /// The settings of one configuration or compliance policy.
    Settings(Source),
    /// The definition values of one group policy.
    DefinitionValues,
    /// The definition behind one definition value.
    Definition,
    /// The presentation values of one definition value.
    PresentationValues,
    /// The groups, out of those named in the request, that the principal
    /// belongs to.
    MemberGroups,
}

/// The body of a membership check.
#[derive(Debug, PartialEq, Eq)]
pub struct MemberGroupsRequest {
    pub group_ids: Vec<String>,
}

/// One request to the directory service.
#[derive(Debug, PartialEq, Eq)]
pub struct Request {
    pub endpoint: Endpoint,
    pub method: Method,
    pub url: String,
    /// The value of the `Authorization` header.
    pub authorization: String,
    /// The value of the `Content-Type` header, where the request has a body.
    pub content_type: Option<String>,
    pub body: Option<MemberGroupsRequest>,
}

/// A request as a mathematical value.
pub struct RequestView {
    pub endpoint: Endpoint,
    pub method: Method,
    pub url: Seq<char>,
    pub authorization: Seq<char>,
    pub content_type: Option<Seq<char>>,
    pub body: Option<Seq<Seq<char>>>,
}

impl View for Request {
    type V = RequestView;

    open spec fn view(&self) -> RequestView {
        RequestView {
            endpoint: self.endpoint,
            method: self.method,
            url: self.url@,
            authorization: self.authorization@,
            content_type: match self.content_type {
                Some(t) => Some(t@),
                None => None,
            },
            body: match self.body {
                Some(b) => Some(texts(b.group_ids@)),
                None => None,
            },
        }
    }
}

/// A policy as a list of policies names it.
#[derive(Debug, PartialEq, Eq)]
pub struct PolicyEntry {
    pub id: String,
    pub name: String,
}

/// A listed policy as a mathematical value.
pub struct EntryView {
    pub id: Seq<char>,
    pub name: Seq<char>,
}

impl View for PolicyEntry {
    type V = EntryView;

    open spec fn view(&self) -> EntryView {
        EntryView { id: self.id@, name: self.name@ }
    }
}

/// The views of a list of listed policies, in order.
pub open spec fn entry_views(v: Seq<PolicyEntry>) -> Seq<EntryView> {
    v.map_values(|e: PolicyEntry| e@)
}

/// One definition value of a group policy: which definition, and whether it
/// is switched on.
#[derive(Debug, PartialEq, Eq)]
pub struct GroupPolicyConfiguration {
    pub id: String,
    pub enabled: bool,
}

/// A definition value as a mathematical value.
pub struct DefinitionValueView {
    pub id: Seq<char>,
    pub enabled: bool,
}

impl View for GroupPolicyConfiguration {
    type V = DefinitionValueView;

    open spec fn view(&self) -> DefinitionValueView {
        DefinitionValueView { id: self.id@, enabled: self.enabled }
    }
}

/// The views of a list of definition values, in order.
pub open spec fn definition_value_views(v: Seq<GroupPolicyConfiguration>) -> Seq<
    DefinitionValueView,
> {
    v.map_values(|c: GroupPolicyConfiguration| c@)
}

/// The views of a list of presentation values, in order.
pub open spec fn presentation_views(v: Seq<PresentationValue>) -> Seq<PresentationView> {
    v.map_values(|p: PresentationValue| p@)
}

/// What the body of an answer holds, once decoded.
#[derive(Debug, PartialEq, Eq)]
pub enum Payload {
    Policies(Vec<PolicyEntry>),
    Assignments(Vec<GroupPolicyAssignment>),
    Settings(Vec<ConfigurationPolicySetting>),
    DefinitionValues(Vec<GroupPolicyConfiguration>),
    Definition(GroupPolicyDefinition),
    PresentationValues(Option<Vec<PresentationValue>>),
    MemberGroups(Vec<String>),
}

/// A decoded body as a mathematical value.
pub enum PayloadView {
    Policies(Seq<EntryView>),
    Assignments(Seq<AssignmentRule>),
    Settings(Seq<InstanceView>),
    DefinitionValues(Seq<DefinitionValueView>),
    Definition(DefinitionView),
    PresentationValues(Option<Seq<PresentationView>>),
    MemberGroups(Seq<Seq<char>>),
}

impl View for Payload {
    type V = PayloadView;

    open spec fn view(&self) -> PayloadView {
        match self {
            Payload::Policies(v) => PayloadView::Policies(entry_views(v@)),
            Payload::Assignments(v) => PayloadView::Assignments(rules_of(v@)),
            Payload::Settings(v) => PayloadView::Settings(configuration_views(v@)),
            Payload::DefinitionValues(v) => PayloadView::DefinitionValues(
                definition_value_views(v@),
            ),
            Payload::Definition(d) => PayloadView::Definition(d@),
            Payload::PresentationValues(o) => PayloadView::PresentationValues(
                match o {
                    Some(v) => Some(presentation_views(v@)),
                    None => None,
                },
            ),
            Payload::MemberGroups(v) => PayloadView::MemberGroups(texts(v@)),
        }
    }
}

/// What came back for a request.
#[derive(Debug, PartialEq, Eq)]
pub enum Reply {
    /// No answer: the request could not be sent, or nothing came back. The
    /// text is the transport's.
    Failed(String),
    /// An answer with its status and its body: decoded as the request's
    /// endpoint calls for, or the decoder's complaint.
    Response { status: u16, body: Result<Payload, String> },
}

/// An answer as a mathematical value.
pub enum ReplyView {
    Failed(Seq<char>),
    Response { status: int, body: Result<PayloadView, Seq<char>> },
}

impl View for Reply {
    type V = ReplyView;

    open spec fn view(&self) -> ReplyView {
        match self {
            Reply::Failed(text) => ReplyView::Failed(text@),
            Reply::Response { status, body } => ReplyView::Response {
                status: *status as int,
                body: match body {
                    Ok(p) => Ok(p@),
                    Err(text) => Err(text@),
                },
            },
        }
    }
}

/// The view of what an answer was read as.
pub open spec fn read_view(r: Result<Payload, PolicyError>) -> Result<PayloadView, ErrorView> {
    match r {
        Ok(p) => Ok(p@),
        Err(e) => Err(e@),
    }
}

/// Whether a status is one of success: 200 to 299.
pub open spec fn success_status(status: int) -> bool {
    200 <= status < 300
}

/// What an answer is read as: its decoded body where the status is one of
/// success and the body could be decoded; else the error that says which of
/// the three went wrong, the status taking precedence over the body.
pub open spec fn read_reply(reply: ReplyView) -> Result<PayloadView, ErrorView> {
    match reply {
        ReplyView::Failed(text) => Err(ErrorView::Transport(text)),
        ReplyView::Response { status, body } => if !success_status(status) {
            Err(ErrorView::Status(status))
        } else {
            match body {
                Ok(payload) => Ok(payload),
                Err(text) => Err(ErrorView::Malformed(text)),
            }
        },
    }
}

/// Whether a status is one of success.
pub fn is_success(status: u16) -> (r: bool)
    ensures
        r == success_status(status as int),
{
    200 <= status && status < 300
}

/// Reads an answer: its decoded body, or the error it stands for.
pub fn payload_of(reply: Reply) -> (r: Result<Payload, PolicyError>)
    ensures
        read_view(r) == read_reply(reply@),
{
    match reply {
        Reply::Failed(text) => Err(PolicyError::Transport(text)),
        Reply::Response { status, body } => if !is_success(status) {
            Err(PolicyError::Status(status))
        } else {
            match body {
                Ok(payload) => Ok(payload),
                Err(text) => Err(PolicyError::Malformed(text)),
            }
        },
    }
}

/// The one presentation value of a definition: the answer has to hold a list
/// of exactly one.
pub open spec fn single_value(values: Option<Seq<PresentationView>>) -> Result<
    PresentationView,
    ErrorView,
> {
    match values {
        None => Err(ErrorView::NoValues),
        Some(list) => if list.len() == 1 {
            Ok(list[0])
        } else {
            Err(ErrorView::WrongValueCount)
        },
    }
}

/// Takes the one presentation value out of an answer.
pub fn single_presentation_value(values: Option<Vec<PresentationValue>>) -> (r: Result<
    PresentationValue,
    PolicyError,
>)
    ensures
        match single_value(
            match values {
                Some(v) => Some(presentation_views(v@)),
                None => None,
            },
        ) {
            Ok(value) => r matches Ok(v) && v@ == value,
            Err(e) => r matches Err(x) && x@ == e,
        },
{
    match values {
        None => Err(PolicyError::NoValues),
        Some(mut list) => {
            if list.len() != 1 {
                Err(PolicyError::WrongValueCount)
            } else {
                let ghost before = list@;
                let last = list.pop();
                match last {
                    Some(value) => {
                        assert(value == before[0]);
                        Ok(value)
                    },
                    None => Err(PolicyError::WrongValueCount),
                }
            }
        },
    }
}

/// Why the answer to a request for presentation values yields none: the
/// error that the answer stands for, or that it does not hold exactly one
/// value. `None` where it yields one.
pub open spec fn presentation_failure(reply: ReplyView) -> Option<ErrorView> {
    match read_reply(reply) {
        Ok(PayloadView::PresentationValues(list)) => match single_value(list) {
            Ok(_) => None,
            Err(e) => Some(e),
        },
        Ok(_) => Some(ErrorView::Unexpected),
        Err(e) => Some(e),
    }
}

/// Says why the answer to a request for presentation values yields none, if
/// it yields none, so that the caller can tell the operator.
pub fn why_no_presentation_value(reply: &Reply) -> (r: Option<PolicyError>)
    ensures
        match presentation_failure(reply@) {
            Some(e) => r matches Some(x) && x@ == e,
            None => r is None,
        },
{
    match reply {
        Reply::Failed(text) => Some(PolicyError::Transport(text.clone())),
        Reply::Response { status, body } => if !is_success(*status) {
            Some(PolicyError::Status(*status))
        } else {
            match body {
                Ok(Payload::PresentationValues(Some(list))) => {
                    assert(presentation_views(list@).len() == list.len());
                    if list.len() == 1 {
                        None
                    } else {
                        Some(PolicyError::WrongValueCount)
                    }
                },
                Ok(Payload::PresentationValues(None)) => Some(PolicyError::NoValues),
                Ok(_) => Some(PolicyError::Unexpected),
                Err(text) => Some(PolicyError::Malformed(text.clone())),
            }
        },
    }
}

/// Whether the answer to a membership check names `group_id`.
pub fn is_member(groups: &Vec<String>, group_id: &str) -> (r: bool)
    ensures
        r == texts(groups@).contains(group_id@),
{
    let mut i: usize = 0;
    while i < groups.len()
        invariant
            i <= groups.len(),
            forall|k: int| 0 <= k < i ==> texts(groups@)[k] != group_id@,
        decreases groups.len() - i,
    {
        if same_text(groups[i].as_str(), group_id) {
            assert(texts(groups@)[i as int] == group_id@);
            return true;
        }
        i += 1;
    }
    false
}

/// Where the configuration policies are listed, below the service's address.
pub const CONFIGURATION_POLICIES: &'static str = "/beta/deviceManagement/configurationPolicies";

/// Where the group policy configurations are listed.
pub const GROUP_POLICY_CONFIGURATIONS: &'static str =
    "/beta/deviceManagement/groupPolicyConfigurations";

/// Where the compliance policies are listed.
pub const COMPLIANCE_POLICIES: &'static str = "/beta/deviceManagement/compliancePolicies";

/// Where directory objects are found.
pub const DIRECTORY_OBJECTS: &'static str = "/v1.0/directoryObjects/";

/// The filter that keeps the policies meant for this kind of host.
pub const LINUX_FILTER: &'static str = "(platforms eq 'linux') and (technologies has 'linuxMdm')";

/// Where the policies of a kind are listed, below the service's address.
pub open spec fn collection_path(source: Source) -> Seq<char> {
    match source {
        Source::Configuration => CONFIGURATION_POLICIES@,
        Source::Group => GROUP_POLICY_CONFIGURATIONS@,
        Source::Compliance => COMPLIANCE_POLICIES@,
    }
}

/// The query of the request that lists the policies of a kind: the fields to
/// return and, but for group policies, the filter.
pub open spec fn list_query(source: Source) -> Seq<(Seq<char>, Seq<char>)> {
    match source {
        Source::Group => seq![("$select"@, "displayName,id"@)],
        _ => seq![("$select"@, "name,id"@), ("$filter"@, LINUX_FILTER@)],
    }
}

/// The address of what belongs to one policy: `leaf` below the policy.
pub open spec fn policy_url(
    graph_url: Seq<char>,
    source: Source,
    policy_id: Seq<char>,
    leaf: Seq<char>,
) -> Seq<char> {
    graph_url + collection_path(source) + "/"@ + policy_id + leaf
}

/// The address of what belongs to one definition value of a group policy.
pub open spec fn definition_value_url(
    graph_url: Seq<char>,
    policy_id: Seq<char>,
    definition_id: Seq<char>,
    leaf: Seq<char>,
) -> Seq<char> {
    policy_url(graph_url, Source::Group, policy_id, "/definitionValues/"@) + definition_id + leaf
}

/// The address of the membership check for a principal.
pub open spec fn member_groups_url(graph_url: Seq<char>, principal: Seq<char>) -> Seq<char> {
    graph_url + DIRECTORY_OBJECTS@ + principal + "/checkMemberGroups"@
}

/// The value of the `Authorization` header for an access token.
pub open spec fn bearer(access_token: Seq<char>) -> Seq<char> {
    "Bearer "@ + access_token
}

/// A request without a body.
pub open spec fn get_request(endpoint: Endpoint, url: Seq<char>, authorization: Seq<char>) -> RequestView {
    RequestView {
        endpoint,
        method: Method::Get,
        url,
        authorization,
        content_type: None,
        body: None,
    }
}

/// The request for the assignment rules of a policy.
pub open spec fn assignments_request_view(
    graph_url: Seq<char>,
    authorization: Seq<char>,
    source: Source,
    policy_id: Seq<char>,
) -> RequestView {
    get_request(
        Endpoint::Assignments(source),
        policy_url(graph_url, source, policy_id, "/assignments"@),
        authorization,
    )
}

/// The request for the settings of a configuration or compliance policy.
pub open spec fn settings_request_view(
    graph_url: Seq<char>,
    authorization: Seq<char>,
    source: Source,
    policy_id: Seq<char>,
) -> RequestView {
    get_request(
        Endpoint::Settings(source),
        policy_url(graph_url, source, policy_id, "/settings"@),
        authorization,
    )
}

/// The request for the definition values of a group policy.
pub open spec fn definition_values_request_view(
    graph_url: Seq<char>,
    authorization: Seq<char>,
    policy_id: Seq<char>,
) -> RequestView {
    get_request(
        Endpoint::DefinitionValues,
        policy_url(graph_url, Source::Group, policy_id, "/definitionValues"@),
        authorization,
    )
}

/// The request for the definition behind a definition value.
pub open spec fn definition_request_view(
    graph_url: Seq<char>,
    authorization: Seq<char>,
    policy_id: Seq<char>,
    definition_id: Seq<char>,
) -> RequestView {
    get_request(
        Endpoint::Definition,
        definition_value_url(graph_url, policy_id, definition_id, "/definition"@),
        authorization,
    )
}

/// The request for the presentation values of a definition value.
pub open spec fn presentation_values_request_view(
    graph_url: Seq<char>,
    authorization: Seq<char>,
    policy_id: Seq<char>,
    definition_id: Seq<char>,
) -> RequestView {
    get_request(
        Endpoint::PresentationValues,
        definition_value_url(graph_url, policy_id, definition_id, "/presentationValues"@),
        authorization,
    )
}

/// The request that asks whether a principal belongs to a group.
pub open spec fn member_groups_request_view(
    graph_url: Seq<char>,
    authorization: Seq<char>,
    principal: Seq<char>,
    group_id: Seq<char>,
) -> RequestView {
    RequestView {
        endpoint: Endpoint::MemberGroups,
        method: Method::Post,
        url: member_groups_url(graph_url, principal),
        authorization,
        content_type: Some("application/json"@),
        body: Some(seq![group_id]),
    }
}

/// The text of the address that `url::Url::parse_with_params` makes of an
/// address and the pairs of a query; `None` where it rejects the address.
pub uninterp spec fn url_with_params(input: Seq<char>, pairs: Seq<(Seq<char>, Seq<char>)>) -> Option<
    Seq<char>,
>;

/// The request that lists the policies of a kind; none where the address
/// cannot be made.
pub open spec fn list_request_view(
    graph_url: Seq<char>,
    authorization: Seq<char>,
    source: Source,
) -> Option<RequestView> {
    match url_with_params(graph_url + collection_path(source), list_query(source)) {
        Some(url) => Some(get_request(Endpoint::Policies(source), url, authorization)),
        None => None,
    }
}

/// The pairs of a query as mathematical values.
pub open spec fn pair_views(pairs: Seq<(String, String)>) -> Seq<(Seq<char>, Seq<char>)> {
    pairs.map_values(|p: (String, String)| (p.0@, p.1@))
}

/// `url::Url::parse_with_params`: parses `input` as an absolute address and
/// appends `pairs` to its query. Returns the address as text, or the crate's
/// error where `input` is not an absolute address.
#[verifier::external_body]
fn parse_with_params(input: &str, pairs: &Vec<(String, String)>) -> (r: Result<
    String,
    url::ParseError,
>)
    ensures
        r is Ok == url_with_params(input@, pair_views(pairs@)) is Some,
        r matches Ok(text) ==> url_with_params(input@, pair_views(pairs@)) == Some(text@),
{
    match Url::parse_with_params(input, pairs.iter()) {
        Ok(url) => Ok(String::from(url)),
        Err(e) => Err(e),
    }
}

/// The `Debug` text of a `url::ParseError`, for the message of an error.
#[verifier::external_body]
fn describe_url_error(error: &url::ParseError) -> (text: String) {
    format!("{:?}", error)
}

/// The value of the `Authorization` header for an access token.
pub fn authorization_header(access_token: &str) -> (r: String)
    ensures
        r@ == bearer(access_token@),
{
    let mut r = "Bearer ".to_owned();
    r.append(access_token);
    r
}

/// Where the policies of a kind are listed, below the service's address.
pub fn collection(source: Source) -> (r: &'static str)
    ensures
        r@ == collection_path(source),
{
    match source {
        Source::Configuration => CONFIGURATION_POLICIES,
        Source::Group => GROUP_POLICY_CONFIGURATIONS,
        Source::Compliance => COMPLIANCE_POLICIES,
    }
}

/// A request without a body.
fn get(endpoint: Endpoint, url: String, authorization: &str) -> (r: Request)
    ensures
        r@ == get_request(endpoint, url@, authorization@),
{
    Request {
        endpoint,
        method: Method::Get,
        url,
        authorization: authorization.to_owned(),
        content_type: None,
        body: None,
    }
}

/// The address of what belongs to one policy.
fn address_below_policy(graph_url: &str, source: Source, policy_id: &str, leaf: &str) -> (r: String)
    ensures
        r@ == policy_url(graph_url@, source, policy_id@, leaf@),
{
    let mut url = graph_url.to_owned();
    url.append(collection(source));
    url.append("/");
    url.append(policy_id);
    url.append(leaf);
    url
}

/// The address of what belongs to one definition value of a group policy.
fn address_below_definition_value(
    graph_url: &str,
    policy_id: &str,
    definition_id: &str,
    leaf: &str,
) -> (r: String)
    ensures
        r@ == definition_value_url(graph_url@, policy_id@, definition_id@, leaf@),
{
    let mut url = address_below_policy(graph_url, Source::Group, policy_id, "/definitionValues/");
    url.append(definition_id);
    url.append(leaf);
    url
}

/// The request that lists the policies of a kind. It fails where the
/// service's address is not one that a request can be sent to.
pub fn list_request(graph_url: &str, authorization: &str, source: Source) -> (r: Result<
    Request,
    PolicyError,
>)
    ensures
        match list_request_view(graph_url@, authorization@, source) {
            Some(request) => r matches Ok(q) && q@ == request,
            None => r matches Err(e) && e@ == ErrorView::InvalidUrl,
        },
{
    let mut base = graph_url.to_owned();
    base.append(collection(source));
    let mut query: Vec<(String, String)> = Vec::new();
    match source {
        Source::Group => {
            query.push(("$select".to_owned(), "displayName,id".to_owned()));
        },
        _ => {
            query.push(("$select".to_owned(), "name,id".to_owned()));
            query.push(("$filter".to_owned(), LINUX_FILTER.to_owned()));
        },
    }
    assert(pair_views(query@) =~= list_query(source));
    match parse_with_params(base.as_str(), &query) {
        Ok(url) => Ok(get(Endpoint::Policies(source), url, authorization)),
        Err(e) => Err(PolicyError::InvalidUrl(describe_url_error(&e))),
    }
}

/// The request for the assignment rules of a policy.
pub fn assignments_request(graph_url: &str, authorization: &str, source: Source, policy_id: &str) -> (r:
    Request)
    ensures
        r@ == assignments_request_view(graph_url@, authorization@, source, policy_id@),
{
    get(
        Endpoint::Assignments(source),
        address_below_policy(graph_url, source, policy_id, "/assignments"),
        authorization,
    )
}

/// The request for the settings of a configuration or compliance policy.
pub fn settings_request(graph_url: &str, authorization: &str, source: Source, policy_id: &str) -> (r:
    Request)
    ensures
        r@ == settings_request_view(graph_url@, authorization@, source, policy_id@),
{
    get(
        Endpoint::Settings(source),
        address_below_policy(graph_url, source, policy_id, "/settings"),
        authorization,
    )
}

/// The request for the definition values of a group policy.
pub fn definition_values_request(graph_url: &str, authorization: &str, policy_id: &str) -> (r:
    Request)
    ensures
        r@ == definition_values_request_view(graph_url@, authorization@, policy_id@),
{
    get(
        Endpoint::DefinitionValues,
        address_below_policy(graph_url, Source::Group, policy_id, "/definitionValues"),
        authorization,
    )
}

/// The request for the definition behind a definition value.
pub fn definition_request(
    graph_url: &str,
    authorization: &str,
    policy_id: &str,
    definition_id: &str,
) -> (r: Request)
    ensures
        r@ == definition_request_view(graph_url@, authorization@, policy_id@, definition_id@),
{
    get(
        Endpoint::Definition,
        address_below_definition_value(graph_url, policy_id, definition_id, "/definition"),
        authorization,
    )
}

/// The request for the presentation values of a definition value.
pub fn presentation_values_request(
    graph_url: &str,
    authorization: &str,
    policy_id: &str,
    definition_id: &str,
) -> (r: Request)
    ensures
        r@ == presentation_values_request_view(
            graph_url@,
            authorization@,
            policy_id@,
            definition_id@,
        ),
{
    get(
        Endpoint::PresentationValues,
        address_below_definition_value(graph_url, policy_id, definition_id, "/presentationValues"),
        authorization,
    )
}

/// The request that asks whether a principal belongs to a group.
pub fn member_groups_request(graph_url: &str, authorization: &str, principal: &str, group_id: &str) -> (r:
    Request)
    ensures
        r@ == member_groups_request_view(graph_url@, authorization@, principal@, group_id@),
{
    let mut url = graph_url.to_owned();
    url.append(DIRECTORY_OBJECTS);
    url.append(principal);
    url.append("/checkMemberGroups");
    let mut group_ids: Vec<String> = Vec::new();
    group_ids.push(group_id.to_owned());
    assert(texts(group_ids@) =~= seq![group_id@]);
    Request {
        endpoint: Endpoint::MemberGroups,
        method: Method::Post,
        url,
        authorization: authorization.to_owned(),
        content_type: Some("application/json".to_owned()),
        body: Some(MemberGroupsRequest { group_ids }),
    }
}

} // verus!
