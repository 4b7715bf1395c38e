//! Which policies apply to a principal, and with what settings: the run that
//! finds out, one request to the directory service at a time.
//!
//! The run never sends anything itself. It says what to ask next, takes the
//! answer, and says what to ask after that, until it hands over the policies
//! that apply or the error that ended it.

use crate::assignment::{
    assigned, lookups_needed, membership_lookups, parse_assignments, rules_of, AssignmentRule,
    GroupPolicyAssignment,
};
use crate::error::{ErrorView, PolicyError};
use crate::policy::{
    applied_views, configuration_settings, configuration_views, definition_views, group_settings,
    AppliedPolicy, AppliedView, CompliancePolicy, ConfigurationPolicy, GroupPolicy, PolicyView,
};
use crate::request::{
    assignments_request, assignments_request_view, authorization_header, bearer,
    definition_request, definition_request_view, definition_value_views,
    definition_values_request, definition_values_request_view, entry_views, is_member,
    list_request, list_request_view, member_groups_request, member_groups_request_view,
    payload_of, presentation_failure, presentation_values_request,
    presentation_values_request_view, read_reply,
    settings_request, settings_request_view, single_presentation_value, single_value,
    DefinitionValueView, EntryView, GroupPolicyConfiguration, Payload, PayloadView, PolicyEntry,
    Reply, ReplyView, Request, RequestView, Source,
};
use crate::setting::{
    ConfigurationPolicySetting, DefinitionView, GroupPolicyDefinition, InstanceView, SettingView,
};
use crate::text::texts;
use vstd::prelude::*;

verus! {

/// Where a run stands among the policies: the kind it is at, the policies of
/// that kind, the one it is looking at, and those it has kept so far.
pub struct Course {
    graph_url: String,
    authorization: String,
    principal: String,
    source: Source,
    candidates: Vec<PolicyEntry>,
    index: usize,
    kept: Vec<AppliedPolicy>,
}

/// What the pending request of a run asked for, with what has been gathered
/// for the policy at hand.
pub enum Stage {
    /// The policies of the kind at hand.
    Listing,
    /// The assignment rules of the policy at hand.
    Assignments,
    /// Whether the principal belongs to the next group of `lookups` that has
    /// no answer yet.
    Memberships { rules: Vec<GroupPolicyAssignment>, lookups: Vec<String>, answers: Vec<bool> },
    /// The settings of the policy at hand.
    Settings,
    /// The definition values of the group policy at hand.
    DefinitionValues,
    /// The definition behind the definition value at `position`.
    Definition {
        values: Vec<GroupPolicyConfiguration>,
        position: usize,
        merged: Vec<GroupPolicyDefinition>,
    },
    /// The presentation values of the definition value at `position`.
    Presentation {
        values: Vec<GroupPolicyConfiguration>,
        position: usize,
        merged: Vec<GroupPolicyDefinition>,
        definition: GroupPolicyDefinition,
    },
}

/// A run that waits for the answer to a request.
pub struct Resolution {
    course: Course,
    stage: Stage,
}

/// How far a run has come.
pub enum Progress {
    /// The request is to be sent, and its answer handed to the run.
    Send(Resolution, Request),
    /// The policies that apply to the principal, with their settings:
    /// configuration policies, then group policies, then compliance policies,
    /// each kind in the order in which the directory service listed it.
    Done(Vec<AppliedPolicy>),
    /// The run has ended without a result.
    Failed(PolicyError),
}

/// A run's place among the policies as a mathematical value.
pub struct CourseView {
    pub graph_url: Seq<char>,
    pub authorization: Seq<char>,
    pub principal: Seq<char>,
    pub source: Source,
    pub candidates: Seq<EntryView>,
    pub index: int,
    pub kept: Seq<AppliedView>,
}

/// A stage as a mathematical value.
pub enum StageView {
    Listing,
    Assignments,
    Memberships { rules: Seq<AssignmentRule>, lookups: Seq<Seq<char>>, answers: Seq<bool> },
    Settings,
    DefinitionValues,
    Definition { values: Seq<DefinitionValueView>, position: int, merged: Seq<DefinitionView> },
    Presentation {
        values: Seq<DefinitionValueView>,
        position: int,
        merged: Seq<DefinitionView>,
        definition: DefinitionView,
    },
}

/// A waiting run as a mathematical value.
pub struct ResolutionView {
    pub course: CourseView,
    pub stage: StageView,
}

/// A run's progress as a mathematical value.
pub enum ProgressView {
    Send(ResolutionView, RequestView),
    Done(Seq<AppliedView>),
    Failed(ErrorView),
}

impl View for Course {
    type V = CourseView;

    closed spec fn view(&self) -> CourseView {
        CourseView {
            graph_url: self.graph_url@,
            authorization: self.authorization@,
            principal: self.principal@,
            source: self.source,
            candidates: entry_views(self.candidates@),
            index: self.index as int,
            kept: applied_views(self.kept@),
        }
    }
}

impl View for Stage {
    type V = StageView;

    open spec fn view(&self) -> StageView {
        match self {
            Stage::Listing => StageView::Listing,
            Stage::Assignments => StageView::Assignments,
            Stage::Memberships { rules, lookups, answers } => StageView::Memberships {
                rules: rules_of(rules@),
                lookups: texts(lookups@),
                answers: answers@,
            },
            Stage::Settings => StageView::Settings,
            Stage::DefinitionValues => StageView::DefinitionValues,
            Stage::Definition { values, position, merged } => StageView::Definition {
                values: definition_value_views(values@),
                position: *position as int,
                merged: definition_views(merged@),
            },
            Stage::Presentation { values, position, merged, definition } => StageView::Presentation {
                values: definition_value_views(values@),
                position: *position as int,
                merged: definition_views(merged@),
                definition: definition@,
            },
        }
    }
}

impl View for Resolution {
    type V = ResolutionView;

    closed spec fn view(&self) -> ResolutionView {
        ResolutionView { course: self.course@, stage: self.stage@ }
    }
}

impl View for Progress {
    type V = ProgressView;

    open spec fn view(&self) -> ProgressView {
        match self {
            Progress::Send(run, request) => ProgressView::Send(run@, request@),
            Progress::Done(policies) => ProgressView::Done(applied_views(policies@)),
            Progress::Failed(e) => ProgressView::Failed(e@),
        }
    }
}

/// Whether a waiting run is in order: but while it lists, it looks at one of
/// the listed policies; a lookup is pending only for a group that has no
/// answer yet, and a definition or its presentation only for one of the
/// definition values.
pub open spec fn well_formed(run: ResolutionView) -> bool {
    &&& 0 <= run.course.index
    &&& run.stage !is Listing ==> run.course.index < run.course.candidates.len()
    &&& run.stage matches StageView::Memberships { lookups, answers, .. } ==> answers.len()
        < lookups.len()
    &&& run.stage matches StageView::Definition { values, position, .. } ==> 0 <= position
        < values.len()
    &&& run.stage matches StageView::Presentation { values, position, .. } ==> 0 <= position
        < values.len()
}

/// The kind of policy that is resolved after `source`.
pub open spec fn following(source: Source) -> Option<Source> {
    match source {
        Source::Configuration => Some(Source::Group),
        Source::Group => Some(Source::Compliance),
        Source::Compliance => None,
    }
}

/// The policy at hand, with the settings that were loaded for it.
pub open spec fn applied(source: Source, entry: EntryView, settings: Seq<SettingView>) -> AppliedView {
    let policy = PolicyView { id: entry.id, name: entry.name, settings: Some(settings) };
    match source {
        Source::Configuration => AppliedView::Configuration(policy),
        Source::Group => AppliedView::Group(policy),
        Source::Compliance => AppliedView::Compliance(policy),
    }
}

/// Turns to the policies of a kind: asks for their list.
pub open spec fn enter_source(course: CourseView, source: Source) -> ProgressView {
    match list_request_view(course.graph_url, course.authorization, source) {
        Some(request) => ProgressView::Send(
            ResolutionView {
                course: CourseView { source, candidates: Seq::empty(), index: 0, ..course },
                stage: StageView::Listing,
            },
            request,
        ),
        None => ProgressView::Failed(ErrorView::InvalidUrl),
    }
}

/// Takes up the policy at `course.index`: asks for its assignment rules.
/// Where the policies of this kind are exhausted, turns to the next kind, and
/// after the last kind hands over what was kept.
pub open spec fn proceed(course: CourseView) -> ProgressView {
    if course.index < course.candidates.len() {
        ProgressView::Send(
            ResolutionView { course, stage: StageView::Assignments },
            assignments_request_view(
                course.graph_url,
                course.authorization,
                course.source,
                course.candidates[course.index].id,
            ),
        )
    } else {
        match following(course.source) {
            Some(next) => enter_source(course, next),
            None => ProgressView::Done(course.kept),
        }
    }
}

/// Leaves the policy at hand out and goes on.
pub open spec fn skip(course: CourseView) -> ProgressView {
    proceed(CourseView { index: course.index + 1, ..course })
}

/// Keeps the policy at hand, with its settings, and goes on.
pub open spec fn keep(course: CourseView, settings: Seq<SettingView>) -> ProgressView {
    proceed(
        CourseView {
            index: course.index + 1,
            kept: course.kept.push(
                applied(course.source, course.candidates[course.index], settings),
            ),
            ..course
        },
    )
}

/// Asks for what the settings of the policy at hand are made from.
pub open spec fn load(course: CourseView) -> ProgressView {
    let policy_id = course.candidates[course.index].id;
    match course.source {
        Source::Group => ProgressView::Send(
            ResolutionView { course, stage: StageView::DefinitionValues },
            definition_values_request_view(course.graph_url, course.authorization, policy_id),
        ),
        _ => ProgressView::Send(
            ResolutionView { course, stage: StageView::Settings },
            settings_request_view(
                course.graph_url,
                course.authorization,
                course.source,
                policy_id,
            ),
        ),
    }
}

/// Asks about the next group that has no answer yet. Once every lookup is
/// answered, decides the assignment: the settings of an assigned policy are
/// loaded, and a policy that is not assigned is left out without a request
/// for its settings.
pub open spec fn decide(
    course: CourseView,
    rules: Seq<AssignmentRule>,
    lookups: Seq<Seq<char>>,
    answers: Seq<bool>,
) -> ProgressView {
    if answers.len() < lookups.len() {
        ProgressView::Send(
            ResolutionView { course, stage: StageView::Memberships { rules, lookups, answers } },
            member_groups_request_view(
                course.graph_url,
                course.authorization,
                course.principal,
                lookups[answers.len() as int],
            ),
        )
    } else if assigned(rules, answers) {
        load(course)
    } else {
        skip(course)
    }
}

/// Asks for the definition behind the definition value at `position`; once
/// every definition value has been dealt with, keeps the policy with the
/// definitions that were merged.
pub open spec fn merge_from(
    course: CourseView,
    values: Seq<DefinitionValueView>,
    position: int,
    merged: Seq<DefinitionView>,
) -> ProgressView {
    if position < values.len() {
        ProgressView::Send(
            ResolutionView { course, stage: StageView::Definition { values, position, merged } },
            definition_request_view(
                course.graph_url,
                course.authorization,
                course.candidates[course.index].id,
                values[position].id,
            ),
        )
    } else {
        keep(course, group_settings(merged))
    }
}

/// What becomes of a waiting run when the answer to its request arrives.
///
/// An answer that is an error, or that holds something else than was asked
/// for, ends the run; but the presentation values of a definition, which may
/// fail, and then only that definition is left out of its policy.
pub open spec fn advance_view(run: ResolutionView, reply: ReplyView) -> ProgressView {
    let course = run.course;
    let read = read_reply(reply);
    match run.stage {
        StageView::Listing => match read {
            Ok(PayloadView::Policies(entries)) => proceed(
                CourseView { candidates: entries, index: 0, ..course },
            ),
            Ok(_) => ProgressView::Failed(ErrorView::Unexpected),
            Err(e) => ProgressView::Failed(e),
        },
        StageView::Assignments => match read {
            Ok(PayloadView::Assignments(rules)) => decide(
                course,
                rules,
                lookups_needed(rules),
                Seq::empty(),
            ),
            Ok(_) => ProgressView::Failed(ErrorView::Unexpected),
            Err(e) => ProgressView::Failed(e),
        },
        StageView::Memberships { rules, lookups, answers } => match read {
            Ok(PayloadView::MemberGroups(groups)) => decide(
                course,
                rules,
                lookups,
                answers.push(groups.contains(lookups[answers.len() as int])),
            ),
            Ok(_) => ProgressView::Failed(ErrorView::Unexpected),
            Err(e) => ProgressView::Failed(e),
        },
        StageView::Settings => match read {
            Ok(PayloadView::Settings(instances)) => keep(course, configuration_settings(instances)),
            Ok(_) => ProgressView::Failed(ErrorView::Unexpected),
            Err(e) => ProgressView::Failed(e),
        },
        StageView::DefinitionValues => match read {
            Ok(PayloadView::DefinitionValues(values)) => merge_from(course, values, 0, Seq::empty()),
            Ok(_) => ProgressView::Failed(ErrorView::Unexpected),
            Err(e) => ProgressView::Failed(e),
        },
        StageView::Definition { values, position, merged } => match read {
            Ok(PayloadView::Definition(definition)) => ProgressView::Send(
                ResolutionView {
                    course,
                    stage: StageView::Presentation {
                        values,
                        position,
                        merged,
                        definition: DefinitionView {
                            enabled: values[position].enabled,
                            ..definition
                        },
                    },
                },
                presentation_values_request_view(
                    course.graph_url,
                    course.authorization,
                    course.candidates[course.index].id,
                    values[position].id,
                ),
            ),
            Ok(_) => ProgressView::Failed(ErrorView::Unexpected),
            Err(e) => ProgressView::Failed(e),
        },
        StageView::Presentation { values, position, merged, definition } => match read {
            Ok(PayloadView::PresentationValues(list)) => match single_value(list) {
                Ok(value) => merge_from(
                    course,
                    values,
                    position + 1,
                    merged.push(DefinitionView { value, ..definition }),
                ),
                Err(_) => merge_from(course, values, position + 1, merged),
            },
            _ => merge_from(course, values, position + 1, merged),
        },
    }
}

/// How a run begins: with the request for the list of configuration policies.
pub open spec fn start_view(
    graph_url: Seq<char>,
    access_token: Seq<char>,
    principal: Seq<char>,
) -> ProgressView {
    enter_source(
        CourseView {
            graph_url,
            authorization: bearer(access_token),
            principal,
            source: Source::Configuration,
            candidates: Seq::empty(),
            index: 0,
            kept: Seq::empty(),
        },
        Source::Configuration,
    )
}

/// The kind of policy that is resolved after `source`.
fn next_source(source: Source) -> (r: Option<Source>)
    ensures
        r == following(source),
{
    match source {
        Source::Configuration => Some(Source::Group),
        Source::Group => Some(Source::Compliance),
        Source::Compliance => None,
    }
}

/// Turns to the policies of a kind.
fn enter(course: Course, source: Source) -> (r: Progress)
    ensures
        r@ == enter_source(course@, source),
{
    match list_request(course.graph_url.as_str(), course.authorization.as_str(), source) {
        Ok(request) => {
            let next = Course {
                graph_url: course.graph_url,
                authorization: course.authorization,
                principal: course.principal,
                source,
                candidates: Vec::new(),
                index: 0,
                kept: course.kept,
            };
            assert(next@.candidates =~= Seq::empty());
            Progress::Send(Resolution { course: next, stage: Stage::Listing }, request)
        },
        Err(e) => Progress::Failed(e),
    }
}

/// Takes up the policy at `course.index`, or what follows the last one.
fn go_on(course: Course) -> (r: Progress)
    ensures
        r@ == proceed(course@),
{
    if course.index < course.candidates.len() {
        let request = assignments_request(
            course.graph_url.as_str(),
            course.authorization.as_str(),
            course.source,
            course.candidates[course.index].id.as_str(),
        );
        Progress::Send(Resolution { course, stage: Stage::Assignments }, request)
    } else {
        match next_source(course.source) {
            Some(next) => enter(course, next),
            None => Progress::Done(course.kept),
        }
    }
}

/// Leaves the policy at hand out and goes on.
fn leave_out(course: Course) -> (r: Progress)
    requires
        course.index < course.candidates.len(),
    ensures
        r@ == skip(course@),
{
    let next = Course {
        graph_url: course.graph_url,
        authorization: course.authorization,
        principal: course.principal,
        source: course.source,
        candidates: course.candidates,
        index: course.index + 1,
        kept: course.kept,
    };
    go_on(next)
}

/// Keeps a policy and goes on.
fn keep_policy(course: Course, policy: AppliedPolicy) -> (r: Progress)
    requires
        course.index < course.candidates.len(),
    ensures
        r@ == proceed(
            CourseView {
                index: course@.index + 1,
                kept: course@.kept.push(policy@),
                ..course@
            },
        ),
{
    let mut kept = course.kept;
    let ghost before = kept@;
    kept.push(policy);
    assert(applied_views(kept@) =~= applied_views(before).push(policy@));
    let next = Course {
        graph_url: course.graph_url,
        authorization: course.authorization,
        principal: course.principal,
        source: course.source,
        candidates: course.candidates,
        index: course.index + 1,
        kept,
    };
    go_on(next)
}

/// Keeps the configuration or compliance policy at hand with its settings.
fn keep_with_settings(course: Course, settings: Vec<ConfigurationPolicySetting>) -> (r: Progress)
    requires
        course.index < course.candidates.len(),
        course@.source != Source::Group,
    ensures
        r@ == keep(course@, configuration_settings(configuration_views(settings@))),
{
    let entry = &course.candidates[course.index];
    let policy = match course.source {
        Source::Compliance => {
            let mut policy = CompliancePolicy::new(entry.id.clone(), entry.name.clone());
            policy.load_policy_settings(settings);
            AppliedPolicy::Compliance(policy)
        },
        _ => {
            let mut policy = ConfigurationPolicy::new(entry.id.clone(), entry.name.clone());
            policy.load_policy_settings(settings);
            AppliedPolicy::Configuration(policy)
        },
    };
    keep_policy(course, policy)
}

/// Keeps the group policy at hand with the definitions merged for it.
fn keep_with_definitions(course: Course, merged: Vec<GroupPolicyDefinition>) -> (r: Progress)
    requires
        course.index < course.candidates.len(),
        course@.source == Source::Group,
    ensures
        r@ == keep(course@, group_settings(definition_views(merged@))),
{
    let entry = &course.candidates[course.index];
    let mut policy = GroupPolicy::new(entry.id.clone(), entry.name.clone());
    policy.load_policy_settings(merged);
    keep_policy(course, AppliedPolicy::Group(policy))
}

/// Asks for what the settings of the policy at hand are made from.
fn load_settings(course: Course) -> (r: Progress)
    requires
        course.index < course.candidates.len(),
    ensures
        r@ == load(course@),
{
    let policy_id = course.candidates[course.index].id.as_str();
    match course.source {
        Source::Group => {
            let request = definition_values_request(
                course.graph_url.as_str(),
                course.authorization.as_str(),
                policy_id,
            );
            Progress::Send(Resolution { course, stage: Stage::DefinitionValues }, request)
        },
        _ => {
            let request = settings_request(
                course.graph_url.as_str(),
                course.authorization.as_str(),
                course.source,
                policy_id,
            );
            Progress::Send(Resolution { course, stage: Stage::Settings }, request)
        },
    }
}

/// Asks about the next group without an answer, or decides the assignment.
fn ask_or_decide(
    course: Course,
    rules: Vec<GroupPolicyAssignment>,
    lookups: Vec<String>,
    answers: Vec<bool>,
) -> (r: Progress)
    requires
        course.index < course.candidates.len(),
    ensures
        r@ == decide(course@, rules_of(rules@), texts(lookups@), answers@),
{
    if answers.len() < lookups.len() {
        let request = member_groups_request(
            course.graph_url.as_str(),
            course.authorization.as_str(),
            course.principal.as_str(),
            lookups[answers.len()].as_str(),
        );
        Progress::Send(
            Resolution { course, stage: Stage::Memberships { rules, lookups, answers } },
            request,
        )
    } else if parse_assignments(&rules, &answers) {
        load_settings(course)
    } else {
        leave_out(course)
    }
}

/// Asks for the next definition, or keeps the policy with those merged.
fn merge_next(
    course: Course,
    values: Vec<GroupPolicyConfiguration>,
    position: usize,
    merged: Vec<GroupPolicyDefinition>,
) -> (r: Progress)
    requires
        course.index < course.candidates.len(),
        course@.source == Source::Group,
    ensures
        r@ == merge_from(
            course@,
            definition_value_views(values@),
            position as int,
            definition_views(merged@),
        ),
{
    if position < values.len() {
        let request = definition_request(
            course.graph_url.as_str(),
            course.authorization.as_str(),
            course.candidates[course.index].id.as_str(),
            values[position].id.as_str(),
        );
        Progress::Send(
            Resolution { course, stage: Stage::Definition { values, position, merged } },
            request,
        )
    } else {
        keep_with_definitions(course, merged)
    }
}

impl Resolution {
    #[verifier::type_invariant]
    closed spec fn in_order(self) -> bool {
        &&& well_formed(self@)
        &&& self.stage is Settings ==> self.course.source != Source::Group
        &&& (self.stage is DefinitionValues || self.stage is Definition || self.stage is Presentation)
            ==> self.course.source == Source::Group
    }

    /// Begins a run for a principal: `graph_url` is the address of the
    /// directory service, `access_token` what it accepts as a credential.
    pub fn start(graph_url: &str, access_token: &str, principal: &str) -> (r: Progress)
        ensures
            r@ == start_view(graph_url@, access_token@, principal@),
            r@ matches ProgressView::Send(run, _) ==> well_formed(run),
    {
        let course = Course {
            graph_url: graph_url.to_owned(),
            authorization: authorization_header(access_token),
            principal: principal.to_owned(),
            source: Source::Configuration,
            candidates: Vec::new(),
            index: 0,
            kept: Vec::new(),
        };
        assert(course@.candidates =~= Seq::empty());
        assert(course@.kept =~= Seq::empty());
        enter(course, Source::Configuration)
    }

    /// Takes the answer to the pending request and says how the run goes on.
    pub fn advance(self, reply: Reply) -> (r: Progress)
        ensures
            r@ == advance_view(self@, reply@),
            r@ matches ProgressView::Send(run, _) ==> well_formed(run),
    {
        proof {
            use_type_invariant(&self);
        }
        let Resolution { course, stage } = self;
        let read = payload_of(reply);
        assert(course@.candidates.len() == course.candidates.len());
        match stage {
            Stage::Listing => match read {
                Ok(Payload::Policies(entries)) => {
                    let next = Course {
                        graph_url: course.graph_url,
                        authorization: course.authorization,
                        principal: course.principal,
                        source: course.source,
                        candidates: entries,
                        index: 0,
                        kept: course.kept,
                    };
                    go_on(next)
                },
                Ok(_) => Progress::Failed(PolicyError::Unexpected),
                Err(e) => Progress::Failed(e),
            },
            Stage::Assignments => match read {
                Ok(Payload::Assignments(rules)) => {
                    let lookups = membership_lookups(&rules);
                    ask_or_decide(course, rules, lookups, Vec::new())
                },
                Ok(_) => Progress::Failed(PolicyError::Unexpected),
                Err(e) => Progress::Failed(e),
            },
            Stage::Memberships { rules, lookups, answers } => match read {
                Ok(Payload::MemberGroups(groups)) => {
                    assert(texts(lookups@).len() == lookups.len());
                    let mut answers = answers;
                    let member = is_member(&groups, lookups[answers.len()].as_str());
                    answers.push(member);
                    ask_or_decide(course, rules, lookups, answers)
                },
                Ok(_) => Progress::Failed(PolicyError::Unexpected),
                Err(e) => Progress::Failed(e),
            },
            Stage::Settings => match read {
                Ok(Payload::Settings(settings)) => keep_with_settings(course, settings),
                Ok(_) => Progress::Failed(PolicyError::Unexpected),
                Err(e) => Progress::Failed(e),
            },
            Stage::DefinitionValues => match read {
                Ok(Payload::DefinitionValues(values)) => {
                    let merged: Vec<GroupPolicyDefinition> = Vec::new();
                    assert(definition_views(merged@) =~= Seq::empty());
                    merge_next(course, values, 0, merged)
                },
                Ok(_) => Progress::Failed(PolicyError::Unexpected),
                Err(e) => Progress::Failed(e),
            },
            Stage::Definition { values, position, merged } => match read {
                Ok(Payload::Definition(fetched)) => {
                    assert(definition_value_views(values@).len() == values.len());
                    let definition = GroupPolicyDefinition {
                        enabled: values[position].enabled,
                        class_type: fetched.class_type,
                        display_name: fetched.display_name,
                        category_path: fetched.category_path,
                        value: fetched.value,
                    };
                    let request = presentation_values_request(
                        course.graph_url.as_str(),
                        course.authorization.as_str(),
                        course.candidates[course.index].id.as_str(),
                        values[position].id.as_str(),
                    );
                    Progress::Send(
                        Resolution {
                            course,
                            stage: Stage::Presentation { values, position, merged, definition },
                        },
                        request,
                    )
                },
                Ok(_) => Progress::Failed(PolicyError::Unexpected),
                Err(e) => Progress::Failed(e),
            },
            Stage::Presentation { values, position, merged, definition } => {
                assert(definition_value_views(values@).len() == values.len());
                match read {
                    Ok(Payload::PresentationValues(list)) => match single_presentation_value(
                        list,
                    ) {
                        Ok(value) => {
                            let mut merged = merged;
                            let ghost before = merged@;
                            let complete = GroupPolicyDefinition {
                                enabled: definition.enabled,
                                class_type: definition.class_type,
                                display_name: definition.display_name,
                                category_path: definition.category_path,
                                value,
                            };
                            merged.push(complete);
                            assert(definition_views(merged@) =~= definition_views(before).push(
                                complete@,
                            ));
                            merge_next(course, values, position + 1, merged)
                        },
                        Err(_) => merge_next(course, values, position + 1, merged),
                    },
                    _ => merge_next(course, values, position + 1, merged),
                }
            },
        }
    }
}

/// Whether a request asks for what the settings of a policy are made from.
pub open spec fn asks_for_settings(request: RequestView) -> bool {
    request.endpoint is Settings || request.endpoint == crate::request::Endpoint::DefinitionValues
}

/// A definition whose presentation values could not be had, or came in a
/// number other than one, is left out of its policy, and nothing else changes:
/// the definitions merged so far stay, and the run goes on with the definition
/// value after it as if it had been the next one all along.
pub proof fn lemma_presentation_failure_is_soft(run: ResolutionView, reply: ReplyView)
    requires
        run.stage is Presentation,
        presentation_failure(reply) is Some,
    ensures
        advance_view(run, reply) == merge_from(
            run.course,
            run.stage->Presentation_values,
            run.stage->Presentation_position + 1,
            run.stage->Presentation_merged,
        ),
{
}

/// A definition that comes with exactly one presentation value joins the
/// definitions merged so far, as their last, with that value.
pub proof fn lemma_presentation_success_merges(
    run: ResolutionView,
    reply: ReplyView,
    list: Seq<crate::setting::PresentationView>,
)
    requires
        run.stage is Presentation,
        read_reply(reply) == Ok::<PayloadView, ErrorView>(
            PayloadView::PresentationValues(Some(list)),
        ),
        list.len() == 1,
    ensures
        advance_view(run, reply) == merge_from(
            run.course,
            run.stage->Presentation_values,
            run.stage->Presentation_position + 1,
            run.stage->Presentation_merged.push(
                DefinitionView { value: list[0], ..run.stage->Presentation_definition },
            ),
        ),
{
}

/// Any other answer that is an error ends the run with that error.
pub proof fn lemma_failure_is_hard(run: ResolutionView, reply: ReplyView)
    requires
        run.stage !is Presentation,
        read_reply(reply) is Err,
    ensures
        advance_view(run, reply) == ProgressView::Failed(read_reply(reply)->Err_0),
{
}

/// Going on among the policies never asks for settings.
proof fn lemma_proceed_asks_no_settings(course: CourseView)
    ensures
        proceed(course) matches ProgressView::Send(_, request) ==> !asks_for_settings(request),
{
}

/// The settings of a policy that is not assigned are never asked for: once
/// every lookup is answered and the rules do not assign the policy, the next
/// request, if there is one, is for something else.
pub proof fn lemma_unassigned_is_not_loaded(
    course: CourseView,
    rules: Seq<AssignmentRule>,
    lookups: Seq<Seq<char>>,
    answers: Seq<bool>,
)
    requires
        answers.len() >= lookups.len(),
        !assigned(rules, answers),
    ensures
        decide(course, rules, lookups, answers) == skip(course),
        decide(course, rules, lookups, answers) matches ProgressView::Send(_, request)
            ==> !asks_for_settings(request),
{
    lemma_proceed_asks_no_settings(CourseView { index: course.index + 1, ..course });
}

/// Whether a step, if it sends a request, sends it with the credential of
/// `course` and leaves the run with the same service, credential and
/// principal.
pub open spec fn same_service(progress: ProgressView, course: CourseView) -> bool {
    progress matches ProgressView::Send(next, request) ==> {
        &&& request.authorization == course.authorization
        &&& next.course.authorization == course.authorization
        &&& next.course.graph_url == course.graph_url
        &&& next.course.principal == course.principal
    }
}

/// Every request of a run carries the credential that the run began with,
/// as a bearer token.
pub proof fn lemma_requests_carry_the_token(
    graph_url: Seq<char>,
    access_token: Seq<char>,
    principal: Seq<char>,
    run: ResolutionView,
    reply: ReplyView,
)
    ensures
        start_view(graph_url, access_token, principal) matches ProgressView::Send(first, request)
            ==> request.authorization == bearer(access_token) && first.course.authorization
            == bearer(access_token),
        same_service(advance_view(run, reply), run.course),
{
    let course = run.course;
    assert forall|c: CourseView|
        c.authorization == course.authorization && c.graph_url == course.graph_url && c.principal
            == course.principal implies #[trigger] same_service(proceed(c), course) by {}
    match run.stage {
        StageView::Listing => {
            if let Ok(PayloadView::Policies(entries)) = read_reply(reply) {
                assert(same_service(
                    proceed(CourseView { candidates: entries, index: 0, ..course }),
                    course,
                ));
            }
        },
        StageView::Settings => {
            if let Ok(PayloadView::Settings(instances)) = read_reply(reply) {
                assert(same_service(
                    proceed(
                        CourseView {
                            index: course.index + 1,
                            kept: course.kept.push(
                                applied(
                                    course.source,
                                    course.candidates[course.index],
                                    configuration_settings(instances),
                                ),
                            ),
                            ..course
                        },
                    ),
                    course,
                ));
            }
        },
        StageView::Presentation { values, position, merged, definition } => {
            assert forall|all: Seq<DefinitionView>| #[trigger]
                same_service(merge_from(course, values, position + 1, all), course) by {
                assert(same_service(
                    proceed(
                        CourseView {
                            index: course.index + 1,
                            kept: course.kept.push(
                                applied(
                                    course.source,
                                    course.candidates[course.index],
                                    group_settings(all),
                                ),
                            ),
                            ..course
                        },
                    ),
                    course,
                ));
            }
        },
        StageView::DefinitionValues => {
            if let Ok(PayloadView::DefinitionValues(values)) = read_reply(reply) {
                assert(same_service(
                    proceed(
                        CourseView {
                            index: course.index + 1,
                            kept: course.kept.push(
                                applied(
                                    course.source,
                                    course.candidates[course.index],
                                    group_settings(Seq::empty()),
                                ),
                            ),
                            ..course
                        },
                    ),
                    course,
                ));
            }
        },
        _ => {
            assert(same_service(proceed(CourseView { index: course.index + 1, ..course }), course));
        },
    }
}

/// The policies that a run holds after a step: those it has kept while it
/// goes on, those it hands over when it is done, none when it has failed.
pub open spec fn kept_after(progress: ProgressView) -> Option<Seq<AppliedView>> {
    match progress {
        ProgressView::Send(next, _) => Some(next.course.kept),
        ProgressView::Done(policies) => Some(policies),
        ProgressView::Failed(_) => None,
    }
}

/// Going on among the policies keeps what was kept.
proof fn lemma_proceed_keeps(course: CourseView)
    ensures
        kept_after(proceed(course)) matches Some(kept) ==> kept == course.kept,
{
}

/// Keeping a policy adds it after those kept.
proof fn lemma_keep_adds(course: CourseView, settings: Seq<SettingView>)
    ensures
        kept_after(keep(course, settings)) matches Some(kept) ==> kept == course.kept.push(
            applied(course.source, course.candidates[course.index], settings),
        ),
{
    lemma_proceed_keeps(
        CourseView {
            index: course.index + 1,
            kept: course.kept.push(
                applied(course.source, course.candidates[course.index], settings),
            ),
            ..course
        },
    );
}

/// Merging definitions keeps what was kept, or adds the policy at hand.
proof fn lemma_merge_keeps(
    course: CourseView,
    values: Seq<DefinitionValueView>,
    position: int,
    merged: Seq<DefinitionView>,
)
    ensures
        kept_after(merge_from(course, values, position, merged)) matches Some(kept)
            ==> course.kept.is_prefix_of(kept),
{
    lemma_keep_adds(course, group_settings(merged));
}

/// Deciding an assignment keeps what was kept.
proof fn lemma_decide_keeps(
    course: CourseView,
    rules: Seq<AssignmentRule>,
    lookups: Seq<Seq<char>>,
    answers: Seq<bool>,
)
    ensures
        kept_after(decide(course, rules, lookups, answers)) matches Some(kept) ==> kept
            == course.kept,
{
    lemma_proceed_keeps(CourseView { index: course.index + 1, ..course });
}

/// What a run has kept stays kept, in its place: each step leaves the kept
/// policies as they are or adds one after them, and the policies handed over
/// at the end begin with those kept before the last step.
pub proof fn lemma_kept_policies_stay(run: ResolutionView, reply: ReplyView)
    ensures
        kept_after(advance_view(run, reply)) matches Some(kept) ==> run.course.kept.is_prefix_of(
            kept,
        ),
{
    let course = run.course;
    match run.stage {
        StageView::Listing => {
            if let Ok(PayloadView::Policies(entries)) = read_reply(reply) {
                lemma_proceed_keeps(CourseView { candidates: entries, index: 0, ..course });
            }
        },
        StageView::Assignments => {
            if let Ok(PayloadView::Assignments(rules)) = read_reply(reply) {
                lemma_decide_keeps(course, rules, lookups_needed(rules), Seq::empty());
            }
        },
        StageView::Memberships { rules, lookups, answers } => {
            if let Ok(PayloadView::MemberGroups(groups)) = read_reply(reply) {
                lemma_decide_keeps(
                    course,
                    rules,
                    lookups,
                    answers.push(groups.contains(lookups[answers.len() as int])),
                );
            }
        },
        StageView::Settings => {
            if let Ok(PayloadView::Settings(instances)) = read_reply(reply) {
                lemma_keep_adds(course, configuration_settings(instances));
            }
        },
        StageView::DefinitionValues => {
            if let Ok(PayloadView::DefinitionValues(values)) = read_reply(reply) {
                lemma_merge_keeps(course, values, 0, Seq::empty());
            }
        },
        StageView::Definition { .. } => {},
        StageView::Presentation { values, position, merged, definition } => {
            lemma_merge_keeps(course, values, position + 1, merged);
            if let Ok(PayloadView::PresentationValues(list)) = read_reply(reply) {
                if let Ok(value) = single_value(list) {
                    lemma_merge_keeps(
                        course,
                        values,
                        position + 1,
                        merged.push(DefinitionView { value, ..definition }),
                    );
                }
            }
        },
    }
}

} // verus!
