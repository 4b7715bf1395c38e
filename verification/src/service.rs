//! What a run comes to when a given directory service answers its requests:
//! that it ends, and with which policies or which error.

use crate::assignment::{assigned, lookups_needed, AssignmentRule};
use crate::error::ErrorView;
use crate::policy::{configuration_settings, group_settings, AppliedView};
use crate::request::{
    assignments_request_view, definition_request_view, definition_values_request_view,
    list_request_view, member_groups_request_view, presentation_values_request_view, read_reply,
    settings_request_view, single_value, DefinitionValueView, EntryView, PayloadView, ReplyView,
    RequestView, Source,
};
use crate::resolver::{
    advance_view, applied, decide, enter_source, following, keep, load, merge_from, proceed, skip,
    start_view, CourseView, ProgressView, ResolutionView, StageView,
};
use crate::setting::{DefinitionView, SettingView};
use vstd::prelude::*;

verus! {

/// How many kinds of policy a run at `source` has not finished.
pub open spec fn kinds_left(source: Source) -> nat {
    match source {
        Source::Configuration => 3,
        Source::Group => 2,
        Source::Compliance => 1,
    }
}

/// How many of `total` items are left after `done` of them.
pub open spec fn left(total: nat, done: int) -> nat {
    if done < total {
        (total - done) as nat
    } else {
        0
    }
}

/// How far the work on one policy has come: the later the stage, the lower.
pub open spec fn stage_rank(stage: StageView) -> nat {
    match stage {
        StageView::Listing => 0,
        StageView::Assignments => 5,
        StageView::Memberships { .. } => 4,
        StageView::DefinitionValues => 3,
        StageView::Definition { .. } => 2,
        StageView::Presentation { .. } => 2,
        StageView::Settings => 1,
    }
}

/// How many requests a stage may still repeat.
pub open spec fn stage_left(stage: StageView) -> nat {
    match stage {
        StageView::Memberships { lookups, answers, .. } => left(lookups.len(), answers.len() as int),
        StageView::Definition { values, position, .. } => 2 * left(values.len(), position) + 1,
        StageView::Presentation { values, position, .. } => 2 * left(values.len(), position),
        _ => 0,
    }
}

/// The kinds of policy that a run has not finished; none once it has ended.
pub open spec fn measure_kinds(progress: ProgressView) -> nat {
    match progress {
        ProgressView::Send(run, _) => kinds_left(run.course.source),
        _ => 0,
    }
}

/// Whether a run still waits for the list of the kind it is at.
pub open spec fn measure_listing(progress: ProgressView) -> nat {
    match progress {
        ProgressView::Send(run, _) => if run.stage is Listing {
            1
        } else {
            0
        },
        _ => 0,
    }
}

/// The policies of the kind at hand that a run has not finished.
pub open spec fn measure_policies(progress: ProgressView) -> nat {
    match progress {
        ProgressView::Send(run, _) => if run.stage is Listing {
            0
        } else {
            left(run.course.candidates.len(), run.course.index)
        },
        _ => 0,
    }
}

/// How far a run has come with the policy at hand.
pub open spec fn measure_stage(progress: ProgressView) -> nat {
    match progress {
        ProgressView::Send(run, _) => stage_rank(run.stage),
        _ => 0,
    }
}

/// How many requests of the stage at hand a run may still repeat.
pub open spec fn measure_repeats(progress: ProgressView) -> nat {
    match progress {
        ProgressView::Send(run, _) => stage_left(run.stage),
        _ => 0,
    }
}

/// Whether `after` is nearer to the end of a run than `before`: fewer kinds
/// left, or as many and no list pending, or as many policies of the kind
/// left and a later stage, and so on.
pub open spec fn nearer(after: ProgressView, before: ProgressView) -> bool {
    ||| measure_kinds(after) < measure_kinds(before)
    ||| measure_kinds(after) == measure_kinds(before) && measure_listing(after) < measure_listing(
        before,
    )
    ||| measure_kinds(after) == measure_kinds(before) && measure_listing(after) == measure_listing(
        before,
    ) && measure_policies(after) < measure_policies(before)
    ||| measure_kinds(after) == measure_kinds(before) && measure_listing(after) == measure_listing(
        before,
    ) && measure_policies(after) == measure_policies(before) && measure_stage(after)
        < measure_stage(before)
    ||| measure_kinds(after) == measure_kinds(before) && measure_listing(after) == measure_listing(
        before,
    ) && measure_policies(after) == measure_policies(before) && measure_stage(after)
        == measure_stage(before) && measure_repeats(after) < measure_repeats(before)
}

/// Going on among the policies leaves fewer kinds, or no list pending, or
/// the policies from `course.index` on.
proof fn lemma_proceed_measure(course: CourseView)
    ensures
        measure_kinds(proceed(course)) < kinds_left(course.source) || (measure_kinds(
            proceed(course),
        ) == kinds_left(course.source) && measure_listing(proceed(course)) == 0
            && measure_policies(proceed(course)) == left(course.candidates.len(), course.index)
            && course.index < course.candidates.len()),
{
}

/// Every answer brings a run nearer to its end.
pub proof fn lemma_step_is_nearer(run: ResolutionView, request: RequestView, reply: ReplyView)
    ensures
        nearer(advance_view(run, reply), ProgressView::Send(run, request)),
{
    let course = run.course;
    let before = ProgressView::Send(run, request);
    let after = advance_view(run, reply);
    let next = CourseView { index: course.index + 1, ..course };
    lemma_proceed_measure(next);
    assert forall|settings: Seq<SettingView>| #[trigger] keep(course, settings) == proceed(
        CourseView {
            index: course.index + 1,
            kept: course.kept.push(
                applied(course.source, course.candidates[course.index], settings),
            ),
            ..course
        },
    ) by {}
    match run.stage {
        StageView::Listing => {
            if let Ok(PayloadView::Policies(entries)) = read_reply(reply) {
                lemma_proceed_measure(CourseView { candidates: entries, index: 0, ..course });
            }
        },
        StageView::Assignments => {},
        StageView::Memberships { rules, lookups, answers } => {},
        StageView::Settings => {
            if let Ok(PayloadView::Settings(instances)) = read_reply(reply) {
                lemma_proceed_measure(
                    CourseView {
                        index: course.index + 1,
                        kept: course.kept.push(
                            applied(
                                course.source,
                                course.candidates[course.index],
                                configuration_settings(instances),
                            ),
                        ),
                        ..course
                    },
                );
            }
        },
        StageView::DefinitionValues => {
            lemma_keep_measure(course, group_settings(Seq::empty()));
        },
        StageView::Definition { .. } => {},
        StageView::Presentation { values, position, merged, definition } => {
            lemma_keep_measure(course, group_settings(merged));
            if let Ok(PayloadView::PresentationValues(list)) = read_reply(reply) {
                if let Ok(value) = single_value(list) {
                    lemma_keep_measure(
                        course,
                        group_settings(merged.push(DefinitionView { value, ..definition })),
                    );
                }
            }
        },
    }
}

/// Keeping a policy leaves fewer kinds or fewer policies of the kind.
proof fn lemma_keep_measure(course: CourseView, settings: Seq<SettingView>)
    ensures
        measure_kinds(keep(course, settings)) < kinds_left(course.source) || (measure_kinds(
            keep(course, settings),
        ) == kinds_left(course.source) && measure_listing(keep(course, settings)) == 0
            && measure_policies(keep(course, settings)) < left(
            course.candidates.len(),
            course.index,
        )),
{
    lemma_proceed_measure(
        CourseView {
            index: course.index + 1,
            kept: course.kept.push(
                applied(course.source, course.candidates[course.index], settings),
            ),
            ..course
        },
    );
}

/// What a run comes to when each of its requests is answered by `answer`:
/// the policies that it hands over, or the error that ends it.
pub open spec fn outcome(
    progress: ProgressView,
    answer: spec_fn(RequestView) -> ReplyView,
) -> Result<Seq<AppliedView>, ErrorView>
    decreases
        measure_kinds(progress),
        measure_listing(progress),
        measure_policies(progress),
        measure_stage(progress),
        measure_repeats(progress),
    via outcome_ends
{
    match progress {
        ProgressView::Send(run, request) => outcome(advance_view(run, answer(request)), answer),
        ProgressView::Done(policies) => Ok(policies),
        ProgressView::Failed(e) => Err(e),
    }
}

#[via_fn]
proof fn outcome_ends(progress: ProgressView, answer: spec_fn(RequestView) -> ReplyView) {
    match progress {
        ProgressView::Send(run, request) => {
            lemma_step_is_nearer(run, request, answer(request));
        },
        _ => {},
    }
}

/// A directory service as a run meets it: where it is, what it accepts as a
/// credential, whom the run is for, and what it answers to each request.
pub struct Service {
    pub graph_url: Seq<char>,
    pub authorization: Seq<char>,
    pub principal: Seq<char>,
    pub answer: spec_fn(RequestView) -> ReplyView,
}

/// `policy` and then, where there are any, `rest`.
pub open spec fn before(policy: AppliedView, rest: Result<Seq<AppliedView>, ErrorView>) -> Result<
    Seq<AppliedView>,
    ErrorView,
> {
    match rest {
        Ok(more) => Ok(seq![policy] + more),
        Err(e) => Err(e),
    }
}

/// `kept` and then, where there are any, `rest`.
pub open spec fn after(kept: Seq<AppliedView>, rest: Result<Seq<AppliedView>, ErrorView>) -> Result<
    Seq<AppliedView>,
    ErrorView,
> {
    match rest {
        Ok(more) => Ok(kept + more),
        Err(e) => Err(e),
    }
}

/// Whether the principal belongs to each of the groups from number `k` on,
/// as the service answers one membership check after the other; the first
/// check that fails is the error.
pub open spec fn memberships_from(service: Service, lookups: Seq<Seq<char>>, k: int) -> Result<
    Seq<bool>,
    ErrorView,
>
    decreases left(lookups.len(), k),
{
    if 0 <= k < lookups.len() {
        match read_reply(
            (service.answer)(
                member_groups_request_view(
                    service.graph_url,
                    service.authorization,
                    service.principal,
                    lookups[k],
                ),
            ),
        ) {
            Ok(PayloadView::MemberGroups(groups)) => match memberships_from(
                service,
                lookups,
                k + 1,
            ) {
                Ok(more) => Ok(seq![groups.contains(lookups[k])] + more),
                Err(e) => Err(e),
            },
            Ok(_) => Err(ErrorView::Unexpected),
            Err(e) => Err(e),
        }
    } else {
        Ok(Seq::empty())
    }
}

/// Whether a policy applies to the principal, by its assignment rules and the
/// memberships that these ask about.
pub open spec fn policy_applies(service: Service, source: Source, policy_id: Seq<char>) -> Result<
    bool,
    ErrorView,
> {
    match read_reply(
        (service.answer)(
            assignments_request_view(service.graph_url, service.authorization, source, policy_id),
        ),
    ) {
        Ok(PayloadView::Assignments(rules)) => match memberships_from(
            service,
            lookups_needed(rules),
            0,
        ) {
            Ok(answers) => Ok(assigned(rules, answers)),
            Err(e) => Err(e),
        },
        Ok(_) => Err(ErrorView::Unexpected),
        Err(e) => Err(e),
    }
}

/// The definitions of a group policy from definition value number `position`
/// on, each with the flag of its definition value and its one presentation
/// value. A definition whose presentation values cannot be had, or are not
/// exactly one, is left out; a definition that cannot be had is the error.
pub open spec fn definitions_from(
    service: Service,
    policy_id: Seq<char>,
    values: Seq<DefinitionValueView>,
    position: int,
) -> Result<Seq<DefinitionView>, ErrorView>
    decreases left(values.len(), position),
{
    if 0 <= position < values.len() {
        match read_reply(
            (service.answer)(
                definition_request_view(
                    service.graph_url,
                    service.authorization,
                    policy_id,
                    values[position].id,
                ),
            ),
        ) {
            Ok(PayloadView::Definition(fetched)) => {
                let definition = DefinitionView { enabled: values[position].enabled, ..fetched };
                let here = match read_reply(
                    (service.answer)(
                        presentation_values_request_view(
                            service.graph_url,
                            service.authorization,
                            policy_id,
                            values[position].id,
                        ),
                    ),
                ) {
                    Ok(PayloadView::PresentationValues(list)) => match single_value(list) {
                        Ok(value) => seq![DefinitionView { value, ..definition }],
                        Err(_) => Seq::empty(),
                    },
                    _ => Seq::empty(),
                };
                match definitions_from(service, policy_id, values, position + 1) {
                    Ok(more) => Ok(here + more),
                    Err(e) => Err(e),
                }
            },
            Ok(_) => Err(ErrorView::Unexpected),
            Err(e) => Err(e),
        }
    } else {
        Ok(Seq::empty())
    }
}

/// The settings of a policy, as the service has them.
pub open spec fn loaded_settings(service: Service, source: Source, policy_id: Seq<char>) -> Result<
    Seq<SettingView>,
    ErrorView,
> {
    match source {
        Source::Group => match read_reply(
            (service.answer)(
                definition_values_request_view(
                    service.graph_url,
                    service.authorization,
                    policy_id,
                ),
            ),
        ) {
            Ok(PayloadView::DefinitionValues(values)) => match definitions_from(
                service,
                policy_id,
                values,
                0,
            ) {
                Ok(merged) => Ok(group_settings(merged)),
                Err(e) => Err(e),
            },
            Ok(_) => Err(ErrorView::Unexpected),
            Err(e) => Err(e),
        },
        _ => match read_reply(
            (service.answer)(
                settings_request_view(service.graph_url, service.authorization, source, policy_id),
            ),
        ) {
            Ok(PayloadView::Settings(instances)) => Ok(configuration_settings(instances)),
            Ok(_) => Err(ErrorView::Unexpected),
            Err(e) => Err(e),
        },
    }
}

/// A listed policy with its settings, if it applies to the principal. The
/// settings are asked for only where it does.
pub open spec fn resolved_policy(service: Service, source: Source, entry: EntryView) -> Result<
    Option<AppliedView>,
    ErrorView,
> {
    match policy_applies(service, source, entry.id) {
        Err(e) => Err(e),
        Ok(false) => Ok(None),
        Ok(true) => match loaded_settings(service, source, entry.id) {
            Ok(settings) => Ok(Some(applied(source, entry, settings))),
            Err(e) => Err(e),
        },
    }
}

/// The policies that apply among those listed from number `index` on, in the
/// order of the list, and after them those of the kinds that follow.
pub open spec fn remaining(
    service: Service,
    source: Source,
    entries: Seq<EntryView>,
    index: int,
) -> Result<Seq<AppliedView>, ErrorView>
    decreases 2 * kinds_left(source), left(entries.len(), index),
{
    if 0 <= index < entries.len() {
        match resolved_policy(service, source, entries[index]) {
            Err(e) => Err(e),
            Ok(Some(policy)) => before(policy, remaining(service, source, entries, index + 1)),
            Ok(None) => remaining(service, source, entries, index + 1),
        }
    } else {
        match following(source) {
            Some(next) => resolved_kinds(service, next),
            None => Ok(Seq::empty()),
        }
    }
}

/// The policies of a kind that apply, in the order in which the service
/// lists them, and after them those of the kinds that follow.
pub open spec fn resolved_kinds(service: Service, source: Source) -> Result<
    Seq<AppliedView>,
    ErrorView,
>
    decreases 2 * kinds_left(source) + 1, 0nat,
{
    match list_request_view(service.graph_url, service.authorization, source) {
        None => Err(ErrorView::InvalidUrl),
        Some(request) => match read_reply((service.answer)(request)) {
            Ok(PayloadView::Policies(entries)) => remaining(service, source, entries, 0),
            Ok(_) => Err(ErrorView::Unexpected),
            Err(e) => Err(e),
        },
    }
}

/// The policies that apply to the principal: configuration policies, then
/// group policies, then compliance policies; or the first error met on the
/// way.
pub open spec fn policies_for(service: Service) -> Result<Seq<AppliedView>, ErrorView> {
    resolved_kinds(service, Source::Configuration)
}

/// Whether a run is one against `service`.
pub open spec fn serves(service: Service, course: CourseView) -> bool {
    &&& course.graph_url == service.graph_url
    &&& course.authorization == service.authorization
    &&& course.principal == service.principal
    &&& 0 <= course.index
}

/// What a run comes to once it has decided whether the policy at hand applies.
pub open spec fn decided(service: Service, course: CourseView, applies: bool) -> Result<
    Seq<AppliedView>,
    ErrorView,
> {
    let entry = course.candidates[course.index];
    let rest = remaining(service, course.source, course.candidates, course.index + 1);
    if applies {
        match loaded_settings(service, course.source, entry.id) {
            Ok(settings) => after(course.kept.push(applied(course.source, entry, settings)), rest),
            Err(e) => Err(e),
        }
    } else {
        after(course.kept, rest)
    }
}

/// Adding a policy to those kept is putting it before the rest.
proof fn lemma_after_push(
    kept: Seq<AppliedView>,
    policy: AppliedView,
    rest: Result<Seq<AppliedView>, ErrorView>,
)
    ensures
        after(kept.push(policy), rest) == after(kept, before(policy, rest)),
{
    if let Ok(more) = rest {
        assert(kept.push(policy) + more =~= kept + (seq![policy] + more));
    }
}

/// A run that goes on among the policies comes to what it has kept and then
/// what remains.
proof fn lemma_proceed_outcome(service: Service, course: CourseView)
    requires
        serves(service, course),
    ensures
        outcome(proceed(course), service.answer) == after(
            course.kept,
            remaining(service, course.source, course.candidates, course.index),
        ),
    decreases 2 * kinds_left(course.source), left(course.candidates.len(), course.index), 9nat, 0nat,
{
    if course.index < course.candidates.len() {
        let entry = course.candidates[course.index];
        let run = ResolutionView { course, stage: StageView::Assignments };
        let request = assignments_request_view(
            course.graph_url,
            course.authorization,
            course.source,
            entry.id,
        );
        assert(proceed(course) == ProgressView::Send(run, request));
        let reply = (service.answer)(request);
        assert(outcome(proceed(course), service.answer) == outcome(
            advance_view(run, reply),
            service.answer,
        ));
        match read_reply(reply) {
            Ok(PayloadView::Assignments(rules)) => {
                lemma_decide_outcome(service, course, rules, lookups_needed(rules), Seq::empty());
                match memberships_from(service, lookups_needed(rules), 0) {
                    Ok(answers) => {
                        assert(Seq::<bool>::empty() + answers =~= answers);
                        lemma_decided(service, course, assigned(rules, answers));
                    },
                    Err(e) => {},
                }
            },
            Ok(_) => {},
            Err(e) => {},
        }
    } else {
        match following(course.source) {
            Some(next) => {
                lemma_enter_outcome(service, course, next);
            },
            None => {
                assert(course.kept + Seq::<AppliedView>::empty() =~= course.kept);
            },
        }
    }
}

/// What follows the decision is what remains from the policy at hand on.
proof fn lemma_decided(service: Service, course: CourseView, applies: bool)
    requires
        serves(service, course),
        course.index < course.candidates.len(),
    ensures
        decided(service, course, applies) == after(
            course.kept,
            match if applies {
                match loaded_settings(
                    service,
                    course.source,
                    course.candidates[course.index].id,
                ) {
                    Ok(settings) => Ok(
                        Some(
                            applied(course.source, course.candidates[course.index], settings),
                        ),
                    ),
                    Err(e) => Err(e),
                }
            } else {
                Ok(None)
            } {
                Err(e) => Err(e),
                Ok(Some(policy)) => before(
                    policy,
                    remaining(service, course.source, course.candidates, course.index + 1),
                ),
                Ok(None) => remaining(
                    service,
                    course.source,
                    course.candidates,
                    course.index + 1,
                ),
            },
        ),
{
    let entry = course.candidates[course.index];
    let rest = remaining(service, course.source, course.candidates, course.index + 1);
    if applies {
        if let Ok(settings) = loaded_settings(service, course.source, entry.id) {
            lemma_after_push(course.kept, applied(course.source, entry, settings), rest);
        }
    }
}

/// A run that turns to a kind comes to what it has kept and then the
/// policies of that kind and of those that follow.
proof fn lemma_enter_outcome(service: Service, course: CourseView, source: Source)
    requires
        serves(service, course),
    ensures
        outcome(enter_source(course, source), service.answer) == after(
            course.kept,
            resolved_kinds(service, source),
        ),
    decreases 2 * kinds_left(source) + 1, 0nat, 0nat, 0nat,
{
    match list_request_view(course.graph_url, course.authorization, source) {
        Some(request) => {
            let listing = CourseView { source, candidates: Seq::empty(), index: 0, ..course };
            let run = ResolutionView { course: listing, stage: StageView::Listing };
            assert(enter_source(course, source) == ProgressView::Send(run, request));
            let reply = (service.answer)(request);
            assert(outcome(enter_source(course, source), service.answer) == outcome(
                advance_view(run, reply),
                service.answer,
            ));
            match read_reply(reply) {
                Ok(PayloadView::Policies(entries)) => {
                    lemma_proceed_outcome(
                        service,
                        CourseView { candidates: entries, index: 0, ..listing },
                    );
                },
                Ok(_) => {},
                Err(e) => {},
            }
        },
        None => {},
    }
}

/// A run that asks about memberships comes to the decision that the answers
/// call for, and to what follows it.
proof fn lemma_decide_outcome(
    service: Service,
    course: CourseView,
    rules: Seq<AssignmentRule>,
    lookups: Seq<Seq<char>>,
    answers: Seq<bool>,
)
    requires
        serves(service, course),
        course.index < course.candidates.len(),
    ensures
        outcome(decide(course, rules, lookups, answers), service.answer) == match memberships_from(
            service,
            lookups,
            answers.len() as int,
        ) {
            Ok(more) => decided(service, course, assigned(rules, answers + more)),
            Err(e) => Err(e),
        },
    decreases
        2 * kinds_left(course.source),
        left(course.candidates.len(), course.index),
        5nat,
        left(lookups.len(), answers.len() as int),
{
    if answers.len() < lookups.len() {
        let group = lookups[answers.len() as int];
        let run = ResolutionView {
            course,
            stage: StageView::Memberships { rules, lookups, answers },
        };
        let request = member_groups_request_view(
            course.graph_url,
            course.authorization,
            course.principal,
            group,
        );
        assert(decide(course, rules, lookups, answers) == ProgressView::Send(run, request));
        let reply = (service.answer)(request);
        assert(outcome(decide(course, rules, lookups, answers), service.answer) == outcome(
            advance_view(run, reply),
            service.answer,
        ));
        match read_reply(reply) {
            Ok(PayloadView::MemberGroups(groups)) => {
                let more_answers = answers.push(groups.contains(group));
                lemma_decide_outcome(service, course, rules, lookups, more_answers);
                match memberships_from(service, lookups, answers.len() as int + 1) {
                    Ok(more) => {
                        assert(more_answers + more =~= answers + (seq![groups.contains(group)]
                            + more));
                    },
                    Err(e) => {},
                }
            },
            Ok(_) => {},
            Err(e) => {},
        }
    } else {
        assert(answers + Seq::<bool>::empty() =~= answers);
        if assigned(rules, answers) {
            lemma_load_outcome(service, course);
        } else {
            lemma_proceed_outcome(service, CourseView { index: course.index + 1, ..course });
        }
    }
}

/// A run that keeps the policy at hand comes to what it has kept, that
/// policy, and what remains.
proof fn lemma_keep_outcome(service: Service, course: CourseView, settings: Seq<SettingView>)
    requires
        serves(service, course),
        course.index < course.candidates.len(),
    ensures
        outcome(keep(course, settings), service.answer) == after(
            course.kept.push(applied(course.source, course.candidates[course.index], settings)),
            remaining(service, course.source, course.candidates, course.index + 1),
        ),
    decreases 2 * kinds_left(course.source), left(course.candidates.len(), course.index), 1nat, 0nat,
{
    lemma_proceed_outcome(
        service,
        CourseView {
            index: course.index + 1,
            kept: course.kept.push(
                applied(course.source, course.candidates[course.index], settings),
            ),
            ..course
        },
    );
}

/// A run that loads the settings of the policy at hand comes to what a
/// policy that applies comes to.
proof fn lemma_load_outcome(service: Service, course: CourseView)
    requires
        serves(service, course),
        course.index < course.candidates.len(),
    ensures
        outcome(load(course), service.answer) == decided(service, course, true),
    decreases 2 * kinds_left(course.source), left(course.candidates.len(), course.index), 4nat, 0nat,
{
    let policy_id = course.candidates[course.index].id;
    match course.source {
        Source::Group => {
            let run = ResolutionView { course, stage: StageView::DefinitionValues };
            let request = definition_values_request_view(
                course.graph_url,
                course.authorization,
                policy_id,
            );
            assert(load(course) == ProgressView::Send(run, request));
            let reply = (service.answer)(request);
            assert(outcome(load(course), service.answer) == outcome(
                advance_view(run, reply),
                service.answer,
            ));
            match read_reply(reply) {
                Ok(PayloadView::DefinitionValues(values)) => {
                    lemma_merge_outcome(service, course, values, 0, Seq::empty());
                    match definitions_from(service, policy_id, values, 0) {
                        Ok(more) => {
                            assert(Seq::<DefinitionView>::empty() + more =~= more);
                        },
                        Err(e) => {},
                    }
                },
                Ok(_) => {},
                Err(e) => {},
            }
        },
        _ => {
            let run = ResolutionView { course, stage: StageView::Settings };
            let request = settings_request_view(
                course.graph_url,
                course.authorization,
                course.source,
                policy_id,
            );
            assert(load(course) == ProgressView::Send(run, request));
            let reply = (service.answer)(request);
            assert(outcome(load(course), service.answer) == outcome(
                advance_view(run, reply),
                service.answer,
            ));
            match read_reply(reply) {
                Ok(PayloadView::Settings(instances)) => {
                    lemma_keep_outcome(service, course, configuration_settings(instances));
                },
                Ok(_) => {},
                Err(e) => {},
            }
        },
    }
}

/// A run that merges the definitions of the group policy at hand comes to
/// that policy with the definitions merged so far and those still to come,
/// and to what remains.
proof fn lemma_merge_outcome(
    service: Service,
    course: CourseView,
    values: Seq<DefinitionValueView>,
    position: int,
    merged: Seq<DefinitionView>,
)
    requires
        serves(service, course),
        course.index < course.candidates.len(),
        0 <= position,
    ensures
        outcome(merge_from(course, values, position, merged), service.answer)
            == match definitions_from(
            service,
            course.candidates[course.index].id,
            values,
            position,
        ) {
            Ok(more) => after(
                course.kept.push(
                    applied(
                        course.source,
                        course.candidates[course.index],
                        group_settings(merged + more),
                    ),
                ),
                remaining(service, course.source, course.candidates, course.index + 1),
            ),
            Err(e) => Err(e),
        },
    decreases
        2 * kinds_left(course.source),
        left(course.candidates.len(), course.index),
        3nat,
        left(values.len(), position),
{
    let policy_id = course.candidates[course.index].id;
    if position < values.len() {
        let asking = ResolutionView {
            course,
            stage: StageView::Definition { values, position, merged },
        };
        let request = definition_request_view(
            course.graph_url,
            course.authorization,
            policy_id,
            values[position].id,
        );
        assert(merge_from(course, values, position, merged) == ProgressView::Send(asking, request));
        let reply = (service.answer)(request);
        assert(outcome(merge_from(course, values, position, merged), service.answer) == outcome(
            advance_view(asking, reply),
            service.answer,
        ));
        match read_reply(reply) {
            Ok(PayloadView::Definition(fetched)) => {
                let definition = DefinitionView { enabled: values[position].enabled, ..fetched };
                let presenting = ResolutionView {
                    course,
                    stage: StageView::Presentation { values, position, merged, definition },
                };
                let second = presentation_values_request_view(
                    course.graph_url,
                    course.authorization,
                    policy_id,
                    values[position].id,
                );
                assert(advance_view(asking, reply) == ProgressView::Send(presenting, second));
                let presented = (service.answer)(second);
                assert(outcome(advance_view(asking, reply), service.answer) == outcome(
                    advance_view(presenting, presented),
                    service.answer,
                ));
                let here: Seq<DefinitionView> = match read_reply(presented) {
                    Ok(PayloadView::PresentationValues(list)) => match single_value(list) {
                        Ok(value) => seq![DefinitionView { value, ..definition }],
                        Err(_) => Seq::empty(),
                    },
                    _ => Seq::empty(),
                };
                assert(advance_view(presenting, presented) == merge_from(
                    course,
                    values,
                    position + 1,
                    merged + here,
                )) by {
                    assert(merged + Seq::<DefinitionView>::empty() =~= merged);
                    if let Ok(PayloadView::PresentationValues(list)) = read_reply(presented) {
                        if let Ok(value) = single_value(list) {
                            assert(merged + seq![DefinitionView { value, ..definition }]
                                =~= merged.push(DefinitionView { value, ..definition }));
                        }
                    }
                }
                lemma_merge_outcome(service, course, values, position + 1, merged + here);
                match definitions_from(service, policy_id, values, position + 1) {
                    Ok(more) => {
                        assert((merged + here) + more =~= merged + (here + more));
                    },
                    Err(e) => {},
                }
            },
            Ok(_) => {},
            Err(e) => {},
        }
    } else {
        assert(merged + Seq::<DefinitionView>::empty() =~= merged);
        lemma_keep_outcome(service, course, group_settings(merged));
    }
}

/// A run ends, and it comes to the policies that apply to the principal:
/// those of each kind in the order in which the service lists them, the
/// kinds in their order, each with the settings that the service has for
/// it; or to the first error met on the way.
pub proof fn lemma_run_resolves(
    graph_url: Seq<char>,
    access_token: Seq<char>,
    principal: Seq<char>,
    answer: spec_fn(RequestView) -> ReplyView,
)
    ensures
        outcome(start_view(graph_url, access_token, principal), answer) == policies_for(
            Service {
                graph_url,
                authorization: crate::request::bearer(access_token),
                principal,
                answer,
            },
        ),
{
    let service = Service {
        graph_url,
        authorization: crate::request::bearer(access_token),
        principal,
        answer,
    };
    let course = CourseView {
        graph_url,
        authorization: crate::request::bearer(access_token),
        principal,
        source: Source::Configuration,
        candidates: Seq::empty(),
        index: 0,
        kept: Seq::empty(),
    };
    lemma_enter_outcome(service, course, Source::Configuration);
    if let Ok(more) = resolved_kinds(service, Source::Configuration) {
        assert(Seq::<AppliedView>::empty() + more =~= more);
    }
}

} // verus!
