//! Applicability of a policy: its assignment rules, the group memberships they
//! ask about, and the decision that follows from the answers.

use crate::text::{opt_text, same_text, texts};
use vstd::prelude::*;

verus! {

/// Target type of a rule that assigns a policy to every licensed user.
pub const ALL_LICENSED_USERS_TARGET: &'static str =
    "#microsoft.graph.allLicensedUsersAssignmentTarget";

/// Target type of a rule that assigns a policy to every device.
pub const ALL_DEVICES_TARGET: &'static str = "#microsoft.graph.allDevicesAssignmentTarget";

/// Target type of a rule that assigns a policy to the members of a group.
pub const GROUP_TARGET: &'static str = "#microsoft.graph.groupAssignmentTarget";

/// Target type of a rule that takes a policy away from the members of a group.
pub const EXCLUSION_GROUP_TARGET: &'static str =
    "#microsoft.graph.exclusionGroupAssignmentTarget";

/// The target of one assignment rule, as the directory service lists it.
#[derive(Debug, PartialEq, Eq)]
pub struct GroupPolicyAssignmentTarget {
    pub odata_type: String,
    pub filter_id: Option<String>,
    pub group_id: Option<String>,
}

/// One assignment rule of a policy.
#[derive(Debug, PartialEq, Eq)]
pub struct GroupPolicyAssignment {
    pub target: GroupPolicyAssignmentTarget,
}

/// An assignment rule as a mathematical value.
pub struct AssignmentRule {
    pub target_type: Seq<char>,
    pub filter_id: Option<Seq<char>>,
    pub group_id: Option<Seq<char>>,
}

impl View for GroupPolicyAssignmentTarget {
    type V = AssignmentRule;

    open spec fn view(&self) -> AssignmentRule {
        AssignmentRule {
            target_type: self.odata_type@,
            filter_id: opt_text(self.filter_id),
            group_id: opt_text(self.group_id),
        }
    }
}

impl View for GroupPolicyAssignment {
    type V = AssignmentRule;

    open spec fn view(&self) -> AssignmentRule {
        self.target@
    }
}

impl Clone for GroupPolicyAssignmentTarget {
    fn clone(&self) -> (r: Self)
        ensures
            r@ == self@,
    {
        GroupPolicyAssignmentTarget {
            odata_type: self.odata_type.clone(),
            filter_id: match &self.filter_id {
                Some(id) => Some(id.clone()),
                None => None,
            },
            group_id: match &self.group_id {
                Some(id) => Some(id.clone()),
                None => None,
            },
        }
    }
}

impl Clone for GroupPolicyAssignment {
    fn clone(&self) -> (r: Self)
        ensures
            r@ == self@,
    {
        GroupPolicyAssignment { target: self.target.clone() }
    }
}

/// The rules of a list of assignments, in order.
pub open spec fn rules_of(assignments: Seq<GroupPolicyAssignment>) -> Seq<AssignmentRule> {
    assignments.map_values(|a: GroupPolicyAssignment| a@)
}

/// What a rule's target type asks for.
#[derive(Debug, PartialEq, Eq, Structural, Clone, Copy)]
pub enum TargetKind {
    AllLicensedUsers,
    AllDevices,
    Group,
    ExclusionGroup,
    Unrecognized,
}

/// The kind that a target type names; any type but the four known ones is
/// unrecognized.
pub open spec fn target_kind(target_type: Seq<char>) -> TargetKind {
    if target_type == ALL_LICENSED_USERS_TARGET@ {
        TargetKind::AllLicensedUsers
    } else if target_type == ALL_DEVICES_TARGET@ {
        TargetKind::AllDevices
    } else if target_type == GROUP_TARGET@ {
        TargetKind::Group
    } else if target_type == EXCLUSION_GROUP_TARGET@ {
        TargetKind::ExclusionGroup
    } else {
        TargetKind::Unrecognized
    }
}

/// Whether some rule carries an assignment filter.
pub open spec fn has_filter(rules: Seq<AssignmentRule>) -> bool {
    exists|i: int| 0 <= i < rules.len() && (#[trigger] rules[i]).filter_id is Some
}

/// The group whose membership a rule asks about, if it asks about one.
pub open spec fn lookup_group(rule: AssignmentRule) -> Option<Seq<char>> {
    match target_kind(rule.target_type) {
        TargetKind::Group | TargetKind::ExclusionGroup => rule.group_id,
        _ => None,
    }
}

/// The groups that the rules ask about, one entry for each asking rule, in the
/// order of the rules.
pub open spec fn rule_lookups(rules: Seq<AssignmentRule>) -> Seq<Seq<char>>
    decreases rules.len(),
{
    if rules.len() == 0 {
        Seq::empty()
    } else {
        let before = rule_lookups(rules.drop_last());
        match lookup_group(rules.last()) {
            Some(group) => before.push(group),
            None => before,
        }
    }
}

/// The memberships that have to be looked up before a policy's assignment can
/// be decided: none where a rule carries a filter, since the policy is then
/// rejected whatever the memberships are.
pub open spec fn lookups_needed(rules: Seq<AssignmentRule>) -> Seq<Seq<char>> {
    if has_filter(rules) {
        Seq::empty()
    } else {
        rule_lookups(rules)
    }
}

/// The answer to lookup number `k`; a lookup without an answer counts as "not a
/// member".
pub open spec fn answer(answers: Seq<bool>, k: int) -> bool {
    0 <= k < answers.len() && answers[k]
}

/// The position, among the lookups, of the one that rule `i` asks for.
pub open spec fn lookup_index(rules: Seq<AssignmentRule>, i: int) -> int {
    rule_lookups(rules.take(i)).len() as int
}

/// Whether rule `i` assigns the policy to the principal.
pub open spec fn rule_includes(rules: Seq<AssignmentRule>, answers: Seq<bool>, i: int) -> bool {
    match target_kind(rules[i].target_type) {
        TargetKind::AllLicensedUsers | TargetKind::AllDevices => true,
        TargetKind::Group => rules[i].group_id is Some && answer(answers, lookup_index(rules, i)),
        _ => false,
    }
}

/// Whether rule `i` takes the policy away from the principal.
pub open spec fn rule_excludes(rules: Seq<AssignmentRule>, answers: Seq<bool>, i: int) -> bool {
    target_kind(rules[i].target_type) == TargetKind::ExclusionGroup && rules[i].group_id is Some
        && answer(answers, lookup_index(rules, i))
}

/// Whether some rule assigns the policy to the principal.
pub open spec fn included(rules: Seq<AssignmentRule>, answers: Seq<bool>) -> bool {
    exists|i: int| 0 <= i < rules.len() && #[trigger] rule_includes(rules, answers, i)
}

/// Whether some rule takes the policy away from the principal.
pub open spec fn excluded(rules: Seq<AssignmentRule>, answers: Seq<bool>) -> bool {
    exists|i: int| 0 <= i < rules.len() && #[trigger] rule_excludes(rules, answers, i)
}

/// Whether the policy applies to the principal: no rule carries a filter, some
/// rule includes the principal and none excludes it.
pub open spec fn assigned(rules: Seq<AssignmentRule>, answers: Seq<bool>) -> bool {
    !has_filter(rules) && included(rules, answers) && !excluded(rules, answers)
}

/// Whether a rule assigns the policy to a principal that belongs to exactly the
/// groups in `member`.
pub open spec fn includes_member(rule: AssignmentRule, member: Set<Seq<char>>) -> bool {
    match target_kind(rule.target_type) {
        TargetKind::AllLicensedUsers | TargetKind::AllDevices => true,
        TargetKind::Group => rule.group_id is Some && member.contains(rule.group_id->0),
        _ => false,
    }
}

/// Whether a rule takes the policy away from a principal that belongs to
/// exactly the groups in `member`.
pub open spec fn excludes_member(rule: AssignmentRule, member: Set<Seq<char>>) -> bool {
    target_kind(rule.target_type) == TargetKind::ExclusionGroup && rule.group_id is Some
        && member.contains(rule.group_id->0)
}

/// Whether a policy with these rules applies to a principal that belongs to
/// exactly the groups in `member`.
pub open spec fn applies_to(rules: Seq<AssignmentRule>, member: Set<Seq<char>>) -> bool {
    &&& !has_filter(rules)
    &&& exists|i: int| 0 <= i < rules.len() && includes_member(#[trigger] rules[i], member)
    &&& !exists|i: int| 0 <= i < rules.len() && excludes_member(#[trigger] rules[i], member)
}

/// Whether the answers are those of a directory in which the principal
/// belongs to exactly the groups in `member`.
pub open spec fn answers_agree(
    rules: Seq<AssignmentRule>,
    answers: Seq<bool>,
    member: Set<Seq<char>>,
) -> bool {
    forall|k: int|
        0 <= k < rule_lookups(rules).len() ==> #[trigger] answer(answers, k) == member.contains(
            rule_lookups(rules)[k],
        )
}

/// The lookups of the first `i` rules open the lookups of all of them.
proof fn lemma_lookups_grow(rules: Seq<AssignmentRule>, i: int)
    requires
        0 <= i <= rules.len(),
    ensures
        rule_lookups(rules.take(i)).is_prefix_of(rule_lookups(rules)),
    decreases rules.len() - i,
{
    if i == rules.len() {
        assert(rules.take(i) =~= rules);
    } else {
        lemma_lookups_grow(rules, i + 1);
        assert(rules.take(i + 1).drop_last() =~= rules.take(i));
    }
}

/// The lookup that rule `i` asks for stands at `lookup_index(rules, i)` among
/// the lookups, and names the rule's group.
proof fn lemma_lookup_of_rule(rules: Seq<AssignmentRule>, i: int)
    requires
        0 <= i < rules.len(),
        lookup_group(rules[i]) is Some,
    ensures
        0 <= lookup_index(rules, i) < rule_lookups(rules).len(),
        rule_lookups(rules)[lookup_index(rules, i)] == lookup_group(rules[i])->0,
{
    lemma_lookups_grow(rules, i + 1);
    assert(rules.take(i + 1).drop_last() =~= rules.take(i));
    assert(rules.take(i + 1).last() == rules[i]);
    let shorter = rule_lookups(rules.take(i + 1));
    assert(shorter == rule_lookups(rules.take(i)).push(lookup_group(rules[i])->0));
    assert(shorter[lookup_index(rules, i)] == rule_lookups(rules)[lookup_index(rules, i)]);
}

/// A rule with an assignment filter rejects the policy, whatever the other
/// rules and the memberships are, and no membership is looked up for it.
pub proof fn lemma_filter_rejects(rules: Seq<AssignmentRule>, answers: Seq<bool>, i: int)
    requires
        0 <= i < rules.len(),
        rules[i].filter_id is Some,
    ensures
        !assigned(rules, answers),
        lookups_needed(rules).len() == 0,
{
}

/// An exclusion that matches overrides every inclusion.
pub proof fn lemma_exclusion_overrides(rules: Seq<AssignmentRule>, answers: Seq<bool>, i: int)
    requires
        0 <= i < rules.len(),
        rule_excludes(rules, answers, i),
    ensures
        !assigned(rules, answers),
{
}

/// Where each lookup was answered by the principal's true memberships, the
/// decision is the one that the rules and the memberships call for: no filter,
/// some rule that includes the principal, and none that excludes it.
pub proof fn lemma_assigned_by_membership(
    rules: Seq<AssignmentRule>,
    answers: Seq<bool>,
    member: Set<Seq<char>>,
)
    requires
        answers_agree(rules, answers, member),
    ensures
        assigned(rules, answers) == applies_to(rules, member),
{
    assert forall|i: int| 0 <= i < rules.len() implies #[trigger] rule_includes(rules, answers, i)
        == includes_member(rules[i], member) by {
        if lookup_group(rules[i]) is Some {
            lemma_lookup_of_rule(rules, i);
            assert(answer(answers, lookup_index(rules, i)) == member.contains(
                rule_lookups(rules)[lookup_index(rules, i)],
            ));
        }
    }
    assert forall|i: int| 0 <= i < rules.len() implies #[trigger] rule_excludes(rules, answers, i)
        == excludes_member(rules[i], member) by {
        if lookup_group(rules[i]) is Some {
            lemma_lookup_of_rule(rules, i);
            assert(answer(answers, lookup_index(rules, i)) == member.contains(
                rule_lookups(rules)[lookup_index(rules, i)],
            ));
        }
    }
    if included(rules, answers) {
        let i = choose|i: int| 0 <= i < rules.len() && #[trigger] rule_includes(rules, answers, i);
        assert(includes_member(rules[i], member));
    }
    if exists|i: int| 0 <= i < rules.len() && includes_member(#[trigger] rules[i], member) {
        let i = choose|i: int| 0 <= i < rules.len() && includes_member(#[trigger] rules[i], member);
        assert(rule_includes(rules, answers, i));
    }
    if excluded(rules, answers) {
        let i = choose|i: int| 0 <= i < rules.len() && #[trigger] rule_excludes(rules, answers, i);
        assert(excludes_member(rules[i], member));
    }
    if exists|i: int| 0 <= i < rules.len() && excludes_member(#[trigger] rules[i], member) {
        let i = choose|i: int| 0 <= i < rules.len() && excludes_member(#[trigger] rules[i], member);
        assert(rule_excludes(rules, answers, i));
    }
}

/// Tells the four known target types apart.
pub fn classify_target(odata_type: &str) -> (kind: TargetKind)
    ensures
        kind == target_kind(odata_type@),
{
    if same_text(odata_type, ALL_LICENSED_USERS_TARGET) {
        TargetKind::AllLicensedUsers
    } else if same_text(odata_type, ALL_DEVICES_TARGET) {
        TargetKind::AllDevices
    } else if same_text(odata_type, GROUP_TARGET) {
        TargetKind::Group
    } else if same_text(odata_type, EXCLUSION_GROUP_TARGET) {
        TargetKind::ExclusionGroup
    } else {
        TargetKind::Unrecognized
    }
}

/// Whether any of the assignments carries a filter.
pub fn any_filter(assignments: &Vec<GroupPolicyAssignment>) -> (r: bool)
    ensures
        r == has_filter(rules_of(assignments@)),
{
    let ghost rules = rules_of(assignments@);
    let mut i: usize = 0;
    while i < assignments.len()
        invariant
            i <= assignments.len(),
            rules == rules_of(assignments@),
            forall|k: int| 0 <= k < i ==> (#[trigger] rules[k]).filter_id is None,
        decreases assignments.len() - i,
    {
        if assignments[i].target.filter_id.is_some() {
            assert(rules[i as int].filter_id is Some);
            return true;
        }
        i += 1;
    }
    false
}

/// The group that one assignment asks about, if it asks about one.
pub fn group_to_look_up(assignment: &GroupPolicyAssignment) -> (r: Option<String>)
    ensures
        opt_text(r) == lookup_group(assignment@),
{
    match classify_target(assignment.target.odata_type.as_str()) {
        TargetKind::Group | TargetKind::ExclusionGroup => match &assignment.target.group_id {
            Some(group) => Some(group.clone()),
            None => None,
        },
        _ => None,
    }
}

/// Lists the groups whose membership decides the assignment, in the order in
/// which the answers are expected by `parse_assignments`.
pub fn membership_lookups(assignments: &Vec<GroupPolicyAssignment>) -> (groups: Vec<String>)
    ensures
        texts(groups@) == lookups_needed(rules_of(assignments@)),
{
    let ghost rules = rules_of(assignments@);
    let mut groups: Vec<String> = Vec::new();
    if any_filter(assignments) {
        assert(texts(groups@) =~= Seq::empty());
        return groups;
    }
    let mut i: usize = 0;
    assert(rules.take(0) =~= Seq::empty());
    assert(texts(groups@) =~= Seq::empty());
    while i < assignments.len()
        invariant
            i <= assignments.len(),
            rules == rules_of(assignments@),
            texts(groups@) == rule_lookups(rules.take(i as int)),
        decreases assignments.len() - i,
    {
        let ghost before = groups@;
        proof {
            assert(rules.take(i + 1).drop_last() =~= rules.take(i as int));
            assert(rules.take(i + 1).last() == assignments@[i as int]@);
        }
        match group_to_look_up(&assignments[i]) {
            Some(group) => {
                groups.push(group);
                assert(texts(groups@) =~= texts(before).push(group@));
            },
            None => {},
        }
        i += 1;
    }
    assert(rules.take(assignments.len() as int) =~= rules);
    groups
}

/// Decides whether a policy applies to the principal, given its assignments
/// and, for each group that `membership_lookups` lists, whether the principal
/// is a member of it.
pub fn parse_assignments(assignments: &Vec<GroupPolicyAssignment>, memberships: &Vec<bool>) -> (r:
    bool)
    ensures
        r == assigned(rules_of(assignments@), memberships@),
{
    let ghost rules = rules_of(assignments@);
    let ghost answers = memberships@;
    if any_filter(assignments) {
        return false;
    }
    let mut is_assigned = false;
    let mut is_excluded = false;
    let mut asked: usize = 0;
    let mut i: usize = 0;
    assert(rules.take(0) =~= Seq::empty());
    while i < assignments.len()
        invariant
            i <= assignments.len(),
            asked <= i,
            rules == rules_of(assignments@),
            answers == memberships@,
            asked == lookup_index(rules, i as int),
            is_assigned == (exists|k: int| 0 <= k < i && #[trigger] rule_includes(rules, answers, k)),
            is_excluded == (exists|k: int| 0 <= k < i && #[trigger] rule_excludes(rules, answers, k)),
        decreases assignments.len() - i,
    {
        proof {
            assert(rules.take(i + 1).drop_last() =~= rules.take(i as int));
            assert(rules.take(i + 1).last() == rules[i as int]);
        }
        let rule = &assignments[i];
        let kind = classify_target(rule.target.odata_type.as_str());
        let has_group = rule.target.group_id.is_some();
        let member = asked < memberships.len() && memberships[asked];
        let ghost was_assigned = is_assigned;
        let ghost was_excluded = is_excluded;
        proof {
            assert(rules[i as int] == rule@);
            assert(member == answer(answers, lookup_index(rules, i as int)));
            assert(rule_includes(rules, answers, i as int) == (kind == TargetKind::AllLicensedUsers
                || kind == TargetKind::AllDevices || (kind == TargetKind::Group && has_group
                && member)));
            assert(rule_excludes(rules, answers, i as int) == (kind == TargetKind::ExclusionGroup
                && has_group && member));
        }
        match kind {
            TargetKind::AllLicensedUsers | TargetKind::AllDevices => {
                is_assigned = true;
            },
            TargetKind::Group => {
                if has_group {
                    if member {
                        is_assigned = true;
                    }
                    asked += 1;
                }
            },
            TargetKind::ExclusionGroup => {
                if has_group {
                    if member {
                        is_excluded = true;
                    }
                    asked += 1;
                }
            },
            TargetKind::Unrecognized => {},
        }
        proof {
            assert(is_assigned == (was_assigned || rule_includes(rules, answers, i as int)));
            assert(is_excluded == (was_excluded || rule_excludes(rules, answers, i as int)));
        }
        i += 1;
    }
    is_assigned && !is_excluded
}

} // verus!
