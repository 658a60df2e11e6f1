//! The pending operations of each migration step, computed from cached source
//! records and freshly fetched target records.

use crate::joins::{
    find_counterpart, lemma_last_with_key, missing_in, pair_with_counterparts,
    paired_with_counterpart, present_in, with_counterpart, without_counterpart,
};
use crate::types::{
    user_of_member, CacheEntry, SourceIssue, SourceMember, SourcePipelineSchedule,
    SourceProject, SourceUser, SourceVariable, TargetProject, TargetRecord, TargetUser,
};
use itertools::Itertools;
use vstd::prelude::*;

verus! {

/// Creating a CI variable in a target project.
#[derive(Debug)]
pub struct VariableCreation {
    pub project_id: u32,
    pub variable: SourceVariable,
}

/// The creations for the variables of one cached project.
pub open spec fn variables_for(vars: Seq<SourceVariable>, project_id: u32) -> Seq<
    VariableCreation,
> {
    vars.map_values(|v: SourceVariable| VariableCreation { project_id, variable: v })
}

/// The creations for cached projects paired with their target counterparts.
pub open spec fn variable_plan(
    pairs: Seq<(CacheEntry<SourceVariable>, usize)>,
    projects: Seq<TargetProject>,
) -> Seq<VariableCreation>
    decreases pairs.len(),
{
    if pairs.len() == 0 {
        Seq::empty()
    } else {
        variable_plan(pairs.drop_last(), projects) + variables_for(
            pairs.last().0.records@,
            projects[pairs.last().1 as int].id,
        )
    }
}

/// The CI variables to create: every cached variable of a project that exists
/// on the target, addressed to that project.
pub fn ci_variables_to_create(
    cache: Vec<CacheEntry<SourceVariable>>,
    projects: &Vec<TargetProject>,
) -> (r: Vec<VariableCreation>)
    ensures
        r@ == variable_plan(paired_with_counterpart(cache@, projects@), projects@),
{
    let pairs = pair_with_counterparts(cache, projects);
    let ghost ps = pairs@;
    let mut r: Vec<VariableCreation> = Vec::new();
    assert(ps.subrange(0, 0) =~= Seq::<(CacheEntry<SourceVariable>, usize)>::empty());
    for pair in it: pairs.into_iter()
        invariant
            it.seq() == ps,
            forall|i: int| 0 <= i < ps.len() ==> #[trigger] ps[i].1 < projects.len(),
            r@ == variable_plan(ps.subrange(0, it.index() as int), projects@),
    {
        let ghost i = it.index();
        let (entry, j) = pair;
        let project_id: u32 = projects[j].id;
        let ghost base = r@;
        let ghost vars = entry.records@;
        assert(vars.subrange(0, 0) =~= Seq::<SourceVariable>::empty());
        assert(variables_for(vars.subrange(0, 0), project_id) =~= Seq::<VariableCreation>::empty());
        assert(base + Seq::<VariableCreation>::empty() =~= base);
        for v in vt: entry.records.into_iter()
            invariant
                vt.seq() == vars,
                r@ == base + variables_for(vars.subrange(0, vt.index() as int), project_id),
        {
            let ghost k = vt.index();
            assert(variables_for(vars.subrange(0, k + 1), project_id) =~= variables_for(
                vars.subrange(0, k as int),
                project_id,
            ).push(VariableCreation { project_id, variable: v }));
            r.push(VariableCreation { project_id, variable: v });
            assert(r@ =~= base + variables_for(vars.subrange(0, k + 1), project_id));
        }
        assert(vars.subrange(0, vars.len() as int) =~= vars);
        assert(ps.subrange(0, i + 1).drop_last() =~= ps.subrange(0, i as int));
        assert(ps.subrange(0, i + 1).last() == ps[i as int]);
    }
    assert(ps.subrange(0, ps.len() as int) =~= ps);
    r
}

/// Adding a member to a target group or project.
#[derive(Debug)]
pub struct MemberAddition {
    /// The id of the group or project on the target.
    pub owner_id: u32,
    /// The id of the user on the target.
    pub user_id: u32,
    /// The cached membership, which carries the access level.
    pub member: SourceMember,
}

/// The additions for the members of one cached owner: those whose username
/// exists on the target.
pub open spec fn additions_for(
    members: Seq<SourceMember>,
    owner_id: u32,
    users: Seq<TargetUser>,
) -> Seq<MemberAddition>
    decreases members.len(),
{
    if members.len() == 0 {
        Seq::empty()
    } else {
        let rest = additions_for(members.drop_last(), owner_id, users);
        match crate::joins::last_with_key(users, members.last().username@) {
            Some(u) => rest.push(
                MemberAddition { owner_id, user_id: users[u].id, member: members.last() },
            ),
            None => rest,
        }
    }
}

/// The additions for cached owners paired with their target counterparts.
pub open spec fn membership_plan<T: TargetRecord>(
    pairs: Seq<(CacheEntry<SourceMember>, usize)>,
    owners: Seq<T>,
    users: Seq<TargetUser>,
) -> Seq<MemberAddition>
    decreases pairs.len(),
{
    if pairs.len() == 0 {
        Seq::empty()
    } else {
        membership_plan(pairs.drop_last(), owners, users) + additions_for(
            pairs.last().0.records@,
            owners[pairs.last().1 as int].id_view(),
            users,
        )
    }
}

/// The members to add on the target: every cached member of a group or
/// project that exists on the target, whose username exists there too.
pub fn members_to_add<T: TargetRecord>(
    cache: Vec<CacheEntry<SourceMember>>,
    owners: &Vec<T>,
    users: &Vec<TargetUser>,
) -> (r: Vec<MemberAddition>)
    ensures
        r@ == membership_plan(paired_with_counterpart(cache@, owners@), owners@, users@),
{
    let pairs = pair_with_counterparts(cache, owners);
    let ghost ps = pairs@;
    let mut r: Vec<MemberAddition> = Vec::new();
    assert(ps.subrange(0, 0) =~= Seq::<(CacheEntry<SourceMember>, usize)>::empty());
    for pair in it: pairs.into_iter()
        invariant
            it.seq() == ps,
            forall|i: int| 0 <= i < ps.len() ==> #[trigger] ps[i].1 < owners.len(),
            r@ == membership_plan(ps.subrange(0, it.index() as int), owners@, users@),
    {
        let ghost i = it.index();
        let (entry, j) = pair;
        let owner_id: u32 = owners[j].target_id();
        let ghost base = r@;
        let ghost members = entry.records@;
        assert(members.subrange(0, 0) =~= Seq::<SourceMember>::empty());
        assert(base + Seq::<MemberAddition>::empty() =~= base);
        for member in mt: entry.records.into_iter()
            invariant
                mt.seq() == members,
                r@ == base + additions_for(
                    members.subrange(0, mt.index() as int),
                    owner_id,
                    users@,
                ),
        {
            let ghost k = mt.index();
            assert(members.subrange(0, k + 1).drop_last() =~= members.subrange(0, k as int));
            assert(members.subrange(0, k + 1).last() == member);
            proof {
                lemma_last_with_key(users@, member.username@);
            }
            match find_counterpart(users, &member.username) {
                Some(u) => {
                    let user_id: u32 = users[u].id;
                    r.push(MemberAddition { owner_id, user_id, member });
                    assert(r@ =~= base + additions_for(
                        members.subrange(0, k + 1),
                        owner_id,
                        users@,
                    ));
                },
                None => {},
            }
        }
        assert(members.subrange(0, members.len() as int) =~= members);
        assert(ps.subrange(0, i + 1).drop_last() =~= ps.subrange(0, i as int));
        assert(ps.subrange(0, i + 1).last() == ps[i as int]);
    }
    assert(ps.subrange(0, ps.len() as int) =~= ps);
    r
}

/// The cached projects to import: those whose full path no target project has.
pub fn projects_to_import(cached: Vec<SourceProject>, existing: &Vec<TargetProject>) -> (r: Vec<
    SourceProject,
>)
    ensures
        r@ == without_counterpart(cached@, existing@),
{
    missing_in(cached, existing)
}

/// The target projects to delete: only those whose full path is among the
/// cached source projects; any other target project is left alone.
pub fn projects_to_delete(cached: &Vec<SourceProject>, existing: Vec<TargetProject>) -> (r: Vec<
    TargetProject,
>)
    ensures
        r@ == with_counterpart(existing@, cached@),
{
    present_in(existing, cached)
}

/// The users to create: candidates whose username no target user has.
pub fn users_to_create(candidates: Vec<SourceUser>, existing: &Vec<TargetUser>) -> (r: Vec<
    SourceUser,
>)
    ensures
        r@ == without_counterpart(candidates@, existing@),
{
    missing_in(candidates, existing)
}

/// Whether some user of `users` has the id `id`.
pub open spec fn has_id(users: Seq<SourceUser>, id: u32) -> bool {
    exists|j: int| 0 <= j < users.len() && #[trigger] users[j].id == id
}

/// The first user of `users` with each id, in order.
pub open spec fn unique_by_id(users: Seq<SourceUser>) -> Seq<SourceUser>
    decreases users.len(),
{
    if users.len() == 0 {
        Seq::empty()
    } else {
        let rest = unique_by_id(users.drop_last());
        if has_id(users.drop_last(), users.last().id) {
            rest
        } else {
            rest.push(users.last())
        }
    }
}

/// Relies on itertools' `Itertools::unique_by`, keyed by the user id: it
/// yields each user whose id it has not yielded before, in order.
#[verifier::external_body]
fn unique_users(users: Vec<SourceUser>) -> (r: Vec<SourceUser>)
    ensures
        r@ == unique_by_id(users@),
{
    users.into_iter().unique_by(|u| u.id).collect()
}

/// The users behind the members of `entries`, entry by entry.
pub open spec fn member_users(entries: Seq<CacheEntry<SourceMember>>) -> Seq<SourceUser>
    decreases entries.len(),
{
    if entries.len() == 0 {
        Seq::empty()
    } else {
        member_users(entries.drop_last()) + entries.last().records@.map_values(
            |m: SourceMember| user_of_member(m),
        )
    }
}

/// The users an issue names: its assignee, if any, then its author.
pub open spec fn users_of_issue(issue: SourceIssue) -> Seq<SourceUser> {
    match issue.assignee {
        Some(a) => seq![a, issue.author],
        None => seq![issue.author],
    }
}

/// The users that a list of issues names, issue by issue.
pub open spec fn users_of_issues(issues: Seq<SourceIssue>) -> Seq<SourceUser>
    decreases issues.len(),
{
    if issues.len() == 0 {
        Seq::empty()
    } else {
        users_of_issues(issues.drop_last()) + users_of_issue(issues.last())
    }
}

/// The users that the issues of `entries` name, entry by entry.
pub open spec fn issue_users(entries: Seq<CacheEntry<SourceIssue>>) -> Seq<SourceUser>
    decreases entries.len(),
{
    if entries.len() == 0 {
        Seq::empty()
    } else {
        issue_users(entries.drop_last()) + users_of_issues(entries.last().records@)
    }
}

fn collect_member_users(entries: &Vec<CacheEntry<SourceMember>>) -> (r: Vec<SourceUser>)
    ensures
        r@ == member_users(entries@),
{
    let mut r: Vec<SourceUser> = Vec::new();
    let mut i: usize = 0;
    while i < entries.len()
        invariant
            i <= entries.len(),
            r@ == member_users(entries@.subrange(0, i as int)),
        decreases entries.len() - i,
    {
        let ghost base = r@;
        let ghost members = entries@[i as int].records@;
        let mut k: usize = 0;
        assert(members.subrange(0, 0).map_values(|m: SourceMember| user_of_member(m))
            =~= Seq::<SourceUser>::empty());
        assert(base + Seq::<SourceUser>::empty() =~= base);
        while k < entries[i].records.len()
            invariant
                i < entries.len(),
                members == entries@[i as int].records@,
                k <= members.len(),
                r@ == base + members.subrange(0, k as int).map_values(
                    |m: SourceMember| user_of_member(m),
                ),
            decreases members.len() - k,
        {
            let user = entries[i].records[k].to_user();
            r.push(user);
            assert(members.subrange(0, k + 1).map_values(|m: SourceMember| user_of_member(m))
                =~= members.subrange(0, k as int).map_values(|m: SourceMember| user_of_member(m)).push(
                user_of_member(members[k as int]),
            ));
            assert(r@ =~= base + members.subrange(0, k + 1).map_values(
                |m: SourceMember| user_of_member(m),
            ));
            k = k + 1;
        }
        assert(members.subrange(0, members.len() as int) =~= members);
        assert(entries@.subrange(0, i + 1).drop_last() =~= entries@.subrange(0, i as int));
        i = i + 1;
    }
    assert(entries@.subrange(0, entries.len() as int) =~= entries@);
    r
}

fn collect_issue_users(entries: &Vec<CacheEntry<SourceIssue>>) -> (r: Vec<SourceUser>)
    ensures
        r@ == issue_users(entries@),
{
    let mut r: Vec<SourceUser> = Vec::new();
    let mut i: usize = 0;
    while i < entries.len()
        invariant
            i <= entries.len(),
            r@ == issue_users(entries@.subrange(0, i as int)),
        decreases entries.len() - i,
    {
        let ghost base = r@;
        let ghost issues = entries@[i as int].records@;
        let mut k: usize = 0;
        assert(issues.subrange(0, 0) =~= Seq::<SourceIssue>::empty());
        assert(base + Seq::<SourceUser>::empty() =~= base);
        while k < entries[i].records.len()
            invariant
                i < entries.len(),
                issues == entries@[i as int].records@,
                k <= issues.len(),
                r@ == base + users_of_issues(issues.subrange(0, k as int)),
            decreases issues.len() - k,
        {
            let issue = &entries[i].records[k];
            assert(issues.subrange(0, k + 1).drop_last() =~= issues.subrange(0, k as int));
            match &issue.assignee {
                Some(a) => {
                    r.push(a.clone());
                },
                None => {},
            }
            r.push(issue.author.clone());
            assert(r@ =~= base + users_of_issues(issues.subrange(0, k + 1)));
            k = k + 1;
        }
        assert(issues.subrange(0, issues.len() as int) =~= issues);
        assert(entries@.subrange(0, i + 1).drop_last() =~= entries@.subrange(0, i as int));
        i = i + 1;
    }
    assert(entries@.subrange(0, entries.len() as int) =~= entries@);
    r
}

/// The users that may need creating: those behind the cached memberships,
/// then those that the cached issues name, keeping the first user with each id.
pub fn candidate_users(
    memberships: &Vec<CacheEntry<SourceMember>>,
    issues: &Vec<CacheEntry<SourceIssue>>,
) -> (r: Vec<SourceUser>)
    ensures
        r@ == unique_by_id(member_users(memberships@) + issue_users(issues@)),
{
    let mut all = collect_member_users(memberships);
    let mut more = collect_issue_users(issues);
    all.append(&mut more);
    unique_users(all)
}

/// The target users to delete: only those whose username belongs to a cached
/// member, the members taken first by id.
pub fn users_to_delete(memberships: &Vec<CacheEntry<SourceMember>>, existing: Vec<TargetUser>) -> (r:
    Vec<TargetUser>)
    ensures
        r@ == with_counterpart(existing@, unique_by_id(member_users(memberships@))),
{
    let members = unique_users(collect_member_users(memberships));
    present_in(existing, &members)
}

/// The number of issues per project whose assignee is carried over.
pub const ISSUES_PER_PROJECT: usize = 20;

/// Assigning a target issue to a target user.
#[derive(Debug)]
pub struct IssueReassignment {
    pub project_id: u32,
    pub assignee_id: u32,
    pub issue: SourceIssue,
}

/// The username of an issue's assignee; empty where it has none.
pub open spec fn assignee_name(issue: SourceIssue) -> Seq<char> {
    match issue.assignee {
        Some(a) => a.username@,
        None => Seq::empty(),
    }
}

/// The issues of a project whose assignee is carried over: the first ones.
pub open spec fn leading_issues(issues: Seq<SourceIssue>) -> Seq<SourceIssue> {
    if issues.len() <= ISSUES_PER_PROJECT {
        issues
    } else {
        issues.subrange(0, ISSUES_PER_PROJECT as int)
    }
}

/// The reassignments of a project's issues whose assignee exists on the target.
pub open spec fn reassignments_for(
    issues: Seq<SourceIssue>,
    project_id: u32,
    users: Seq<TargetUser>,
) -> Seq<IssueReassignment>
    decreases issues.len(),
{
    if issues.len() == 0 {
        Seq::empty()
    } else {
        let rest = reassignments_for(issues.drop_last(), project_id, users);
        match crate::joins::last_with_key(users, assignee_name(issues.last())) {
            Some(u) => rest.push(
                IssueReassignment { project_id, assignee_id: users[u].id, issue: issues.last() },
            ),
            None => rest,
        }
    }
}

/// The reassignments for cached projects paired with their target counterparts.
pub open spec fn reassignment_plan(
    pairs: Seq<(CacheEntry<SourceIssue>, usize)>,
    projects: Seq<TargetProject>,
    users: Seq<TargetUser>,
) -> Seq<IssueReassignment>
    decreases pairs.len(),
{
    if pairs.len() == 0 {
        Seq::empty()
    } else {
        reassignment_plan(pairs.drop_last(), projects, users) + reassignments_for(
            leading_issues(pairs.last().0.records@),
            projects[pairs.last().1 as int].id,
            users,
        )
    }
}

/// The issues to reassign: of each cached project that exists on the target,
/// the leading issues whose assignee's username exists on the target.
pub fn issues_to_reassign(
    cache: Vec<CacheEntry<SourceIssue>>,
    projects: &Vec<TargetProject>,
    users: &Vec<TargetUser>,
) -> (r: Vec<IssueReassignment>)
    ensures
        r@ == reassignment_plan(paired_with_counterpart(cache@, projects@), projects@, users@),
{
    let pairs = pair_with_counterparts(cache, projects);
    let ghost ps = pairs@;
    let mut r: Vec<IssueReassignment> = Vec::new();
    assert(ps.subrange(0, 0) =~= Seq::<(CacheEntry<SourceIssue>, usize)>::empty());
    for pair in it: pairs.into_iter()
        invariant
            it.seq() == ps,
            forall|i: int| 0 <= i < ps.len() ==> #[trigger] ps[i].1 < projects.len(),
            r@ == reassignment_plan(ps.subrange(0, it.index() as int), projects@, users@),
    {
        let ghost i = it.index();
        let (entry, j) = pair;
        let project_id: u32 = projects[j].id;
        let ghost base = r@;
        let mut issues = entry.records;
        issues.truncate(ISSUES_PER_PROJECT);
        let ghost lead = issues@;
        assert(lead == leading_issues(ps[i as int].0.records@));
        assert(lead.subrange(0, 0) =~= Seq::<SourceIssue>::empty());
        assert(base + Seq::<IssueReassignment>::empty() =~= base);
        for issue in vt: issues.into_iter()
            invariant
                vt.seq() == lead,
                r@ == base + reassignments_for(
                    lead.subrange(0, vt.index() as int),
                    project_id,
                    users@,
                ),
        {
            let ghost k = vt.index();
            assert(lead.subrange(0, k + 1).drop_last() =~= lead.subrange(0, k as int));
            assert(lead.subrange(0, k + 1).last() == issue);
            let name: String = match &issue.assignee {
                Some(a) => a.username.clone(),
                None => String::new(),
            };
            assert(name@ == assignee_name(issue));
            proof {
                lemma_last_with_key(users@, name@);
            }
            match find_counterpart(users, &name) {
                Some(u) => {
                    let assignee_id: u32 = users[u].id;
                    r.push(IssueReassignment { project_id, assignee_id, issue });
                    assert(r@ =~= base + reassignments_for(
                        lead.subrange(0, k + 1),
                        project_id,
                        users@,
                    ));
                },
                None => {},
            }
        }
        assert(lead.subrange(0, lead.len() as int) =~= lead);
        assert(ps.subrange(0, i + 1).drop_last() =~= ps.subrange(0, i as int));
        assert(ps.subrange(0, i + 1).last() == ps[i as int]);
    }
    assert(ps.subrange(0, ps.len() as int) =~= ps);
    r
}

/// Creating a cached project's pipeline schedules in its target counterpart.
#[derive(Debug)]
pub struct ScheduleCreation {
    pub project_id: u32,
    pub schedules: Vec<SourcePipelineSchedule>,
}

/// The schedule creations for cached projects paired with their counterparts.
pub open spec fn schedule_plan(
    pairs: Seq<(CacheEntry<SourcePipelineSchedule>, usize)>,
    projects: Seq<TargetProject>,
) -> Seq<ScheduleCreation> {
    pairs.map_values(
        |p: (CacheEntry<SourcePipelineSchedule>, usize)|
            ScheduleCreation { project_id: projects[p.1 as int].id, schedules: p.0.records },
    )
}

/// The pipeline schedules to create: those of every cached project that
/// exists on the target, addressed to that project.
pub fn schedules_to_create(
    cache: Vec<CacheEntry<SourcePipelineSchedule>>,
    projects: &Vec<TargetProject>,
) -> (r: Vec<ScheduleCreation>)
    ensures
        r@ == schedule_plan(paired_with_counterpart(cache@, projects@), projects@),
{
    let pairs = pair_with_counterparts(cache, projects);
    let ghost ps = pairs@;
    let mut r: Vec<ScheduleCreation> = Vec::new();
    for pair in it: pairs.into_iter()
        invariant
            it.seq() == ps,
            forall|i: int| 0 <= i < ps.len() ==> #[trigger] ps[i].1 < projects.len(),
            r@ =~= schedule_plan(ps.subrange(0, it.index() as int), projects@),
    {
        let ghost i = it.index();
        let (entry, j) = pair;
        let project_id: u32 = projects[j].id;
        r.push(ScheduleCreation { project_id, schedules: entry.records });
        assert(r@ =~= schedule_plan(ps.subrange(0, i + 1), projects@));
    }
    assert(ps.subrange(0, ps.len() as int) =~= ps);
    r
}

/// The projects of `projects` that are not archived, in order.
pub open spec fn unarchived(projects: Seq<SourceProject>) -> Seq<SourceProject>
    decreases projects.len(),
{
    if projects.len() == 0 {
        Seq::empty()
    } else if projects.last().archived {
        unarchived(projects.drop_last())
    } else {
        unarchived(projects.drop_last()).push(projects.last())
    }
}

/// The source projects still to archive.
pub fn projects_to_archive(projects: Vec<SourceProject>) -> (r: Vec<SourceProject>)
    ensures
        r@ == unarchived(projects@),
{
    let ghost src = projects@;
    let mut r: Vec<SourceProject> = Vec::new();
    assert(src.subrange(0, 0) =~= Seq::<SourceProject>::empty());
    for p in it: projects.into_iter()
        invariant
            it.seq() == src,
            r@ == unarchived(src.subrange(0, it.index() as int)),
    {
        let ghost i = it.index();
        assert(src.subrange(0, i + 1).drop_last() =~= src.subrange(0, i as int));
        assert(src.subrange(0, i + 1).last() == p);
        if !p.archived {
            r.push(p);
        }
    }
    assert(src.subrange(0, src.len() as int) =~= src);
    r
}

} // verus!
