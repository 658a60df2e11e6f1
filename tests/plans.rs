use gitlab_migrator::joins::{find_counterpart, missing_in, pair_with_counterparts, present_in};
use gitlab_migrator::plans::{
    candidate_users, ci_variables_to_create, issues_to_reassign, members_to_add,
    projects_to_archive, projects_to_delete, projects_to_import, schedules_to_create,
    users_to_create, users_to_delete, ISSUES_PER_PROJECT,
};
use gitlab_migrator::types::{
    CacheEntry, SourceIssue, SourceMember, SourcePipelineSchedule, SourceProject, SourceUser,
    SourceVariable, TargetGroup, TargetProject, TargetUser,
};

fn src_project(id: u32, path: &str, archived: bool) -> SourceProject {
    SourceProject {
        id,
        name: path.rsplit('/').next().unwrap().to_string(),
        path: path.rsplit('/').next().unwrap().to_string(),
        path_with_namespace: path.to_string(),
        archived,
    }
}

fn tgt_project(id: u32, path: &str) -> TargetProject {
    TargetProject {
        id,
        name: path.to_string(),
        path: path.to_string(),
        path_with_namespace: path.to_string(),
        archived: false,
    }
}

fn tgt_user(id: u32, username: &str) -> TargetUser {
    TargetUser {
        id,
        name: username.to_string(),
        username: username.to_string(),
        email: format!("{}@example.org", username),
    }
}

fn src_user(id: u32, username: &str) -> SourceUser {
    SourceUser {
        id,
        name: username.to_string(),
        username: username.to_string(),
        avatar_url: String::new(),
    }
}

fn member(id: u32, username: &str, access_level: u32) -> SourceMember {
    SourceMember {
        id,
        name: username.to_string(),
        username: username.to_string(),
        avatar_url: String::new(),
        access_level,
    }
}

fn issue(iid: u32, author: SourceUser, assignee: Option<SourceUser>) -> SourceIssue {
    SourceIssue {
        iid,
        title: format!("issue {}", iid),
        author,
        assignee,
        project_id: 1,
        labels: vec![],
        created_at: String::new(),
    }
}

fn variable(key: &str) -> SourceVariable {
    SourceVariable {
        variable_type: "env_var".to_string(),
        key: key.to_string(),
        value: "v".to_string(),
        protected: false,
        masked: true,
    }
}

fn keys(ps: &[SourceProject]) -> Vec<String> {
    ps.iter().map(|p| p.key()).collect()
}

#[test]
fn create_missing_and_require_match_joins() {
    let source = vec![src_project(1, "a", false), src_project(2, "b", false), src_project(3, "c", false)];
    let target = vec![tgt_project(20, "b"), tgt_project(30, "c"), tgt_project(40, "d")];
    let missing = missing_in(source.clone(), &target);
    assert_eq!(keys(&missing), vec!["a"]);
    let paired = pair_with_counterparts(source.clone(), &target);
    let got: Vec<(String, u32)> = paired
        .iter()
        .map(|(s, j)| (s.key(), target[*j].id))
        .collect();
    assert_eq!(got, vec![("b".to_string(), 20), ("c".to_string(), 30)]);
    let present = present_in(source, &target);
    assert_eq!(keys(&present), vec!["b", "c"]);
}

#[test]
fn last_target_with_a_key_is_the_counterpart() {
    let target = vec![tgt_project(1, "x"), tgt_project(2, "y"), tgt_project(3, "x")];
    assert_eq!(find_counterpart(&target, &"x".to_string()), Some(2));
    assert_eq!(find_counterpart(&target, &"y".to_string()), Some(1));
    assert_eq!(find_counterpart(&target, &"z".to_string()), None);
}

#[test]
fn second_user_creation_run_creates_nothing() {
    let candidates = vec![src_user(1, "ann"), src_user(2, "bob"), src_user(3, "cid")];
    let mut existing = vec![tgt_user(10, "bob")];
    let first = users_to_create(candidates.clone(), &existing);
    let created: Vec<String> = first.iter().map(|u| u.username.clone()).collect();
    assert_eq!(created, vec!["ann", "cid"]);
    for (n, u) in first.iter().enumerate() {
        existing.push(tgt_user(100 + n as u32, &u.username));
    }
    let second = users_to_create(candidates, &existing);
    assert!(second.is_empty());
}

#[test]
fn second_import_run_imports_nothing() {
    let cached = vec![src_project(42, "team/app", false), src_project(43, "team/lib", false)];
    let mut existing = vec![tgt_project(7, "team/lib")];
    let first = projects_to_import(cached.clone(), &existing);
    assert_eq!(keys(&first), vec!["team/app"]);
    existing.push(tgt_project(8, "team/app"));
    assert!(projects_to_import(cached, &existing).is_empty());
}

#[test]
fn import_plans_only_projects_absent_from_target() {
    let cached = vec![src_project(42, "team/app", false)];
    let existing = vec![tgt_project(5, "team/other")];
    let plan = projects_to_import(cached, &existing);
    assert_eq!(plan.len(), 1);
    assert_eq!(plan[0].id, 42);
    assert_eq!(plan[0].path_with_namespace, "team/app");

    let cached = vec![src_project(42, "team/app", false)];
    let existing = vec![tgt_project(9, "team/app")];
    assert!(projects_to_import(cached, &existing).is_empty());
}

#[test]
fn delete_touches_only_cached_projects() {
    let cached = vec![src_project(42, "team/app", false)];
    let existing = vec![tgt_project(1, "team/app"), tgt_project(2, "team/other")];
    let doomed = projects_to_delete(&cached, existing);
    assert_eq!(doomed.len(), 1);
    assert_eq!(doomed[0].path_with_namespace, "team/app");
    assert_eq!(doomed[0].id, 1);
}

#[test]
fn ci_variables_go_to_matching_projects() {
    let cache = vec![
        CacheEntry { key: "g/one".to_string(), records: vec![variable("A"), variable("B")] },
        CacheEntry { key: "g/gone".to_string(), records: vec![variable("C")] },
        CacheEntry { key: "g/two".to_string(), records: vec![variable("D")] },
    ];
    let projects = vec![tgt_project(11, "g/one"), tgt_project(12, "g/two")];
    let plan = ci_variables_to_create(cache, &projects);
    let got: Vec<(u32, String)> = plan.iter().map(|c| (c.project_id, c.variable.key.clone())).collect();
    assert_eq!(
        got,
        vec![(11, "A".to_string()), (11, "B".to_string()), (12, "D".to_string())]
    );
}

#[test]
fn members_added_where_owner_and_user_exist() {
    let cache = vec![
        CacheEntry { key: "grp".to_string(), records: vec![member(1, "ann", 30), member(2, "zed", 40)] },
        CacheEntry { key: "nowhere".to_string(), records: vec![member(1, "ann", 50)] },
    ];
    let groups = vec![TargetGroup { id: 77, name: "grp".to_string(), full_path: "grp".to_string() }];
    let users = vec![tgt_user(5, "ann")];
    let plan = members_to_add(cache, &groups, &users);
    assert_eq!(plan.len(), 1);
    assert_eq!(plan[0].owner_id, 77);
    assert_eq!(plan[0].user_id, 5);
    assert_eq!(plan[0].member.access_level, 30);

    let cache = vec![CacheEntry { key: "p/q".to_string(), records: vec![member(1, "ann", 20)] }];
    let projects = vec![tgt_project(8, "p/q")];
    let plan = members_to_add(cache, &projects, &users);
    assert_eq!((plan[0].owner_id, plan[0].user_id), (8, 5));
}

#[test]
fn issues_reassigned_to_existing_assignees_of_leading_issues() {
    let ann = src_user(1, "ann");
    let bob = src_user(2, "bob");
    let mut records = vec![
        issue(1, bob.clone(), Some(ann.clone())),
        issue(2, ann.clone(), None),
        issue(3, ann.clone(), Some(bob.clone())),
    ];
    for i in 4..=25 {
        records.push(issue(i, bob.clone(), Some(ann.clone())));
    }
    let cache = vec![
        CacheEntry { key: "p/x".to_string(), records },
        CacheEntry { key: "p/none".to_string(), records: vec![issue(99, bob.clone(), Some(ann.clone()))] },
    ];
    let projects = vec![tgt_project(3, "p/x")];
    let users = vec![tgt_user(50, "ann")];
    let plan = issues_to_reassign(cache, &projects, &users);
    let iids: Vec<u32> = plan.iter().map(|r| r.issue.iid).collect();
    let mut expected = vec![1];
    expected.extend(4..=ISSUES_PER_PROJECT as u32);
    assert_eq!(iids, expected);
    assert!(plan.iter().all(|r| r.project_id == 3 && r.assignee_id == 50));
}

#[test]
fn schedules_go_to_matching_projects() {
    let schedule = SourcePipelineSchedule {
        id: 1,
        description: "nightly".to_string(),
        ref_: "main".to_string(),
        cron: "0 1 * * *".to_string(),
        cron_timezone: "UTC".to_string(),
        active: true,
        variables: None,
    };
    let cache = vec![
        CacheEntry { key: "a/b".to_string(), records: vec![schedule] },
        CacheEntry { key: "a/c".to_string(), records: vec![] },
    ];
    let projects = vec![tgt_project(4, "a/b")];
    let plan = schedules_to_create(cache, &projects);
    assert_eq!(plan.len(), 1);
    assert_eq!(plan[0].project_id, 4);
    assert_eq!(plan[0].schedules[0].description, "nightly");
}

#[test]
fn archived_projects_are_skipped() {
    let projects = vec![src_project(1, "a", true), src_project(2, "b", false), src_project(3, "c", true)];
    let todo = projects_to_archive(projects);
    assert_eq!(keys(&todo), vec!["b"]);
}

#[test]
fn candidates_keep_first_user_of_each_id() {
    let memberships = vec![CacheEntry {
        key: "g".to_string(),
        records: vec![member(1, "ann", 30), member(2, "bob", 30), member(1, "ann-old", 10), member(3, "cid", 30)],
    }];
    let kept: Vec<String> = candidate_users(&memberships, &vec![]).into_iter().map(|u| u.username).collect();
    assert_eq!(kept, vec!["ann", "bob", "cid"]);
}

#[test]
fn candidates_come_from_members_then_issues() {
    let memberships = vec![
        CacheEntry { key: "g".to_string(), records: vec![member(1, "ann", 30), member(2, "bob", 30)] },
        CacheEntry { key: "p".to_string(), records: vec![member(1, "ann", 40)] },
    ];
    let issues = vec![CacheEntry {
        key: "p".to_string(),
        records: vec![issue(1, src_user(3, "cid"), Some(src_user(4, "dan"))), issue(2, src_user(2, "bob"), None)],
    }];
    let names: Vec<String> = candidate_users(&memberships, &issues).into_iter().map(|u| u.username).collect();
    assert_eq!(names, vec!["ann", "bob", "dan", "cid"]);
}

#[test]
fn delete_touches_only_cached_members() {
    let memberships = vec![CacheEntry { key: "g".to_string(), records: vec![member(1, "ann", 30)] }];
    let existing = vec![tgt_user(10, "ann"), tgt_user(11, "root")];
    let doomed = users_to_delete(&memberships, existing);
    assert_eq!(doomed.len(), 1);
    assert_eq!(doomed[0].username, "ann");
}
