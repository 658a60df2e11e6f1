use gitlab_migrator::gitlab::{email_for_user, export_step, parse_namespace, ExportStep};
use gitlab_migrator::types::{
    ExportStatus, Membership, SourceGroup, SourceMember, SourceProject, SourceUser, TargetGroup,
    TargetProject, TargetUser,
};

fn project(path: &str) -> SourceProject {
    SourceProject {
        id: 42,
        name: "app".to_string(),
        path: "app".to_string(),
        path_with_namespace: path.to_string(),
        archived: false,
    }
}

fn user(username: &str) -> SourceUser {
    SourceUser { id: 1, name: "N".to_string(), username: username.to_string(), avatar_url: String::new() }
}

fn status(s: &str) -> ExportStatus {
    ExportStatus { id: 42, path_with_namespace: "team/app".to_string(), export_status: s.to_string() }
}

#[test]
fn keys_are_full_paths_and_usernames() {
    assert_eq!(project("team/app").key(), "team/app");
    let g = SourceGroup { id: 3, name: "Team".to_string(), full_path: "org/team".to_string() };
    assert_eq!(g.key(), "org/team");
    let tu = TargetUser { id: 1, name: "Ann".to_string(), username: "ann".to_string(), email: "a@b".to_string() };
    assert_eq!(tu.key(), "ann");
    let tp = TargetProject {
        id: 2,
        name: "x".to_string(),
        path: "x".to_string(),
        path_with_namespace: "o/x".to_string(),
        archived: true,
    };
    assert_eq!(tp.key(), "o/x");
    let tg = TargetGroup { id: 4, name: "G".to_string(), full_path: "o/g".to_string() };
    assert_eq!(tg.key(), "o/g");
}

#[test]
fn member_to_user_drops_access_level() {
    let m = SourceMember {
        id: 9,
        name: "Ann".to_string(),
        username: "ann".to_string(),
        avatar_url: "http://a/x.png".to_string(),
        access_level: 40,
    };
    let u = m.to_user();
    assert_eq!((u.id, u.name.as_str(), u.username.as_str(), u.avatar_url.as_str()), (9, "Ann", "ann", "http://a/x.png"));
}

#[test]
fn membership_addresses_its_owner() {
    let g = Membership::Group(SourceGroup { id: 3, name: "T".to_string(), full_path: "org/t".to_string() });
    assert_eq!(g.url_prefix(), "groups");
    assert_eq!(g.id(), 3);
    assert_eq!(g.key(), "org/t");
    let p = Membership::Project(project("org/t/app"));
    assert_eq!(p.url_prefix(), "projects");
    assert_eq!(p.id(), 42);
    assert_eq!(p.key(), "org/t/app");
}

#[test]
fn namespace_drops_last_segment() {
    assert_eq!(parse_namespace(&project("team/app")), "team");
    assert_eq!(parse_namespace(&project("org/sub/app")), "org/sub");
    assert_eq!(parse_namespace(&project("app")), "");
    assert_eq!(parse_namespace(&project("")), "");
    assert_eq!(parse_namespace(&project("/team/app")), "team");
    assert_eq!(parse_namespace(&project("//a/b")), "a");
    assert_eq!(parse_namespace(&project("a//b/c")), "a//b");
    assert_eq!(parse_namespace(&project("a/")), "a");
    assert_eq!(parse_namespace(&project("gruppe/prüfung/app")), "gruppe/prüfung");
}

#[test]
fn email_from_mapping_or_fallback() {
    let mapping = vec![
        ("ann".to_string(), "ann@corp.example".to_string()),
        ("bob".to_string(), "old@corp.example".to_string()),
        ("bob".to_string(), "bob@corp.example".to_string()),
    ];
    assert_eq!(email_for_user(&user("ann"), &mapping), "ann@corp.example");
    assert_eq!(email_for_user(&user("bob"), &mapping), "bob@corp.example");
    assert_eq!(email_for_user(&user("cid"), &mapping), "cid@test.com");
    assert_eq!(email_for_user(&user("cid"), &vec![]), "cid@test.com");
}

#[test]
fn export_steps() {
    assert!(matches!(export_step(&status("none"), true), ExportStep::Skip));
    assert!(matches!(export_step(&status("none"), false), ExportStep::Wait));
    assert!(matches!(export_step(&status("finished"), true), ExportStep::Download));
    assert!(matches!(export_step(&status("finished"), false), ExportStep::Download));
    assert!(matches!(export_step(&status("started"), true), ExportStep::Wait));
    assert!(matches!(export_step(&status("regeneration_in_progress"), false), ExportStep::Wait));
}
