use authcore::AppError;
use authcore::docstore::{DocDatabase, DocPrincipalsRepo};
use authcore::inmemory::InMemoryDatabase;
use authcore::models::{Group, PersonalInfo, Project, Ticket, User};
use authcore::perms::AccessControlStore;
use authcore::repo::{
    DatabaseInterface, GroupsRepo, ProjectsRepo, TicketsRepo, UsersRepo,
};

fn user(name: &str) -> User {
    User {
        username: name.to_string(),
        password_hash: format!("hash-of-{}", name),
        created_at: 0,
        created_by: None,
        deactivated: false,
        personal: PersonalInfo::empty(),
        metadata: Vec::new(),
    }
}

fn group(gid: &str) -> Group {
    Group { gid: gid.to_string(), name: format!("group {}", gid), principals: Vec::new() }
}

fn project(id: &str) -> Project {
    Project { id: id.to_string(), acl: AccessControlStore::new(), tickets: Vec::new() }
}

fn ticket(id: i64) -> Ticket {
    Ticket {
        id,
        title: format!("ticket {}", id),
        severity: (2, "medium".to_string()),
        description: "something broke".to_string(),
        created_by: "alice".to_string(),
        assigned_to: "staff".to_string(),
        mentioned: vec!["bob".to_string()],
        last_modification: 100,
        creation_date: 100,
    }
}

fn kind<T>(r: &Result<T, AppError>) -> &'static str {
    match r {
        Ok(_) => "ok",
        Err(AppError::NotFound(_)) => "not_found",
        Err(AppError::Conflict(_)) => "conflict",
        Err(_) => "other",
    }
}

/// Runs the same user-repository script against both backends and compares
/// every outcome and the final listing.
#[test]
fn backends_agree_on_a_user_script() {
    let mut volatile = InMemoryDatabase::new();
    let mut document = DocDatabase::new();

    let script_outcomes = |users_a: &mut dyn FnMut(u32) -> &'static str,
                           users_b: &mut dyn FnMut(u32) -> &'static str| {
        for step in 0..8 {
            assert_eq!(users_a(step), users_b(step), "diverged at step {}", step);
        }
    };

    let mut run_a = |step: u32| -> &'static str {
        let r = &mut volatile.users_repo;
        match step {
            0 => kind(&r.create_user(user("alice"))),
            1 => kind(&r.create_user(user("bob"))),
            2 => kind(&r.create_user(user("alice"))),
            3 => kind(&r.get_user("alice")),
            4 => kind(&r.get_user("carol")),
            5 => kind(&r.update_user("bob", user("bob"))),
            6 => kind(&r.delete_user("carol")),
            7 => kind(&r.delete_user("bob")),
            _ => unreachable!(),
        }
    };
    let mut run_b = |step: u32| -> &'static str {
        let r = &mut document.principals;
        match step {
            0 => kind(&UsersRepo::create_user(r, user("alice"))),
            1 => kind(&UsersRepo::create_user(r, user("bob"))),
            2 => kind(&UsersRepo::create_user(r, user("alice"))),
            3 => kind(&UsersRepo::get_user(r, "alice")),
            4 => kind(&UsersRepo::get_user(r, "carol")),
            5 => kind(&UsersRepo::update_user(r, "bob", user("bob"))),
            6 => kind(&UsersRepo::delete_user(r, "carol")),
            7 => kind(&UsersRepo::delete_user(r, "bob")),
            _ => unreachable!(),
        }
    };
    script_outcomes(&mut run_a, &mut run_b);

    let mut list_a = volatile.users_repo.list_users().unwrap();
    let mut list_b = UsersRepo::list_users(&document.principals).unwrap();
    list_a.sort_by(|x, y| x.username.cmp(&y.username));
    list_b.sort_by(|x, y| x.username.cmp(&y.username));
    assert_eq!(list_a.len(), list_b.len());
    for (a, b) in list_a.iter().zip(list_b.iter()) {
        assert_eq!(a.username, b.username);
        assert_eq!(a.password_hash, b.password_hash);
    }
    assert_eq!(list_a.len(), 1);
    assert_eq!(list_a[0].username, "alice");
}

#[test]
fn backends_agree_on_groups_projects_and_tickets() {
    let mut volatile = InMemoryDatabase::new();
    let mut document = DocDatabase::new();

    // Groups.
    assert_eq!(
        kind(&volatile.groups_repo.create_group(group("staff"))),
        kind(&GroupsRepo::create_group(&mut document.principals, group("staff"))),
    );
    assert_eq!(
        kind(&volatile.groups_repo.create_group(group("staff"))),
        kind(&GroupsRepo::create_group(&mut document.principals, group("staff"))),
    );
    assert_eq!(
        kind(&volatile.groups_repo.get_group("staff")),
        kind(&GroupsRepo::get_group(&document.principals, "staff")),
    );
    assert_eq!(
        kind(&volatile.groups_repo.delete_group("nobody")),
        kind(&GroupsRepo::delete_group(&mut document.principals, "nobody")),
    );

    // Projects.
    assert_eq!(
        kind(&volatile.projects_repo.create_project(project("p1"))),
        kind(&document.projects_repo.create_project(project("p1"))),
    );
    assert_eq!(
        kind(&volatile.projects_repo.update_project("p2", project("p2"))),
        kind(&document.projects_repo.update_project("p2", project("p2"))),
    );
    assert_eq!(
        kind(&volatile.projects_repo.get_project("p1")),
        kind(&document.projects_repo.get_project("p1")),
    );

    // Tickets, keyed by the decimal identifier.
    assert_eq!(
        kind(&volatile.tickets_repo.create_ticket(ticket(7))),
        kind(&document.tickets_repo.create_ticket(ticket(7))),
    );
    assert_eq!(
        kind(&volatile.tickets_repo.get_ticket("7")),
        kind(&document.tickets_repo.get_ticket("7")),
    );
    assert_eq!(
        kind(&volatile.tickets_repo.get_ticket("8")),
        kind(&document.tickets_repo.get_ticket("8")),
    );
    assert_eq!(
        kind(&volatile.tickets_repo.delete_ticket("7")),
        kind(&document.tickets_repo.delete_ticket("7")),
    );

    let g_a = volatile.groups_repo.list_groups().unwrap();
    let g_b = GroupsRepo::list_groups(&document.principals).unwrap();
    assert_eq!(g_a.len(), g_b.len());
    assert_eq!(g_a.len(), 1);
    assert_eq!(g_a[0].gid, g_b[0].gid);
}

#[test]
fn lifecycle_operations_are_total() {
    let volatile = InMemoryDatabase::new();
    assert!(volatile.initialize().is_ok());
    assert!(volatile.begin_transaction().is_ok());
    assert!(volatile.commit_transaction().is_ok());
    assert!(volatile.rollback_transaction().is_ok());

    let document = DocDatabase::new();
    assert!(document.initialize().is_ok());
    assert!(document.begin_transaction().is_ok());
    assert!(document.commit_transaction().is_ok());
    assert!(document.rollback_transaction().is_ok());
}

#[test]
fn doc_type_tag_is_verified_on_lookup() {
    let mut principals = DocPrincipalsRepo::new();
    GroupsRepo::create_group(&mut principals, group("shared")).unwrap();

    // A group occupies the key: a user lookup must report NotFound, never
    // the wrong-typed record.
    assert!(matches!(UsersRepo::get_user(&principals, "shared"), Err(AppError::NotFound(_))));
    assert!(matches!(
        UsersRepo::update_user(&mut principals, "shared", user("shared")),
        Err(AppError::NotFound(_))
    ));
    assert!(matches!(
        UsersRepo::delete_user(&mut principals, "shared"),
        Err(AppError::NotFound(_))
    ));

    // The shared physical collection refuses to overwrite the occupied key.
    assert!(matches!(
        UsersRepo::create_user(&mut principals, user("shared")),
        Err(AppError::Conflict(_))
    ));

    // Listings are filtered by tag.
    UsersRepo::create_user(&mut principals, user("plain")).unwrap();
    let users = UsersRepo::list_users(&principals).unwrap();
    assert_eq!(users.len(), 1);
    assert_eq!(users[0].username, "plain");
    let groups = GroupsRepo::list_groups(&principals).unwrap();
    assert_eq!(groups.len(), 1);
    assert_eq!(groups[0].gid, "shared");
}

#[test]
fn repository_error_messages_name_the_record() {
    let mut volatile = InMemoryDatabase::new();
    match volatile.users_repo.get_user("ghost") {
        Err(AppError::NotFound(m)) => assert_eq!(m, "User ghost not found"),
        _ => panic!("expected NotFound"),
    }
    volatile.users_repo.create_user(user("solid")).unwrap();
    match volatile.users_repo.create_user(user("solid")) {
        Err(AppError::Conflict(m)) => assert_eq!(m, "User solid already exists"),
        _ => panic!("expected Conflict"),
    }
}

#[test]
fn update_replaces_under_the_requested_key() {
    let mut volatile = InMemoryDatabase::new();
    volatile.users_repo.create_user(user("anna")).unwrap();

    let mut changed = user("anna");
    changed.personal.name = "Anna A.".to_string();
    volatile.users_repo.update_user("anna", changed).unwrap();
    assert_eq!(volatile.users_repo.get_user("anna").unwrap().personal.name, "Anna A.");

    // Updating a missing key mutates nothing.
    assert!(matches!(
        volatile.users_repo.update_user("bruno", user("bruno")),
        Err(AppError::NotFound(_))
    ));
    assert_eq!(volatile.users_repo.list_users().unwrap().len(), 1);

    // Deleting removes exactly the one record.
    volatile.users_repo.delete_user("anna").unwrap();
    assert!(matches!(volatile.users_repo.delete_user("anna"), Err(AppError::NotFound(_))));
    assert_eq!(volatile.users_repo.list_users().unwrap().len(), 0);
}
