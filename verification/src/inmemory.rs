//! The volatile backend: one owned key-value store per resource type.
//! Uniqueness and existence checks are atomic on the owned store, and data
//! does not survive the process.

use vstd::prelude::*;
use vstd::string::StringExecFns;
use crate::error::AppError;
use crate::models::{Group, GroupView, Project, ProjectView, Ticket, TicketView, User, UserView};
use crate::repo::{DatabaseInterface, GroupsRepo, ProjectsRepo, TicketsRepo, UsersRepo};
use crate::store::{DupView, KvStore};

verus! {

impl DupView for User {
    fn dup(&self) -> (r: Self)
        ensures
            r@ == self@,
    {
        self.clone()
    }
}

impl DupView for Group {
    fn dup(&self) -> (r: Self)
        ensures
            r@ == self@,
    {
        self.clone()
    }
}

impl DupView for Project {
    fn dup(&self) -> (r: Self)
        ensures
            r@ == self@,
    {
        self.clone()
    }
}

impl DupView for Ticket {
    fn dup(&self) -> (r: Self)
        ensures
            r@ == self@,
    {
        self.clone()
    }
}

pub(crate) fn not_found_error(kind: &str, id: &str) -> (r: AppError)
    ensures
        r is NotFound,
        r.spec_message() == kind@ + " "@ + id@ + " not found"@,
{
    let mut m = String::from_str(kind);
    m.append(" ");
    m.append(id);
    m.append(" not found");
    AppError::NotFound(m)
}

pub(crate) fn conflict_error(kind: &str, id: &str) -> (r: AppError)
    ensures
        r is Conflict,
        r.spec_message() == kind@ + " "@ + id@ + " already exists"@,
{
    let mut m = String::from_str(kind);
    m.append(" ");
    m.append(id);
    m.append(" already exists");
    AppError::Conflict(m)
}

/// Users in a volatile store keyed by username.
pub struct InMemoryUsersRepo {
    users: KvStore<User>,
}

impl InMemoryUsersRepo {
    pub fn new() -> (r: Self)
        ensures
            r.inv(),
            r.users_view() == Map::<Seq<char>, UserView>::empty(),
    {
        InMemoryUsersRepo { users: KvStore::new() }
    }
}

impl Default for InMemoryUsersRepo {
    fn default() -> (r: Self)
        ensures
            r.inv(),
            r.users_view() == Map::<Seq<char>, UserView>::empty(),
    {
        InMemoryUsersRepo::new()
    }
}

impl UsersRepo for InMemoryUsersRepo {
    closed spec fn inv(&self) -> bool {
        self.users.wf()
    }

    closed spec fn users_view(&self) -> Map<Seq<char>, UserView> {
        self.users.view()
    }

    fn get_user(&self, id: &str) -> (r: Result<User, AppError>) {
        match self.users.get(id) {
            Some(u) => Ok(u.clone()),
            None => Err(not_found_error("User", id)),
        }
    }

    fn create_user(&mut self, user: User) -> (r: Result<(), AppError>)
        ensures
            r is Err ==> old(self).users_view().contains_key(user@.username),
    {
        let key = user.username.clone();
        if self.users.contains(key.as_str()) {
            return Err(conflict_error("User", key.as_str()));
        }
        let added = self.users.insert_new(key, user);
        proof {
            assert(added);
        }
        Ok(())
    }

    fn update_user(&mut self, id: &str, user: User) -> (r: Result<(), AppError>) {
        if self.users.replace(id, user) {
            Ok(())
        } else {
            Err(not_found_error("User", id))
        }
    }

    fn delete_user(&mut self, id: &str) -> (r: Result<(), AppError>) {
        if self.users.remove(id) {
            Ok(())
        } else {
            Err(not_found_error("User", id))
        }
    }

    fn list_users(&self) -> (r: Result<Vec<User>, AppError>) {
        Ok(self.users.values())
    }
}

/// Groups in a volatile store keyed by group identifier.
pub struct InMemoryGroupsRepo {
    groups: KvStore<Group>,
}

impl InMemoryGroupsRepo {
    pub fn new() -> (r: Self)
        ensures
            r.inv(),
            r.groups_view() == Map::<Seq<char>, GroupView>::empty(),
    {
        InMemoryGroupsRepo { groups: KvStore::new() }
    }
}

impl Default for InMemoryGroupsRepo {
    fn default() -> (r: Self)
        ensures
            r.inv(),
            r.groups_view() == Map::<Seq<char>, GroupView>::empty(),
    {
        InMemoryGroupsRepo::new()
    }
}

impl GroupsRepo for InMemoryGroupsRepo {
    closed spec fn inv(&self) -> bool {
        self.groups.wf()
    }

    closed spec fn groups_view(&self) -> Map<Seq<char>, GroupView> {
        self.groups.view()
    }

    fn get_group(&self, id: &str) -> (r: Result<Group, AppError>) {
        match self.groups.get(id) {
            Some(g) => Ok(g.clone()),
            None => Err(not_found_error("Group", id)),
        }
    }

    fn create_group(&mut self, group: Group) -> (r: Result<(), AppError>)
        ensures
            r is Err ==> old(self).groups_view().contains_key(group@.gid),
    {
        let key = group.gid.clone();
        if self.groups.contains(key.as_str()) {
            return Err(conflict_error("Group", key.as_str()));
        }
        let added = self.groups.insert_new(key, group);
        proof {
            assert(added);
        }
        Ok(())
    }

    fn update_group(&mut self, id: &str, group: Group) -> (r: Result<(), AppError>) {
        if self.groups.replace(id, group) {
            Ok(())
        } else {
            Err(not_found_error("Group", id))
        }
    }

    fn delete_group(&mut self, id: &str) -> (r: Result<(), AppError>) {
        if self.groups.remove(id) {
            Ok(())
        } else {
            Err(not_found_error("Group", id))
        }
    }

    fn list_groups(&self) -> (r: Result<Vec<Group>, AppError>) {
        Ok(self.groups.values())
    }
}

/// Projects in a volatile store keyed by project identifier.
pub struct InMemoryProjectsRepo {
    projects: KvStore<Project>,
}

impl InMemoryProjectsRepo {
    pub fn new() -> (r: Self)
        ensures
            r.inv(),
            r.projects_view() == Map::<Seq<char>, ProjectView>::empty(),
    {
        InMemoryProjectsRepo { projects: KvStore::new() }
    }
}

impl Default for InMemoryProjectsRepo {
    fn default() -> (r: Self)
        ensures
            r.inv(),
            r.projects_view() == Map::<Seq<char>, ProjectView>::empty(),
    {
        InMemoryProjectsRepo::new()
    }
}

impl ProjectsRepo for InMemoryProjectsRepo {
    closed spec fn inv(&self) -> bool {
        self.projects.wf()
    }

    closed spec fn projects_view(&self) -> Map<Seq<char>, ProjectView> {
        self.projects.view()
    }

    fn get_project(&self, id: &str) -> (r: Result<Project, AppError>) {
        match self.projects.get(id) {
            Some(p) => Ok(p.clone()),
            None => Err(not_found_error("Project", id)),
        }
    }

    fn create_project(&mut self, project: Project) -> (r: Result<(), AppError>)
        ensures
            r is Err ==> old(self).projects_view().contains_key(project@.id),
    {
        let key = project.id.clone();
        if self.projects.contains(key.as_str()) {
            return Err(conflict_error("Project", key.as_str()));
        }
        let added = self.projects.insert_new(key, project);
        proof {
            assert(added);
        }
        Ok(())
    }

    fn update_project(&mut self, id: &str, project: Project) -> (r: Result<(), AppError>) {
        if self.projects.replace(id, project) {
            Ok(())
        } else {
            Err(not_found_error("Project", id))
        }
    }

    fn delete_project(&mut self, id: &str) -> (r: Result<(), AppError>) {
        if self.projects.remove(id) {
            Ok(())
        } else {
            Err(not_found_error("Project", id))
        }
    }

    fn list_projects(&self) -> (r: Result<Vec<Project>, AppError>) {
        Ok(self.projects.values())
    }
}

/// Tickets in a volatile store keyed by the decimal ticket identifier.
pub struct InMemoryTicketsRepo {
    tickets: KvStore<Ticket>,
}

impl InMemoryTicketsRepo {
    pub fn new() -> (r: Self)
        ensures
            r.inv(),
            r.tickets_view() == Map::<Seq<char>, TicketView>::empty(),
    {
        InMemoryTicketsRepo { tickets: KvStore::new() }
    }
}

impl Default for InMemoryTicketsRepo {
    fn default() -> (r: Self)
        ensures
            r.inv(),
            r.tickets_view() == Map::<Seq<char>, TicketView>::empty(),
    {
        InMemoryTicketsRepo::new()
    }
}

impl TicketsRepo for InMemoryTicketsRepo {
    closed spec fn inv(&self) -> bool {
        self.tickets.wf()
    }

    closed spec fn tickets_view(&self) -> Map<Seq<char>, TicketView> {
        self.tickets.view()
    }

    fn get_ticket(&self, id: &str) -> (r: Result<Ticket, AppError>) {
        match self.tickets.get(id) {
            Some(t) => Ok(t.clone()),
            None => Err(not_found_error("Ticket", id)),
        }
    }

    fn create_ticket(&mut self, ticket: Ticket) -> (r: Result<(), AppError>)
        ensures
            r is Err ==> old(self).tickets_view().contains_key(
                crate::strutil::spec_i64_decimal(ticket@.id as int),
            ),
    {
        let key = crate::strutil::i64_string(ticket.id);
        if self.tickets.contains(key.as_str()) {
            return Err(conflict_error("Ticket", key.as_str()));
        }
        let added = self.tickets.insert_new(key, ticket);
        proof {
            assert(added);
        }
        Ok(())
    }

    fn update_ticket(&mut self, id: &str, ticket: Ticket) -> (r: Result<(), AppError>) {
        if self.tickets.replace(id, ticket) {
            Ok(())
        } else {
            Err(not_found_error("Ticket", id))
        }
    }

    fn delete_ticket(&mut self, id: &str) -> (r: Result<(), AppError>) {
        if self.tickets.remove(id) {
            Ok(())
        } else {
            Err(not_found_error("Ticket", id))
        }
    }

    fn list_tickets(&self) -> (r: Result<Vec<Ticket>, AppError>) {
        Ok(self.tickets.values())
    }
}

/// The volatile backend, one repository per resource type.
pub struct InMemoryDatabase {
    pub users_repo: InMemoryUsersRepo,
    pub projects_repo: InMemoryProjectsRepo,
    pub groups_repo: InMemoryGroupsRepo,
    pub tickets_repo: InMemoryTicketsRepo,
}

impl InMemoryDatabase {
    pub fn new() -> (r: Self)
        ensures
            r.inv(),
            r.users_repo.inv() && r.users_repo.users_view() == Map::<Seq<char>, UserView>::empty(),
            r.groups_repo.inv() && r.groups_repo.groups_view() == Map::<
                Seq<char>,
                GroupView,
            >::empty(),
            r.projects_repo.inv() && r.projects_repo.projects_view() == Map::<
                Seq<char>,
                ProjectView,
            >::empty(),
            r.tickets_repo.inv() && r.tickets_repo.tickets_view() == Map::<
                Seq<char>,
                TicketView,
            >::empty(),
    {
        InMemoryDatabase {
            users_repo: InMemoryUsersRepo::new(),
            projects_repo: InMemoryProjectsRepo::new(),
            groups_repo: InMemoryGroupsRepo::new(),
            tickets_repo: InMemoryTicketsRepo::new(),
        }
    }
}

impl Default for InMemoryDatabase {
    fn default() -> (r: Self)
        ensures
            r.inv(),
    {
        InMemoryDatabase::new()
    }
}

impl DatabaseInterface for InMemoryDatabase {
    closed spec fn inv(&self) -> bool {
        true
    }

    /// Nothing to provision for volatile storage.
    fn initialize(&self) -> (r: Result<(), AppError>) {
        Ok(())
    }

    fn begin_transaction(&self) -> (r: Result<(), AppError>) {
        Ok(())
    }

    fn commit_transaction(&self) -> (r: Result<(), AppError>) {
        Ok(())
    }

    fn rollback_transaction(&self) -> (r: Result<(), AppError>) {
        Ok(())
    }
}

} // verus!
