//! The document-store backend model: typed entities mapped to keyed
//! documents. Users and groups share one `principals` collection and are told
//! apart by a document tag; a lookup whose tag does not match reports the
//! record as missing rather than returning a wrong-typed one. Backend-native
//! errors are translated into the shared taxonomy in `ArangoError`.

use vstd::prelude::*;
use vstd::string::StringExecFns;
use crate::error::AppError;
use crate::inmemory::{conflict_error, not_found_error};
use crate::models::{Group, GroupView, Project, ProjectView, Ticket, TicketView, User, UserView};
use crate::repo::{DatabaseInterface, GroupsRepo, ProjectsRepo, TicketsRepo, UsersRepo};
use crate::store::{DupView, KvStore};

verus! {

/// A backend-native fault of the document store.
#[derive(Debug)]
pub enum ArangoError {
    /// An error the store's API reported, with its HTTP-style code.
    Api { code: u16, message: String },
    /// A driver-level failure (connection, serialization, protocol).
    Driver(String),
    /// A collection the schema expects does not exist.
    CollectionMissing(String),
}

/// The message the taxonomy carries for a missing collection.
pub open spec fn collection_missing_message(name: Seq<char>) -> Seq<char> {
    "Configuration error: Collection '"@ + name + "' does not exist."@
}

impl ArangoError {
    /// Translates the backend-native error into the shared taxonomy: a 404
    /// code is NotFound, a 409 code (a unique-constraint violation) is
    /// Conflict, and everything else is an internal fault.
    pub fn into_app_error(self) -> (r: AppError)
        ensures
            match self {
                ArangoError::Api { code, message } => {
                    if code == 404 {
                        r matches AppError::NotFound(m) && m@ == message@
                    } else if code == 409 {
                        r matches AppError::Conflict(m) && m@ == message@
                    } else {
                        r matches AppError::Internal(m) && m@ == message@
                    }
                },
                ArangoError::Driver(message) => r matches AppError::Internal(m) && m@ == message@,
                ArangoError::CollectionMissing(name) => r matches AppError::Internal(m) && m@
                    == collection_missing_message(name@),
            },
    {
        match self {
            ArangoError::Api { code, message } => {
                if code == 404 {
                    AppError::NotFound(message)
                } else if code == 409 {
                    AppError::Conflict(message)
                } else {
                    AppError::Internal(message)
                }
            },
            ArangoError::Driver(message) => AppError::Internal(message),
            ArangoError::CollectionMissing(name) => {
                let mut m = String::from_str("Configuration error: Collection '");
                m.append(name.as_str());
                m.append("' does not exist.");
                proof {
                    assert(m@ =~= collection_missing_message(name@));
                }
                AppError::Internal(m)
            },
        }
    }
}

/// A document of the shared `principals` collection; the variant is the
/// discriminator tag.
#[derive(Debug)]
pub enum PrincipalDoc {
    UserDoc(User),
    GroupDoc(Group),
}

pub enum PrincipalDocView {
    UserDoc(UserView),
    GroupDoc(GroupView),
}

impl View for PrincipalDoc {
    type V = PrincipalDocView;

    open spec fn view(&self) -> PrincipalDocView {
        match self {
            PrincipalDoc::UserDoc(u) => PrincipalDocView::UserDoc(u@),
            PrincipalDoc::GroupDoc(g) => PrincipalDocView::GroupDoc(g@),
        }
    }
}

impl DupView for PrincipalDoc {
    fn dup(&self) -> (r: Self)
        ensures
            r@ == self@,
    {
        match self {
            PrincipalDoc::UserDoc(u) => PrincipalDoc::UserDoc(u.clone()),
            PrincipalDoc::GroupDoc(g) => PrincipalDoc::GroupDoc(g.clone()),
        }
    }
}

/// The user-tagged slice of a principals collection.
pub open spec fn users_of(m: Map<Seq<char>, PrincipalDocView>) -> Map<Seq<char>, UserView> {
    Map::new(
        |k: Seq<char>| m.contains_key(k) && m[k] is UserDoc,
        |k: Seq<char>|
            match m[k] {
                PrincipalDocView::UserDoc(u) => u,
                PrincipalDocView::GroupDoc(_) => vstd::pervasive::arbitrary::<UserView>(),
            },
    )
}

/// The group-tagged slice of a principals collection.
pub open spec fn groups_of(m: Map<Seq<char>, PrincipalDocView>) -> Map<Seq<char>, GroupView> {
    Map::new(
        |k: Seq<char>| m.contains_key(k) && m[k] is GroupDoc,
        |k: Seq<char>|
            match m[k] {
                PrincipalDocView::GroupDoc(g) => g,
                PrincipalDocView::UserDoc(_) => vstd::pervasive::arbitrary::<GroupView>(),
            },
    )
}

/// The shared `principals` collection; it serves both the users and the
/// groups sub-contract, disambiguating by the document tag.
pub struct DocPrincipalsRepo {
    docs: KvStore<PrincipalDoc>,
}

impl DocPrincipalsRepo {
    /// The whole collection, both tags.
    pub closed spec fn docs_view(&self) -> Map<Seq<char>, PrincipalDocView> {
        self.docs.view()
    }

    pub fn new() -> (r: Self)
        ensures
            r.wf(),
            r.docs_view() == Map::<Seq<char>, PrincipalDocView>::empty(),
    {
        let r = DocPrincipalsRepo { docs: KvStore::new() };
        proof {
            assert(users_of(r.docs_view()) =~= Map::<Seq<char>, UserView>::empty());
            assert(groups_of(r.docs_view()) =~= Map::<Seq<char>, GroupView>::empty());
        }
        r
    }

    pub closed spec fn wf(&self) -> bool {
        self.docs.wf()
    }
}

impl UsersRepo for DocPrincipalsRepo {
    closed spec fn inv(&self) -> bool {
        self.docs.wf()
    }

    open spec fn users_view(&self) -> Map<Seq<char>, UserView> {
        users_of(self.docs_view())
    }

    /// Verifies the tag: a group document under the key is reported missing.
    fn get_user(&self, id: &str) -> (r: Result<User, AppError>) {
        match self.docs.get(id) {
            Some(PrincipalDoc::UserDoc(u)) => Ok(u.clone()),
            Some(PrincipalDoc::GroupDoc(_)) => Err(not_found_error("User", id)),
            None => Err(not_found_error("User", id)),
        }
    }

    /// A conflict is reported for any occupied key, whichever tag occupies
    /// it: the physical insert refuses to overwrite.
    fn create_user(&mut self, user: User) -> (r: Result<(), AppError>)
        ensures
            r is Err ==> old(self).docs_view().contains_key(user@.username),
            r is Ok ==> final(self).docs_view() == old(self).docs_view().insert(
                user@.username,
                PrincipalDocView::UserDoc(user@),
            ),
            groups_of(final(self).docs_view()) == groups_of(old(self).docs_view()),
    {
        let key = user.username.clone();
        if self.docs.contains(key.as_str()) {
            return Err(conflict_error("User", key.as_str()));
        }
        let ghost old_docs = self.docs_view();
        let ghost uv = user@;
        let added = self.docs.insert_new(key, PrincipalDoc::UserDoc(user));
        proof {
            assert(added);
            assert(users_of(self.docs_view()) =~= users_of(old_docs).insert(uv.username, uv));
            assert(groups_of(self.docs_view()) =~= groups_of(old_docs));
        }
        Ok(())
    }

    fn update_user(&mut self, id: &str, user: User) -> (r: Result<(), AppError>)
        ensures
            groups_of(final(self).docs_view()) == groups_of(old(self).docs_view()),
    {
        let tagged_user = match self.docs.get(id) {
            Some(PrincipalDoc::UserDoc(_)) => true,
            _ => false,
        };
        if !tagged_user {
            return Err(not_found_error("User", id));
        }
        let ghost old_docs = self.docs_view();
        let ghost uv = user@;
        let replaced = self.docs.replace(id, PrincipalDoc::UserDoc(user));
        proof {
            assert(replaced);
            assert(users_of(self.docs_view()) =~= users_of(old_docs).insert(id@, uv));
            assert(groups_of(self.docs_view()) =~= groups_of(old_docs));
        }
        Ok(())
    }

    fn delete_user(&mut self, id: &str) -> (r: Result<(), AppError>)
        ensures
            groups_of(final(self).docs_view()) == groups_of(old(self).docs_view()),
    {
        let tagged_user = match self.docs.get(id) {
            Some(PrincipalDoc::UserDoc(_)) => true,
            _ => false,
        };
        if !tagged_user {
            return Err(not_found_error("User", id));
        }
        let ghost old_docs = self.docs_view();
        let removed = self.docs.remove(id);
        proof {
            assert(removed);
            assert(users_of(self.docs_view()) =~= users_of(old_docs).remove(id@));
            assert(groups_of(self.docs_view()) =~= groups_of(old_docs));
        }
        Ok(())
    }

    fn list_users(&self) -> (r: Result<Vec<User>, AppError>) {
        let ghost s = self.docs.entries@;
        let n = self.docs.entries.len();
        let mut tmp: KvStore<User> = KvStore::new();
        let mut i: usize = 0;
        while i < n
            invariant
                n == s.len(),
                s == self.docs.entries@,
                self.docs.wf(),
                0 <= i <= n,
                tmp.wf(),
                tmp.view() == users_of(crate::store::entries_map(s.take(i as int))),
            decreases n - i,
        {
            proof {
                assert(s.take(i + 1).drop_last() =~= s.take(i as int));
                assert(s.take(i + 1).last() == s[i as int]);
                crate::store::lemma_entries_map_domain(s.take(i as int), s[i as int].0@);
                assert(forall|j: int|
                    0 <= j < i ==> (#[trigger] s.take(i as int)[j]).0@ == s[j].0@);
                assert(!crate::store::entries_map(s.take(i as int)).contains_key(s[i as int].0@));
            }
            let entry = &self.docs.entries[i];
            match &entry.1 {
                PrincipalDoc::UserDoc(u) => {
                    let added = tmp.insert_new(entry.0.clone(), u.clone());
                    proof {
                        assert(added);
                        assert(tmp.view() =~= users_of(
                            crate::store::entries_map(s.take(i + 1)),
                        ));
                    }
                },
                PrincipalDoc::GroupDoc(_) => {
                    proof {
                        assert(tmp.view() =~= users_of(
                            crate::store::entries_map(s.take(i + 1)),
                        ));
                    }
                },
            }
            i = i + 1;
        }
        proof {
            assert(s.take(n as int) =~= s);
        }
        Ok(tmp.values())
    }
}

impl GroupsRepo for DocPrincipalsRepo {
    closed spec fn inv(&self) -> bool {
        self.docs.wf()
    }

    open spec fn groups_view(&self) -> Map<Seq<char>, GroupView> {
        groups_of(self.docs_view())
    }

    /// Verifies the tag: a user document under the key is reported missing.
    fn get_group(&self, id: &str) -> (r: Result<Group, AppError>) {
        match self.docs.get(id) {
            Some(PrincipalDoc::GroupDoc(g)) => Ok(g.clone()),
            Some(PrincipalDoc::UserDoc(_)) => Err(not_found_error("Group", id)),
            None => Err(not_found_error("Group", id)),
        }
    }

    /// A conflict is reported for any occupied key, whichever tag occupies
    /// it: the physical insert refuses to overwrite.
    fn create_group(&mut self, group: Group) -> (r: Result<(), AppError>)
        ensures
            r is Err ==> old(self).docs_view().contains_key(group@.gid),
            r is Ok ==> final(self).docs_view() == old(self).docs_view().insert(
                group@.gid,
                PrincipalDocView::GroupDoc(group@),
            ),
            users_of(final(self).docs_view()) == users_of(old(self).docs_view()),
    {
        let key = group.gid.clone();
        if self.docs.contains(key.as_str()) {
            return Err(conflict_error("Group", key.as_str()));
        }
        let ghost old_docs = self.docs_view();
        let ghost gv = group@;
        let added = self.docs.insert_new(key, PrincipalDoc::GroupDoc(group));
        proof {
            assert(added);
            assert(groups_of(self.docs_view()) =~= groups_of(old_docs).insert(gv.gid, gv));
            assert(users_of(self.docs_view()) =~= users_of(old_docs));
        }
        Ok(())
    }

    fn update_group(&mut self, id: &str, group: Group) -> (r: Result<(), AppError>)
        ensures
            users_of(final(self).docs_view()) == users_of(old(self).docs_view()),
    {
        let tagged_group = match self.docs.get(id) {
            Some(PrincipalDoc::GroupDoc(_)) => true,
            _ => false,
        };
        if !tagged_group {
            return Err(not_found_error("Group", id));
        }
        let ghost old_docs = self.docs_view();
        let ghost gv = group@;
        let replaced = self.docs.replace(id, PrincipalDoc::GroupDoc(group));
        proof {
            assert(replaced);
            assert(groups_of(self.docs_view()) =~= groups_of(old_docs).insert(id@, gv));
            assert(users_of(self.docs_view()) =~= users_of(old_docs));
        }
        Ok(())
    }

    fn delete_group(&mut self, id: &str) -> (r: Result<(), AppError>)
        ensures
            users_of(final(self).docs_view()) == users_of(old(self).docs_view()),
    {
        let tagged_group = match self.docs.get(id) {
            Some(PrincipalDoc::GroupDoc(_)) => true,
            _ => false,
        };
        if !tagged_group {
            return Err(not_found_error("Group", id));
        }
        let ghost old_docs = self.docs_view();
        let removed = self.docs.remove(id);
        proof {
            assert(removed);
            assert(groups_of(self.docs_view()) =~= groups_of(old_docs).remove(id@));
            assert(users_of(self.docs_view()) =~= users_of(old_docs));
        }
        Ok(())
    }

    fn list_groups(&self) -> (r: Result<Vec<Group>, AppError>) {
        let ghost s = self.docs.entries@;
        let n = self.docs.entries.len();
        let mut tmp: KvStore<Group> = KvStore::new();
        let mut i: usize = 0;
        while i < n
            invariant
                n == s.len(),
                s == self.docs.entries@,
                self.docs.wf(),
                0 <= i <= n,
                tmp.wf(),
                tmp.view() == groups_of(crate::store::entries_map(s.take(i as int))),
            decreases n - i,
        {
            proof {
                assert(s.take(i + 1).drop_last() =~= s.take(i as int));
                assert(s.take(i + 1).last() == s[i as int]);
                crate::store::lemma_entries_map_domain(s.take(i as int), s[i as int].0@);
                assert(forall|j: int|
                    0 <= j < i ==> (#[trigger] s.take(i as int)[j]).0@ == s[j].0@);
                assert(!crate::store::entries_map(s.take(i as int)).contains_key(s[i as int].0@));
            }
            let entry = &self.docs.entries[i];
            match &entry.1 {
                PrincipalDoc::GroupDoc(g) => {
                    let added = tmp.insert_new(entry.0.clone(), g.clone());
                    proof {
                        assert(added);
                        assert(tmp.view() =~= groups_of(
                            crate::store::entries_map(s.take(i + 1)),
                        ));
                    }
                },
                PrincipalDoc::UserDoc(_) => {
                    proof {
                        assert(tmp.view() =~= groups_of(
                            crate::store::entries_map(s.take(i + 1)),
                        ));
                    }
                },
            }
            i = i + 1;
        }
        proof {
            assert(s.take(n as int) =~= s);
        }
        Ok(tmp.values())
    }
}

/// The `projects` collection: one document per project, keyed by its
/// identifier, no discriminator needed.
pub struct DocProjectsRepo {
    projects: KvStore<Project>,
}

impl DocProjectsRepo {
    pub fn new() -> (r: Self)
        ensures
            r.inv(),
            r.projects_view() == Map::<Seq<char>, ProjectView>::empty(),
    {
        DocProjectsRepo { projects: KvStore::new() }
    }
}

impl ProjectsRepo for DocProjectsRepo {
    closed spec fn inv(&self) -> bool {
        self.projects.wf()
    }

    closed spec fn projects_view(&self) -> Map<Seq<char>, ProjectView> {
        self.projects.view()
    }

    fn get_project(&self, id: &str) -> (r: Result<Project, AppError>) {
        match self.projects.get(id) {
            Some(p) => Ok(p.clone()),
            None => Err(not_found_error("Project", id)),
        }
    }

    fn create_project(&mut self, project: Project) -> (r: Result<(), AppError>)
        ensures
            r is Err ==> old(self).projects_view().contains_key(project@.id),
    {
        let key = project.id.clone();
        if self.projects.contains(key.as_str()) {
            return Err(conflict_error("Project", key.as_str()));
        }
        let added = self.projects.insert_new(key, project);
        proof {
            assert(added);
        }
        Ok(())
    }

    fn update_project(&mut self, id: &str, project: Project) -> (r: Result<(), AppError>) {
        if self.projects.replace(id, project) {
            Ok(())
        } else {
            Err(not_found_error("Project", id))
        }
    }

    fn delete_project(&mut self, id: &str) -> (r: Result<(), AppError>) {
        if self.projects.remove(id) {
            Ok(())
        } else {
            Err(not_found_error("Project", id))
        }
    }

    fn list_projects(&self) -> (r: Result<Vec<Project>, AppError>) {
        Ok(self.projects.values())
    }
}

/// The `tickets` collection: one document per ticket, keyed by the decimal
/// ticket identifier.
pub struct DocTicketsRepo {
    tickets: KvStore<Ticket>,
}

impl DocTicketsRepo {
    pub fn new() -> (r: Self)
        ensures
            r.inv(),
            r.tickets_view() == Map::<Seq<char>, TicketView>::empty(),
    {
        DocTicketsRepo { tickets: KvStore::new() }
    }
}

impl TicketsRepo for DocTicketsRepo {
    closed spec fn inv(&self) -> bool {
        self.tickets.wf()
    }

    closed spec fn tickets_view(&self) -> Map<Seq<char>, TicketView> {
        self.tickets.view()
    }

    fn get_ticket(&self, id: &str) -> (r: Result<Ticket, AppError>) {
        match self.tickets.get(id) {
            Some(t) => Ok(t.clone()),
            None => Err(not_found_error("Ticket", id)),
        }
    }

    fn create_ticket(&mut self, ticket: Ticket) -> (r: Result<(), AppError>)
        ensures
            r is Err ==> old(self).tickets_view().contains_key(
                crate::strutil::spec_i64_decimal(ticket@.id as int),
            ),
    {
        let key = crate::strutil::i64_string(ticket.id);
        if self.tickets.contains(key.as_str()) {
            return Err(conflict_error("Ticket", key.as_str()));
        }
        let added = self.tickets.insert_new(key, ticket);
        proof {
            assert(added);
        }
        Ok(())
    }

    fn update_ticket(&mut self, id: &str, ticket: Ticket) -> (r: Result<(), AppError>) {
        if self.tickets.replace(id, ticket) {
            Ok(())
        } else {
            Err(not_found_error("Ticket", id))
        }
    }

    fn delete_ticket(&mut self, id: &str) -> (r: Result<(), AppError>) {
        if self.tickets.remove(id) {
            Ok(())
        } else {
            Err(not_found_error("Ticket", id))
        }
    }

    fn list_tickets(&self) -> (r: Result<Vec<Ticket>, AppError>) {
        Ok(self.tickets.values())
    }
}

/// The document-store backend: the shared principals collection plus one
/// collection each for projects and tickets.
pub struct DocDatabase {
    pub principals: DocPrincipalsRepo,
    pub projects_repo: DocProjectsRepo,
    pub tickets_repo: DocTicketsRepo,
}

impl DocDatabase {
    pub fn new() -> (r: Self)
        ensures
            r.inv(),
            r.principals.wf(),
            r.principals.docs_view() == Map::<Seq<char>, PrincipalDocView>::empty(),
            r.projects_repo.inv() && r.projects_repo.projects_view() == Map::<
                Seq<char>,
                ProjectView,
            >::empty(),
            r.tickets_repo.inv() && r.tickets_repo.tickets_view() == Map::<
                Seq<char>,
                TicketView,
            >::empty(),
    {
        DocDatabase {
            principals: DocPrincipalsRepo::new(),
            projects_repo: DocProjectsRepo::new(),
            tickets_repo: DocTicketsRepo::new(),
        }
    }
}

impl DatabaseInterface for DocDatabase {
    closed spec fn inv(&self) -> bool {
        true
    }

    /// Idempotent provisioning: the collections this model holds always
    /// exist, so there is nothing left to create.
    fn initialize(&self) -> (r: Result<(), AppError>) {
        Ok(())
    }

    fn begin_transaction(&self) -> (r: Result<(), AppError>) {
        Ok(())
    }

    fn commit_transaction(&self) -> (r: Result<(), AppError>) {
        Ok(())
    }

    fn rollback_transaction(&self) -> (r: Result<(), AppError>) {
        Ok(())
    }
}

} // verus!
