//! The storage-agnostic repository contract: per-resource CRUD sub-contracts
//! and the database lifecycle. Every conforming backend satisfies the same
//! contracts, so a caller cannot tell backends apart except through latency
//! and persistence.

use vstd::prelude::*;
use crate::error::AppError;
use crate::models::{Group, GroupView, Project, ProjectView, Ticket, TicketView, User, UserView};
use crate::strutil::spec_i64_decimal;

verus! {

/// `v` holds exactly the values of `m`, each under a distinct key of `m`, in
/// some order.
pub open spec fn lists_map<T: View>(v: Seq<T>, m: Map<Seq<char>, T::V>) -> bool {
    &&& v.len() == m.len()
    &&& exists|ks: Seq<Seq<char>>|
        {
            &&& ks.no_duplicates()
            &&& ks.len() == v.len()
            &&& (forall|i: int|
                0 <= i < v.len() ==> m.contains_key(#[trigger] ks[i]) && v[i]@ == m[ks[i]])
            &&& (forall|k: Seq<char>| m.contains_key(k) ==> ks.contains(k))
        }
}


/// The outcome a lookup owes: the stored record under the key, or NotFound
/// exactly when the key is absent.
pub open spec fn get_outcome<E: View>(
    m: Map<Seq<char>, E::V>,
    id: Seq<char>,
    r: Result<E, AppError>,
) -> bool {
    match r {
        Ok(v) => m.contains_key(id) && v@ == m[id],
        Err(e) => e is NotFound && !m.contains_key(id),
    }
}

/// The outcome a create owes: on success the key was free and exactly this
/// record was added; a failure is a conflict and mutates nothing, and an
/// occupied key always fails.
pub open spec fn create_outcome<EV>(
    m0: Map<Seq<char>, EV>,
    m1: Map<Seq<char>, EV>,
    key: Seq<char>,
    value: EV,
    r: Result<(), AppError>,
) -> bool {
    &&& match r {
        Ok(()) => !m0.contains_key(key) && m1 == m0.insert(key, value),
        Err(e) => e is Conflict && m1 == m0,
    }
    &&& (m0.contains_key(key) ==> r is Err)
}

/// The outcome an update owes: the record under an existing key is replaced,
/// or NotFound exactly when the key is absent, mutating nothing.
pub open spec fn update_outcome<EV>(
    m0: Map<Seq<char>, EV>,
    m1: Map<Seq<char>, EV>,
    id: Seq<char>,
    value: EV,
    r: Result<(), AppError>,
) -> bool {
    match r {
        Ok(()) => m0.contains_key(id) && m1 == m0.insert(id, value),
        Err(e) => e is NotFound && !m0.contains_key(id) && m1 == m0,
    }
}

/// The outcome a delete owes: an existing key is removed, or NotFound
/// exactly when the key is absent, mutating nothing.
pub open spec fn delete_outcome<EV>(
    m0: Map<Seq<char>, EV>,
    m1: Map<Seq<char>, EV>,
    id: Seq<char>,
    r: Result<(), AppError>,
) -> bool {
    match r {
        Ok(()) => m0.contains_key(id) && m1 == m0.remove(id),
        Err(e) => e is NotFound && !m0.contains_key(id) && m1 == m0,
    }
}

/// The outcome a listing owes: it never fails and materializes exactly the
/// stored records.
pub open spec fn list_outcome<E: View>(m: Map<Seq<char>, E::V>, r: Result<Vec<E>, AppError>) -> bool {
    match r {
        Ok(v) => lists_map(v@, m),
        Err(_) => false,
    }
}

/// Users sub-contract: users keyed by their normalized username at creation
/// time; uniqueness is enforced atomically by `create_user`.
pub trait UsersRepo: Sized {
    spec fn inv(&self) -> bool;

    spec fn users_view(&self) -> Map<Seq<char>, UserView>;

    fn get_user(&self, id: &str) -> (r: Result<User, AppError>)
        requires
            self.inv(),
        ensures
            get_outcome(self.users_view(), id@, r),
    ;

    /// On success the user is stored under its username, which was free; a
    /// backend may also refuse a key its physical layout cannot admit, but a
    /// key that is already in use is always a conflict, and a failed create
    /// never mutates state.
    fn create_user(&mut self, user: User) -> (r: Result<(), AppError>)
        requires
            old(self).inv(),
        ensures
            final(self).inv(),
            create_outcome(
                old(self).users_view(),
                final(self).users_view(),
                user@.username,
                user@,
                r,
            ),
    ;

    fn update_user(&mut self, id: &str, user: User) -> (r: Result<(), AppError>)
        requires
            old(self).inv(),
        ensures
            final(self).inv(),
            update_outcome(old(self).users_view(), final(self).users_view(), id@, user@, r),
    ;

    fn delete_user(&mut self, id: &str) -> (r: Result<(), AppError>)
        requires
            old(self).inv(),
        ensures
            final(self).inv(),
            delete_outcome(old(self).users_view(), final(self).users_view(), id@, r),
    ;

    fn list_users(&self) -> (r: Result<Vec<User>, AppError>)
        requires
            self.inv(),
        ensures
            list_outcome(self.users_view(), r),
    ;
}

/// Groups sub-contract: groups keyed by their identifier.
pub trait GroupsRepo: Sized {
    spec fn inv(&self) -> bool;

    spec fn groups_view(&self) -> Map<Seq<char>, GroupView>;

    fn get_group(&self, id: &str) -> (r: Result<Group, AppError>)
        requires
            self.inv(),
        ensures
            get_outcome(self.groups_view(), id@, r),
    ;

    /// See `UsersRepo::create_user` for the conflict discipline.
    fn create_group(&mut self, group: Group) -> (r: Result<(), AppError>)
        requires
            old(self).inv(),
        ensures
            final(self).inv(),
            create_outcome(
                old(self).groups_view(),
                final(self).groups_view(),
                group@.gid,
                group@,
                r,
            ),
    ;

    fn update_group(&mut self, id: &str, group: Group) -> (r: Result<(), AppError>)
        requires
            old(self).inv(),
        ensures
            final(self).inv(),
            update_outcome(old(self).groups_view(), final(self).groups_view(), id@, group@, r),
    ;

    fn delete_group(&mut self, id: &str) -> (r: Result<(), AppError>)
        requires
            old(self).inv(),
        ensures
            final(self).inv(),
            delete_outcome(old(self).groups_view(), final(self).groups_view(), id@, r),
    ;

    fn list_groups(&self) -> (r: Result<Vec<Group>, AppError>)
        requires
            self.inv(),
        ensures
            list_outcome(self.groups_view(), r),
    ;
}

/// Projects sub-contract: projects keyed by their identifier.
pub trait ProjectsRepo: Sized {
    spec fn inv(&self) -> bool;

    spec fn projects_view(&self) -> Map<Seq<char>, ProjectView>;

    fn get_project(&self, id: &str) -> (r: Result<Project, AppError>)
        requires
            self.inv(),
        ensures
            get_outcome(self.projects_view(), id@, r),
    ;

    fn create_project(&mut self, project: Project) -> (r: Result<(), AppError>)
        requires
            old(self).inv(),
        ensures
            final(self).inv(),
            create_outcome(
                old(self).projects_view(),
                final(self).projects_view(),
                project@.id,
                project@,
                r,
            ),
    ;

    fn update_project(&mut self, id: &str, project: Project) -> (r: Result<(), AppError>)
        requires
            old(self).inv(),
        ensures
            final(self).inv(),
            update_outcome(
                old(self).projects_view(),
                final(self).projects_view(),
                id@,
                project@,
                r,
            ),
    ;

    fn delete_project(&mut self, id: &str) -> (r: Result<(), AppError>)
        requires
            old(self).inv(),
        ensures
            final(self).inv(),
            delete_outcome(old(self).projects_view(), final(self).projects_view(), id@, r),
    ;

    fn list_projects(&self) -> (r: Result<Vec<Project>, AppError>)
        requires
            self.inv(),
        ensures
            list_outcome(self.projects_view(), r),
    ;
}

/// Tickets sub-contract: tickets keyed by the decimal rendering of their
/// numeric identifier.
pub trait TicketsRepo: Sized {
    spec fn inv(&self) -> bool;

    spec fn tickets_view(&self) -> Map<Seq<char>, TicketView>;

    fn get_ticket(&self, id: &str) -> (r: Result<Ticket, AppError>)
        requires
            self.inv(),
        ensures
            get_outcome(self.tickets_view(), id@, r),
    ;

    fn create_ticket(&mut self, ticket: Ticket) -> (r: Result<(), AppError>)
        requires
            old(self).inv(),
        ensures
            final(self).inv(),
            create_outcome(
                old(self).tickets_view(),
                final(self).tickets_view(),
                spec_i64_decimal(ticket@.id as int),
                ticket@,
                r,
            ),
    ;

    fn update_ticket(&mut self, id: &str, ticket: Ticket) -> (r: Result<(), AppError>)
        requires
            old(self).inv(),
        ensures
            final(self).inv(),
            update_outcome(old(self).tickets_view(), final(self).tickets_view(), id@, ticket@, r),
    ;

    fn delete_ticket(&mut self, id: &str) -> (r: Result<(), AppError>)
        requires
            old(self).inv(),
        ensures
            final(self).inv(),
            delete_outcome(old(self).tickets_view(), final(self).tickets_view(), id@, r),
    ;

    fn list_tickets(&self) -> (r: Result<Vec<Ticket>, AppError>)
        requires
            self.inv(),
        ensures
            list_outcome(self.tickets_view(), r),
    ;
}

/// Database lifecycle: provisioning is idempotent and the transaction
/// bracket exists so callers can stay backend-agnostic; a backend without
/// multi-statement transactions may make all four no-ops, and none of them
/// mutates the stored data.
pub trait DatabaseInterface: Sized {
    spec fn inv(&self) -> bool;

    fn initialize(&self) -> (r: Result<(), AppError>)
        requires
            self.inv(),
        ensures
            r is Ok,
    ;

    fn begin_transaction(&self) -> (r: Result<(), AppError>)
        requires
            self.inv(),
        ensures
            r is Ok,
    ;

    fn commit_transaction(&self) -> (r: Result<(), AppError>)
        requires
            self.inv(),
        ensures
            r is Ok,
    ;

    fn rollback_transaction(&self) -> (r: Result<(), AppError>)
        requires
            self.inv(),
        ensures
            r is Ok,
    ;
}

} // verus!
