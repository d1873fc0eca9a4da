//! The entity types the repositories persist: principals (users and groups)
//! and the resources they control (projects, ticket groups, tickets).

use vstd::prelude::*;
use crate::perms::{AccessControlStore, StoreView};
use crate::schema;

verus! {

#[derive(Debug)]
pub struct PersonalInfo {
    pub name: String,
    pub gender: String,
    pub job_title: String,
    pub manager: Option<String>,
}

pub struct PersonalInfoView {
    pub name: Seq<char>,
    pub gender: Seq<char>,
    pub job_title: Seq<char>,
    pub manager: Option<Seq<char>>,
}

impl View for PersonalInfo {
    type V = PersonalInfoView;

    open spec fn view(&self) -> PersonalInfoView {
        PersonalInfoView {
            name: self.name@,
            gender: self.gender@,
            job_title: self.job_title@,
            manager: self.manager.deep_view(),
        }
    }
}

impl Clone for PersonalInfo {
    fn clone(&self) -> (r: Self)
        ensures
            r@ == self@,
    {
        PersonalInfo {
            name: self.name.clone(),
            gender: self.gender.clone(),
            job_title: self.job_title.clone(),
            manager: match &self.manager {
                Some(m) => Some(m.clone()),
                None => None,
            },
        }
    }
}

impl PersonalInfo {
    /// All fields empty, no manager.
    pub fn empty() -> (r: PersonalInfo)
        ensures
            r@.name.len() == 0,
            r@.gender.len() == 0,
            r@.job_title.len() == 0,
            r@.manager is None,
    {
        PersonalInfo {
            name: String::new(),
            gender: String::new(),
            job_title: String::new(),
            manager: None,
        }
    }
}

/// A user principal. The username is its identity key, immutable after
/// creation and stored case-normalized; a deactivated user must fail
/// authentication and authorization lookups.
#[derive(Debug)]
pub struct User {
    pub username: String,
    pub password_hash: String,
    /// Seconds since the Unix epoch.
    pub created_at: i64,
    /// The user that created this one, if not self-registered.
    pub created_by: Option<String>,
    pub deactivated: bool,
    pub personal: PersonalInfo,
    /// Free-form key/value pairs.
    pub metadata: Vec<(String, String)>,
}

pub struct UserView {
    pub username: Seq<char>,
    pub password_hash: Seq<char>,
    pub created_at: i64,
    pub created_by: Option<Seq<char>>,
    pub deactivated: bool,
    pub personal: PersonalInfoView,
    pub metadata: Seq<(Seq<char>, Seq<char>)>,
}

impl View for User {
    type V = UserView;

    open spec fn view(&self) -> UserView {
        UserView {
            username: self.username@,
            password_hash: self.password_hash@,
            created_at: self.created_at,
            created_by: self.created_by.deep_view(),
            deactivated: self.deactivated,
            personal: self.personal@,
            metadata: self.metadata.deep_view(),
        }
    }
}

impl Clone for User {
    fn clone(&self) -> (r: Self)
        ensures
            r@ == self@,
    {
        let mut metadata: Vec<(String, String)> = Vec::new();
        let n = self.metadata.len();
        let mut i: usize = 0;
        while i < n
            invariant
                n == self.metadata@.len(),
                0 <= i <= n,
                metadata@.len() == i,
                forall|j: int|
                    0 <= j < i ==> #[trigger] metadata@[j].deep_view()
                        == self.metadata@[j].deep_view(),
            decreases n - i,
        {
            let pair = &self.metadata[i];
            metadata.push((pair.0.clone(), pair.1.clone()));
            i = i + 1;
        }
        proof {
            assert forall|j: int| 0 <= j < n implies metadata.deep_view()[j]
                == self.metadata.deep_view()[j] by {
                assert(metadata@[j].deep_view() == self.metadata@[j].deep_view());
            }
            assert(metadata.deep_view() =~= self.metadata.deep_view());
        }
        User {
            username: self.username.clone(),
            password_hash: self.password_hash.clone(),
            created_at: self.created_at,
            created_by: match &self.created_by {
                Some(c) => Some(c.clone()),
                None => None,
            },
            deactivated: self.deactivated,
            personal: self.personal.clone(),
            metadata,
        }
    }
}

/// Metadata keys are pairwise distinct: the map discipline of the free-form
/// pairs. The library establishes it for every user it builds itself; a
/// caller constructing a user directly is expected to keep it.
pub open spec fn metadata_keys_unique(metadata: Seq<(Seq<char>, Seq<char>)>) -> bool {
    forall|i: int, j: int|
        0 <= i < j < metadata.len() ==> (#[trigger] metadata[i]).0 != (#[trigger] metadata[j]).0
}

/// Blank personal details.
pub open spec fn blank_personal() -> PersonalInfoView {
    PersonalInfoView {
        name: Seq::<char>::empty(),
        gender: Seq::<char>::empty(),
        job_title: Seq::<char>::empty(),
        manager: None,
    }
}

/// The record a fresh registration stores: active, self-registered, blank
/// personal details, and a single metadata entry recording the registration
/// instant.
pub open spec fn registered_user_view(
    username: Seq<char>,
    password_hash: Seq<char>,
    registered_at: Seq<char>,
) -> UserView {
    UserView {
        username,
        password_hash,
        created_at: 0,
        created_by: None,
        deactivated: false,
        personal: blank_personal(),
        metadata: seq![("registered_at"@, registered_at)],
    }
}

impl User {
    /// The user a fresh registration stores.
    pub fn from_schema(src: schema::User, registered_at: String) -> (r: User)
        ensures
            r@ == registered_user_view(src@.0, src@.1, registered_at@),
            metadata_keys_unique(r@.metadata),
    {
        let ghost at = registered_at@;
        let mut metadata: Vec<(String, String)> = Vec::new();
        metadata.push((String::from_str("registered_at"), registered_at));
        let r = User {
            username: src.username,
            password_hash: src.password_hash,
            created_at: 0,
            created_by: None,
            deactivated: false,
            personal: PersonalInfo::empty(),
            metadata,
        };
        proof {
            assert(r@.metadata =~= seq![("registered_at"@, at)]);
            assert(r@.personal.name =~= Seq::<char>::empty());
            assert(r@.personal.gender =~= Seq::<char>::empty());
            assert(r@.personal.job_title =~= Seq::<char>::empty());
        }
        r
    }
}

/// A group principal: an identifier, a display name, and its members.
#[derive(Debug)]
pub struct Group {
    pub gid: String,
    pub name: String,
    pub principals: Vec<String>,
}

pub struct GroupView {
    pub gid: Seq<char>,
    pub name: Seq<char>,
    pub principals: Seq<Seq<char>>,
}

impl View for Group {
    type V = GroupView;

    open spec fn view(&self) -> GroupView {
        GroupView { gid: self.gid@, name: self.name@, principals: self.principals.deep_view() }
    }
}

impl Clone for Group {
    fn clone(&self) -> (r: Self)
        ensures
            r@ == self@,
    {
        let principals = self.principals.clone();
        proof {
            assert(principals.deep_view() =~= self.principals.deep_view());
        }
        Group { gid: self.gid.clone(), name: self.name.clone(), principals }
    }
}

/// A group of tickets under one prefix, with its own access-control store.
#[derive(Debug)]
pub struct TicketGroup {
    pub prefix: String,
    pub acl: AccessControlStore,
}

pub struct TicketGroupView {
    pub prefix: Seq<char>,
    pub acl: StoreView,
}

impl View for TicketGroup {
    type V = TicketGroupView;

    open spec fn view(&self) -> TicketGroupView {
        TicketGroupView { prefix: self.prefix@, acl: self.acl@ }
    }
}

impl DeepView for TicketGroup {
    type V = TicketGroupView;

    open spec fn deep_view(&self) -> TicketGroupView {
        self.view()
    }
}

impl Clone for TicketGroup {
    fn clone(&self) -> (r: Self)
        ensures
            r@ == self@,
    {
        TicketGroup { prefix: self.prefix.clone(), acl: self.acl.clone() }
    }
}

/// A project: a resource with an access-control store and its ticket groups.
#[derive(Debug)]
pub struct Project {
    pub id: String,
    pub acl: AccessControlStore,
    pub tickets: Vec<TicketGroup>,
}

pub struct ProjectView {
    pub id: Seq<char>,
    pub acl: StoreView,
    pub tickets: Seq<TicketGroupView>,
}

impl View for Project {
    type V = ProjectView;

    open spec fn view(&self) -> ProjectView {
        ProjectView { id: self.id@, acl: self.acl@, tickets: self.tickets.deep_view() }
    }
}

impl Clone for Project {
    fn clone(&self) -> (r: Self)
        ensures
            r@ == self@,
    {
        let n = self.tickets.len();
        let mut tickets: Vec<TicketGroup> = Vec::new();
        let mut i: usize = 0;
        while i < n
            invariant
                n == self.tickets@.len(),
                0 <= i <= n,
                tickets@.len() == i,
                forall|j: int| 0 <= j < i ==> #[trigger] tickets@[j]@ == self.tickets@[j]@,
            decreases n - i,
        {
            tickets.push(self.tickets[i].clone());
            i = i + 1;
        }
        proof {
            assert forall|j: int| 0 <= j < n implies tickets.deep_view()[j]
                == self.tickets.deep_view()[j] by {
                assert(tickets@[j]@ == self.tickets@[j]@);
            }
            assert(tickets.deep_view() =~= self.tickets.deep_view());
        }
        Project { id: self.id.clone(), acl: self.acl.clone(), tickets }
    }
}

/// A ticket: severity, free text, creator, assignee (user or group), the
/// principals it mentions, and its modification history instants.
#[derive(Debug)]
pub struct Ticket {
    pub id: i64,
    pub title: String,
    pub severity: (u8, String),
    pub description: String,
    /// Always a user.
    pub created_by: String,
    /// A user or a group.
    pub assigned_to: String,
    /// Principals mentioned in the ticket.
    pub mentioned: Vec<String>,
    /// Seconds since the Unix epoch.
    pub last_modification: i64,
    /// Seconds since the Unix epoch.
    pub creation_date: i64,
}

pub struct TicketView {
    pub id: i64,
    pub title: Seq<char>,
    pub severity: (u8, Seq<char>),
    pub description: Seq<char>,
    pub created_by: Seq<char>,
    pub assigned_to: Seq<char>,
    pub mentioned: Seq<Seq<char>>,
    pub last_modification: i64,
    pub creation_date: i64,
}

impl View for Ticket {
    type V = TicketView;

    open spec fn view(&self) -> TicketView {
        TicketView {
            id: self.id,
            title: self.title@,
            severity: (self.severity.0, self.severity.1@),
            description: self.description@,
            created_by: self.created_by@,
            assigned_to: self.assigned_to@,
            mentioned: self.mentioned.deep_view(),
            last_modification: self.last_modification,
            creation_date: self.creation_date,
        }
    }
}

impl Clone for Ticket {
    fn clone(&self) -> (r: Self)
        ensures
            r@ == self@,
    {
        let mentioned = self.mentioned.clone();
        proof {
            assert(mentioned.deep_view() =~= self.mentioned.deep_view());
        }
        Ticket {
            id: self.id,
            title: self.title.clone(),
            severity: (self.severity.0, self.severity.1.clone()),
            description: self.description.clone(),
            created_by: self.created_by.clone(),
            assigned_to: self.assigned_to.clone(),
            mentioned,
            last_modification: self.last_modification,
            creation_date: self.creation_date,
        }
    }
}

} // verus!
