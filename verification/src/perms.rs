//! Permission bit-set and access-control lists. A subject's effective
//! permission for a resource is the bitwise union of every list entry that
//! names the subject or one of its groups; there is no deny entry, access is
//! purely additive.

use vstd::prelude::*;

verus! {

/// No permission.
pub const NONE: u8 = 0;

/// Fetch a single resource.
pub const FETCH: u8 = 1;

/// Enumerate resources.
pub const LIST: u8 = 2;

/// Receive notifications.
pub const NOTIFY: u8 = 4;

/// Create resources.
pub const CREATE: u8 = 8;

/// Modify resources; deletion is included.
pub const MODIFY: u8 = 16;

/// First application-defined permission.
pub const CUSTOM1: u8 = 32;

/// Second application-defined permission.
pub const CUSTOM2: u8 = 64;

/// Read access: the union of FETCH, LIST and NOTIFY.
pub const READ: u8 = FETCH | LIST | NOTIFY;

/// Write access: the union of CREATE, MODIFY and READ.
pub const WRITE: u8 = CREATE | MODIFY | READ;

/// All permissions: the union of READ, WRITE, CUSTOM1 and CUSTOM2.
pub const ROOT: u8 = READ | WRITE | CUSTOM1 | CUSTOM2;

/// The default permission grants nothing.
pub const DEFAULT: u8 = NONE;

/// The composite permissions are literal unions of their constituents.
pub proof fn lemma_composites_are_unions()
    ensures
        READ == FETCH | LIST | NOTIFY,
        WRITE == CREATE | MODIFY | READ,
        ROOT == READ | WRITE | CUSTOM1 | CUSTOM2,
        DEFAULT == NONE,
{
}

/// A permission bit-set.
#[derive(Clone, Copy, Debug, PartialEq, Eq, Hash, Structural)]
pub struct Permissions {
    pub bits: u8,
}

impl Permissions {
    pub fn from_bits(bits: u8) -> (r: Permissions)
        ensures
            r.bits == bits,
    {
        Permissions { bits }
    }

    pub fn empty() -> (r: Permissions)
        ensures
            r.bits == NONE,
    {
        Permissions { bits: NONE }
    }

    /// The union of two permission sets.
    pub fn union(self, other: Permissions) -> (r: Permissions)
        ensures
            r.bits == self.bits | other.bits,
    {
        Permissions { bits: self.bits | other.bits }
    }

    /// Whether every bit of `other` is set in `self`.
    pub fn contains(self, other: Permissions) -> (r: bool)
        ensures
            r == (self.bits & other.bits == other.bits),
    {
        self.bits & other.bits == other.bits
    }

    pub fn is_empty(self) -> (r: bool)
        ensures
            r == (self.bits == NONE),
    {
        self.bits == 0
    }
}

impl Default for Permissions {
    /// The default permission set grants nothing.
    fn default() -> (r: Permissions)
        ensures
            r.bits == NONE,
    {
        Permissions { bits: NONE }
    }
}

/// One access-control entry: a permission bit-set and the principals it is
/// granted to.
#[derive(Debug)]
pub struct AccessControlList {
    pub permissions: Permissions,
    pub principals: Vec<String>,
}

/// Ghost form of an access-control entry.
pub struct AclView {
    pub permissions: u8,
    pub principals: Seq<Seq<char>>,
}

impl View for AccessControlList {
    type V = AclView;

    open spec fn view(&self) -> AclView {
        AclView { permissions: self.permissions.bits, principals: self.principals.deep_view() }
    }
}

impl DeepView for AccessControlList {
    type V = AclView;

    open spec fn deep_view(&self) -> AclView {
        self.view()
    }
}

impl Clone for AccessControlList {
    fn clone(&self) -> (r: Self)
        ensures
            r@ == self@,
    {
        let principals = self.principals.clone();
        proof {
            assert(principals.deep_view() =~= self.principals.deep_view());
        }
        AccessControlList { permissions: self.permissions, principals }
    }
}

/// An ordered list of access-control entries plus the instant of the last
/// mutation (seconds since the Unix epoch).
#[derive(Debug)]
pub struct AccessControlStore {
    pub list: Vec<AccessControlList>,
    pub last_mod_date: i64,
}

/// Ghost form of an access-control store.
pub struct StoreView {
    pub list: Seq<AclView>,
    pub last_mod_date: i64,
}

impl View for AccessControlStore {
    type V = StoreView;

    open spec fn view(&self) -> StoreView {
        StoreView { list: self.list.deep_view(), last_mod_date: self.last_mod_date }
    }
}

impl DeepView for AccessControlStore {
    type V = StoreView;

    open spec fn deep_view(&self) -> StoreView {
        self.view()
    }
}

impl Clone for AccessControlStore {
    fn clone(&self) -> (r: Self)
        ensures
            r@ == self@,
    {
        let n = self.list.len();
        let mut list: Vec<AccessControlList> = Vec::new();
        let mut i: usize = 0;
        while i < n
            invariant
                n == self.list@.len(),
                0 <= i <= n,
                list@.len() == i,
                forall|j: int| 0 <= j < i ==> #[trigger] list@[j]@ == self.list@[j]@,
            decreases n - i,
        {
            list.push(self.list[i].clone());
            i = i + 1;
        }
        proof {
            assert forall|j: int| 0 <= j < n implies list.deep_view()[j]
                == self.list.deep_view()[j] by {
                assert(list@[j]@ == self.list@[j]@);
            }
            assert(list.deep_view() =~= self.list.deep_view());
        }
        AccessControlStore { list, last_mod_date: self.last_mod_date }
    }
}

impl AccessControlStore {
    pub fn new() -> (r: AccessControlStore)
        ensures
            r@.list.len() == 0,
            r@.last_mod_date == 0,
    {
        AccessControlStore { list: Vec::new(), last_mod_date: 0 }
    }
}

impl Default for AccessControlStore {
    /// An empty store, never modified.
    fn default() -> (r: AccessControlStore)
        ensures
            r@.list.len() == 0,
            r@.last_mod_date == 0,
    {
        AccessControlStore::new()
    }
}

/// Whether an entry applies to the subject: the entry names the subject
/// itself or one of the subject's groups.
pub open spec fn acl_matches(acl: AclView, subject: Seq<char>, groups: Seq<Seq<char>>) -> bool {
    acl.principals.contains(subject) || exists|i: int|
        0 <= i < acl.principals.len() && groups.contains(#[trigger] acl.principals[i])
}

/// The union of the permission bits of every entry that applies.
pub open spec fn effective_bits(list: Seq<AclView>, subject: Seq<char>, groups: Seq<Seq<char>>) -> u8
    decreases list.len(),
{
    if list.len() == 0 {
        NONE
    } else {
        effective_bits(list.drop_last(), subject, groups) | (if acl_matches(
            list.last(),
            subject,
            groups,
        ) {
            list.last().permissions
        } else {
            NONE
        })
    }
}

fn acl_applies(acl: &AccessControlList, subject: &str, groups: &Vec<String>) -> (r: bool)
    ensures
        r == acl_matches(acl@, subject@, groups.deep_view()),
{
    let n = acl.principals.len();
    let mut i: usize = 0;
    while i < n
        invariant
            n == acl.principals@.len(),
            0 <= i <= n,
            forall|j: int| #![trigger acl.principals.deep_view()[j]]
                0 <= j < i ==> acl.principals.deep_view()[j] != subject@ && !groups.deep_view()
                    .contains(acl.principals.deep_view()[j]),
        decreases n - i,
    {
        let p = &acl.principals[i];
        if crate::strutil::str_equal(p.as_str(), subject) {
            proof {
                assert(acl@.principals[i as int] == subject@);
            }
            return true;
        }
        if crate::strutil::contains_str(groups, p.as_str()) {
            proof {
                assert(groups.deep_view().contains(acl@.principals[i as int]));
            }
            return true;
        }
        i = i + 1;
    }
    proof {
        assert(!acl@.principals.contains(subject@));
    }
    false
}

/// The bitwise union of the permissions of every entry naming the subject or
/// one of its groups; NONE when no entry matches.
pub fn effective_permissions(
    store: &AccessControlStore,
    subject: &str,
    subject_groups: &Vec<String>,
) -> (r: Permissions)
    ensures
        r.bits == effective_bits(store@.list, subject@, subject_groups.deep_view()),
{
    let ghost gl = store@.list;
    let ghost gs = subject@;
    let ghost gg = subject_groups.deep_view();
    let n = store.list.len();
    let mut bits: u8 = 0;
    let mut i: usize = 0;
    while i < n
        invariant
            n == store.list@.len(),
            gl == store@.list,
            gs == subject@,
            gg == subject_groups.deep_view(),
            0 <= i <= n,
            bits == effective_bits(gl.take(i as int), gs, gg),
        decreases n - i,
    {
        proof {
            assert(gl.take(i + 1).drop_last() =~= gl.take(i as int));
            assert(gl.take(i + 1).last() == gl[i as int]);
            assert(gl[i as int] == store.list[i as int]@);
        }
        if acl_applies(&store.list[i], subject, subject_groups) {
            bits = bits | store.list[i].permissions.bits;
        } else {
            proof {
                assert(bits | NONE == bits) by (bit_vector);
            }
        }
        i = i + 1;
    }
    proof {
        assert(gl.take(n as int) =~= gl);
    }
    Permissions { bits }
}

/// Appends an entry granting `permission` to `principals` and stamps the
/// store with the instant of the change.
pub fn grant(
    store: &mut AccessControlStore,
    permission: Permissions,
    principals: Vec<String>,
    now: i64,
)
    ensures
        final(store)@.list == old(store)@.list.push(
            AclView { permissions: permission.bits, principals: principals.deep_view() },
        ),
        final(store)@.last_mod_date == now,
{
    let ghost pv = principals.deep_view();
    store.list.push(AccessControlList { permissions: permission, principals });
    store.last_mod_date = now;
    proof {
        assert(final(store)@.list =~= old(store)@.list.push(
            AclView { permissions: permission.bits, principals: pv },
        ));
    }
}

/// Appending one entry adds exactly that entry's bits when it matches the
/// subject, and nothing otherwise.
pub proof fn lemma_effective_push(
    list: Seq<AclView>,
    acl: AclView,
    subject: Seq<char>,
    groups: Seq<Seq<char>>,
)
    ensures
        effective_bits(list.push(acl), subject, groups) == effective_bits(list, subject, groups)
            | (if acl_matches(acl, subject, groups) {
            acl.permissions
        } else {
            NONE
        }),
{
    assert(list.push(acl).drop_last() =~= list);
    assert(list.push(acl).last() == acl);
}

/// Granting the same entry twice yields the same effective permissions as
/// granting it once.
pub proof fn lemma_grant_idempotent(
    list: Seq<AclView>,
    acl: AclView,
    subject: Seq<char>,
    groups: Seq<Seq<char>>,
)
    ensures
        effective_bits(list.push(acl).push(acl), subject, groups) == effective_bits(
            list.push(acl),
            subject,
            groups,
        ),
{
    lemma_effective_push(list, acl, subject, groups);
    lemma_effective_push(list.push(acl), acl, subject, groups);
    let e = effective_bits(list, subject, groups);
    let m = if acl_matches(acl, subject, groups) {
        acl.permissions
    } else {
        NONE
    };
    assert((e | m) | m == e | m) by (bit_vector);
}

/// The order of two grants does not change the effective permissions.
pub proof fn lemma_grant_commutative(
    list: Seq<AclView>,
    a: AclView,
    b: AclView,
    subject: Seq<char>,
    groups: Seq<Seq<char>>,
)
    ensures
        effective_bits(list.push(a).push(b), subject, groups) == effective_bits(
            list.push(b).push(a),
            subject,
            groups,
        ),
{
    lemma_effective_push(list, a, subject, groups);
    lemma_effective_push(list, b, subject, groups);
    lemma_effective_push(list.push(a), b, subject, groups);
    lemma_effective_push(list.push(b), a, subject, groups);
    let e = effective_bits(list, subject, groups);
    let ma = if acl_matches(a, subject, groups) {
        a.permissions
    } else {
        NONE
    };
    let mb = if acl_matches(b, subject, groups) {
        b.permissions
    } else {
        NONE
    };
    assert((e | ma) | mb == (e | mb) | ma) by (bit_vector);
}

/// Granting CREATE and then MODIFY to the same principals yields the same
/// effective permissions as granting WRITE once, restricted to the bits that
/// were actually requested (the prior effective bits plus CREATE and MODIFY).
pub proof fn lemma_separate_grants_equal_composite(
    list: Seq<AclView>,
    principals: Seq<Seq<char>>,
    subject: Seq<char>,
    groups: Seq<Seq<char>>,
)
    ensures
        ({
            let c = AclView { permissions: CREATE, principals };
            let m = AclView { permissions: MODIFY, principals };
            let w = AclView { permissions: WRITE, principals };
            let e = effective_bits(list, subject, groups);
            effective_bits(list.push(c).push(m), subject, groups) == effective_bits(
                list.push(w),
                subject,
                groups,
            ) & (e | CREATE | MODIFY)
        }),
{
    let c = AclView { permissions: CREATE, principals };
    let m = AclView { permissions: MODIFY, principals };
    let w = AclView { permissions: WRITE, principals };
    let e = effective_bits(list, subject, groups);
    lemma_effective_push(list, c, subject, groups);
    lemma_effective_push(list.push(c), m, subject, groups);
    lemma_effective_push(list, w, subject, groups);
    assert(CREATE == 8 && MODIFY == 16 && NONE == 0);
    assert(1u8 | 2u8 | 4u8 == 7u8) by (bit_vector);
    assert(8u8 | 16u8 | 7u8 == 31u8) by (bit_vector);
    assert(WRITE == 31);
    if acl_matches(c, subject, groups) {
        assert(acl_matches(m, subject, groups) && acl_matches(w, subject, groups));
        assert(effective_bits(list.push(c).push(m), subject, groups) == (e | 8u8) | 16u8);
        assert(effective_bits(list.push(w), subject, groups) == e | 31u8);
        assert((e | 8u8) | 16u8 == (e | 31u8) & ((e | 8u8 | 16u8))) by (bit_vector);
    } else {
        assert(!acl_matches(m, subject, groups) && !acl_matches(w, subject, groups));
        assert(effective_bits(list.push(c).push(m), subject, groups) == (e | 0u8) | 0u8);
        assert(effective_bits(list.push(w), subject, groups) == e | 0u8);
        assert((e | 0u8) | 0u8 == (e | 0u8) & ((e | 8u8 | 16u8))) by (bit_vector);
    }
}

/// The list without every entry that grants exactly `perms` to exactly
/// `principals`; other entries keep their order.
pub open spec fn without_entry(
    list: Seq<AclView>,
    perms: u8,
    principals: Seq<Seq<char>>,
) -> Seq<AclView>
    decreases list.len(),
{
    if list.len() == 0 {
        list
    } else {
        let rest = without_entry(list.drop_last(), perms, principals);
        if list.last().permissions == perms && list.last().principals == principals {
            rest
        } else {
            rest.push(list.last())
        }
    }
}

/// Removes every entry that grants exactly `permission` to exactly
/// `principals` and stamps the store with the instant of the change.
pub fn revoke(
    store: &mut AccessControlStore,
    permission: Permissions,
    principals: &Vec<String>,
    now: i64,
)
    ensures
        final(store)@.list == without_entry(
            old(store)@.list,
            permission.bits,
            principals.deep_view(),
        ),
        final(store)@.last_mod_date == now,
{
    let ghost gl = store@.list;
    let ghost pv = principals.deep_view();
    let n = store.list.len();
    let mut kept: Vec<AccessControlList> = Vec::new();
    let mut i: usize = 0;
    while i < n
        invariant
            n == store.list@.len(),
            gl == store@.list,
            pv == principals.deep_view(),
            0 <= i <= n,
            kept.deep_view() == without_entry(gl.take(i as int), permission.bits, pv),
        decreases n - i,
    {
        proof {
            assert(gl.take(i + 1).drop_last() =~= gl.take(i as int));
            assert(gl.take(i + 1).last() == gl[i as int]);
            assert(gl[i as int] == store.list[i as int]@);
        }
        let entry = &store.list[i];
        let same = entry.permissions.bits == permission.bits && crate::strutil::vec_str_equal(
            &entry.principals,
            principals,
        );
        if !same {
            kept.push(entry.clone());
            proof {
                assert(kept.deep_view() =~= without_entry(
                    gl.take(i + 1),
                    permission.bits,
                    pv,
                ));
            }
        }
        i = i + 1;
    }
    proof {
        assert(gl.take(n as int) =~= gl);
    }
    store.list = kept;
    store.last_mod_date = now;
}

} // verus!
