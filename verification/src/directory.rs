//! The user directory: an insert-or-update store of user rows keyed by the
//! identity provider's stable identifier.
//!
//! An upsert never creates a second row for a provider identifier: on
//! conflict it overwrites the mutable profile fields and leaves the row's
//! id, creation time and role untouched.  Roles change only through the
//! out-of-band administrative action, never through the login path.

use vstd::prelude::*;

use crate::models::{NewUser, NewUserView, Role, User, UserView};

verus! {

/// No two rows share a provider identifier.
pub open spec fn unique_channeli(s: Seq<UserView>) -> bool {
    forall|i: int, j: int|
        0 <= i < j < s.len() ==> s[i].channeli_id != s[j].channeli_id
}

/// Some row carries provider identifier `cid`.
pub open spec fn has_channeli(s: Seq<UserView>, cid: int) -> bool {
    exists|i: int| 0 <= i < s.len() && s[i].channeli_id == cid
}

/// The index of the row carrying provider identifier `cid`.
pub open spec fn channeli_index(s: Seq<UserView>, cid: int) -> int {
    choose|i: int| 0 <= i < s.len() && s[i].channeli_id == cid
}

/// Some row carries local id `id`.
pub open spec fn has_user_id(s: Seq<UserView>, id: int) -> bool {
    exists|i: int| 0 <= i < s.len() && s[i].id == id
}

/// The index of the row carrying local id `id`.
pub open spec fn user_id_index(s: Seq<UserView>, id: int) -> int {
    choose|i: int| 0 <= i < s.len() && s[i].id == id
}

/// An existing row after a conflicting upsert: the mutable profile fields
/// are overwritten, the id, creation time and role stay.
pub open spec fn merged_row(old_row: UserView, nu: NewUserView) -> UserView {
    UserView {
        id: old_row.id,
        name: nu.name,
        email: nu.email,
        phone_number: nu.phone_number,
        channeli_id: nu.channeli_id,
        display_picture: nu.display_picture,
        created_at: old_row.created_at,
        role: old_row.role,
    }
}

/// A row freshly created by an upsert: profile fields from the payload,
/// creation time now, and an ordinary role — elevation never comes from
/// the login path.
pub open spec fn fresh_row(nu: NewUserView, id: int, now: int) -> UserView {
    UserView {
        id: id,
        name: nu.name,
        email: nu.email,
        phone_number: nu.phone_number,
        channeli_id: nu.channeli_id,
        display_picture: nu.display_picture,
        created_at: now,
        role: Role::Standard,
    }
}

/// A row with its role replaced.
pub open spec fn row_with_role(u: UserView, role: Role) -> UserView {
    UserView { role: role, ..u }
}

/// How an upsert of `nu` at time `now` relates the directory contents
/// before (`pre`) and after (`post`), with `ret` the returned row.
pub open spec fn upsert_post(
    pre: Seq<UserView>,
    nu: NewUserView,
    post: Seq<UserView>,
    ret: UserView,
    now: int,
) -> bool {
    if has_channeli(pre, nu.channeli_id) {
        let i = channeli_index(pre, nu.channeli_id);
        &&& ret == merged_row(pre[i], nu)
        &&& post == pre.update(i, ret)
    } else {
        &&& ret == fresh_row(nu, ret.id, now)
        &&& post == pre.push(ret)
        &&& forall|j: int| 0 <= j < pre.len() ==> pre[j].id != ret.id
    }
}

/// An upsert keeps provider identifiers unique, and afterwards the
/// identifier it wrote is present, with the returned row stored under it.
pub proof fn lemma_upsert_preserves_unique(
    pre: Seq<UserView>,
    nu: NewUserView,
    post: Seq<UserView>,
    ret: UserView,
    now: int,
)
    requires
        unique_channeli(pre),
        upsert_post(pre, nu, post, ret, now),
    ensures
        unique_channeli(post),
        post.len() >= pre.len(),
        has_channeli(post, nu.channeli_id),
        post[channeli_index(post, nu.channeli_id)] == ret,
{
    if has_channeli(pre, nu.channeli_id) {
        let i = channeli_index(pre, nu.channeli_id);
        assert(0 <= i < pre.len() && pre[i].channeli_id == nu.channeli_id);
        assert forall|x: int, y: int| 0 <= x < y < post.len() implies post[x].channeli_id
            != post[y].channeli_id by {
            assert(pre[x].channeli_id != pre[y].channeli_id);
            if x != i {
                assert(post[x] == pre[x]);
            }
            if y != i {
                assert(post[y] == pre[y]);
            }
        }
        assert(post[i].channeli_id == nu.channeli_id);
        assert(has_channeli(post, nu.channeli_id));
        let ci = channeli_index(post, nu.channeli_id);
        assert(0 <= ci < post.len() && post[ci].channeli_id == nu.channeli_id);
        assert(ci == i) by {
            if ci != i {
                assert(post[ci].channeli_id != post[i].channeli_id);
            }
        }
    } else {
        let i = pre.len() as int;
        assert forall|x: int, y: int| 0 <= x < y < post.len() implies post[x].channeli_id
            != post[y].channeli_id by {
            if y < i {
                assert(post[x] == pre[x]);
                assert(post[y] == pre[y]);
                assert(pre[x].channeli_id != pre[y].channeli_id);
            } else {
                assert(post[x] == pre[x]);
                assert(post[y] == ret);
                assert(!has_channeli(pre, nu.channeli_id));
                assert(pre[x].channeli_id != nu.channeli_id);
            }
        }
        assert(post[i].channeli_id == nu.channeli_id);
        assert(has_channeli(post, nu.channeli_id));
        let ci = channeli_index(post, nu.channeli_id);
        assert(0 <= ci < post.len() && post[ci].channeli_id == nu.channeli_id);
        assert(ci == i) by {
            if ci != i {
                assert(post[ci].channeli_id != post[i].channeli_id);
            }
        }
    }
}

/// Two upserts for one provider identifier leave a single row for it: the
/// second rewrites the row that the first created or updated — the display
/// name is the second call's — while the id, creation time and role that
/// the first call left behind survive untouched.
pub proof fn lemma_upsert_same_provider_twice(
    s0: Seq<UserView>,
    nu1: NewUserView,
    nu2: NewUserView,
    s1: Seq<UserView>,
    r1: UserView,
    s2: Seq<UserView>,
    r2: UserView,
    t1: int,
    t2: int,
)
    requires
        unique_channeli(s0),
        nu2.channeli_id == nu1.channeli_id,
        upsert_post(s0, nu1, s1, r1, t1),
        upsert_post(s1, nu2, s2, r2, t2),
    ensures
        s2.len() == s1.len(),
        r2 == merged_row(r1, nu2),
        r2.id == r1.id,
        r2.name == nu2.name,
        r2.created_at == r1.created_at,
        r2.role == r1.role,
        has_channeli(s2, nu2.channeli_id),
        s2[channeli_index(s2, nu2.channeli_id)] == r2,
{
    lemma_upsert_preserves_unique(s0, nu1, s1, r1, t1);
    let i1 = channeli_index(s1, nu1.channeli_id);
    assert(s1[i1] == r1);
    assert(has_channeli(s1, nu2.channeli_id));
    assert(r2 == merged_row(s1[channeli_index(s1, nu2.channeli_id)], nu2));
    assert(s2 == s1.update(channeli_index(s1, nu2.channeli_id), r2));
    lemma_upsert_preserves_unique(s1, nu2, s2, r2, t2);
}

/// The user directory.  Rows are stored in creation order and are never
/// removed; local ids are assigned sequentially from 1.
pub struct UserDirectory {
    users: Vec<User>,
}

impl View for UserDirectory {
    type V = Seq<UserView>;

    closed spec fn view(&self) -> Seq<UserView> {
        self.users@.map_values(|u: User| u@)
    }
}

impl UserDirectory {
    /// The directory's internal invariant: provider identifiers are unique
    /// and the row at position `i` carries local id `i + 1`.
    pub closed spec fn wf(&self) -> bool {
        &&& unique_channeli(self@)
        &&& forall|i: int| 0 <= i < self@.len() ==> (#[trigger] self@[i].id) == i + 1
    }

    /// A well-formed directory never holds two rows for one provider
    /// identifier, nor two rows with one local id.
    pub proof fn lemma_wf_unique(&self)
        requires
            self.wf(),
        ensures
            unique_channeli(self@),
            forall|i: int, j: int| 0 <= i < j < self@.len() ==> self@[i].id != self@[j].id,
    {
    }

    /// An empty directory.
    pub fn new() -> (r: UserDirectory)
        ensures
            r.wf(),
            r@ == Seq::<UserView>::empty(),
    {
        let r = UserDirectory { users: Vec::new() };
        proof {
            assert(r@ =~= Seq::<UserView>::empty());
        }
        r
    }

    /// How many rows the directory holds.
    pub fn count(&self) -> (n: usize)
        ensures
            n == self@.len(),
    {
        self.users.len()
    }

    /// The row at a position, in storage order.
    pub fn row_at(&self, i: usize) -> (r: User)
        requires
            i < self@.len(),
        ensures
            r@ == self@[i as int],
    {
        self.users[i].clone()
    }

    /// Insert or update the row for `nu`'s provider identifier: on
    /// conflict the mutable profile fields are overwritten and the id,
    /// creation time and role stay; otherwise a fresh ordinary row is
    /// created with creation time `now`.  Returns the row as stored.
    pub fn upsert(&mut self, nu: NewUser, now: i64) -> (r: User)
        requires
            old(self).wf(),
            old(self)@.len() + 1 <= i32::MAX,
        ensures
            final(self).wf(),
            upsert_post(old(self)@, nu@, final(self)@, r@, now as int),
    {
        let n = self.users.len();
        let mut j: usize = 0;
        let mut found: Option<usize> = None;
        while j < n
            invariant
                n == self@.len(),
                self@.len() == self.users@.len(),
                0 <= j <= n,
                forall|k: int| 0 <= k < self@.len() ==> self@[k] == self.users@[k]@,
                match found {
                    Some(p) => 0 <= p < j && self@[p as int].channeli_id == nu.channeli_id as int,
                    None => forall|k: int|
                        0 <= k < j ==> self@[k].channeli_id != nu.channeli_id as int,
                },
            decreases n - j,
        {
            if found.is_none() && self.users[j].channeli_id == nu.channeli_id {
                found = Some(j);
            }
            j = j + 1;
        }
        match found {
            Some(p) => {
                let keep_id = self.users[p].id;
                let keep_created = self.users[p].created_at;
                let keep_role = self.users[p].role;
                let merged = User {
                    id: keep_id,
                    name: nu.name,
                    email: nu.email,
                    phone_number: nu.phone_number,
                    channeli_id: nu.channeli_id,
                    display_picture: nu.display_picture,
                    created_at: keep_created,
                    role: keep_role,
                };
                let ret = merged.clone();
                proof {
                    assert(has_channeli(old(self)@, nu.channeli_id as int));
                    let ci = channeli_index(old(self)@, nu.channeli_id as int);
                    assert(0 <= ci < old(self)@.len() && old(self)@[ci].channeli_id
                        == nu.channeli_id as int);
                    assert(ci == p as int);
                }
                self.users.set(p, merged);
                proof {
                    assert(self@ =~= old(self)@.update(p as int, ret@));
                    assert forall|x: int| 0 <= x < self@.len() implies self@[x].id == old(
                        self,
                    )@[x].id && self@[x].channeli_id == old(self)@[x].channeli_id by {
                        if x != p as int {
                            assert(self@[x] == old(self)@[x]);
                        }
                    }
                    assert forall|x: int| 0 <= x < self@.len() implies (#[trigger] self@[x].id)
                        == x + 1 by {
                        assert(old(self)@[x].id == x + 1);
                    }
                    assert forall|x: int, y: int| 0 <= x < y < self@.len() implies self@[x]
                        .channeli_id != self@[y].channeli_id by {
                        assert(old(self)@[x].channeli_id != old(self)@[y].channeli_id);
                    }
                }
                ret
            },
            None => {
                let id = (n + 1) as i32;
                let fresh = User {
                    id: id,
                    name: nu.name,
                    email: nu.email,
                    phone_number: nu.phone_number,
                    channeli_id: nu.channeli_id,
                    display_picture: nu.display_picture,
                    created_at: now,
                    role: Role::Standard,
                };
                let ret = fresh.clone();
                proof {
                    assert(!has_channeli(old(self)@, nu.channeli_id as int));
                }
                self.users.push(fresh);
                proof {
                    assert(self@ =~= old(self)@.push(ret@));
                    assert forall|x: int| 0 <= x < self@.len() implies (#[trigger] self@[x].id)
                        == x + 1 by {
                        if x < old(self)@.len() {
                            assert(self@[x] == old(self)@[x]);
                            assert(old(self)@[x].id == x + 1);
                        }
                    }
                    assert forall|x: int, y: int| 0 <= x < y < self@.len() implies self@[x]
                        .channeli_id != self@[y].channeli_id by {
                        if y < old(self)@.len() {
                            assert(old(self)@[x].channeli_id != old(self)@[y].channeli_id);
                        } else {
                            assert(self@[x] == old(self)@[x]);
                            assert(old(self)@[x].channeli_id != nu.channeli_id as int);
                        }
                    }
                    assert forall|x: int| 0 <= x < old(self)@.len() implies old(self)@[x].id
                        != ret@.id by {
                        assert(old(self)@[x].id == x + 1);
                    }
                }
                ret
            },
        }
    }

    /// The row carrying local id `id`, if any.
    pub fn lookup(&self, id: i32) -> (r: Option<User>)
        requires
            self.wf(),
        ensures
            r is Some <==> has_user_id(self@, id as int),
            r matches Some(u) ==> u@ == self@[user_id_index(self@, id as int)],
    {
        let n = self.users.len();
        let mut j: usize = 0;
        while j < n
            invariant
                self.wf(),
                n == self@.len(),
                self@.len() == self.users@.len(),
                0 <= j <= n,
                forall|k: int| 0 <= k < self@.len() ==> self@[k] == self.users@[k]@,
                forall|k: int| 0 <= k < j ==> self@[k].id != id as int,
            decreases n - j,
        {
            if self.users[j].id == id {
                let u = self.users[j].clone();
                proof {
                    assert(self@[j as int] == self.users@[j as int]@);
                    assert(self@[j as int].id == id as int);
                    assert(has_user_id(self@, id as int));
                    let ui = user_id_index(self@, id as int);
                    assert(0 <= ui < self@.len() && self@[ui].id == id as int);
                    assert(ui == j as int);
                }
                return Some(u);
            }
            j = j + 1;
        }
        None
    }

    /// Out-of-band administrative action: replace the role of the row
    /// carrying local id `id`.  Reports whether such a row exists; the
    /// login path never reaches this.
    pub fn set_role(&mut self, id: i32, role: Role) -> (r: bool)
        requires
            old(self).wf(),
        ensures
            final(self).wf(),
            r == has_user_id(old(self)@, id as int),
            r ==> final(self)@ == old(self)@.update(
                user_id_index(old(self)@, id as int),
                row_with_role(old(self)@[user_id_index(old(self)@, id as int)], role),
            ),
            !r ==> final(self)@ == old(self)@,
    {
        let n = self.users.len();
        let mut j: usize = 0;
        while j < n
            invariant
                old(self).wf(),
                *self == *old(self),
                n == self@.len(),
                self@.len() == self.users@.len(),
                0 <= j <= n,
                forall|k: int| 0 <= k < self@.len() ==> self@[k] == self.users@[k]@,
                forall|k: int| 0 <= k < j ==> self@[k].id != id as int,
            decreases n - j,
        {
            if self.users[j].id == id {
                let mut u = self.users[j].clone();
                u.role = role;
                proof {
                    assert(self@[j as int] == self.users@[j as int]@);
                    assert(self@[j as int].id == id as int);
                    assert(has_user_id(old(self)@, id as int));
                    let ui = user_id_index(old(self)@, id as int);
                    assert(0 <= ui < old(self)@.len() && old(self)@[ui].id == id as int);
                    assert(ui == j as int);
                    assert(u@ == row_with_role(old(self)@[j as int], role));
                }
                self.users.set(j, u);
                proof {
                    assert(self@ =~= old(self)@.update(
                        j as int,
                        row_with_role(old(self)@[j as int], role),
                    ));
                    assert forall|x: int| 0 <= x < self@.len() implies self@[x].id == old(
                        self,
                    )@[x].id && self@[x].channeli_id == old(self)@[x].channeli_id by {
                        if x != j as int {
                            assert(self@[x] == old(self)@[x]);
                        }
                    }
                    assert forall|x: int| 0 <= x < self@.len() implies (#[trigger] self@[x].id)
                        == x + 1 by {
                        assert(old(self)@[x].id == x + 1);
                    }
                    assert forall|x: int, y: int| 0 <= x < y < self@.len() implies self@[x]
                        .channeli_id != self@[y].channeli_id by {
                        assert(old(self)@[x].channeli_id != old(self)@[y].channeli_id);
                    }
                }
                return true;
            }
            j = j + 1;
        }
        false
    }
}

} // verus!
