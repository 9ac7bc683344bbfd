//! A verified model of the `users` table: rows in storage order, keys
//! assigned by the store as successive integers starting at one, rows
//! never updated or deleted. Startup initialization (create the table if
//! it is missing, keep it untouched if it is there) is modelled by
//! [`table_after_init`] and shown idempotent.

use vstd::prelude::*;

use crate::user::{views, User};

verus! {

/// Keys as the store assigns them: row `i` (from zero) carries key
/// `i + 1`.
pub open spec fn ids_sequential(s: Seq<(u64, Seq<char>)>) -> bool {
    forall|i: int| 0 <= i < s.len() ==> (#[trigger] s[i]).0 as int == i + 1
}

/// The table contents after startup initialization: a missing table is
/// created empty, an existing one is kept exactly as it is.
pub open spec fn table_after_init(t: Option<Seq<(u64, Seq<char>)>>) -> Seq<(u64, Seq<char>)> {
    match t {
        None => Seq::empty(),
        Some(rows) => rows,
    }
}

/// Initializing storage that was already initialized changes nothing:
/// however a table came to exist, a second startup keeps it exactly.
pub proof fn lemma_init_idempotent(t: Option<Seq<(u64, Seq<char>)>>)
    ensures
        table_after_init(Some(table_after_init(t))) == table_after_init(t),
{
}

/// Whether some row of a listing carries the given username.
pub open spec fn lists_username(s: Seq<(u64, Seq<char>)>, name: Seq<char>) -> bool {
    exists|i: int| 0 <= i < s.len() && (#[trigger] s[i]).1 == name
}

/// A created row is listed: whatever the table held before, after a row
/// with the given username is appended, some row of the listing carries
/// that username.
pub proof fn lemma_created_user_listed(s: Seq<(u64, Seq<char>)>, id: u64, name: Seq<char>)
    ensures
        lists_username(s.push((id, name)), name),
{
    assert(s.push((id, name))[s.len() as int].1 == name);
}

/// Identical usernames coexist: appending two rows with the same username
/// leaves both in the listing, at distinct positions and in insertion
/// order.
pub proof fn lemma_duplicate_usernames_coexist(
    s: Seq<(u64, Seq<char>)>,
    id1: u64,
    id2: u64,
    name: Seq<char>,
)
    ensures
        s.push((id1, name)).push((id2, name)).len() == s.len() + 2,
        s.push((id1, name)).push((id2, name))[s.len() as int] == (id1, name),
        s.push((id1, name)).push((id2, name))[s.len() as int + 1] == (id2, name),
{
}

/// The users table: rows in storage order, with the keys the store
/// assigned.
pub struct Store {
    users: Vec<User>,
}

impl View for Store {
    type V = Seq<(u64, Seq<char>)>;

    closed spec fn view(&self) -> Seq<(u64, Seq<char>)> {
        views(self.users@)
    }
}

impl Store {
    /// Keys are assigned sequentially from one, so they are unique and
    /// stable once assigned.
    pub open spec fn wf(&self) -> bool {
        ids_sequential(self@)
    }

    /// An empty table.
    pub fn new() -> (s: Store)
        ensures
            s@ == Seq::<(u64, Seq<char>)>::empty(),
            s.wf(),
    {
        let s = Store { users: Vec::new() };
        proof {
            assert(s@ =~= Seq::<(u64, Seq<char>)>::empty());
        }
        s
    }

    /// Startup initialization against storage that may or may not already
    /// hold a table: a missing table is created empty, an existing one is
    /// kept exactly.
    pub fn init(existing: Option<Store>) -> (s: Store)
        requires
            existing matches Some(st) ==> st.wf(),
        ensures
            existing matches None ==> s@ == table_after_init(None),
            existing matches Some(st) ==> s@ == table_after_init(Some(st@)),
            s.wf(),
    {
        match existing {
            None => Store::new(),
            Some(st) => st,
        }
    }

    /// The rows already in the table, in storage order, for rebuilding
    /// the model from fetched rows.
    pub fn from_users(users: Vec<User>) -> (s: Store)
        requires
            ids_sequential(views(users@)),
        ensures
            s@ == views(users@),
            s.wf(),
    {
        Store { users }
    }

    /// The rows, in storage order.
    pub fn users(&self) -> (r: &Vec<User>)
        ensures
            views(r@) == self@,
    {
        &self.users
    }

    /// How many rows the table holds.
    pub fn len(&self) -> (n: usize)
        ensures
            n == self@.len(),
    {
        self.users.len()
    }

    /// Creates a row: the store assigns the next key, appends the row,
    /// and reports the key it assigned.
    pub fn insert(&mut self, username: String) -> (id: u64)
        requires
            old(self).wf(),
            old(self)@.len() < u64::MAX,
        ensures
            id as int == old(self)@.len() + 1,
            final(self)@ == old(self)@.push((id, username@)),
            final(self).wf(),
    {
        let n = self.users.len();
        let id = n as u64 + 1;
        let ghost pre: Seq<User> = self.users@;
        self.users.push(User { id, username });
        proof {
            assert(views(self.users@) =~= views(pre).push((id, username@)));
        }
        id
    }
}

} // verus!
