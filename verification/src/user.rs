//! The one entity the service stores: a user with a server-assigned key
//! and a username.

use vstd::prelude::*;

verus! {

/// A row of the `users` table: a server-assigned primary key and a
/// username. Usernames carry no uniqueness or length constraint.
pub struct User {
    pub id: u64,
    pub username: String,
}

impl View for User {
    type V = (u64, Seq<char>);

    open spec fn view(&self) -> (u64, Seq<char>) {
        (self.id, self.username@)
    }
}

/// The views of a sequence of users, in order.
pub open spec fn views(s: Seq<User>) -> Seq<(u64, Seq<char>)> {
    s.map_values(|u: User| u@)
}

} // verus!
