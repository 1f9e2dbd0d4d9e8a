//! Chat participants, known by their name.
use vstd::prelude::*;

verus! {

/// A participant of the group chat.
#[derive(Clone)]
pub struct User {
    pub name: String,
}

impl User {
    /// The user called `name`.
    pub fn from_name(name: String) -> (user: User)
        ensures
            user.name@ == name@,
    {
        User { name }
    }

    /// Two users are the same participant when their names are equal.
    pub fn is_equal_to(&self, user: &User) -> (same: bool)
        ensures
            same == (self.name@ == user.name@),
    {
        self.name == user.name
    }

    /// A copy of this user with an equal name.
    pub(crate) fn duplicate(&self) -> (copy: User)
        ensures
            copy.name@ == self.name@,
    {
        User { name: self.name.clone() }
    }
}

} // verus!
