//! The registry of names in use: a name can be held by one user at a time.
use vstd::prelude::*;
use vstd::hash_set::StringHashSet;
use crate::user::User;

verus! {

/// Why a user could not be added.
#[derive(Debug)]
pub enum UserRepoError {
    /// Another user already holds the name.
    UserAlreadyExists,
}

/// The text sent back to a client whose request was refused.
pub open spec fn error_text(e: UserRepoError) -> Seq<char> {
    match e {
        UserRepoError::UserAlreadyExists => "Already Exists"@,
    }
}

impl UserRepoError {
    /// The text that answers a refused request.
    pub fn message(&self) -> (text: String)
        ensures
            text@ == error_text(*self),
    {
        match self {
            UserRepoError::UserAlreadyExists => {
                let text = String::from_str("Already Exists");
                proof {
                    reveal_strlit("Already Exists");
                }
                text
            },
        }
    }
}

impl From<UserRepoError> for String {
    fn from(value: UserRepoError) -> (text: String)
        ensures
            text@ == error_text(value),
    {
        value.message()
    }
}

/// The names currently taken. Callers that share a registry between
/// threads hold it behind a lock.
pub struct UserRepo {
    users: StringHashSet,
}

impl View for UserRepo {
    type V = Set<Seq<char>>;

    /// The set of names in use.
    closed spec fn view(&self) -> Set<Seq<char>> {
        self.users@
    }
}

/// Whether a request to take `name` succeeds in the registry `names`.
pub open spec fn add_succeeds(names: Set<Seq<char>>, name: Seq<char>) -> bool {
    !names.contains(name)
}

/// The registry after a request to take `name`: the name is added when it
/// was free, and nothing changes when it was taken.
pub open spec fn after_add(names: Set<Seq<char>>, name: Seq<char>) -> Set<Seq<char>> {
    if add_succeeds(names, name) {
        names.insert(name)
    } else {
        names
    }
}

/// The registry after `name` is freed.
pub open spec fn after_remove(names: Set<Seq<char>>, name: Seq<char>) -> Set<Seq<char>> {
    names.remove(name)
}

impl UserRepo {
    /// A registry in which no name is taken.
    pub fn new() -> (repo: Self)
        ensures
            repo@ == Set::<Seq<char>>::empty(),
    {
        UserRepo { users: StringHashSet::new() }
    }

    /// Takes the user's name. Fails, and changes nothing, when the name is
    /// already taken.
    pub fn add_user(&mut self, user: &User) -> (result: Result<(), UserRepoError>)
        ensures
            result is Ok <==> add_succeeds(old(self)@, user.name@),
            final(self)@ == after_add(old(self)@, user.name@),
            result matches Err(e) ==> e == UserRepoError::UserAlreadyExists,
    {
        if self.users.contains(user.name.as_str()) {
            Err(UserRepoError::UserAlreadyExists)
        } else {
            self.users.insert(user.name.clone());
            Ok(())
        }
    }

    /// Frees the user's name; nothing else changes.
    pub fn remove_user(&mut self, user: User)
        ensures
            final(self)@ == after_remove(old(self)@, user.name@),
    {
        self.users.remove(user.name.as_str());
    }

    /// Whether `name` is taken.
    pub fn contains(&self, name: &str) -> (taken: bool)
        ensures
            taken == self@.contains(name@),
    {
        self.users.contains(name)
    }
}

impl Default for UserRepo {
    fn default() -> (repo: Self)
        ensures
            repo@ == Set::<Seq<char>>::empty(),
    {
        Self::new()
    }
}

/// Names are unique: once `add_user` has taken a name, a second request
/// for it fails and leaves the registry as it is.
pub proof fn law_second_add_is_refused(names: Set<Seq<char>>, name: Seq<char>)
    requires
        add_succeeds(names, name),
    ensures
        !add_succeeds(after_add(names, name), name),
        after_add(after_add(names, name), name) == after_add(names, name),
{
}

/// A name stays taken until it is removed: taking other names, or failed
/// requests, never free it.
pub proof fn law_taken_name_stays_taken(names: Set<Seq<char>>, name: Seq<char>, other: Seq<char>)
    requires
        names.contains(name),
    ensures
        after_add(names, other).contains(name),
        name != other ==> after_remove(names, other).contains(name),
{
}

/// Taking a free name with `add_user` and freeing it with `remove_user`
/// leaves the registry as it was.
pub proof fn law_add_then_remove_restores(names: Set<Seq<char>>, name: Seq<char>)
    requires
        add_succeeds(names, name),
    ensures
        after_remove(after_add(names, name), name) == names,
{
    assert(after_remove(after_add(names, name), name) =~= names);
}

/// After `remove_user`, a request for the freed name succeeds.
pub proof fn law_removed_name_can_be_taken(names: Set<Seq<char>>, name: Seq<char>)
    ensures
        add_succeeds(after_remove(names, name), name),
        after_add(after_remove(names, name), name) == after_remove(names, name).insert(name),
{
}

/// A request for one name, successful or not, and the removal of one name
/// do not change whether another name is taken.
pub proof fn law_other_names_unaffected(names: Set<Seq<char>>, name: Seq<char>, other: Seq<char>)
    requires
        name != other,
    ensures
        after_add(names, name).contains(other) == names.contains(other),
        after_remove(names, name).contains(other) == names.contains(other),
        add_succeeds(after_add(names, name), other) == add_succeeds(names, other),
{
}

/// A `String` has no spec-level constructor, so `from_spec` cannot name the
/// converted text; what `from` returns is stated by its own `ensures`.
impl vstd::std_specs::convert::FromSpecImpl<UserRepoError> for String {
    open spec fn obeys_from_spec() -> bool {
        false
    }

    open spec fn from_spec(value: UserRepoError) -> String {
        arbitrary()
    }
}

} // verus!
