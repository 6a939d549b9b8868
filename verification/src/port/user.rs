//! The store of users and the service on top of it.

use vstd::prelude::*;

use crate::domain::user::{Error, User, UserView};
use crate::store::reference::MAX_ID;

verus! {

/// What looking for the user with this id gives.
pub open spec fn find_user(users: Seq<UserView>, id: i32) -> Result<UserView, Error> {
    if 1 <= id <= users.len() {
        Ok(users[id - 1])
    } else {
        Err(Error::UserNotFound(id))
    }
}

/// The user as the store keeps it once it is added: under the next id.
pub open spec fn added_user(users: Seq<UserView>, given: UserView) -> UserView {
    UserView { id: Some((users.len() + 1) as i32), name: given.name }
}

/// A store of users. A store may fail on its own account, as `Unexpected`,
/// unless it is reliable.
pub trait UserRepository {
    /// The users that the store holds, in the order in which they came.
    spec fn users(&self) -> Seq<UserView>;

    /// What the store needs to hold of itself to work, and keeps.
    spec fn sound(&self) -> bool;

    /// The store never fails on its own account.
    spec fn reliable(&self) -> bool;

    /// The user stored under `id`, or `UserNotFound(id)`.
    fn get_user_by_id(&self, id: i32) -> (found: Result<User, Error>)
        requires
            self.sound(),
        ensures
            match found {
                Ok(u) => find_user(self.users(), id) == Ok::<_, Error>(u@),
                Err(e) => find_user(self.users(), id) == Err::<UserView, _>(e) || (e
                    == Error::Unexpected && !self.reliable()),
            },
    ;

    /// Stores a new user under the next id; the id that `user` carries is
    /// ignored. Fails as `Unexpected`, and changes nothing, when no id is
    /// left.
    fn create_user(&mut self, user: User) -> (stored: Result<User, Error>)
        requires
            old(self).sound(),
        ensures
            final(self).sound(),
            final(self).reliable() == old(self).reliable(),
            match stored {
                Ok(u) => {
                    &&& old(self).users().len() < MAX_ID
                    &&& u@ == added_user(old(self).users(), user@)
                    &&& final(self).users() == old(self).users().push(u@)
                },
                Err(e) => {
                    &&& e == Error::Unexpected
                    &&& old(self).users().len() >= MAX_ID || !old(self).reliable()
                    &&& final(self).users() == old(self).users()
                },
            },
    ;
}

/// What callers are offered: looking a user up, and registering one.
pub trait UserService {
    /// The users that the service knows, in the order in which they came.
    spec fn known(&self) -> Seq<UserView>;

    /// What the service needs to hold of itself to work, and keeps.
    spec fn sound(&self) -> bool;

    /// The store of the service never fails on its own account.
    spec fn reliable(&self) -> bool;

    /// The user stored under `id`, or `UserNotFound(id)`.
    fn get_user(&self, id: i32) -> (found: Result<User, Error>)
        requires
            self.sound(),
        ensures
            match found {
                Ok(u) => find_user(self.known(), id) == Ok::<_, Error>(u@),
                Err(e) => find_user(self.known(), id) == Err::<UserView, _>(e) || (e
                    == Error::Unexpected && !self.reliable()),
            },
    ;

    /// Registers a new user under the next id.
    fn create_user(&mut self, user: User) -> (stored: Result<User, Error>)
        requires
            old(self).sound(),
        ensures
            final(self).sound(),
            final(self).reliable() == old(self).reliable(),
            match stored {
                Ok(u) => {
                    &&& old(self).known().len() < MAX_ID
                    &&& u@ == added_user(old(self).known(), user@)
                    &&& final(self).known() == old(self).known().push(u@)
                },
                Err(e) => {
                    &&& e == Error::Unexpected
                    &&& old(self).known().len() >= MAX_ID || !old(self).reliable()
                    &&& final(self).known() == old(self).known()
                },
            },
    ;
}

} // verus!
