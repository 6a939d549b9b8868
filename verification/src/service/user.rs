//! The user service: hands requests through to the store of users.

use vstd::prelude::*;

use crate::domain::user::{Error, User, UserView};
use crate::port::user::{UserRepository, UserService};

verus! {

/// The user service over a store of users.
pub struct DefaultUserService<R: UserRepository> {
    user_repository: R,
}

impl<R: UserRepository> DefaultUserService<R> {
    /// The users of the store that the service was made with.
    pub closed spec fn held(&self) -> Seq<UserView> {
        self.user_repository.users()
    }

    /// The store that the service was made with is sound.
    pub closed spec fn held_sound(&self) -> bool {
        self.user_repository.sound()
    }

    /// The store that the service was made with is reliable.
    pub closed spec fn held_reliable(&self) -> bool {
        self.user_repository.reliable()
    }

    /// A service over `user_repository`.
    pub fn new(user_repository: R) -> (service: DefaultUserService<R>)
        ensures
            service.held() == user_repository.users(),
            service.held_sound() == user_repository.sound(),
            service.held_reliable() == user_repository.reliable(),
    {
        DefaultUserService { user_repository }
    }
}

impl<R: UserRepository> UserService for DefaultUserService<R> {
    open spec fn known(&self) -> Seq<UserView> {
        self.held()
    }

    open spec fn sound(&self) -> bool {
        self.held_sound()
    }

    open spec fn reliable(&self) -> bool {
        self.held_reliable()
    }

    fn get_user(&self, id: i32) -> (found: Result<User, Error>) {
        self.user_repository.get_user_by_id(id)
    }

    fn create_user(&mut self, user: User) -> (stored: Result<User, Error>) {
        self.user_repository.create_user(user)
    }
}

} // verus!
