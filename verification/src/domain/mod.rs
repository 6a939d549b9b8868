//! The values the recipe book is made of.

pub mod auth;
pub mod recipe;
pub mod user;

pub use self::auth::AuthUser;
pub use self::auth::AuthUserCredentials;
pub use self::auth::UserCredentials;
pub use self::recipe::Recipe;
pub use self::user::User;
