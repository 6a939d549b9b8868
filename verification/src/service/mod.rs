//! The services: the rules that stand between a caller and the store.

pub mod auth;
pub mod hash_text;
pub mod recipe;
pub mod user;

pub use self::recipe::DefaultRecipeService;
pub use self::user::DefaultUserService;
pub use self::auth::DefaultAuthUserService;
