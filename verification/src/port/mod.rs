//! What the services ask of a store, and what they offer to their callers.

pub mod recipe;
pub mod user;

pub use self::recipe::RecipeRepository;
pub use self::recipe::RecipeService;
pub use self::user::UserRepository;
pub use self::user::UserService;
