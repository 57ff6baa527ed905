pub mod cred;
pub mod crypto;
pub mod errors;
pub mod models;
pub mod policy;
pub mod service;
pub mod store;
pub mod token;

pub use cred::{add_user, create_user, delete_user, get_user, get_users, login, update_password,
    validate_user};
pub use crypto::create_pg;
pub use errors::{CreateUserError, ServiceError, UpdatePasswordError};
pub use models::{NewUser, Schedule, StartEnd, StartEndWithUser, User, UserName};
pub use service::{add_schedule, absent_schedule, delete_schedule, disable_schedule,
    permit_schedule, update_schedule};
pub use token::{decode, generate_token, TokenConfig, UserToken};
