pub mod avatar;
pub mod hris;
pub mod jsonval;
pub mod ldap;
pub mod loader;
pub mod merge;
pub mod mozillians;
pub mod schema;
pub mod text;
pub mod username;
