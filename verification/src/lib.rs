//! The core of a gym tracker: users and their workout histories, password
//! authentication, sessions, and the query for the last sets of an exercise.
//!
//! - [`models`] and [`date`] hold the documents: a user, its workout
//!   sessions, the exercises logged in a session and their sets.
//! - [`store`] keeps the users, found by their unique name, and the exercise
//!   catalog.
//! - [`password`] hashes passwords with bcrypt and verifies them; [`auth`]
//!   creates users, authenticates them and guards the routes.
//! - [`session`] and [`token`] bind a random token to an authenticated user
//!   until logout, until the session runs out or until the password changes.
//! - [`aggregate`] finds the most recent sets that a user logged for an
//!   exercise.
//! - [`handlers`] and [`status`] are the operations behind the routes of the
//!   service and the statuses with which they answer.
//!
//! The functions are verified against their contracts. The few that call
//! bcrypt, chrono, rand or bson are trusted and say what they take on
//! trust. The contracts speak of the views of the documents; the properties
//! that relate several functions are stated and proved as `law_` functions
//! beside them.

pub mod aggregate;
pub mod auth;
pub mod date;
mod entropy;
pub mod handlers;
pub mod models;
pub mod password;
pub mod sample;
pub mod session;
pub mod status;
pub mod store;
pub mod token;
