//! The rules of a TodoMVC service: the todo model, the table of todos with the
//! operations that the HTTP API performs on it, and the decisions that the
//! browser client takes on its local copy of the list.

pub mod text;
pub mod models;
pub mod store;
pub mod api;
pub mod components;
pub mod laws;
