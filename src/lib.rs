//! A small todo-list and authentication backend: an in-memory entry store
//! with serialized mutation, and the decisions of the password and bearer
//! token flow.
pub mod auth;
pub mod todolist;
