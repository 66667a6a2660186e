//! A desktop client for Yandex Telemost: sign in with an OAuth token, create
//! conferences with cohosts, edit them, and keep the list between runs.
//!
//! The library holds the client's logic, verified: the interface state and how
//! it changes, the requests sent to the service and the reading of its answers,
//! the worker's decisions, the newest-first order of the list, and the comma
//! separated cohost lists of the editor. Drawing the window, the network and
//! the files are left to the program around it.
pub mod text;
pub mod models;
pub mod listing;
pub mod state;
pub mod api;
pub mod stamp;
pub mod worker;
pub mod storage;
