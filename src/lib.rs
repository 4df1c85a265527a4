//! A queue lock in the style of Mellor-Crummey and Scott, with a node-free
//! guest path that shares the same tail slot.
//!
//! `model` states the shared state and the atomic actions of each
//! participant, `laws` proves what holds of every reachable state (mutual
//! exclusion above all), and `lock` is the executable lock whose every
//! action is checked against the model.
pub mod laws;
pub mod lock;
pub mod model;
