//! Verified core of the OpenBrowser agent runtime: resource quotas, capability
//! policy, credential handles, the execution state machine, DOM trees and
//! selectors, cookie and request handling, and adapter selection.

pub mod sandbox;
pub mod text;
pub mod network;
pub mod dom;
pub mod browser;
pub mod selector;
pub mod dom_builder;
pub mod clock;
pub mod auth;
pub mod policy;
pub mod execution;
pub mod observability;
pub mod interaction;
pub mod worker;
pub mod scheduler;
pub mod data;
pub mod agent;
pub mod adapters;
pub mod js;
pub mod timers;
pub mod kernel;
pub mod dom_paths;
pub mod events;
