//! Verified core of a type-safe Tauri IPC layer: the naming rules shared by the
//! procedure, event and error derives; the planning that decides what each
//! macro emits, step by step, and what it rejects; the routing of merged
//! procedure sets and the settlement of a dispatched call; payload validation
//! against JSON Schema contracts; and the decisions of the TauRPC migration
//! codemod, from attribute rewriting and de-async to event lifting, mount
//! rewriting and surgical splicing.

pub mod outside;
pub mod text;
pub mod naming;
pub mod signature;
pub mod arms;
pub mod derives;
pub mod routing;
pub mod invoke;
pub mod arg_types;
pub mod json;
pub mod contract;
pub mod validate;
pub mod findings;
pub mod deasync;
pub mod codemod;
pub mod registry;
pub mod mount;
pub mod edits;
pub mod cli;
pub mod sources;
pub mod greeters;
pub mod taurpc_greeter;

use vstd::prelude::*;
