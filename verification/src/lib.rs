//! Convergio: verified core of the Convergio command line and brand kit.
use vstd::prelude::*;

pub mod text;
pub mod order;
pub mod coherence_scan;
pub mod coherence_body;
pub mod coherence_parse;
pub mod coherence;
pub mod docs_rewrite;
pub mod pr;
pub mod pr_order;
pub mod pr_sync;
pub mod pr_render;
pub mod graph;
pub mod docs_gen;
pub mod single;
pub mod palette;
pub mod claim;
pub mod theme;
pub mod gradient;
pub mod glitch;
pub mod banner;
pub mod boot;
pub mod api;
pub mod action;
pub mod pre_stop;
pub mod friction;
pub mod worktree;
pub mod service;
pub mod doctor;
pub mod session;
pub mod agent;
pub mod capability;
pub mod plan;
pub mod bus;
pub mod commands;
pub mod graph_render;
pub mod pre_stop_render;
pub mod bus_view;
pub mod agent_view;
pub mod triage;
pub mod coherence_render;
pub mod docs_report;
pub mod diagnostics;

verus! {
} // verus!
