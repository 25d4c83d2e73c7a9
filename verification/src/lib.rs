//! Core rules of the Temper platform.
pub mod order;
pub mod text;
pub mod keys;
pub mod text_laws;
pub mod json;
pub mod json_text;
pub mod trajectory;
pub mod timeline;
pub mod evidence;
pub mod candidates;
pub mod intent_evidence;
pub mod evidence_laws;
pub mod intent_laws;
pub mod pattern_laws;
pub mod score;
pub mod insights;
pub mod unmet;
pub mod feature_requests;
pub mod insight_laws;
pub mod guest;
pub mod streams;
pub mod wasm;
pub mod invocation;
pub mod host;
pub mod host_laws;
pub mod numerals;
pub mod module;
pub mod llm_convert;
pub mod llm_tools;
pub mod llm_providers;
pub mod llm;
pub mod tools;
pub mod tool_runner;
pub mod tool_laws;
pub mod trajectory_laws;
pub mod llm_laws;
pub mod chat_laws;
pub mod provider_laws;
pub mod answer_laws;
pub mod sandbox;
pub mod sandbox_laws;
pub mod table;
pub mod pareto;
pub mod frontier_update;
pub mod frontier_laws;
pub mod proposal;
pub mod proposer;
pub mod proposer_laws;
pub mod reflective;
pub mod reflective_laws;
pub mod replay;
pub mod replay_laws;
pub mod step_laws;
pub mod scoring;
pub mod findings;
pub mod materialize;
pub mod finding_laws;
pub mod observe;
pub mod observe_laws;
pub mod catalog;
pub mod bundles;
pub mod catalog_laws;
pub mod install;
pub mod installation;
pub mod install_laws;
pub mod mcp;
pub mod mcp_laws;
pub mod blobs;
pub mod persistence;
pub mod persistence_laws;
pub mod contract_laws;
