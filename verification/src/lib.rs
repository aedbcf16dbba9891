//! Planning, scheduling and bookkeeping logic of a segmented download engine.

pub mod arith;
pub mod text;
pub mod chars;
pub mod filename_policy;
pub mod filename;
pub mod urls;
pub mod patterns;
pub mod html;
pub mod http_helpers;
pub mod model;
pub mod download;
pub mod download_ops;
pub mod scopes;
pub mod segmentation;
pub mod scheduler;
pub mod progress;
pub mod disk_pool;
pub mod runtime_transfer;
pub mod probe;
pub mod probe_flow;
pub mod host_planner;
pub mod host_telemetry;
pub mod probe_cache;
pub mod runtime_race;
pub mod runtime_recovery;
pub mod app_update;
pub mod download_plan;
pub mod download_identity;
pub mod registry;
pub mod operations;
pub mod runtime_dispatch;
pub mod queue_ops;
pub mod capture_bridge;
pub mod hex;
pub mod numbers;
pub mod integrity;
pub mod snapshots;
pub mod http_request;
pub mod http_pool;
pub mod progress_sync;
pub mod persist_queue;
pub mod probe_result;
pub mod runtime_ramp;
pub mod segment_worker;
pub mod stream_worker;
pub mod probe_stage;
pub mod html_links;
pub mod html_app;
pub mod html_app_resolver;
pub mod bootstrap_merge;
pub mod html_app_cache;
pub mod filename_laws;
