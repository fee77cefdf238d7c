pub mod text;
pub mod contract;
pub mod ingest;
pub mod orchestrator;
pub mod num;
pub mod metrics;
pub mod diff;
pub mod groundtruth;
pub mod normalize;
pub mod report;
pub mod score;
pub mod verifier_log;
