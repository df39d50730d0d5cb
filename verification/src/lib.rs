pub mod boost_laws;
pub mod build_laws;
pub mod cascade_laws;
pub mod client_laws;
pub mod config;
pub mod coordinator;
pub mod dispatch_laws;
pub mod dispatcher;
pub mod engine_context;
pub mod errors;
pub mod fee;
pub mod funding;
pub mod funding_laws;
pub mod helper;
pub mod laws;
pub mod lemmas;
pub mod lifecycle;
pub mod model;
pub mod offer_laws;
pub mod operation_laws;
pub mod pricing_laws;
pub mod primitives;
pub mod record_laws;
pub mod send_laws;
pub mod service_laws;
pub mod settings;
pub mod speedup_builder;
pub mod speedup_engine;
pub mod speedup_model;
pub mod storage;
pub mod text;
pub mod transaction_engine;
pub mod types;
