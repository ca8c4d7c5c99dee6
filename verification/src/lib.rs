pub mod text;
pub mod chunking;
pub mod markdown;
pub mod app_name;
pub mod clock;
pub mod agent_monitor;
pub mod request_app;
pub mod gpu;
pub mod gpu_manager;
pub mod dubbing;
pub mod groot;
pub mod subscription;
pub mod subscription_utils;
pub mod subscription_payment;
pub mod accounting;
pub mod heleket;
pub mod podcast;
pub mod rag;
pub mod llm_json;
pub mod models;
pub mod viper_auth;
pub mod unique_ids;
pub mod stable_order;
pub mod moscow_time;
