pub mod backtrace;
pub mod client;
pub mod config;
pub mod error;
pub mod json;
pub mod notice;
pub mod notifier;
pub mod text;

pub use backtrace::parse_backtrace;
pub use client::{interpret_response, Client};
pub use config::Config;
pub use error::Error;
pub use notice::{
    serialize_severity, BacktraceInfo, Context, ErrorInfo, Notice, NotifierInfo, NotifyResult,
    Severity, StringMap, UserInfo,
};
pub use notifier::Notifier;
