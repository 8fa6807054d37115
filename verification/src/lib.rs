//! Bootstrap core of the Archiva server: configuration schema with its
//! defaults, the config-file text format (emitter and parser), the license
//! document, and the environment-validation / license-gate sequence that must
//! run before the server may bind a socket.

pub mod bootstrap;
pub mod codec;
pub mod config;
pub mod eula;
pub mod text;

pub use bootstrap::{validate_environment, BootstrapOutcome, ValidationPlan};
pub use codec::{parse_config, render_config, Field, ParseError};
pub use config::{Config, ServerConfig, StorageConfig, CompressionConfig, LoggingConfig};
pub use config::default_config;
