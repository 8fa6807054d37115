//! The configuration record: the schema of `config.yml` as a strongly typed
//! value, its mathematical view, and the hard-coded default used when no file
//! exists yet.

use vstd::prelude::*;

verus! {

/// Network-listener settings.
#[derive(Debug, PartialEq, Eq)]
pub struct ServerConfig {
    pub port: u16,
    pub host: String,
}

/// Storage settings; only `path` is consulted by the bootstrap sequence.
#[derive(Debug, PartialEq, Eq)]
pub struct StorageConfig {
    pub path: String,
    pub allocated_mb: u32,
}

/// Declared-only compression settings: no bootstrap logic consumes them.
#[derive(Debug, PartialEq, Eq)]
pub struct CompressionConfig {
    pub automatic: bool,
    pub format: String,
    pub level: u8,
}

/// Declared-only logging settings.
#[derive(Debug, PartialEq, Eq)]
pub struct LoggingConfig {
    pub level: String,
    pub verbosity: u8,
    pub log_path: String,
}

/// The whole configuration record, constructed once during bootstrap and
/// immutable afterwards.
#[derive(Debug, PartialEq, Eq)]
pub struct Config {
    pub server: ServerConfig,
    pub storage: StorageConfig,
    pub compression: CompressionConfig,
    pub logging: LoggingConfig,
    pub eula_acceptance: bool,
}

/// Mathematical view of `ServerConfig`.
pub struct ServerConfigV {
    pub port: u16,
    pub host: Seq<char>,
}

/// Mathematical view of `StorageConfig`.
pub struct StorageConfigV {
    pub path: Seq<char>,
    pub allocated_mb: u32,
}

/// Mathematical view of `CompressionConfig`.
pub struct CompressionConfigV {
    pub automatic: bool,
    pub format: Seq<char>,
    pub level: u8,
}

/// Mathematical view of `LoggingConfig`.
pub struct LoggingConfigV {
    pub level: Seq<char>,
    pub verbosity: u8,
    pub log_path: Seq<char>,
}

/// Mathematical view of `Config`.
pub struct ConfigV {
    pub server: ServerConfigV,
    pub storage: StorageConfigV,
    pub compression: CompressionConfigV,
    pub logging: LoggingConfigV,
    pub eula_acceptance: bool,
}

impl View for ServerConfig {
    type V = ServerConfigV;

    open spec fn view(&self) -> ServerConfigV {
        ServerConfigV { port: self.port, host: self.host@ }
    }
}

impl View for StorageConfig {
    type V = StorageConfigV;

    open spec fn view(&self) -> StorageConfigV {
        StorageConfigV { path: self.path@, allocated_mb: self.allocated_mb }
    }
}

impl View for CompressionConfig {
    type V = CompressionConfigV;

    open spec fn view(&self) -> CompressionConfigV {
        CompressionConfigV {
            automatic: self.automatic,
            format: self.format@,
            level: self.level,
        }
    }
}

impl View for LoggingConfig {
    type V = LoggingConfigV;

    open spec fn view(&self) -> LoggingConfigV {
        LoggingConfigV {
            level: self.level@,
            verbosity: self.verbosity,
            log_path: self.log_path@,
        }
    }
}

impl View for Config {
    type V = ConfigV;

    open spec fn view(&self) -> ConfigV {
        ConfigV {
            server: self.server@,
            storage: self.storage@,
            compression: self.compression@,
            logging: self.logging@,
            eula_acceptance: self.eula_acceptance,
        }
    }
}

/// The default configuration, as a mathematical value.
pub open spec fn spec_default_config() -> ConfigV {
    ConfigV {
        server: ServerConfigV { port: 4514, host: "localhost"@ },
        storage: StorageConfigV { path: "./storage"@, allocated_mb: 25000 },
        compression: CompressionConfigV { automatic: true, format: "zip"@, level: 6 },
        logging: LoggingConfigV { level: "info"@, verbosity: 3, log_path: "./"@ },
        eula_acceptance: false,
    }
}

/// The hard-coded default configuration written to disk on first run.
/// Note that the license is not accepted by default: a fresh installation is
/// gated until the operator edits the file.
pub fn default_config() -> (r: Config)
    ensures
        r@ == spec_default_config(),
{
    Config {
        server: ServerConfig { port: 4514, host: "localhost".to_owned() },
        storage: StorageConfig { path: "./storage".to_owned(), allocated_mb: 25000 },
        compression: CompressionConfig {
            automatic: true,
            format: "zip".to_owned(),
            level: 6,
        },
        logging: LoggingConfig {
            level: "info".to_owned(),
            verbosity: 3,
            log_path: "./".to_owned(),
        },
        eula_acceptance: false,
    }
}

} // verus!
