//! Errors of the embedding service and their messages.

use vstd::prelude::*;
use crate::text::{concat, concat3, concat4, decimal, u64_to_decimal};

verus! {

/// Errors reported by an embedding provider's API.
#[derive(Debug, Clone, PartialEq, Eq)]
pub enum ApiError {
    /// Too many requests; retry after the given number of milliseconds.
    RateLimit { retry_after_ms: u64 },
    /// The provider answered with a server error.
    ServerError { status: u16, message: String },
    /// Credentials were refused.
    Authentication(String),
    /// The request was malformed.
    BadRequest(String),
    /// The account's quota is used up.
    QuotaExceeded(String),
    /// The requested model is not available.
    ModelUnavailable(String),
    /// The provider's answer could not be understood.
    InvalidResponse(String),
}

/// Errors in the embedding configuration.
#[derive(Debug, Clone, PartialEq, Eq)]
pub enum ConfigError {
    /// A required setting is missing.
    MissingConfig(String),
    /// A setting has an unusable value.
    InvalidValue { field: String, reason: String },
    /// An environment variable is not set.
    EnvVarNotFound(String),
    /// The configuration file could not be used.
    FileError(String),
}

/// Errors of the embedding cache.
#[derive(Debug, Clone, PartialEq, Eq)]
pub enum CacheError {
    /// Writing to the cache failed.
    WriteFailed(String),
    /// Reading from the cache failed.
    ReadFailed(String),
}

/// Errors of the embedding service.
#[derive(Debug, Clone, PartialEq, Eq)]
pub enum EmbeddingError {
    /// The provider's API failed.
    Api(ApiError),
    /// The configuration is incomplete or wrong.
    Config(ConfigError),
    /// The provider could not be reached.
    Network(String),
    /// The cache failed.
    Cache(CacheError),
    /// A JSON payload could not be read or written.
    Json(String),
    /// The input cannot be embedded.
    InvalidInput(String),
    /// Any other failure, with its message.
    Other(String),
}

/// The message of an API error.
pub open spec fn api_error_message(e: ApiError) -> Seq<char> {
    match e {
        ApiError::RateLimit { retry_after_ms } => "Rate limit exceeded, retry after "@ + decimal(
            retry_after_ms as nat,
        ) + "ms"@,
        ApiError::ServerError { status, message } => "Server error ("@ + decimal(status as nat)
            + "): "@ + message@,
        ApiError::Authentication(m) => "Authentication failed: "@ + m@,
        ApiError::BadRequest(m) => "Bad request: "@ + m@,
        ApiError::QuotaExceeded(m) => "Quota exceeded: "@ + m@,
        ApiError::ModelUnavailable(m) => "Model unavailable: "@ + m@,
        ApiError::InvalidResponse(m) => "Invalid response: "@ + m@,
    }
}

/// The message of a configuration error.
pub open spec fn config_error_message(e: ConfigError) -> Seq<char> {
    match e {
        ConfigError::MissingConfig(m) => "Missing configuration: "@ + m@,
        ConfigError::InvalidValue { field, reason } => "Invalid value for "@ + field@ + ": "@
            + reason@,
        ConfigError::EnvVarNotFound(m) => "Environment variable not found: "@ + m@,
        ConfigError::FileError(m) => "Configuration file error: "@ + m@,
    }
}

/// The message of a cache error.
pub open spec fn cache_error_message(e: CacheError) -> Seq<char> {
    match e {
        CacheError::WriteFailed(m) => "Cache write failed: "@ + m@,
        CacheError::ReadFailed(m) => "Cache read failed: "@ + m@,
    }
}

/// The message of an embedding error.
pub open spec fn embedding_error_message(e: EmbeddingError) -> Seq<char> {
    match e {
        EmbeddingError::Api(a) => "API error: "@ + api_error_message(a),
        EmbeddingError::Config(c) => "Configuration error: "@ + config_error_message(c),
        EmbeddingError::Network(m) => "Network error: "@ + m@,
        EmbeddingError::Cache(c) => "Cache error: "@ + cache_error_message(c),
        EmbeddingError::Json(m) => "JSON error: "@ + m@,
        EmbeddingError::InvalidInput(m) => "Invalid input: "@ + m@,
        EmbeddingError::Other(m) => m@,
    }
}

impl ApiError {
    /// The error's message.
    pub fn message(&self) -> (s: String)
        ensures
            s@ == api_error_message(*self),
    {
        match self {
            ApiError::RateLimit { retry_after_ms } => {
                let n = u64_to_decimal(*retry_after_ms);
                concat3("Rate limit exceeded, retry after ", n.as_str(), "ms")
            },
            ApiError::ServerError { status, message } => {
                let n = u64_to_decimal(*status as u64);
                concat4("Server error (", n.as_str(), "): ", message.as_str())
            },
            ApiError::Authentication(m) => concat("Authentication failed: ", m.as_str()),
            ApiError::BadRequest(m) => concat("Bad request: ", m.as_str()),
            ApiError::QuotaExceeded(m) => concat("Quota exceeded: ", m.as_str()),
            ApiError::ModelUnavailable(m) => concat("Model unavailable: ", m.as_str()),
            ApiError::InvalidResponse(m) => concat("Invalid response: ", m.as_str()),
        }
    }
}

impl ConfigError {
    /// The error's message.
    pub fn message(&self) -> (s: String)
        ensures
            s@ == config_error_message(*self),
    {
        match self {
            ConfigError::MissingConfig(m) => concat("Missing configuration: ", m.as_str()),
            ConfigError::InvalidValue { field, reason } => concat4(
                "Invalid value for ",
                field.as_str(),
                ": ",
                reason.as_str(),
            ),
            ConfigError::EnvVarNotFound(m) => concat(
                "Environment variable not found: ",
                m.as_str(),
            ),
            ConfigError::FileError(m) => concat("Configuration file error: ", m.as_str()),
        }
    }
}

impl CacheError {
    /// The error's message.
    pub fn message(&self) -> (s: String)
        ensures
            s@ == cache_error_message(*self),
    {
        match self {
            CacheError::WriteFailed(m) => concat("Cache write failed: ", m.as_str()),
            CacheError::ReadFailed(m) => concat("Cache read failed: ", m.as_str()),
        }
    }
}

impl EmbeddingError {
    /// The error's message.
    pub fn message(&self) -> (s: String)
        ensures
            s@ == embedding_error_message(*self),
    {
        match self {
            EmbeddingError::Api(a) => {
                let inner = a.message();
                concat("API error: ", inner.as_str())
            },
            EmbeddingError::Config(c) => {
                let inner = c.message();
                concat("Configuration error: ", inner.as_str())
            },
            EmbeddingError::Network(m) => concat("Network error: ", m.as_str()),
            EmbeddingError::Cache(c) => {
                let inner = c.message();
                concat("Cache error: ", inner.as_str())
            },
            EmbeddingError::Json(m) => concat("JSON error: ", m.as_str()),
            EmbeddingError::InvalidInput(m) => concat("Invalid input: ", m.as_str()),
            EmbeddingError::Other(m) => m.as_str().to_owned(),
        }
    }
}

} // verus!
