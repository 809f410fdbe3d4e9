//! The settings of the service.

use crate::text::{integer_of, parse_integer, str_equal, Parsed};
use vstd::prelude::*;

verus! {

/// The settings of the service.
#[derive(Debug, PartialEq, Eq)]
pub struct MavenConfig {
    /// The bucket that holds the artifacts.
    pub bucket_name: String,
    /// Whether directory listings are served.
    pub indexing_enabled: bool,
    /// The most keys that one listing query asks for.
    pub indexing_max_keys: i32,
    /// The largest artifact, in bytes, that an upload may bring.
    pub max_artifact_size: i64,
    /// The name of the one account that may upload.
    pub username: String,
    /// The password of that account.
    pub password: String,
}

/// A setting that is missing or cannot be read.
#[derive(Debug, PartialEq, Eq, Clone, Copy)]
pub enum ConfigError {
    BucketName,
    IndexingEnabled,
    IndexingMaxKeys,
    MaxArtifactSize,
    Username,
    Password,
}

/// What a configuration holds.
pub struct ConfigView {
    pub bucket_name: Seq<char>,
    pub indexing_enabled: bool,
    pub indexing_max_keys: int,
    pub max_artifact_size: int,
    pub username: Seq<char>,
    pub password: Seq<char>,
}

impl View for MavenConfig {
    type V = ConfigView;

    open spec fn view(&self) -> ConfigView {
        ConfigView {
            bucket_name: self.bucket_name@,
            indexing_enabled: self.indexing_enabled,
            indexing_max_keys: self.indexing_max_keys as int,
            max_artifact_size: self.max_artifact_size as int,
            username: self.username@,
            password: self.password@,
        }
    }
}

/// The views of an optional setting.
pub open spec fn setting(raw: Option<String>) -> Option<Seq<char>> {
    match raw {
        Some(text) => Some(text@),
        None => None,
    }
}

/// The truth value that `text` writes, where it writes one.
pub open spec fn flag_of(text: Seq<char>) -> Option<bool> {
    if text == "true"@ {
        Some(true)
    } else if text == "false"@ {
        Some(false)
    } else {
        None
    }
}

/// The integer between `low` and `high` that `text` writes in decimal, where
/// it writes one.
pub open spec fn bounded_integer_of(text: Seq<char>, low: int, high: int) -> Option<int> {
    match integer_of(vstd::utf8::encode_utf8(text)) {
        Some(v) => if low <= v <= high {
            Some(v)
        } else {
            None
        },
        None => None,
    }
}

/// The configuration that the given settings make, or the first setting, in
/// the order of the parameters, that is missing or unreadable. Listings are
/// on, a listing asks for 1000 keys and an artifact has up to 5,900,000
/// bytes, unless the settings say otherwise.
pub open spec fn config_of(
    bucket_name: Option<Seq<char>>,
    indexing_enabled: Option<Seq<char>>,
    indexing_max_keys: Option<Seq<char>>,
    max_artifact_size: Option<Seq<char>>,
    username: Option<Seq<char>>,
    password: Option<Seq<char>>,
) -> Result<ConfigView, ConfigError> {
    let enabled = match indexing_enabled {
        Some(text) => flag_of(text),
        None => Some(true),
    };
    let max_keys = match indexing_max_keys {
        Some(text) => bounded_integer_of(text, i32::MIN as int, i32::MAX as int),
        None => Some(1000),
    };
    let max_size = match max_artifact_size {
        Some(text) => bounded_integer_of(text, i64::MIN as int, i64::MAX as int),
        None => Some(5900000),
    };
    if bucket_name is None {
        Err(ConfigError::BucketName)
    } else if enabled is None {
        Err(ConfigError::IndexingEnabled)
    } else if max_keys is None {
        Err(ConfigError::IndexingMaxKeys)
    } else if max_size is None {
        Err(ConfigError::MaxArtifactSize)
    } else if username is None {
        Err(ConfigError::Username)
    } else if password is None {
        Err(ConfigError::Password)
    } else {
        Ok(
            ConfigView {
                bucket_name: bucket_name->0,
                indexing_enabled: enabled->0,
                indexing_max_keys: max_keys->0,
                max_artifact_size: max_size->0,
                username: username->0,
                password: password->0,
            },
        )
    }
}

/// Reads a truth value.
fn parse_flag(text: &str) -> (flag: Option<bool>)
    ensures
        flag == flag_of(text@),
{
    if str_equal(text, "true") {
        Some(true)
    } else if str_equal(text, "false") {
        Some(false)
    } else {
        None
    }
}

/// Reads a decimal integer that fits 64 bits.
fn parse_i64(text: &str) -> (number: Option<i64>)
    ensures
        match bounded_integer_of(text@, i64::MIN as int, i64::MAX as int) {
            Some(v) => number == Some(v as i64),
            None => number is None,
        },
{
    match parse_integer(text.as_bytes()) {
        Parsed::Number(v) => Some(v),
        _ => None,
    }
}

/// Reads a decimal integer that fits 32 bits.
fn parse_i32(text: &str) -> (number: Option<i32>)
    ensures
        match bounded_integer_of(text@, i32::MIN as int, i32::MAX as int) {
            Some(v) => number == Some(v as i32),
            None => number is None,
        },
{
    match parse_integer(text.as_bytes()) {
        Parsed::Number(v) => if -0x8000_0000 <= v && v <= 0x7fff_ffff {
            Some(v as i32)
        } else {
            None
        },
        _ => None,
    }
}

impl MavenConfig {
    /// The configuration that the given settings make. Each parameter is the
    /// text of one setting, or `None` where it is not set.
    pub fn new(
        bucket_name: Option<String>,
        indexing_enabled: Option<String>,
        indexing_max_keys: Option<String>,
        max_artifact_size: Option<String>,
        username: Option<String>,
        password: Option<String>,
    ) -> (config: Result<MavenConfig, ConfigError>)
        ensures
            match config_of(
                setting(bucket_name),
                setting(indexing_enabled),
                setting(indexing_max_keys),
                setting(max_artifact_size),
                setting(username),
                setting(password),
            ) {
                Ok(view) => config matches Ok(c) && c@ == view,
                Err(e) => config == Err::<MavenConfig, ConfigError>(e),
            },
    {
        let bucket_name = match bucket_name {
            Some(name) => name,
            None => {
                return Err(ConfigError::BucketName);
            },
        };
        let indexing_enabled = match indexing_enabled {
            Some(text) => match parse_flag(text.as_str()) {
                Some(flag) => flag,
                None => {
                    return Err(ConfigError::IndexingEnabled);
                },
            },
            None => true,
        };
        let indexing_max_keys = match indexing_max_keys {
            Some(text) => match parse_i32(text.as_str()) {
                Some(number) => number,
                None => {
                    return Err(ConfigError::IndexingMaxKeys);
                },
            },
            None => 1000,
        };
        let max_artifact_size = match max_artifact_size {
            Some(text) => match parse_i64(text.as_str()) {
                Some(number) => number,
                None => {
                    return Err(ConfigError::MaxArtifactSize);
                },
            },
            None => 5900000,
        };
        let username = match username {
            Some(name) => name,
            None => {
                return Err(ConfigError::Username);
            },
        };
        let password = match password {
            Some(word) => word,
            None => {
                return Err(ConfigError::Password);
            },
        };
        Ok(
            MavenConfig {
                bucket_name,
                indexing_enabled,
                indexing_max_keys,
                max_artifact_size,
                username,
                password,
            },
        )
    }
}

impl ConfigError {
    /// What is wrong, in words.
    pub fn message(&self) -> (text: String)
        ensures
            text@ == self.message_text(),
    {
        match self {
            ConfigError::BucketName => "A BUCKET_NAME must be set in this app's Lambda environment variables.".to_owned(),
            ConfigError::IndexingEnabled => "Failed to read boolean from environment variable INDEXING_ENABLED.".to_owned(),
            ConfigError::IndexingMaxKeys => "Failed to read i32 from environment variable INDEXING_MAX_KEYS.".to_owned(),
            ConfigError::MaxArtifactSize => "Failed to read i64 from environment variable MAX_ARTIFACT_SIZE.".to_owned(),
            ConfigError::Username => "Failed to get username from UPLOAD_USERNAME for uploading artifacts.".to_owned(),
            ConfigError::Password => "Failed to get password from UPLOAD_PASSWORD for uploading artifacts.".to_owned(),
        }
    }

    /// What is wrong, in words.
    pub open spec fn message_text(&self) -> Seq<char> {
        match self {
            ConfigError::BucketName => "A BUCKET_NAME must be set in this app's Lambda environment variables."@,
            ConfigError::IndexingEnabled => "Failed to read boolean from environment variable INDEXING_ENABLED."@,
            ConfigError::IndexingMaxKeys => "Failed to read i32 from environment variable INDEXING_MAX_KEYS."@,
            ConfigError::MaxArtifactSize => "Failed to read i64 from environment variable MAX_ARTIFACT_SIZE."@,
            ConfigError::Username => "Failed to get username from UPLOAD_USERNAME for uploading artifacts."@,
            ConfigError::Password => "Failed to get password from UPLOAD_PASSWORD for uploading artifacts."@,
        }
    }
}

} // verus!
