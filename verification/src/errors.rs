//! Custom error types for ETL operations.
//!
//! Structured, domain-specific error types that preserve context and enable
//! better messages and recovery strategies.  Underlying causes coming from
//! outside (an I/O failure, an engine error, a generic error) are carried as
//! their rendered text; paths are carried as plain strings.

use vstd::prelude::*;

verus! {

use crate::drivers::{name_strings, sorted_strings, string_views, DriverRegistry};
use crate::shared::join_comma;
use crate::textfmt::{dec_str, u64_to_string};
use vstd::string::StringExecFns;

/// Main error type for ETL operations, delegating to the domain-specific
/// variants.
#[derive(Debug)]
pub enum GeoEtlError {
    /// Driver-related errors (not found, unsupported operations).
    Driver(DriverError),
    /// I/O errors (file read/write, path issues, permissions).
    Io(IoError),
    /// Format parsing and validation errors.
    Format(FormatError),
    /// Query engine errors.
    DataFusion(DataFusionError),
    /// Configuration errors.
    Config(ConfigError),
    /// Generic errors from dependencies, rendered.
    Other(String),
}

/// Driver-related errors.
#[derive(Debug)]
pub enum DriverError {
    /// Driver was not found in the registry.
    NotFound {
        /// The requested driver name.
        name: String,
        /// Comma-separated list of available drivers.
        available: String,
    },
    /// Driver does not support the requested operation.
    OperationNotSupported {
        /// The driver name.
        driver: String,
        /// The operation that is not supported (e.g. "reading", "writing").
        operation: String,
    },
    /// Driver configuration is invalid.
    InvalidConfiguration {
        /// Description of the configuration problem.
        message: String,
    },
    /// Driver is not registered in the factory registry.
    NotRegistered {
        /// The driver name.
        driver: String,
    },
}

/// I/O related errors.
#[derive(Debug)]
pub enum IoError {
    /// Failed to read from a file.
    Read {
        /// The format being read (e.g. "CSV", "GeoJSON").
        format: String,
        /// The file path.
        path: String,
        /// The underlying error, rendered.
        source: String,
    },
    /// Failed to write to a file.
    Write {
        /// The format being written.
        format: String,
        /// The file path.
        path: String,
        /// The underlying error, rendered.
        source: String,
    },
    /// Path is invalid.
    InvalidPath {
        /// The invalid path.
        path: String,
        /// Why the path is invalid.
        reason: String,
    },
    /// File was not found.
    FileNotFound {
        /// The missing file path.
        path: String,
    },
    /// Permission was denied.
    PermissionDenied {
        /// The path with permission issues.
        path: String,
    },
}

/// Format parsing and validation errors.
#[derive(Debug)]
pub enum FormatError {
    /// Failed to parse a format.
    Parse {
        /// The format being parsed.
        format: String,
        /// The line number where parsing failed, if available.
        line: Option<u64>,
        /// Description of the parse error.
        message: String,
    },
    /// Schema inference failed.
    SchemaInference {
        /// The format.
        format: String,
        /// Why schema inference failed.
        reason: String,
    },
    /// Invalid geometry.
    InvalidGeometry {
        /// The format.
        format: String,
        /// Description of the geometry problem.
        message: String,
        /// Optional feature identifier where the error occurred.
        feature_id: Option<String>,
    },
    /// Unsupported geometry type.
    UnsupportedGeometryType {
        /// The unsupported geometry type.
        geometry_type: String,
    },
    /// Type mismatch in a field.
    TypeMismatch {
        /// The field name.
        field: String,
        /// Expected type.
        expected: String,
        /// Actual type found.
        found: String,
    },
}

/// Query-engine errors.
#[derive(Debug)]
pub enum DataFusionError {
    /// Query execution failed.
    Query(String),
    /// Failed to collect query results.
    Collection(String),
    /// Schema-related error.
    Schema(String),
}

/// Configuration errors.
#[derive(Debug)]
pub enum ConfigError {
    /// Invalid option value.
    InvalidOption {
        /// The option name.
        option: String,
        /// Why it is invalid.
        message: String,
    },
    /// Required option is missing.
    MissingRequired {
        /// The missing option name.
        option: String,
    },
    /// Options conflict with each other.
    ConflictingOptions {
        /// Description of the conflicting options.
        options: String,
    },
}

/// The rendered form of a driver error.
pub open spec fn driver_error_text(e: DriverError) -> Seq<char> {
    match e {
        DriverError::NotFound { name, available } => "Driver '"@ + name@
            + "' not found. Available drivers: "@ + available@,
        DriverError::OperationNotSupported { driver, operation } => "Driver '"@ + driver@
            + "' does not support "@ + operation@,
        DriverError::InvalidConfiguration { message } => "Invalid driver configuration: "@
            + message@,
        DriverError::NotRegistered { driver } => "Driver '"@ + driver@
            + "' is not registered in the registry"@,
    }
}

/// The rendered form of an I/O error.
pub open spec fn io_error_text(e: IoError) -> Seq<char> {
    match e {
        IoError::Read { format, path, source } => "Failed to read "@ + format@ + " file '"@
            + path@ + "': "@ + source@,
        IoError::Write { format, path, source } => "Failed to write "@ + format@ + " file '"@
            + path@ + "': "@ + source@,
        IoError::InvalidPath { path, reason } => "Invalid path '"@ + path@ + "': "@ + reason@,
        IoError::FileNotFound { path } => "File not found: '"@ + path@ + "'"@,
        IoError::PermissionDenied { path } => "Permission denied for '"@ + path@ + "'"@,
    }
}

/// The rendered form of a line number, `"unknown"` when absent.
pub open spec fn line_text(line: Option<u64>) -> Seq<char> {
    match line {
        Some(n) => dec_str(n as nat),
        None => "unknown"@,
    }
}

/// The rendered form of a format error.
pub open spec fn format_error_text(e: FormatError) -> Seq<char> {
    match e {
        FormatError::Parse { format, line, message } => "Failed to parse "@ + format@
            + " at line "@ + line_text(line) + ": "@ + message@,
        FormatError::SchemaInference { format, reason } => "Schema inference failed for "@
            + format@ + ": "@ + reason@,
        FormatError::InvalidGeometry { format, message, feature_id } => {
            let suffix = match feature_id {
                Some(id) => " (feature "@ + id@ + ")"@,
                None => Seq::<char>::empty(),
            };
            "Invalid geometry in "@ + format@ + ": "@ + message@ + suffix
        },
        FormatError::UnsupportedGeometryType { geometry_type } => "Unsupported geometry type: "@
            + geometry_type@,
        FormatError::TypeMismatch { field, expected, found } => "Field '"@ + field@
            + "' has incompatible type: expected "@ + expected@ + ", found "@ + found@,
    }
}

/// The rendered form of a query-engine error.
pub open spec fn datafusion_error_text(e: DataFusionError) -> Seq<char> {
    match e {
        DataFusionError::Query(s) => "Query execution failed: "@ + s@,
        DataFusionError::Collection(s) => "Failed to collect results: "@ + s@,
        DataFusionError::Schema(s) => "Schema error: "@ + s@,
    }
}

/// The rendered form of a configuration error.
pub open spec fn config_error_text(e: ConfigError) -> Seq<char> {
    match e {
        ConfigError::InvalidOption { option, message } => "Invalid "@ + option@ + " option: "@
            + message@,
        ConfigError::MissingRequired { option } => "Missing required option: "@ + option@,
        ConfigError::ConflictingOptions { options } => "Conflicting options: "@ + options@,
    }
}

/// A comma-separated list re-punctuated for a bulleted rendering: every
/// `", "` becomes a newline and the next bullet, left to right.
pub open spec fn bulletized(s: Seq<char>) -> Seq<char>
    decreases s.len(),
{
    if s.len() == 0 {
        Seq::empty()
    } else if s.len() >= 2 && s[0] == ',' && s[1] == ' ' {
        "\n  - "@ + bulletized(s.skip(2))
    } else {
        seq![s[0]] + bulletized(s.skip(1))
    }
}

/// Render a comma-separated list as a bulleted list: one `"  - "` bullet per
/// item, one item per line.
pub fn bulletize_list(s: &str) -> (r: String)
    ensures
        r@ == "  - "@ + bulletized(s@),
{
    let n = s.unicode_len();
    let mut out = String::from_str("  - ");
    let mut i: usize = 0;
    proof {
        assert(s@.skip(0) =~= s@);
    }
    while i < n
        invariant
            n == s@.len(),
            0 <= i <= n,
            "  - "@ + bulletized(s@) == out@ + bulletized(s@.skip(i as int)),
        decreases n - i,
    {
        let ghost out0 = out@;
        let ghost suf = s@.skip(i as int);
        proof {
            assert(suf[0] == s@[i as int]);
        }
        let c = s.get_char(i);
        if c == ',' && i + 1 < n && s.get_char(i + 1) == ' ' {
            out.append("\n  - ");
            proof {
                assert(suf[1] == s@[i + 1]);
                assert(bulletized(suf) == "\n  - "@ + bulletized(suf.skip(2)));
                assert(suf.skip(2) =~= s@.skip(i + 2));
                assert(out0 + ("\n  - "@ + bulletized(s@.skip(i + 2))) =~= (out0 + "\n  - "@)
                    + bulletized(s@.skip(i + 2)));
            }
            i = i + 2;
        } else {
            out.append(s.substring_char(i, i + 1));
            proof {
                assert(s@.subrange(i as int, i + 1 as int) =~= seq![suf[0]]);
                assert(bulletized(suf) == seq![suf[0]] + bulletized(suf.skip(1)));
                assert(suf.skip(1) =~= s@.skip(i + 1));
                assert(out0 + (seq![suf[0]] + bulletized(s@.skip(i + 1))) =~= (out0 + seq![
                    suf[0],
                ]) + bulletized(s@.skip(i + 1)));
            }
            i = i + 1;
        }
    }
    proof {
        assert(s@.skip(n as int) =~= Seq::<char>::empty());
    }
    out
}

/// The user-facing message of a driver error.
pub open spec fn driver_user_text(e: DriverError) -> Seq<char> {
    match e {
        DriverError::NotFound { name, available } => "Driver '"@ + name@
            + "' not found.\n\nAvailable drivers:\n"@ + ("  - "@ + bulletized(available@)),
        DriverError::OperationNotSupported { driver, operation } => "The '"@ + driver@
            + "' driver does not support "@ + operation@ + " operation."@,
        _ => driver_error_text(e),
    }
}

/// The user-facing message of an I/O error.
pub open spec fn io_user_text(e: IoError) -> Seq<char> {
    match e {
        IoError::Read { format, path, .. } => "Failed to read "@ + format@ + " file: "@ + path@,
        IoError::Write { format, path, .. } => "Failed to write "@ + format@ + " file: "@
            + path@,
        IoError::FileNotFound { path } => "File not found: "@ + path@,
        _ => io_error_text(e),
    }
}

/// The user-facing message of a format error.
pub open spec fn format_user_text(e: FormatError) -> Seq<char> {
    match e {
        FormatError::Parse { format, line, message } => match line {
            Some(n) => "Parse error in "@ + format@ + " at line "@ + dec_str(n as nat) + ": "@
                + message@,
            None => "Parse error in "@ + format@ + ": "@ + message@,
        },
        FormatError::InvalidGeometry { format, message, feature_id } => match feature_id {
            Some(id) => "Invalid geometry in "@ + format@ + " (feature "@ + id@ + "): "@
                + message@,
            None => "Invalid geometry in "@ + format@ + ": "@ + message@,
        },
        _ => format_error_text(e),
    }
}

/// The user-facing message of the whole error.
pub open spec fn geoetl_user_text(e: GeoEtlError) -> Seq<char> {
    match e {
        GeoEtlError::Driver(d) => driver_user_text(d),
        GeoEtlError::Io(i) => io_user_text(i),
        GeoEtlError::Format(f) => format_user_text(f),
        GeoEtlError::DataFusion(d) => "Query error: "@ + datafusion_error_text(d),
        GeoEtlError::Config(c) => "Configuration error: "@ + config_error_text(c),
        GeoEtlError::Other(s) => "Error: "@ + s@,
    }
}

/// The rendered form of the whole error: transparent over its variant.
pub open spec fn geoetl_error_text(e: GeoEtlError) -> Seq<char> {
    match e {
        GeoEtlError::Driver(d) => driver_error_text(d),
        GeoEtlError::Io(i) => io_error_text(i),
        GeoEtlError::Format(f) => format_error_text(f),
        GeoEtlError::DataFusion(d) => datafusion_error_text(d),
        GeoEtlError::Config(c) => config_error_text(c),
        GeoEtlError::Other(s) => s@,
    }
}

impl DriverError {
    /// Render the error, exactly as [`driver_error_text`] states.
    pub fn display_string(&self) -> (r: String)
        ensures
            r@ == driver_error_text(*self),
    {
        match self {
            DriverError::NotFound { name, available } => {
                let mut s = String::from_str("Driver '");
                s.append(name.as_str());
                s.append("' not found. Available drivers: ");
                s.append(available.as_str());
                s
            },
            DriverError::OperationNotSupported { driver, operation } => {
                let mut s = String::from_str("Driver '");
                s.append(driver.as_str());
                s.append("' does not support ");
                s.append(operation.as_str());
                s
            },
            DriverError::InvalidConfiguration { message } => {
                let mut s = String::from_str("Invalid driver configuration: ");
                s.append(message.as_str());
                s
            },
            DriverError::NotRegistered { driver } => {
                let mut s = String::from_str("Driver '");
                s.append(driver.as_str());
                s.append("' is not registered in the registry");
                s
            },
        }
    }

    /// A user-facing message for the error.  For an unknown driver it names
    /// the driver and lists the available ones on a separate line.
    pub fn user_message(&self) -> (r: String)
        ensures
            r@ == driver_user_text(*self),
    {
        match self {
            DriverError::NotFound { name, available } => {
                let mut s = String::from_str("Driver '");
                s.append(name.as_str());
                s.append("' not found.\n\nAvailable drivers:\n");
                s.append(bulletize_list(available.as_str()).as_str());
                s
            },
            DriverError::OperationNotSupported { driver, operation } => {
                let mut s = String::from_str("The '");
                s.append(driver.as_str());
                s.append("' driver does not support ");
                s.append(operation.as_str());
                s.append(" operation.");
                s
            },
            _ => self.display_string(),
        }
    }

    /// A recovery suggestion, when one is known.
    pub fn recovery_suggestion(&self) -> (r: Option<String>)
        ensures
            ({
                match *self {
                    DriverError::NotFound { .. } => r matches Some(s) && s@
                        == "Run 'geoetl drivers' to see all available drivers."@,
                    DriverError::OperationNotSupported { .. } => r matches Some(s) && s@
                        == "Try using a different driver that supports this operation."@,
                    DriverError::NotRegistered { .. } => r matches Some(s) && s@
                        == "This driver may not be enabled. Check your configuration."@,
                    DriverError::InvalidConfiguration { .. } => r is None,
                }
            }),
    {
        match self {
            DriverError::NotFound { .. } => Some(
                String::from_str("Run 'geoetl drivers' to see all available drivers."),
            ),
            DriverError::OperationNotSupported { .. } => Some(
                String::from_str("Try using a different driver that supports this operation."),
            ),
            DriverError::NotRegistered { .. } => Some(
                String::from_str("This driver may not be enabled. Check your configuration."),
            ),
            DriverError::InvalidConfiguration { .. } => None,
        }
    }
}

impl IoError {
    /// Render the error, exactly as [`io_error_text`] states.
    pub fn display_string(&self) -> (r: String)
        ensures
            r@ == io_error_text(*self),
    {
        match self {
            IoError::Read { format, path, source } => {
                let mut s = String::from_str("Failed to read ");
                s.append(format.as_str());
                s.append(" file '");
                s.append(path.as_str());
                s.append("': ");
                s.append(source.as_str());
                s
            },
            IoError::Write { format, path, source } => {
                let mut s = String::from_str("Failed to write ");
                s.append(format.as_str());
                s.append(" file '");
                s.append(path.as_str());
                s.append("': ");
                s.append(source.as_str());
                s
            },
            IoError::InvalidPath { path, reason } => {
                let mut s = String::from_str("Invalid path '");
                s.append(path.as_str());
                s.append("': ");
                s.append(reason.as_str());
                s
            },
            IoError::FileNotFound { path } => {
                let mut s = String::from_str("File not found: '");
                s.append(path.as_str());
                s.append("'");
                s
            },
            IoError::PermissionDenied { path } => {
                let mut s = String::from_str("Permission denied for '");
                s.append(path.as_str());
                s.append("'");
                s
            },
        }
    }

    /// A user-facing message for the error.
    pub fn user_message(&self) -> (r: String)
        ensures
            r@ == io_user_text(*self),
    {
        match self {
            IoError::Read { format, path, .. } => {
                let mut s = String::from_str("Failed to read ");
                s.append(format.as_str());
                s.append(" file: ");
                s.append(path.as_str());
                s
            },
            IoError::Write { format, path, .. } => {
                let mut s = String::from_str("Failed to write ");
                s.append(format.as_str());
                s.append(" file: ");
                s.append(path.as_str());
                s
            },
            IoError::FileNotFound { path } => {
                let mut s = String::from_str("File not found: ");
                s.append(path.as_str());
                s
            },
            _ => self.display_string(),
        }
    }

    /// A recovery suggestion, when one is known.
    pub fn recovery_suggestion(&self) -> (r: Option<String>)
        ensures
            ({
                match *self {
                    IoError::FileNotFound { .. } => r matches Some(s) && s@
                        == "Check that the file path is correct and the file exists."@,
                    IoError::PermissionDenied { .. } => r matches Some(s) && s@
                        == "Check file permissions and ensure you have access."@,
                    IoError::InvalidPath { .. } => r matches Some(s) && s@
                        == "Ensure the path is valid and properly formatted."@,
                    _ => r is None,
                }
            }),
    {
        match self {
            IoError::FileNotFound { .. } => Some(
                String::from_str("Check that the file path is correct and the file exists."),
            ),
            IoError::PermissionDenied { .. } => Some(
                String::from_str("Check file permissions and ensure you have access."),
            ),
            IoError::InvalidPath { .. } => Some(
                String::from_str("Ensure the path is valid and properly formatted."),
            ),
            _ => None,
        }
    }
}

impl FormatError {
    /// Render the error, exactly as [`format_error_text`] states.
    pub fn display_string(&self) -> (r: String)
        ensures
            r@ == format_error_text(*self),
    {
        match self {
            FormatError::Parse { format, line, message } => {
                let mut s = String::from_str("Failed to parse ");
                s.append(format.as_str());
                s.append(" at line ");
                match line {
                    Some(n) => {
                        s.append(u64_to_string(*n).as_str());
                    },
                    None => {
                        s.append("unknown");
                    },
                }
                s.append(": ");
                s.append(message.as_str());
                s
            },
            FormatError::SchemaInference { format, reason } => {
                let mut s = String::from_str("Schema inference failed for ");
                s.append(format.as_str());
                s.append(": ");
                s.append(reason.as_str());
                s
            },
            FormatError::InvalidGeometry { format, message, feature_id } => {
                let mut s = String::from_str("Invalid geometry in ");
                s.append(format.as_str());
                s.append(": ");
                s.append(message.as_str());
                match feature_id {
                    Some(id) => {
                        s.append(" (feature ");
                        s.append(id.as_str());
                        s.append(")");
                    },
                    None => {},
                }
                s
            },
            FormatError::UnsupportedGeometryType { geometry_type } => {
                let mut s = String::from_str("Unsupported geometry type: ");
                s.append(geometry_type.as_str());
                s
            },
            FormatError::TypeMismatch { field, expected, found } => {
                let mut s = String::from_str("Field '");
                s.append(field.as_str());
                s.append("' has incompatible type: expected ");
                s.append(expected.as_str());
                s.append(", found ");
                s.append(found.as_str());
                s
            },
        }
    }

    /// A user-facing message for the error.
    pub fn user_message(&self) -> (r: String)
        ensures
            r@ == format_user_text(*self),
    {
        match self {
            FormatError::Parse { format, line, message } => {
                match line {
                    Some(n) => {
                        let mut s = String::from_str("Parse error in ");
                        s.append(format.as_str());
                        s.append(" at line ");
                        s.append(u64_to_string(*n).as_str());
                        s.append(": ");
                        s.append(message.as_str());
                        s
                    },
                    None => {
                        let mut s = String::from_str("Parse error in ");
                        s.append(format.as_str());
                        s.append(": ");
                        s.append(message.as_str());
                        s
                    },
                }
            },
            FormatError::InvalidGeometry { format, message, feature_id } => {
                match feature_id {
                    Some(id) => {
                        let mut s = String::from_str("Invalid geometry in ");
                        s.append(format.as_str());
                        s.append(" (feature ");
                        s.append(id.as_str());
                        s.append("): ");
                        s.append(message.as_str());
                        s
                    },
                    None => {
                        let mut s = String::from_str("Invalid geometry in ");
                        s.append(format.as_str());
                        s.append(": ");
                        s.append(message.as_str());
                        s
                    },
                }
            },
            _ => self.display_string(),
        }
    }

    /// A recovery suggestion, when one is known.
    pub fn recovery_suggestion(&self) -> (r: Option<String>)
        ensures
            ({
                match *self {
                    FormatError::Parse { .. } => r matches Some(s) && s@
                        == "Check the file format and ensure it's valid."@,
                    FormatError::InvalidGeometry { .. } => r matches Some(s) && s@
                        == "Validate geometries using a GIS tool before importing."@,
                    FormatError::SchemaInference { .. } => r matches Some(s) && s@
                        == "Try specifying the schema manually."@,
                    _ => r is None,
                }
            }),
    {
        match self {
            FormatError::Parse { .. } => Some(
                String::from_str("Check the file format and ensure it's valid."),
            ),
            FormatError::InvalidGeometry { .. } => Some(
                String::from_str("Validate geometries using a GIS tool before importing."),
            ),
            FormatError::SchemaInference { .. } => Some(
                String::from_str("Try specifying the schema manually."),
            ),
            _ => None,
        }
    }
}

impl DataFusionError {
    /// Render the error, exactly as [`datafusion_error_text`] states.
    pub fn display_string(&self) -> (r: String)
        ensures
            r@ == datafusion_error_text(*self),
    {
        match self {
            DataFusionError::Query(m) => {
                let mut s = String::from_str("Query execution failed: ");
                s.append(m.as_str());
                s
            },
            DataFusionError::Collection(m) => {
                let mut s = String::from_str("Failed to collect results: ");
                s.append(m.as_str());
                s
            },
            DataFusionError::Schema(m) => {
                let mut s = String::from_str("Schema error: ");
                s.append(m.as_str());
                s
            },
        }
    }
}

impl ConfigError {
    /// Render the error, exactly as [`config_error_text`] states.
    pub fn display_string(&self) -> (r: String)
        ensures
            r@ == config_error_text(*self),
    {
        match self {
            ConfigError::InvalidOption { option, message } => {
                let mut s = String::from_str("Invalid ");
                s.append(option.as_str());
                s.append(" option: ");
                s.append(message.as_str());
                s
            },
            ConfigError::MissingRequired { option } => {
                let mut s = String::from_str("Missing required option: ");
                s.append(option.as_str());
                s
            },
            ConfigError::ConflictingOptions { options } => {
                let mut s = String::from_str("Conflicting options: ");
                s.append(options.as_str());
                s
            },
        }
    }
}

impl GeoEtlError {
    /// Render the error, exactly as [`geoetl_error_text`] states.
    pub fn display_string(&self) -> (r: String)
        ensures
            r@ == geoetl_error_text(*self),
    {
        match self {
            GeoEtlError::Driver(e) => e.display_string(),
            GeoEtlError::Io(e) => e.display_string(),
            GeoEtlError::Format(e) => e.display_string(),
            GeoEtlError::DataFusion(e) => e.display_string(),
            GeoEtlError::Config(e) => e.display_string(),
            GeoEtlError::Other(m) => m.clone(),
        }
    }

    /// A user-friendly error message with context.
    pub fn user_message(&self) -> (r: String)
        ensures
            r@ == geoetl_user_text(*self),
    {
        match self {
            GeoEtlError::Driver(e) => e.user_message(),
            GeoEtlError::Io(e) => e.user_message(),
            GeoEtlError::Format(e) => e.user_message(),
            GeoEtlError::DataFusion(e) => {
                let mut s = String::from_str("Query error: ");
                s.append(e.display_string().as_str());
                s
            },
            GeoEtlError::Config(e) => {
                let mut s = String::from_str("Configuration error: ");
                s.append(e.display_string().as_str());
                s
            },
            GeoEtlError::Other(m) => {
                let mut s = String::from_str("Error: ");
                s.append(m.as_str());
                s
            },
        }
    }

    /// A recovery suggestion, when one is known: delegated for driver, I/O
    /// and format errors, absent for the rest.
    pub fn recovery_suggestion(&self) -> (r: Option<String>)
        ensures
            (match *self {
                GeoEtlError::Driver(d) => (r is Some <==> !(d is InvalidConfiguration)),
                GeoEtlError::Io(i) => (r is Some <==> (i is FileNotFound || i is PermissionDenied
                    || i is InvalidPath)),
                GeoEtlError::Format(f) => (r is Some <==> (f is Parse || f is InvalidGeometry
                    || f is SchemaInference)),
                _ => r is None,
            }),
    {
        match self {
            GeoEtlError::Driver(e) => e.recovery_suggestion(),
            GeoEtlError::Io(e) => e.recovery_suggestion(),
            GeoEtlError::Format(e) => e.recovery_suggestion(),
            _ => None,
        }
    }

    /// Whether the error might be fixed by retrying with different
    /// parameters: configuration problems are; everything else is not.
    pub fn is_recoverable(&self) -> (r: bool)
        ensures
            r == (self is Config || (self matches GeoEtlError::Driver(d) && d matches
                DriverError::InvalidConfiguration { .. })),
    {
        match self {
            GeoEtlError::Config(_) => true,
            GeoEtlError::Driver(DriverError::InvalidConfiguration { .. }) => true,
            _ => false,
        }
    }
}

/// Extension trait for adding I/O context to results whose error has been
/// rendered to text.
pub trait IoErrorExt<T> {
    /// Wrap a failure as a read error for the given format and path.
    fn with_read_context(self, format: &str, path: &str) -> Result<T, GeoEtlError>;

    /// Wrap a failure as a write error for the given format and path.
    fn with_write_context(self, format: &str, path: &str) -> Result<T, GeoEtlError>;
}

impl<T> IoErrorExt<T> for Result<T, String> {
    fn with_read_context(self, format: &str, path: &str) -> (r: Result<T, GeoEtlError>)
        ensures
            self is Ok ==> r is Ok,
            self matches Err(e) ==> r matches Err(GeoEtlError::Io(IoError::Read {
                format: f,
                path: p,
                source: s,
            })) && f@ == format@ && p@ == path@ && s@ == e@,
    {
        match self {
            Ok(v) => Ok(v),
            Err(e) => Err(
                GeoEtlError::Io(
                    IoError::Read {
                        format: String::from_str(format),
                        path: String::from_str(path),
                        source: e,
                    },
                ),
            ),
        }
    }

    fn with_write_context(self, format: &str, path: &str) -> (r: Result<T, GeoEtlError>)
        ensures
            self is Ok ==> r is Ok,
            self matches Err(e) ==> r matches Err(GeoEtlError::Io(IoError::Write {
                format: f,
                path: p,
                source: s,
            })) && f@ == format@ && p@ == path@ && s@ == e@,
    {
        match self {
            Ok(v) => Ok(v),
            Err(e) => Err(
                GeoEtlError::Io(
                    IoError::Write {
                        format: String::from_str(format),
                        path: String::from_str(path),
                        source: e,
                    },
                ),
            ),
        }
    }
}

/// Helper to create [`DriverError::NotFound`] naming the drivers the
/// registry holds: their short names, sorted, comma separated.
pub fn driver_not_found(registry: &DriverRegistry, name: &str) -> (r: DriverError)
    ensures
        r matches DriverError::NotFound { name: n, available } && n@ == name@ && (exists|
            ns: Seq<String>,
        |
            {
                &&& sorted_strings(ns)
                &&& ns.to_multiset() == name_strings(registry.drivers@).to_multiset()
                &&& available@ == join_comma(#[trigger] string_views(ns))
            }),
{
    let names = crate::drivers::get_driver_names(registry);
    let mut available = String::new();
    let count = names.len();
    let mut k: usize = 0;
    let ghost parts = string_views(names@);
    proof {
        assert(parts.take(0) =~= Seq::<Seq<char>>::empty());
    }
    while k < count
        invariant
            count == names@.len(),
            0 <= k <= count,
            parts == string_views(names@),
            parts.len() == count,
            available@ == join_comma(parts.take(k as int)),
        decreases count - k,
    {
        if k > 0 {
            available.append(", ");
        }
        available.append(names[k].as_str());
        proof {
            assert(parts.take(k + 1 as int) =~= parts.take(k as int) + seq![parts[k as int]]);
            assert(parts[k as int] == names@[k as int]@);
            if k == 0 {
                assert(available@ =~= parts[0]);
                assert(join_comma(seq![parts[0]]) == parts[0]);
                assert(parts.take(1int) =~= seq![parts[0]]);
            } else {
                crate::shared::lemma_join_comma_snoc(parts.take(k as int), parts[k as int]);
                assert(available@ =~= (join_comma(parts.take(k as int)) + ", "@)
                    + parts[k as int]);
                assert((join_comma(parts.take(k as int)) + ", "@) + parts[k as int]
                    =~= join_comma(parts.take(k as int)) + ", "@ + parts[k as int]);
            }
        }
        k = k + 1;
    }
    proof {
        assert(parts.take(count as int) =~= parts);
    }
    DriverError::NotFound { name: String::from_str(name), available }
}

} // verus!
