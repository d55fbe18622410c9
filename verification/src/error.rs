//! Error taxonomy of the relay.

use vstd::prelude::*;
use vstd::string::*;

verus! {

/// Why an operation on the tracking store was refused.
#[derive(Debug, Clone, PartialEq, Eq)]
pub enum StoreError {
    /// A row with the same problem identifier is already present.
    Conflict,
    /// No row carries the requested problem identifier.
    NotFound,
    /// A row identity or a forward counter cannot advance any further.
    Exhausted,
    /// The durable backend could not be reached; the text is its diagnostic.
    Unavailable(String),
}

impl StoreError {
    /// The diagnostic text of the error.
    pub open spec fn text(self) -> Seq<char> {
        match self {
            StoreError::Conflict => "problem is already tracked"@,
            StoreError::NotFound => "problem is not tracked"@,
            StoreError::Exhausted => "counter exhausted"@,
            StoreError::Unavailable(m) => m@,
        }
    }

    /// Renders the diagnostic text.
    pub fn to_string(&self) -> (s: String)
        ensures
            s@ == self.text(),
    {
        match self {
            StoreError::Conflict => String::from_str("problem is already tracked"),
            StoreError::NotFound => String::from_str("problem is not tracked"),
            StoreError::Exhausted => String::from_str("counter exhausted"),
            StoreError::Unavailable(m) => m.clone(),
        }
    }
}

/// Everything that can go wrong in the relay.
#[derive(Debug, Clone, PartialEq, Eq)]
pub enum ForwarderError {
    /// Bad or missing settings.
    Config(String),
    /// A query to the monitoring API failed: the API could not be reached, or
    /// it answered outside 200 to 299. This ends the cycle it occurs in.
    DynatraceApi(String),
    /// The tracking store refused an operation.
    Database(StoreError),
    /// A payload could not be serialised.
    Serialization(String),
    /// The settings file is not valid YAML.
    Yaml(String),
    /// A connector rejected or never received a delivery.
    Connector { connector: String, message: String },
    /// The settings were read but break a rule.
    Validation(String),
    /// A file or stream operation failed.
    Io(String),
}

impl ForwarderError {
    /// The one-line rendering of the error: a category prefix followed by the detail.
    pub open spec fn text(self) -> Seq<char> {
        match self {
            ForwarderError::Config(m) => "Configuration error: "@ + m@,
            ForwarderError::DynatraceApi(m) => "Dynatrace API error: "@ + m@,
            ForwarderError::Database(e) => "Database error: "@ + e.text(),
            ForwarderError::Serialization(m) => "Serialization error: "@ + m@,
            ForwarderError::Yaml(m) => "YAML error: "@ + m@,
            ForwarderError::Connector { connector, message } => "Connector error: "@ + connector@
                + ": "@ + message@,
            ForwarderError::Validation(m) => "Validation error: "@ + m@,
            ForwarderError::Io(m) => "IO error: "@ + m@,
        }
    }

    /// Renders the error as one line.
    pub fn to_string(&self) -> (s: String)
        ensures
            s@ == self.text(),
    {
        match self {
            ForwarderError::Config(m) => String::from_str("Configuration error: ").concat(
                m.as_str(),
            ),
            ForwarderError::DynatraceApi(m) => String::from_str("Dynatrace API error: ").concat(
                m.as_str(),
            ),
            ForwarderError::Database(e) => {
                let detail = e.to_string();
                String::from_str("Database error: ").concat(detail.as_str())
            },
            ForwarderError::Serialization(m) => String::from_str("Serialization error: ").concat(
                m.as_str(),
            ),
            ForwarderError::Yaml(m) => String::from_str("YAML error: ").concat(m.as_str()),
            ForwarderError::Connector { connector, message } => String::from_str(
                "Connector error: ",
            ).concat(connector.as_str()).concat(": ").concat(message.as_str()),
            ForwarderError::Validation(m) => String::from_str("Validation error: ").concat(
                m.as_str(),
            ),
            ForwarderError::Io(m) => String::from_str("IO error: ").concat(m.as_str()),
        }
    }
}

} // verus!
