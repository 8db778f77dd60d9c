//! Settings of the replication client, from the values of its environment
//! variables.
use vstd::prelude::*;
use vstd::string::StringExecFns;

verus! {

/// A required setting is missing.
#[derive(Debug)]
pub struct ConfigError {
    pub error_message: String,
}

/// Publication and slot to replicate from, where to write, and how to
/// connect.
#[derive(Debug)]
pub struct Config {
    pub publication: String,
    pub slot: String,
    pub output: String,
    pub conninfo: String,
}

/// Builds the settings from the values of `PG2PARQUET_PUBLICATION`,
/// `PG2PARQUET_SLOT`, `PG2PARQUET_OUTPUT` and `PG2PARQUET_CONNINFO` (`None`
/// where a variable is unset). Publication and slot are required; the
/// output defaults to the current directory and the connection string to
/// the empty one.
pub fn config_from_values(
    publication: Option<String>,
    slot: Option<String>,
    output: Option<String>,
    conninfo: Option<String>,
) -> (r: Result<Config, ConfigError>)
    ensures
        publication is None ==> (r matches Err(e) && e.error_message@
            == "PG2PARQUET_PUBLICATION is empty"@),
        publication is Some && slot is None ==> (r matches Err(e) && e.error_message@
            == "PG2PARQUET_SLOT is empty"@),
        publication is Some && slot is Some ==> (r matches Ok(c) && {
            &&& c.publication@ == publication->0@
            &&& c.slot@ == slot->0@
            &&& c.output@ == (if output is Some {
                output->0@
            } else {
                "."@
            })
            &&& c.conninfo@ == (if conninfo is Some {
                conninfo->0@
            } else {
                ""@
            })
        }),
{
    let publication = match publication {
        Some(v) => v,
        None => {
            return Err(
                ConfigError { error_message: String::from_str("PG2PARQUET_PUBLICATION is empty") },
            );
        },
    };
    let slot = match slot {
        Some(v) => v,
        None => {
            return Err(ConfigError { error_message: String::from_str("PG2PARQUET_SLOT is empty") });
        },
    };
    let output = match output {
        Some(v) => v,
        None => String::from_str("."),
    };
    let conninfo = match conninfo {
        Some(v) => v,
        None => String::from_str(""),
    };
    Ok(Config { publication, slot, output, conninfo })
}

} // verus!
