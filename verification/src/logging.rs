//! Log settings: the default filter directive and the output format.

use vstd::prelude::*;

use crate::config::LoggingConfig;
use crate::text::{owned, push_all, str_equals};

verus! {

/// Log target of the HTTP component.
pub const COMPONENT_HTTP: &'static str = "collector::http";

/// Log target of the service component.
pub const COMPONENT_SERVICE: &'static str = "collector::service";

/// Log target of the configuration component.
pub const COMPONENT_CONFIG: &'static str = "collector::config";

/// The filter used when `RUST_LOG` is not set: the configured level for the
/// collector, common and server crates.
pub fn default_filter_directive(logging: &LoggingConfig) -> (r: String)
    ensures
        r@ == "collector="@ + logging.level@ + ",common="@ + logging.level@ + ",server="@
            + logging.level@,
{
    let mut d = owned("collector=");
    push_all(&mut d, logging.level.as_str());
    push_all(&mut d, ",common=");
    push_all(&mut d, logging.level.as_str());
    push_all(&mut d, ",server=");
    push_all(&mut d, logging.level.as_str());
    d
}

/// Whether logs are written as JSON (`format: json`); any other value means text.
pub fn uses_json_format(logging: &LoggingConfig) -> (r: bool)
    ensures
        r == (logging.format@ == "json"@),
{
    str_equals(logging.format.as_str(), "json")
}

} // verus!
