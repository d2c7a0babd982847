//! Service lifecycle: where the service finds its configuration, and the
//! install / uninstall requests on hosts without a Windows service manager.

use vstd::prelude::*;

use crate::text::{owned, str_equals};

verus! {

/// Why a service request failed.
#[derive(Debug)]
pub enum ServiceError {
    /// The request needs the Windows service manager.
    Unsupported(String),
}

/// `service install` off Windows: always refused.
pub fn install_service(_config_path: &str) -> (r: Result<(), ServiceError>)
    ensures
        r matches Err(ServiceError::Unsupported(m)) && m@
            == "service install is only supported on Windows"@,
{
    Err(ServiceError::Unsupported(owned("service install is only supported on Windows")))
}

/// `service uninstall` off Windows: always refused.
pub fn uninstall_service() -> (r: Result<(), ServiceError>)
    ensures
        r matches Err(ServiceError::Unsupported(m)) && m@
            == "service uninstall is only supported on Windows"@,
{
    Err(ServiceError::Unsupported(owned("service uninstall is only supported on Windows")))
}

/// `--config` or its short form `-c`.
pub open spec fn is_config_flag(a: Seq<char>) -> bool {
    a == "--config"@ || a == "-c"@
}

/// The argument after the first config flag that has one.
pub open spec fn config_path_in(args: Seq<Seq<char>>) -> Option<Seq<char>>
    decreases args.len(),
{
    if args.len() < 2 {
        None
    } else if is_config_flag(args[0]) {
        Some(args[1])
    } else {
        config_path_in(args.drop_first())
    }
}

/// Config file used when the arguments name none.
pub open spec fn default_config_path() -> Seq<char> {
    "configs/collector.yaml"@
}

/// The configuration path given to the service by its launch arguments.
pub fn config_path_from_args(args: &[String]) -> (r: String)
    ensures
        r@ == match config_path_in(args.deep_view()) {
            Some(p) => p,
            None => default_config_path(),
        },
{
    let ghost av = args.deep_view();
    let mut i: usize = 0;
    assert(av.skip(0) == av);
    while i < args.len()
        invariant
            i <= args.len(),
            av == args.deep_view(),
            config_path_in(av) == config_path_in(av.skip(i as int)),
        decreases args.len() - i,
    {
        let ghost rest = av.skip(i as int);
        assert(rest[0] == args[i as int]@);
        if str_equals(args[i].as_str(), "--config") || str_equals(args[i].as_str(), "-c") {
            if i + 1 < args.len() {
                assert(rest[1] == args[i + 1]@);
                return args[i + 1].clone();
            }
        }
        assert(rest.drop_first() == av.skip(i + 1));
        i = i + 1;
    }
    owned("configs/collector.yaml")
}

} // verus!
