//! The filter that the logger starts with.

use vstd::prelude::*;
use vstd::string::*;

verus! {

/// The filter directive for a verbosity count: warnings only at zero, then
/// information, then debug output of `crate_name` alone, then debug output
/// of everything, then traces.
pub open spec fn verbosity_directive(verbose: u8, crate_name: Seq<char>) -> Seq<char> {
    if verbose == 0 {
        "warn"@
    } else if verbose == 1 {
        "info"@
    } else if verbose == 2 {
        "info,"@ + crate_name + "=debug"@
    } else if verbose == 3 {
        "debug"@
    } else {
        "trace"@
    }
}

/// The filter directive of a run: the filter given, or, where none is
/// given, the one for the verbosity count.
pub open spec fn filter_directive(
    filter: Option<Seq<char>>,
    verbose: u8,
    crate_name: Seq<char>,
) -> Seq<char> {
    match filter {
        Some(text) => text,
        None => verbosity_directive(verbose, crate_name),
    }
}

/// The filter directive that the logger is set up with.
pub fn log_filter(filter: Option<String>, verbose: u8, crate_name: &str) -> (directive: String)
    ensures
        directive@ == filter_directive(
            match filter {
                Some(text) => Some(text@),
                None => None,
            },
            verbose,
            crate_name@,
        ),
{
    match filter {
        Some(text) => text,
        None => {
            if verbose == 0 {
                "warn".to_owned()
            } else if verbose == 1 {
                "info".to_owned()
            } else if verbose == 2 {
                let mut directive = String::from_str("info,");
                directive.append(crate_name);
                directive.append("=debug");
                directive
            } else if verbose == 3 {
                "debug".to_owned()
            } else {
                "trace".to_owned()
            }
        },
    }
}

} // verus!
