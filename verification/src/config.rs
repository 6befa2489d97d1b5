//! Settings, read from the values of environment variables.

use vstd::prelude::*;
use vstd::string::*;

use crate::attack::Thresholds;
use crate::text::parse_unsigned;

verus! {

/// The port of the HTTP server where none is set.
pub const DEFAULT_PORT: u16 = 9100;

/// The connection requests of a SYN flood where none are set.
pub const DEFAULT_SYN_THRESHOLD: u64 = 500;

/// The ports of a port scan where none are set.
pub const DEFAULT_PORTS_THRESHOLD: u64 = 100;

/// The number that a setting denotes, if it is set to one that is not above
/// `max`, and else `default`.
pub open spec fn setting_value(text: Option<Seq<char>>, max: nat, default: nat) -> nat {
    match text {
        Some(t) => match crate::text::unsigned_value(t) {
            Some(v) => if v <= max {
                v
            } else {
                default
            },
            None => default,
        },
        None => default,
    }
}

/// The port that `EXPORTER_PORT` denotes.
pub open spec fn port_setting(text: Option<Seq<char>>) -> nat {
    setting_value(text, u16::MAX as nat, DEFAULT_PORT as nat)
}

/// The connection requests that `THRESH_SYN_COUNT` denotes.
pub open spec fn syn_setting(text: Option<Seq<char>>) -> nat {
    setting_value(text, u64::MAX as nat, DEFAULT_SYN_THRESHOLD as nat)
}

/// The ports that `THRESH_PORTS` denotes.
pub open spec fn ports_setting(text: Option<Seq<char>>) -> nat {
    setting_value(text, usize::MAX as nat, DEFAULT_PORTS_THRESHOLD as nat)
}

/// Reads a setting.
fn setting(text: &Option<String>, max: u64, default: u64) -> (r: u64)
    requires
        default <= max,
    ensures
        r == setting_value(crate::text::text_or_none(*text), max as nat, default as nat),
        r <= max,
{
    match text {
        Some(t) => match parse_unsigned(t.as_str(), max) {
            Some(v) => v,
            None => default,
        },
        None => default,
    }
}

/// The port that the HTTP server listens on, given the value of
/// `EXPORTER_PORT`, if it is set.
pub fn exporter_port(text: &Option<String>) -> (r: u16)
    ensures
        r == port_setting(crate::text::text_or_none(*text)),
{
    setting(text, u16::MAX as u64, DEFAULT_PORT as u64) as u16
}

/// The thresholds that are whole numbers, given the values of
/// `THRESH_SYN_COUNT` and `THRESH_PORTS`, as far as they are set.
pub fn thresholds(syn: &Option<String>, ports: &Option<String>) -> (r: Thresholds)
    ensures
        r.syn == syn_setting(crate::text::text_or_none(*syn)),
        r.ports == ports_setting(crate::text::text_or_none(*ports)),
{
    Thresholds {
        syn: setting(syn, u64::MAX, DEFAULT_SYN_THRESHOLD),
        ports: setting(ports, usize::MAX as u64, DEFAULT_PORTS_THRESHOLD),
    }
}

} // verus!
