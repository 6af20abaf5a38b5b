//! The fixed command lines run through `sh -c`, the terminal program, and the
//! greeting.
use vstd::prelude::*;

verus! {

/// The shell that runs each command line, as `sh -c <line>`.
pub const SHELL: &'static str = "sh";

/// Prints the version of the bandwidth shaper; its last word is the version.
pub const WONDERSHAPER_VERSION_COMMAND: &'static str = "wondershaper -v";

/// Prints the device name of the first connected network interface.
pub const ACTIVE_INTERFACE_COMMAND: &'static str =
    "nmcli -t -f DEVICE,STATE device status | grep 'connected' | head -n1 | cut -d: -f1";

/// The terminal emulator that is started without waiting for it.
pub const TERMINAL_PROGRAM: &'static str = "konsole";

/// The greeting for `name`.
pub fn greet(name: &str) -> (r: String)
    ensures
        r@ == "Hello, "@ + name@ + "! You've been greeted from Rust!"@,
{
    let r = String::from_str("Hello, ");
    let r = r.concat(name);
    r.concat("! You've been greeted from Rust!")
}

} // verus!
