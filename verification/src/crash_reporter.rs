//! Crash reports: where they are kept and what they say.
use vstd::prelude::*;
use crate::pathname::{join, join_paths};
use crate::text::{decimal, decimal_string, opt_chars, push_char};

verus! {

/// `dirs::data_dir`, as text. It depends on the environment, so nothing is
/// stated of it.
#[verifier::external_body]
fn user_data_dir() -> Option<String> {
    dirs::data_dir().map(|p| p.to_string_lossy().to_string())
}

/// Where crash reports are kept under a data directory.
pub fn crash_report_path_in(data_dir: Option<String>) -> (r: Option<String>)
    ensures
        opt_chars(r) == match data_dir {
            Some(d) => Some(join_paths(join_paths(d@, "vhs-86"@), "crash.log"@)),
            None => None,
        },
{
    match data_dir {
        Some(d) => {
            let app_dir = join(d.as_str(), "vhs-86");
            Some(join(app_dir.as_str(), "crash.log"))
        },
        None => None,
    }
}

/// Where this user's crash reports are kept: `vhs-86/crash.log` under the
/// user's data directory, if there is one.
pub fn crash_report_path() -> (r: Option<String>)
    ensures
        r is Some ==> exists|d: Seq<char>|
            opt_chars(r) == Some(join_paths(join_paths(d, "vhs-86"@), "crash.log"@)),
{
    let dir = user_data_dir();
    let ghost dv = dir;
    let r = crash_report_path_in(dir);
    proof {
        if let Some(d) = dv {
            assert(opt_chars(r) == Some(join_paths(join_paths(d@, "vhs-86"@), "crash.log"@)));
        }
    }
    r
}

/// Where a panic happened, as `file:line:column`.
pub open spec fn location_text(file: Seq<char>, line: u32, column: u32) -> Seq<char> {
    file + seq![':'] + decimal(line as nat) + seq![':'] + decimal(column as nat)
}

/// Where a panic happened: `file:line:column`, or `unknown location`.
pub fn panic_location(location: Option<(String, u32, u32)>) -> (r: String)
    ensures
        r@ == match location {
            Some((f, l, c)) => location_text(f@, l, c),
            None => "unknown location"@,
        },
{
    match location {
        Some((f, l, c)) => {
            let mut s = f;
            push_char(&mut s, ':');
            s.append(decimal_string(l as u128).as_str());
            push_char(&mut s, ':');
            s.append(decimal_string(c as u128).as_str());
            s
        },
        None => String::from_str("unknown location"),
    }
}

/// What a panic said: its message, or `Unknown panic payload`.
pub fn panic_payload(message: Option<String>) -> (r: String)
    ensures
        r@ == match message {
            Some(m) => m@,
            None => "Unknown panic payload"@,
        },
{
    match message {
        Some(m) => m,
        None => String::from_str("Unknown panic payload"),
    }
}

/// The text of a crash report.
pub open spec fn crash_report_text(
    timestamp: Seq<char>,
    version: Seq<char>,
    os_info: Seq<char>,
    location: Seq<char>,
    payload: Seq<char>,
    backtrace: Seq<char>,
) -> Seq<char> {
    "\n--- Crash Report ---\nTimestamp:   "@ + timestamp + "\nVersion:     v"@ + version
        + "\nOS:          "@ + os_info + "\nLocation:    "@ + location + "\nPayload:     "@ + payload
        + "\n\nBacktrace:\n"@ + backtrace + "\n--- End Crash Report ---\n"@
}

/// A crash report: when, which version, which system, where, what was said,
/// and the backtrace.
pub fn generate_crash_report(
    timestamp: &str,
    version: &str,
    os_info: &str,
    location: &str,
    payload: &str,
    backtrace: &str,
) -> (r: String)
    ensures
        r@ == crash_report_text(timestamp@, version@, os_info@, location@, payload@, backtrace@),
{
    let mut s = String::from_str("\n--- Crash Report ---\nTimestamp:   ");
    s.append(timestamp);
    s.append("\nVersion:     v");
    s.append(version);
    s.append("\nOS:          ");
    s.append(os_info);
    s.append("\nLocation:    ");
    s.append(location);
    s.append("\nPayload:     ");
    s.append(payload);
    s.append("\n\nBacktrace:\n");
    s.append(backtrace);
    s.append("\n--- End Crash Report ---\n");
    s
}

} // verus!
