use vstd::prelude::*;

use crate::address::{Ipv4, ipv4_text};

verus! {

/// The reply to an address request.
pub open spec fn ip_reply_text(ip: Option<Ipv4>) -> Seq<char> {
    "The ip address is: "@ + match ip {
        Some(a) => "Some("@ + ipv4_text(a) + ")"@,
        None => "None"@,
    }
}

/// Renders the answer to an address request; an absent address is shown
/// as such rather than treated as an error.
pub fn ip_reply(ip: Option<Ipv4>) -> (r: String)
    ensures
        r@ == ip_reply_text(ip),
{
    let mut out = String::from_str("The ip address is: ");
    match ip {
        Some(a) => {
            out.append("Some(");
            let text = a.to_text();
            out.append(text.as_str());
            out.append(")");
        },
        None => {
            out.append("None");
        },
    }
    out
}

/// The reply once a wake packet was handed to the network, or not.
pub fn wake_reply(sent: bool) -> (r: String)
    ensures
        sent ==> r@ == "Initializing wakey wakey protocol"@,
        !sent ==> r@ == "Could not wake pc"@,
{
    if sent {
        String::from_str("Initializing wakey wakey protocol")
    } else {
        String::from_str("Could not wake pc")
    }
}

/// How a reachability probe ended.
#[derive(Debug, PartialEq, Eq)]
pub enum ProbeOutcome {
    /// The probe program could not be started.
    LaunchFailed,
    /// The probe ran; `success` is its exit status.
    Finished { success: bool, stdout: String, stderr: String },
}

/// The reply to a probe: its standard output when it succeeded, its
/// diagnostics when it failed, a fixed text when it could not run.
pub fn probe_reply(outcome: &ProbeOutcome) -> (r: String)
    ensures
        outcome is LaunchFailed ==> r@ == "Could not execute ping"@,
        outcome matches ProbeOutcome::Finished { success, stdout, stderr } ==> r@ == (if *success {
            stdout@
        } else {
            stderr@
        }),
{
    match outcome {
        ProbeOutcome::LaunchFailed => String::from_str("Could not execute ping"),
        ProbeOutcome::Finished { success, stdout, stderr } => {
            if *success {
                stdout.clone()
            } else {
                stderr.clone()
            }
        },
    }
}

/// The argument vector of a probe: a fixed count of five, then the target
/// as one untouched argument, never read by a shell.
pub fn probe_arguments(target: &str) -> (r: Vec<String>)
    ensures
        r@.len() == 2,
        r@[0]@ == "-c 5"@,
        r@[1]@ == target@,
{
    let mut v: Vec<String> = Vec::new();
    v.push(String::from_str("-c 5"));
    v.push(String::from_str(target));
    v
}

} // verus!
