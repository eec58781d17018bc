//! Text of the messages that errors carry.

use crate::types::{Capability, VMID};
use vstd::prelude::*;
use vstd::string::*;

verus! {

/// The character that stands for the decimal digit `d`.
pub open spec fn digit_char(d: nat) -> char {
    if d == 0 {
        '0'
    } else if d == 1 {
        '1'
    } else if d == 2 {
        '2'
    } else if d == 3 {
        '3'
    } else if d == 4 {
        '4'
    } else if d == 5 {
        '5'
    } else if d == 6 {
        '6'
    } else if d == 7 {
        '7'
    } else if d == 8 {
        '8'
    } else {
        '9'
    }
}

/// Decimal rendering of `n`, most significant digit first, without padding.
pub open spec fn decimal(n: nat) -> Seq<char>
    decreases n,
{
    if n < 10 {
        seq![digit_char(n)]
    } else {
        decimal(n / 10).push(digit_char(n % 10))
    }
}

fn digit_text(d: u32) -> (s: &'static str)
    requires
        d < 10,
    ensures
        s@ == seq![digit_char(d as nat)],
{
    proof {
        reveal_strlit("0");
        reveal_strlit("1");
        reveal_strlit("2");
        reveal_strlit("3");
        reveal_strlit("4");
        reveal_strlit("5");
        reveal_strlit("6");
        reveal_strlit("7");
        reveal_strlit("8");
        reveal_strlit("9");
    }
    if d == 0 {
        "0"
    } else if d == 1 {
        "1"
    } else if d == 2 {
        "2"
    } else if d == 3 {
        "3"
    } else if d == 4 {
        "4"
    } else if d == 5 {
        "5"
    } else if d == 6 {
        "6"
    } else if d == 7 {
        "7"
    } else if d == 8 {
        "8"
    } else {
        "9"
    }
}

/// Renders `n` in decimal.
pub fn decimal_text(n: u32) -> (s: String)
    ensures
        s@ == decimal(n as nat),
    decreases n,
{
    if n < 10 {
        String::from_str(digit_text(n))
    } else {
        let mut s = decimal_text(n / 10);
        s.append(digit_text(n % 10));
        s
    }
}

/// The name of a capability.
pub open spec fn capability_name(cap: Capability) -> Seq<char> {
    match cap {
        Capability::Execute => "Execute"@,
        Capability::MapMemory => "MapMemory"@,
        Capability::HandleExit => "HandleExit"@,
        Capability::Halt => "Halt"@,
    }
}

/// How a handle is written in a message: `VMID(7)`.
pub open spec fn handle_name(vmid: VMID) -> Seq<char> {
    "VMID("@ + decimal(vmid.0 as nat) + ")"@
}

/// Message of the error that an operation gated by `cap` reports.
pub open spec fn capability_required(cap: Capability) -> Seq<char> {
    capability_name(cap) + " capability required"@
}

/// Message of the error that names a VM and the capability it lacks.
pub open spec fn lacks_capability(vmid: VMID, cap: Capability) -> Seq<char> {
    "VM "@ + handle_name(vmid) + " lacks required capability "@ + capability_name(cap)
}

/// Message of the error that names the source of a transfer and the
/// capability it does not have.
pub open spec fn source_lacks_capability(vmid: VMID, cap: Capability) -> Seq<char> {
    "Source VM "@ + handle_name(vmid) + " does not have capability "@ + capability_name(cap)
}

fn capability_name_text(cap: Capability) -> (s: &'static str)
    ensures
        s@ == capability_name(cap),
{
    match cap {
        Capability::Execute => "Execute",
        Capability::MapMemory => "MapMemory",
        Capability::HandleExit => "HandleExit",
        Capability::Halt => "Halt",
    }
}

fn append_handle_name(s: &mut String, vmid: VMID)
    ensures
        final(s)@ == old(s)@ + handle_name(vmid),
{
    let digits = decimal_text(vmid.0);
    s.append("VMID(");
    s.append(digits.as_str());
    s.append(")");
}

/// Writes the message of [`capability_required`].
pub fn capability_required_text(cap: Capability) -> (s: String)
    ensures
        s@ == capability_required(cap),
{
    let mut s = String::from_str(capability_name_text(cap));
    s.append(" capability required");
    s
}

/// Writes the message of [`lacks_capability`].
pub fn lacks_capability_text(vmid: VMID, cap: Capability) -> (s: String)
    ensures
        s@ == lacks_capability(vmid, cap),
{
    let mut s = String::from_str("VM ");
    append_handle_name(&mut s, vmid);
    s.append(" lacks required capability ");
    s.append(capability_name_text(cap));
    s
}

/// Writes the message of [`source_lacks_capability`].
pub fn source_lacks_capability_text(vmid: VMID, cap: Capability) -> (s: String)
    ensures
        s@ == source_lacks_capability(vmid, cap),
{
    let mut s = String::from_str("Source VM ");
    append_handle_name(&mut s, vmid);
    s.append(" does not have capability ");
    s.append(capability_name_text(cap));
    s
}

} // verus!
