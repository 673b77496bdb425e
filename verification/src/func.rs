use vstd::prelude::*;
use crate::text::same_text;

verus! {

/// The transport protocol a rule applies to.
#[derive(Debug, Clone, Copy, PartialEq, Eq, Structural)]
pub enum Protocol {
    ALL,
    TCP,
    UDP,
}

/// The protocol that a name stands for: `udp`/`UDP`, `tcp`/`TCP`, anything else all protocols.
pub open spec fn protocol_named(s: Seq<char>) -> Protocol {
    if s == "udp"@ || s == "UDP"@ {
        Protocol::UDP
    } else if s == "tcp"@ || s == "TCP"@ {
        Protocol::TCP
    } else {
        Protocol::ALL
    }
}

/// The name of a protocol.
pub open spec fn protocol_name(p: Protocol) -> Seq<char> {
    match p {
        Protocol::UDP => "udp"@,
        Protocol::TCP => "tcp"@,
        Protocol::ALL => "all"@,
    }
}

/// The prefix that comments out a TCP rule line for this protocol (`#` for UDP only).
pub open spec fn tcp_prefix_of(p: Protocol) -> Seq<char> {
    match p {
        Protocol::UDP => "#"@,
        _ => ""@,
    }
}

/// The prefix that comments out a UDP rule line for this protocol (`#` for TCP only).
pub open spec fn udp_prefix_of(p: Protocol) -> Seq<char> {
    match p {
        Protocol::TCP => "#"@,
        _ => ""@,
    }
}

impl Protocol {
    pub fn tcp_prefix(&self) -> (s: String)
        ensures
            s@ == tcp_prefix_of(*self),
    {
        match self {
            Protocol::ALL => "".to_string(),
            Protocol::TCP => "".to_string(),
            Protocol::UDP => "#".to_string(),
        }
    }

    pub fn udp_prefix(&self) -> (s: String)
        ensures
            s@ == udp_prefix_of(*self),
    {
        match self {
            Protocol::ALL => "".to_string(),
            Protocol::TCP => "#".to_string(),
            Protocol::UDP => "".to_string(),
        }
    }
}

impl From<Protocol> for String {
    fn from(protocol: Protocol) -> (s: String)
        ensures
            s@ == protocol_name(protocol),
    {
        match protocol {
            Protocol::UDP => "udp".to_string(),
            Protocol::TCP => "tcp".to_string(),
            Protocol::ALL => "all".to_string(),
        }
    }
}

impl vstd::std_specs::convert::FromSpecImpl<Protocol> for String {
    open spec fn obeys_from_spec() -> bool {
        false
    }

    open spec fn from_spec(v: Protocol) -> String {
        arbitrary()
    }
}

impl From<String> for Protocol {
    fn from(protocol: String) -> (p: Protocol) {
        if same_text(protocol.as_str(), "udp") {
            Protocol::UDP
        } else if same_text(protocol.as_str(), "UDP") {
            Protocol::UDP
        } else if same_text(protocol.as_str(), "tcp") {
            Protocol::TCP
        } else if same_text(protocol.as_str(), "TCP") {
            Protocol::TCP
        } else {
            Protocol::ALL
        }
    }
}

impl vstd::std_specs::convert::FromSpecImpl<String> for Protocol {
    open spec fn obeys_from_spec() -> bool {
        true
    }

    open spec fn from_spec(v: String) -> Protocol {
        protocol_named(v@)
    }
}

/// Reading back the name of a protocol gives the protocol.
pub proof fn law_protocol_name_round_trip(p: Protocol)
    ensures
        protocol_named(protocol_name(p)) == p,
{
    reveal_strlit("udp");
    reveal_strlit("UDP");
    reveal_strlit("tcp");
    reveal_strlit("TCP");
    reveal_strlit("all");
    assert("tcp"@[0] != "udp"@[0] && "tcp"@[0] != "UDP"@[0]);
    assert("all"@[0] != "udp"@[0] && "all"@[0] != "UDP"@[0]);
    assert("all"@[0] != "tcp"@[0] && "all"@[0] != "TCP"@[0]);
}

} // verus!
