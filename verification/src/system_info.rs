//! A snapshot of the machine the program runs on.

use vstd::prelude::*;

verus! {

/// What the program knows about its host.
#[derive(Debug, Clone, PartialEq, Eq)]
pub struct SystemInfo {
    /// Name of the operating system.
    pub os: String,
    /// Name of the processor architecture.
    pub arch: String,
    /// Name of the host; empty when it could not be determined.
    pub hostname: String,
    /// Seconds since the Unix epoch at the time of the snapshot.
    pub timestamp: u64,
}

impl SystemInfo {
    /// Assembles a snapshot from what was read off the machine. A host name
    /// that could not be determined is recorded as the empty string.
    pub fn new(os: String, arch: String, hostname: Option<String>, timestamp: u64) -> (info: Self)
        ensures
            info.os@ == os@,
            info.arch@ == arch@,
            info.hostname@ == match hostname {
                Some(name) => name@,
                None => Seq::<char>::empty(),
            },
            info.timestamp == timestamp,
    {
        let hostname = match hostname {
            Some(name) => name,
            None => String::new(),
        };
        SystemInfo { os, arch, hostname, timestamp }
    }
}

} // verus!
