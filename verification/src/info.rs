//! What a machine says of itself when it connects.
use vstd::prelude::*;

verus! {

/// The processor of a machine.
#[derive(PartialEq, Eq, Debug)]
pub struct Cpu {
    pub name: String,
    pub vendor_id: String,
    pub brand: String,
    pub freq: u64,
}

/// A machine: its names, its system, its processor and its memory.
#[derive(PartialEq, Eq, Debug)]
pub struct Info {
    pub name: Option<String>,
    pub host_name: Option<String>,
    pub kernel_version: Option<String>,
    pub os_version: Option<String>,
    pub cpu: Cpu,
    pub memory: u64,
}

} // verus!
