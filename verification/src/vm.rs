use vstd::prelude::*;

verus! {

/// Per-script state of the NetsBlox VM's processes: the simulation keeps none.
#[derive(Debug, Clone, Copy, PartialEq, Eq)]
pub struct ProcessState;

/// Per-sprite state of the VM's entities: the simulation keeps none.
#[derive(Debug, Clone, Copy, PartialEq, Eq)]
pub struct EntityState;

/// The VM's custom types as the simulation configures them.
#[derive(Debug, Clone, Copy, PartialEq, Eq)]
pub struct C;

/// VM steps run between two rounds of I/O.
pub const STEPS_PER_IO_ITER: usize = 64;

/// Yields in a row after which the VM thread sleeps.
pub const YIELDS_BEFORE_IDLE_SLEEP: usize = 100;

} // verus!
