//! Process and host monitoring: the rendering of snapshots, the control
//! state of the two polling streams, and the ending of processes with a
//! bounded wait for confirmation.
//!
//! The host is reached through `sysinfo`, in the module `host` alone;
//! everything around those calls is proved against its contract.

pub mod format;
pub mod host;
pub mod kill;
pub mod monitor;
pub mod process;
pub mod system;
