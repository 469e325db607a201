//! A process supervisor kernel: a registry of launched child processes keyed
//! by `(owner, executable)` pairs, a per-process exit monitor, and a
//! graceful-then-forceful terminator. The registry is the single piece of
//! shared state; every mutation goes through it, and whichever component
//! removes a key becomes the sole owner of the underlying process handle.

pub mod args;
pub mod elapsed;
pub mod inspector;
pub mod key;
pub mod launcher;
pub mod monitor;
pub mod registry;
pub mod terminator;

pub use inspector::list_active;
pub use key::make_key;
pub use launcher::launch_commit;
pub use monitor::Monitor;
pub use registry::Registry;
pub use terminator::terminate;
