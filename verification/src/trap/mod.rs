//! The hardware trap interface: the saved register frame and trap causes.

pub mod frame;
