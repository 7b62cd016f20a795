//! What the kernel keeps of the filesystem world: the console input stream.
//! Resolving a path to a byte blob is the filesystem collaborator's work,
//! at the driver's edge.

pub mod stdio;
