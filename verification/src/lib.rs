//! Verified core of a sandboxed-cartridge host: the guest/host memory
//! boundary, the binary GPU command protocol, the command interpreter with
//! its transform stack and resource registries, and the exclusive-access
//! cell that shares resources between them.
pub mod boundary;
pub mod cell;
pub mod command;
pub mod framebuffer;
pub mod mesh;
pub mod profiler;
pub mod registry;
pub mod renderer;
pub mod storage;
pub mod transform;
pub mod vertex;
