//! Memory introspection and code interception for a component loaded into a
//! host process: byte-pattern scanning, a module registry, a detour registry
//! and the address arithmetic of virtual dispatch.
pub mod hooks;
pub mod menu;
pub mod modules;
pub mod pattern;
pub mod startup;
pub mod vcall;
