//! The built-in providers: tool integrations compiled into the binary,
//! behaving exactly like dynamically loaded descriptors.

pub mod biome;
pub mod prettier_eslint;
