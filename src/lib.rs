//! A binding layer between Rust values and the objects of a managed runtime.
//!
//! The runtime's native interface is modelled as a heap of managed values
//! reached through reference handles, every call of which can fail:
//!
//! - `env`: the heap, the table of local, global and weak references, and
//!   the record of function-object calls;
//! - `ser` and `compound`: writing Rust values as managed values and reading
//!   them back, including the fixed-order choice of a union's variant;
//! - `layout`: fields by name, and the cache of class layouts;
//! - `objects`, `callback`, `async_callback`, `worker`, `vm`: function
//!   objects, shared global callbacks, and invoking them on the caller's
//!   thread, on an attached thread, or on the dedicated worker's queue;
//! - `character`, `typed_array`: the UTF-16 character width and binary
//!   views;
//! - `connection`, `connection_ani`, `statistics`: the network connection and
//!   traffic statistics bridges built on the above;
//! - `showcase`, `showcase_callbacks`: native entry points that exercise the
//!   binding end to end.

pub mod async_callback;

pub mod callback;
pub mod character;
pub mod compound;
pub mod connection;
pub mod connection_ani;
pub mod env;
pub mod error;
pub mod layout;
pub mod objects;
pub mod ser;
pub mod showcase;
pub mod showcase_callbacks;
pub mod statistics;
pub mod typed_array;
pub mod vm;
pub mod worker;
