//! A binary structure codec: values are packed into, and unpacked from, densely
//! laid out little-endian byte buffers under the direction of a format string.
//!
//! A format string is a run of one-character codes, one for each field:
//!
//! | code | bytes | field |
//! |---|---|---|
//! | `b` | 1 | signed integer |
//! | `B` | 1 | unsigned integer |
//! | `?` | 1 | truth value, 0 or 1 |
//! | `h` | 2 | signed integer |
//! | `H` | 2 | unsigned integer |
//! | `i`, `l` | 4 | signed integer |
//! | `I`, `L` | 4 | unsigned integer |
//! | `q` | 8 | signed integer |
//! | `Q` | 8 | unsigned integer |
//! | `f` | 4 | IEEE 754 single precision |
//! | `d` | 8 | IEEE 754 double precision |
//!
//! [`struct_pack`] and [`struct_unpack`] are the two operations. What they return is
//! said once, mathematically, by [`pack::packing`] and [`unpack::unpacking`]; the
//! module [`laws`] proves what follows from that, such as that unpacking undoes
//! packing.
//!
//! The bytes of fixed-width integers are written and read by `byteorder`, and
//! integers of any size are narrowed by `num_bigint`; the modules [`wire`] and
//! [`integer`] say what those calls are trusted to do.

pub mod codec;
pub mod endian;
pub mod error;
pub mod format;
pub mod integer;
pub mod laws;
pub mod module;
pub mod pack;
pub mod unpack;
pub mod value;
pub mod wire;

pub use crate::error::StructError;
pub use crate::integer::Integer;
pub use crate::module::make_module;
pub use crate::pack::struct_pack;
pub use crate::unpack::struct_unpack;
pub use crate::value::Value;
