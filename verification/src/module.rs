//! The module as a host sees it: its name, and the operations it offers by name.

use vstd::prelude::*;

verus! {

/// One of the two operations of the codec.
#[derive(Debug, Clone, Copy, PartialEq, Eq, Structural)]
pub enum Operation {
    /// [`struct_pack`](crate::pack::struct_pack): from values to bytes.
    Pack,
    /// [`struct_unpack`](crate::unpack::struct_unpack): from bytes to values.
    Unpack,
}

/// An operation under the name by which a host calls it.
#[derive(Debug, Clone, Copy)]
pub struct Export {
    /// The name that the host calls.
    pub name: &'static str,
    /// The operation that answers.
    pub operation: Operation,
}

/// What a host needs to know to register the codec.
#[derive(Debug)]
pub struct Module {
    /// The name of the module.
    pub name: &'static str,
    /// The operations that the module offers.
    pub exports: Vec<Export>,
}

/// The module `struct`, which offers packing as `pack` and unpacking as `unpack`.
pub fn make_module() -> (m: Module)
    ensures
        m.name@ == "struct"@,
        m.exports@.len() == 2,
        m.exports@[0].name@ == "pack"@,
        m.exports@[0].operation == Operation::Pack,
        m.exports@[1].name@ == "unpack"@,
        m.exports@[1].operation == Operation::Unpack,
{
    let mut exports: Vec<Export> = Vec::new();
    exports.push(Export { name: "pack", operation: Operation::Pack });
    exports.push(Export { name: "unpack", operation: Operation::Unpack });
    Module { name: "struct", exports }
}

} // verus!
