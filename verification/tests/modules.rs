use pystruct::module::{make_module, Operation};

#[test]
fn module_offers_pack_and_unpack() {
    let m = make_module();
    assert_eq!(m.name, "struct");
    assert_eq!(m.exports.len(), 2);
    assert_eq!(m.exports[0].name, "pack");
    assert_eq!(m.exports[0].operation, Operation::Pack);
    assert_eq!(m.exports[1].name, "unpack");
    assert_eq!(m.exports[1].operation, Operation::Unpack);
}
