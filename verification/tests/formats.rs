use pystruct::error::StructError;
use pystruct::format::{parse_format_string, Code, FormatCode, Kind};

const TABLE: [(char, Code, usize, Kind); 13] = [
    ('b', Code::SignedChar, 1, Kind::Signed),
    ('B', Code::UnsignedChar, 1, Kind::Unsigned),
    ('?', Code::Bool, 1, Kind::Bool),
    ('h', Code::Short, 2, Kind::Signed),
    ('H', Code::UnsignedShort, 2, Kind::Unsigned),
    ('i', Code::Int, 4, Kind::Signed),
    ('I', Code::UnsignedInt, 4, Kind::Unsigned),
    ('l', Code::Long, 4, Kind::Signed),
    ('L', Code::UnsignedLong, 4, Kind::Unsigned),
    ('q', Code::LongLong, 8, Kind::Signed),
    ('Q', Code::UnsignedLongLong, 8, Kind::Unsigned),
    ('f', Code::Float, 4, Kind::Single),
    ('d', Code::Double, 8, Kind::Double),
];

#[test]
fn codec_table() {
    for (letter, code, width, kind) in TABLE {
        assert_eq!(Code::from_char(letter), Some(code));
        assert_eq!(code.letter(), letter);
        assert_eq!(code.width(), width);
        assert_eq!(code.kind(), kind);
    }
}

#[test]
fn no_other_character_is_a_code() {
    for c in ['<', '>', '!', '=', ' ', '0', '9', 'x', 's', 'p', 'c', 'z', 'D', 'F', '\n', '\u{e9}'] {
        assert_eq!(Code::from_char(c), None);
    }
}

#[test]
fn parse_gives_one_entry_for_each_character_in_order() {
    let parsed = parse_format_string("bB?hHiIlLqQfd").unwrap();
    assert_eq!(parsed.len(), 13);
    for (entry, (_, code, _, _)) in parsed.iter().zip(TABLE) {
        assert_eq!(*entry, FormatCode { code, repeat: 1 });
    }
}

#[test]
fn parse_keeps_repeated_codes() {
    assert_eq!(
        parse_format_string("iii"),
        Ok(vec![FormatCode { code: Code::Int, repeat: 1 }; 3])
    );
}

#[test]
fn parse_of_nothing_is_nothing() {
    assert_eq!(parse_format_string(""), Ok(vec![]));
}

#[test]
fn parse_names_the_first_unknown_character() {
    assert_eq!(parse_format_string("z"), Err(StructError::Format { code: 'z', position: 0 }));
    assert_eq!(parse_format_string("bhxy"), Err(StructError::Format { code: 'x', position: 2 }));
    assert_eq!(parse_format_string("i2"), Err(StructError::Format { code: '2', position: 1 }));
}

#[test]
fn parse_counts_characters_not_bytes() {
    assert_eq!(
        parse_format_string("\u{e9}"),
        Err(StructError::Format { code: '\u{e9}', position: 0 })
    );
    assert_eq!(
        parse_format_string("b\u{1F600}h!"),
        Err(StructError::Format { code: '\u{1F600}', position: 1 })
    );
}
