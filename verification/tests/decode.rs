use lua_chunk::encode::encode_minimal_chunk;
use lua_chunk::error::{ErrorKind, HeaderField};
use lua_chunk::vm::{from_bytecode, BytecodeReader, Constant};

/// A minimal valid header: little-endian, 4-byte ints and sizes,
/// 4-byte instructions, 8-byte numbers.
fn header() -> Vec<u8> {
    vec![0x1b, 0x4c, 0x75, 0x61, 0x51, 0, 1, 4, 4, 4, 8, 0]
}

/// One prototype body with no source name, line span zero, the given
/// flag bytes, and the given count-prefixed sections appended in order:
/// instructions, constants, prototypes (children supplied raw), then an
/// empty debug section.
fn proto_prefix(nproto: u32) -> Vec<u8> {
    let mut v = vec![0, 0, 0, 0]; // absent source name
    v.extend_from_slice(&[0, 0, 0, 0]); // line_defined
    v.extend_from_slice(&[0, 0, 0, 0]); // last_line_defined
    v.extend_from_slice(&[0, 0, 2, 2]); // upvalues, params, vararg, max_stack
    v.extend_from_slice(&[0, 0, 0, 0]); // no instructions
    v.extend_from_slice(&[0, 0, 0, 0]); // no constants
    v.extend_from_slice(&nproto.to_le_bytes()); // nested prototypes
    v
}

fn proto_suffix() -> Vec<u8> {
    let mut v = Vec::new();
    v.extend_from_slice(&[0, 0, 0, 0]); // no line info
    v.extend_from_slice(&[0, 0, 0, 0]); // no locals
    v.extend_from_slice(&[0, 0, 0, 0]); // no upvalue names
    v
}

#[test]
fn short_buffer_fails_too_short() {
    for n in 0..12 {
        let buf = vec![0x1b; n];
        assert_eq!(from_bytecode(buf).unwrap_err(), ErrorKind::TooShort);
    }
}

#[test]
fn bad_signature_fails_invalid_header() {
    let mut buf = header();
    buf.extend_from_slice(&proto_prefix(0));
    buf.extend_from_slice(&proto_suffix());
    buf[0] = 0x1c;
    assert_eq!(
        from_bytecode(buf).unwrap_err(),
        ErrorKind::InvalidHeader(HeaderField::Signature)
    );
    // garbage after a bad signature changes nothing
    let mut junk = vec![0xff, 0x00, 0x12, 0x34];
    junk.extend_from_slice(&[9; 40]);
    assert_eq!(
        from_bytecode(junk).unwrap_err(),
        ErrorKind::InvalidHeader(HeaderField::Signature)
    );
}

#[test]
fn bad_version_fails_invalid_header() {
    let mut buf = header();
    buf[4] = 0x52;
    buf.extend_from_slice(&[7; 60]); // subsequent bytes are irrelevant
    assert_eq!(
        from_bytecode(buf).unwrap_err(),
        ErrorKind::InvalidHeader(HeaderField::Version)
    );
}

#[test]
fn header_field_errors_name_their_field() {
    let cases: &[(usize, u8, HeaderField)] = &[
        (6, 2, HeaderField::Endianness),
        (7, 17, HeaderField::IntSize),
        (8, 9, HeaderField::SizeTSize),
        (9, 5, HeaderField::InstructionSize),
        (11, 2, HeaderField::IntegralFlag),
    ];
    for &(idx, val, field) in cases {
        let mut buf = header();
        buf.extend_from_slice(&proto_prefix(0));
        buf.extend_from_slice(&proto_suffix());
        buf[idx] = val;
        assert_eq!(from_bytecode(buf).unwrap_err(), ErrorKind::InvalidHeader(field));
    }
}

#[test]
fn round_trip_minimal_chunk_little_endian() {
    let buf = encode_minimal_chunk(true, 7, 9, 1, 2, 2, 5);
    let chunk = from_bytecode(buf).unwrap();
    assert_eq!(chunk.header.version, 0x51);
    assert_eq!(chunk.header.endianness, 1);
    assert_eq!(chunk.header.int_size, 4);
    assert_eq!(chunk.header.size_t_size, 4);
    assert_eq!(chunk.header.instruction_size, 4);
    assert_eq!(chunk.header.number_size, 8);
    assert_eq!(chunk.header.integral_flag, 0);
    let root = &chunk.root_prototype;
    assert_eq!(root.source_name, None);
    assert_eq!(root.line_defined, 7);
    assert_eq!(root.last_line_defined, 9);
    assert_eq!(root.num_upvalues, 1);
    assert_eq!(root.num_params, 2);
    assert_eq!(root.is_vararg, 2);
    assert_eq!(root.max_stack, 5);
    assert!(root.instructions.is_empty());
    assert!(root.constants.is_empty());
    assert!(root.prototypes.is_empty());
    assert!(root.source_lines.is_empty());
    assert!(root.locals.is_empty());
    assert!(root.upvalue_names.is_empty());
}

#[test]
fn round_trip_minimal_chunk_big_endian() {
    let buf = encode_minimal_chunk(false, 300, 70000, 0, 3, 0, 10);
    let chunk = from_bytecode(buf).unwrap();
    assert_eq!(chunk.header.endianness, 0);
    let root = &chunk.root_prototype;
    assert_eq!(root.line_defined, 300);
    assert_eq!(root.last_line_defined, 70000);
    assert_eq!(root.num_params, 3);
    assert_eq!(root.max_stack, 10);
}

#[test]
fn zero_prefix_string_is_absent_not_empty() {
    let mut reader = BytecodeReader::new(vec![0, 0, 0, 0]);
    assert_eq!(reader.read_string(), Ok(None));
    assert_eq!(reader.position(), 4);
}

#[test]
fn nonempty_string_drops_nul_terminator() {
    // prefix 4 counts three text bytes plus the terminator
    let mut reader = BytecodeReader::new(vec![4, 0, 0, 0, b'l', b'u', b'a', 0]);
    assert_eq!(reader.read_string(), Ok(Some(String::from("lua"))));
    assert_eq!(reader.position(), 8);
}

#[test]
fn invalid_utf8_string_fails_and_consumes_declared_run() {
    // prefix 3: two text bytes (invalid UTF-8) plus the terminator
    let mut reader = BytecodeReader::new(vec![3, 0, 0, 0, 0xff, 0xfe, 0, 9, 9]);
    assert_eq!(reader.read_string(), Err(ErrorKind::InvalidString));
    // position advanced past the prefix and the declared run
    assert_eq!(reader.position(), 7);
}

#[test]
fn truncated_read_reports_requested_and_available() {
    let mut reader = BytecodeReader::new(vec![1, 2, 3]);
    assert_eq!(
        reader.read(5),
        Err(ErrorKind::UnexpectedEof {
            requested: 5,
            available: 3
        })
    );
    // a failed read leaves the position unchanged
    assert_eq!(reader.position(), 0);
    assert_eq!(reader.read(3), Ok(vec![1, 2, 3]));
}

#[test]
fn truncated_chunk_fails_unexpected_eof() {
    let mut buf = header();
    buf.extend_from_slice(&proto_prefix(0));
    // debug section missing entirely
    assert_eq!(
        from_bytecode(buf).unwrap_err(),
        ErrorKind::UnexpectedEof {
            requested: 4,
            available: 0
        }
    );
}

#[test]
fn endianness_flag_selects_byte_order() {
    // the same integer supplied in both byte orders decodes to the same value
    let mut little = BytecodeReader::new(vec![0x78, 0x56, 0x34, 0x12]);
    little.set_endian(1);
    let mut big = BytecodeReader::new(vec![0x12, 0x34, 0x56, 0x78]);
    big.set_endian(0);
    assert_eq!(little.read_size_t(), Ok(0x12345678));
    assert_eq!(big.read_size_t(), Ok(0x12345678));
}

#[test]
fn sized_int_sign_extends() {
    let mut reader = BytecodeReader::new(vec![0xff, 0xff, 0xff, 0xff, 0xfe, 0xff, 0xff, 0xff]);
    assert_eq!(reader.read_int(), Ok(-1));
    assert_eq!(reader.read_int(), Ok(-2));
    let mut wide = BytecodeReader::new(vec![0xff; 16]);
    wide.set_int(16);
    assert_eq!(wide.read_int(), Ok(-1));
    let mut big = BytecodeReader::new(vec![0x80, 0, 0, 0]);
    big.set_endian(0);
    assert_eq!(big.read_int(), Ok(-0x8000_0000));
}

#[test]
fn sized_uint_widths_follow_header() {
    let mut reader = BytecodeReader::new(vec![0x01, 0x02, 0x03]);
    reader.set_size_t(2);
    assert_eq!(reader.read_size_t(), Ok(0x0201));
    assert_eq!(reader.position(), 2);
}

#[test]
fn nested_prototypes_three_levels_deep() {
    let mut buf = header();
    // outer prototype holds one child, which holds one grandchild
    buf.extend_from_slice(&proto_prefix(1));
    buf.extend_from_slice(&proto_prefix(1));
    buf.extend_from_slice(&proto_prefix(0));
    buf.extend_from_slice(&proto_suffix());
    buf.extend_from_slice(&proto_suffix());
    buf.extend_from_slice(&proto_suffix());
    let total = buf.len();
    let chunk = from_bytecode(buf.clone()).unwrap();
    let root = &chunk.root_prototype;
    assert_eq!(root.prototypes.len(), 1);
    let child = &root.prototypes[0];
    assert_eq!(child.prototypes.len(), 1);
    let grandchild = &child.prototypes[0];
    assert_eq!(grandchild.prototypes.len(), 0);
    assert_eq!(grandchild.max_stack, 2);
    // position accounting: decoding the root consumes every byte after
    // the header, exactly up to the deepest child's debug section
    let mut reader = BytecodeReader::new(buf);
    let skipped = reader.read(12);
    assert!(skipped.is_ok());
    let root_again = lua_chunk::vm::function_block(&mut reader, 8, 100).unwrap();
    assert_eq!(root_again.prototypes.len(), 1);
    assert_eq!(reader.position(), total);
}

#[test]
fn nesting_beyond_the_depth_bound_is_rejected() {
    let mut buf = header();
    for _ in 0..101 {
        buf.extend_from_slice(&proto_prefix(1));
    }
    buf.extend_from_slice(&proto_prefix(0));
    buf.extend_from_slice(&proto_suffix());
    for _ in 0..101 {
        buf.extend_from_slice(&proto_suffix());
    }
    assert_eq!(from_bytecode(buf).unwrap_err(), ErrorKind::NestingTooDeep);
}

#[test]
fn constants_decode_by_tag() {
    let mut buf = header();
    let mut v = vec![0, 0, 0, 0]; // absent source name
    v.extend_from_slice(&[0, 0, 0, 0]);
    v.extend_from_slice(&[0, 0, 0, 0]);
    v.extend_from_slice(&[0, 0, 0, 2]);
    v.extend_from_slice(&[1, 0, 0, 0]); // one instruction
    v.extend_from_slice(&[0x01, 0x02, 0x03, 0x04]);
    v.extend_from_slice(&[4, 0, 0, 0]); // four constants
    v.push(0); // nil
    v.extend_from_slice(&[1, 1]); // boolean true
    v.push(3); // number: eight raw bytes
    v.extend_from_slice(&[1, 2, 3, 4, 5, 6, 7, 8]);
    v.push(4); // string "hi" with terminator
    v.extend_from_slice(&[3, 0, 0, 0, b'h', b'i', 0]);
    v.extend_from_slice(&[0, 0, 0, 0]); // no children
    buf.extend_from_slice(&v);
    buf.extend_from_slice(&proto_suffix());
    let chunk = from_bytecode(buf).unwrap();
    let root = &chunk.root_prototype;
    assert_eq!(root.instructions, vec![0x04030201]);
    assert_eq!(root.constants.len(), 4);
    assert!(matches!(root.constants[0], Constant::Nil));
    assert!(matches!(root.constants[1], Constant::Boolean(true)));
    match &root.constants[2] {
        Constant::Number(raw) => assert_eq!(raw, &vec![1, 2, 3, 4, 5, 6, 7, 8]),
        other => panic!("expected a number constant, got {:?}", other),
    }
    match &root.constants[3] {
        Constant::Str(Some(text)) => assert_eq!(text.as_str(), "hi"),
        other => panic!("expected a string constant, got {:?}", other),
    }
}

#[test]
fn unknown_constant_tag_is_rejected() {
    let mut buf = header();
    let mut v = vec![0, 0, 0, 0];
    v.extend_from_slice(&[0, 0, 0, 0]);
    v.extend_from_slice(&[0, 0, 0, 0]);
    v.extend_from_slice(&[0, 0, 0, 2]);
    v.extend_from_slice(&[0, 0, 0, 0]); // no instructions
    v.extend_from_slice(&[1, 0, 0, 0]); // one constant
    v.push(7); // no such tag
    buf.extend_from_slice(&v);
    buf.extend_from_slice(&proto_suffix());
    assert_eq!(from_bytecode(buf).unwrap_err(), ErrorKind::InvalidConstant(7));
}

#[test]
fn debug_sections_decode() {
    let mut buf = header();
    let mut v = vec![0, 0, 0, 0];
    v.extend_from_slice(&[0, 0, 0, 0]);
    v.extend_from_slice(&[0, 0, 0, 0]);
    v.extend_from_slice(&[0, 0, 0, 2]);
    v.extend_from_slice(&[0, 0, 0, 0]); // no instructions
    v.extend_from_slice(&[0, 0, 0, 0]); // no constants
    v.extend_from_slice(&[0, 0, 0, 0]); // no children
    v.extend_from_slice(&[2, 0, 0, 0]); // two line entries
    v.extend_from_slice(&[5, 0, 0, 0, 6, 0, 0, 0]);
    v.extend_from_slice(&[1, 0, 0, 0]); // one local
    v.extend_from_slice(&[2, 0, 0, 0, b'x', 0]); // name "x"
    v.extend_from_slice(&[1, 0, 0, 0, 9, 0, 0, 0]); // live range
    v.extend_from_slice(&[1, 0, 0, 0]); // one upvalue name
    v.extend_from_slice(&[2, 0, 0, 0, b'u', 0]);
    buf.extend_from_slice(&v);
    let chunk = from_bytecode(buf).unwrap();
    let root = &chunk.root_prototype;
    assert_eq!(root.source_lines, vec![5, 6]);
    assert_eq!(root.locals.len(), 1);
    assert_eq!(root.locals[0].name, Some(String::from("x")));
    assert_eq!(root.locals[0].start_pc, 1);
    assert_eq!(root.locals[0].end_pc, 9);
    assert_eq!(root.upvalue_names, vec![Some(String::from("u"))]);
}

#[test]
fn error_constructors_build_their_kind() {
    assert_eq!(ErrorKind::too_short(), ErrorKind::TooShort);
    assert_eq!(ErrorKind::invalid_string(), ErrorKind::InvalidString);
    assert_eq!(ErrorKind::couldnt_read_file(), ErrorKind::CouldntReadFile);
    assert_eq!(
        ErrorKind::invalid_header(HeaderField::Version),
        ErrorKind::InvalidHeader(HeaderField::Version)
    );
}
