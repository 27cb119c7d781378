use wasm_coredump::ast::{
    BlockType, Code, CodeLocal, CustomSection, DataSegment, DataSegmentMode, DebugNames, Element,
    Export, ExportDescr, Global, GlobalType, Import, ImportType, Instr, Limits, Memory, Module,
    NumType, Reftype, Section, Table, Type, Value, ValueType,
};
use wasm_coredump::opcodes::{decode_plain, opcode_of};
use wasm_coredump::parser::{
    decode_blocktype, decode_instr, decode_name, parse, DecodeError, InputContext,
};
use wasm_coredump::printer::{
    print, write_byte_vec, write_header, write_instr, write_section, write_unsigned_leb128_at_offset,
    write_utf8, EncodeError,
};
use wasm_coredump::varint::{read_signed_leb128, read_unsigned_leb128};
use std::collections::HashMap;

const HEADER: [u8; 8] = [0x00, 0x61, 0x73, 0x6d, 0x01, 0x00, 0x00, 0x00];

fn node(i: Instr) -> Value<Instr> {
    Value::new(i)
}

fn expr(instrs: Vec<Instr>) -> Value<Vec<Value<Instr>>> {
    Value::new(instrs.into_iter().map(node).collect())
}

fn encode(i: &Instr) -> Vec<u8> {
    let mut out = vec![];
    write_instr(&mut out, i).unwrap();
    out
}

fn sample_module() -> Module {
    let i32t = ValueType::NumType(NumType::I32);
    let i64t = ValueType::NumType(NumType::I64);
    let mut names = HashMap::new();
    names.insert(0u32, "imported".to_string());
    names.insert(1u32, "first".to_string());
    names.insert(2u32, "second".to_string());
    let body = expr(vec![
        Instr::local_get(0),
        Instr::i32_const(-7),
        Instr::i32_add,
        Instr::Block(
            BlockType::ValueType(i32t),
            expr(vec![
                Instr::i64_const(i64::MIN),
                Instr::drop,
                Instr::Loop(BlockType::Empty, expr(vec![Instr::br(0), Instr::end])),
                Instr::If(
                    BlockType::Typeidx(70),
                    expr(vec![Instr::nop, Instr::else_end, Instr::unreachable, Instr::end]),
                ),
                Instr::i32_load(Value::new(2), 16),
                Instr::f32_const(0x3f80_0000),
                Instr::f64_const(0x4084_d000_0000_0000),
                Instr::br_table(vec![0, 1, 300], 2),
                Instr::call(Value::new(1)),
                Instr::call_indirect(3, 0),
                Instr::memory_size(0),
                Instr::memory_copy(0, 0),
                Instr::memory_fill(0),
                Instr::end,
            ]),
        ),
        Instr::Return,
        Instr::end,
    ]);
    Module {
        sections: vec![
            Value::new(Section::Type(
                Value::new(0),
                vec![
                    Type { params: vec![i32t, i64t], results: vec![i32t] },
                    Type { params: vec![], results: vec![] },
                ],
            )),
            Value::new(Section::Import(
                Value::new(0),
                vec![
                    Import {
                        module: "env".to_string(),
                        name: "f".to_string(),
                        import_type: ImportType::Func(1),
                    },
                    Import {
                        module: "env".to_string(),
                        name: "g".to_string(),
                        import_type: ImportType::Global(GlobalType { valtype: i64t, mutable: true }),
                    },
                    Import {
                        module: "env".to_string(),
                        name: "t".to_string(),
                        import_type: ImportType::Table(Table {
                            reftype: Reftype::Func,
                            limits: Limits { min: 1, max: Some(2) },
                        }),
                    },
                    Import {
                        module: "env".to_string(),
                        name: "m".to_string(),
                        import_type: ImportType::Memory(Memory { min: Value::new(1), max: None }),
                    },
                ],
            )),
            Value::new(Section::Func(Value::new(0), vec![0, 1])),
            Value::new(Section::Table(
                Value::new(0),
                vec![Table { reftype: Reftype::Extern, limits: Limits { min: 0, max: None } }],
            )),
            Value::new(Section::Memory(
                Value::new(0),
                vec![Memory { min: Value::new(2), max: Some(200) }],
            )),
            Value::new(Section::Global(
                Value::new(0),
                vec![Global {
                    global_type: GlobalType { valtype: i32t, mutable: false },
                    expr: expr(vec![Instr::i32_const(42), Instr::end]),
                }],
            )),
            Value::new(Section::Export(
                Value::new(0),
                vec![
                    Export { name: "run".to_string(), descr: ExportDescr::Func(1) },
                    Export { name: "mem".to_string(), descr: ExportDescr::Mem(0) },
                    Export { name: "tab".to_string(), descr: ExportDescr::Table(0) },
                    Export { name: "glob".to_string(), descr: ExportDescr::Global(1) },
                ],
            )),
            Value::new(Section::Element(
                Value::new(0),
                vec![Element::FuncActive(expr(vec![Instr::i32_const(0), Instr::end]), vec![1, 2])],
            )),
            Value::new(Section::Code(
                Value::new(0),
                Value::new(vec![
                    Code {
                        size: Value::new(0),
                        locals: vec![
                            CodeLocal { count: 2, value_type: i32t },
                            CodeLocal { count: 1, value_type: i64t },
                        ],
                        body,
                    },
                    Code { size: Value::new(0), locals: vec![], body: expr(vec![Instr::end]) },
                ]),
            )),
            Value::new(Section::Data(
                Value::new(0),
                vec![
                    DataSegment {
                        offset: Some(expr(vec![Instr::i32_const(8), Instr::end])),
                        bytes: vec![1, 2, 3],
                        mode: DataSegmentMode::Active,
                    },
                    DataSegment { offset: None, bytes: vec![], mode: DataSegmentMode::Passive },
                ],
            )),
            Value::new(Section::Custom(
                Value::new(0),
                CustomSection::Unknown("producers".to_string(), vec![9, 8, 7]),
            )),
            Value::new(Section::Custom(
                Value::new(0),
                CustomSection::Name(DebugNames {
                    module: None,
                    func_names: Some(names),
                    func_local_names: None,
                }),
            )),
            Value::new(Section::Unknown(12, 1, vec![3])),
        ],
    }
}

#[test]
fn unsigned_leb128_known_values() {
    let mut out = vec![];
    write_byte_vec(&mut out, &vec![0u8; 128]);
    assert_eq!(&out[..2], &[0x80, 0x01]);
    assert_eq!(out.len(), 130);
    assert_eq!(encode(&Instr::local_get(624485)), vec![0x20, 0xe5, 0x8e, 0x26]);
    assert_eq!(encode(&Instr::local_get(0)), vec![0x20, 0x00]);
    assert_eq!(encode(&Instr::local_get(127)), vec![0x20, 0x7f]);
    assert_eq!(encode(&Instr::local_get(128)), vec![0x20, 0x80, 0x01]);
    assert_eq!(encode(&Instr::local_get(u32::MAX)), vec![0x20, 0xff, 0xff, 0xff, 0xff, 0x0f]);
}

#[test]
fn signed_leb128_known_values() {
    assert_eq!(encode(&Instr::i64_const(-123456)), vec![0x42, 0xc0, 0xbb, 0x78]);
    assert_eq!(encode(&Instr::i32_const(0)), vec![0x41, 0x00]);
    assert_eq!(encode(&Instr::i32_const(63)), vec![0x41, 0x3f]);
    assert_eq!(encode(&Instr::i32_const(64)), vec![0x41, 0xc0, 0x00]);
    assert_eq!(encode(&Instr::i32_const(-64)), vec![0x41, 0x40]);
    assert_eq!(encode(&Instr::i32_const(-65)), vec![0x41, 0xbf, 0x7f]);
    assert_eq!(
        encode(&Instr::i64_const(i64::MIN)),
        vec![0x42, 0x80, 0x80, 0x80, 0x80, 0x80, 0x80, 0x80, 0x80, 0x80, 0x7f]
    );
    assert_eq!(
        encode(&Instr::i64_const(i64::MAX)),
        vec![0x42, 0xff, 0xff, 0xff, 0xff, 0xff, 0xff, 0xff, 0xff, 0xff, 0x00]
    );
}

#[test]
fn reads_unsigned_leb128() {
    assert_eq!(read_unsigned_leb128(&[0xe5, 0x8e, 0x26], 0, 3), Some((624485, 3)));
    assert_eq!(read_unsigned_leb128(&[9, 0xe5, 0x8e, 0x26, 9], 1, 5), Some((624485, 4)));
    assert_eq!(read_unsigned_leb128(&[0x80, 0x00], 0, 2), Some((0, 2)));
    assert_eq!(read_unsigned_leb128(&[0x80], 0, 1), None);
    assert_eq!(read_unsigned_leb128(&[0x80, 0x01], 0, 1), None);
    assert_eq!(read_unsigned_leb128(&[], 0, 0), None);
    let max = [0xff, 0xff, 0xff, 0xff, 0xff, 0xff, 0xff, 0xff, 0xff, 0x01];
    assert_eq!(read_unsigned_leb128(&max, 0, 10), Some((u64::MAX, 10)));
    let over = [0xff, 0xff, 0xff, 0xff, 0xff, 0xff, 0xff, 0xff, 0xff, 0x02];
    assert_eq!(read_unsigned_leb128(&over, 0, 10), None);
}

#[test]
fn reads_signed_leb128() {
    assert_eq!(read_signed_leb128(&[0xc0, 0xbb, 0x78], 0, 3), Some((-123456, 3)));
    assert_eq!(read_signed_leb128(&[0x7f], 0, 1), Some((-1, 1)));
    assert_eq!(read_signed_leb128(&[0x3f], 0, 1), Some((63, 1)));
    assert_eq!(read_signed_leb128(&[0x40], 0, 1), Some((-64, 1)));
    let min = [0x80, 0x80, 0x80, 0x80, 0x80, 0x80, 0x80, 0x80, 0x80, 0x7f];
    assert_eq!(read_signed_leb128(&min, 0, 10), Some((i64::MIN, 10)));
    let over = [0x80, 0x80, 0x80, 0x80, 0x80, 0x80, 0x80, 0x80, 0x80, 0x01];
    assert_eq!(read_signed_leb128(&over, 0, 10), None);
    assert_eq!(read_signed_leb128(&[0x80], 0, 1), None);
}

#[test]
fn header_is_magic_and_version() {
    let mut out = vec![];
    write_header(&mut out);
    assert_eq!(out, HEADER);
}

#[test]
fn empty_module_round_trips() {
    let module = parse(&HEADER).unwrap();
    assert!(module.sections.is_empty());
    assert_eq!(print(&module).unwrap(), HEADER);
}

#[test]
fn bad_magic_is_rejected() {
    let bytes = [0x00, 0x61, 0x73, 0x6e, 0x01, 0x00, 0x00, 0x00];
    assert_eq!(parse(&bytes), Err(DecodeError::BadMagic));
}

#[test]
fn bad_version_is_rejected() {
    let bytes = [0x00, 0x61, 0x73, 0x6d, 0x02, 0x00, 0x00, 0x00];
    assert_eq!(parse(&bytes), Err(DecodeError::BadVersion));
}

#[test]
fn truncated_input_is_rejected() {
    assert_eq!(parse(&[]), Err(DecodeError::Malformed));
    assert_eq!(parse(&HEADER[..3]), Err(DecodeError::Malformed));
    assert_eq!(parse(&HEADER[..6]), Err(DecodeError::Malformed));
    let mut bytes = HEADER.to_vec();
    bytes.extend_from_slice(&[0x01, 0x05, 0x01]);
    assert_eq!(parse(&bytes), Err(DecodeError::Malformed));
    let mut bytes = HEADER.to_vec();
    bytes.push(0x01);
    assert_eq!(parse(&bytes), Err(DecodeError::Malformed));
}

#[test]
fn unknown_opcode_in_a_body_is_rejected() {
    let mut bytes = HEADER.to_vec();
    // code section, one body, no locals, opcode 0xff
    bytes.extend_from_slice(&[0x0a, 0x05, 0x01, 0x03, 0x00, 0xff, 0x0b]);
    assert_eq!(parse(&bytes), Err(DecodeError::Malformed));
    let mut bytes = HEADER.to_vec();
    bytes.extend_from_slice(&[0x0a, 0x06, 0x01, 0x04, 0x00, 0xfc, 0x00, 0x0b]);
    assert_eq!(parse(&bytes), Err(DecodeError::Malformed));
}

#[test]
fn bad_type_tag_is_rejected() {
    let mut bytes = HEADER.to_vec();
    bytes.extend_from_slice(&[0x01, 0x04, 0x01, 0x61, 0x00, 0x00]);
    assert_eq!(parse(&bytes), Err(DecodeError::Malformed));
}

#[test]
fn sample_module_round_trips() {
    let module = sample_module();
    let bytes = print(&module).unwrap();
    let decoded = parse(&bytes).unwrap();
    assert_eq!(decoded.sections.len(), module.sections.len());
    let again = print(&decoded).unwrap();
    assert_eq!(again, bytes);
    let twice = parse(&again).unwrap();
    assert_eq!(twice, decoded);
}

#[test]
fn decoded_module_has_the_structure_that_was_encoded() {
    let module = sample_module();
    let decoded = parse(&print(&module).unwrap()).unwrap();
    match (&decoded.sections[0].value, &module.sections[0].value) {
        (Section::Type(_, a), Section::Type(_, b)) => assert_eq!(a, b),
        _ => panic!("no type section"),
    }
    match (&decoded.sections[2].value, &module.sections[2].value) {
        (Section::Func(_, a), Section::Func(_, b)) => assert_eq!(a, b),
        _ => panic!("no function section"),
    }
    match (&decoded.sections[6].value, &module.sections[6].value) {
        (Section::Export(_, a), Section::Export(_, b)) => assert_eq!(a, b),
        _ => panic!("no export section"),
    }
    match &decoded.sections[8].value {
        Section::Code(_, codes) => {
            assert_eq!(codes.value.len(), 2);
            assert_eq!(
                codes.value[0].locals,
                vec![
                    CodeLocal { count: 2, value_type: ValueType::NumType(NumType::I32) },
                    CodeLocal { count: 1, value_type: ValueType::NumType(NumType::I64) },
                ]
            );
            let body = &codes.value[0].body.value;
            assert_eq!(body.len(), 6);
            assert_eq!(body[0].value, Instr::local_get(0));
            assert_eq!(body[1].value, Instr::i32_const(-7));
            assert_eq!(body[4].value, Instr::Return);
            assert_eq!(body[5].value, Instr::end);
            match &body[3].value {
                Instr::Block(t, inner) => {
                    assert_eq!(*t, BlockType::ValueType(ValueType::NumType(NumType::I32)));
                    assert_eq!(inner.value.len(), 14);
                    assert_eq!(inner.value[0].value, Instr::i64_const(i64::MIN));
                    match &inner.value[3].value {
                        Instr::If(t, _) => assert_eq!(*t, BlockType::Typeidx(70)),
                        _ => panic!("no if"),
                    }
                    match &inner.value[7].value {
                        Instr::br_table(labels, default) => {
                            assert_eq!(labels, &vec![0, 1, 300]);
                            assert_eq!(*default, 2);
                        }
                        _ => panic!("no br_table"),
                    }
                }
                _ => panic!("no block"),
            }
        }
        _ => panic!("no code section"),
    }
    match &decoded.sections[10].value {
        Section::Custom(_, CustomSection::Unknown(name, bytes)) => {
            assert_eq!(name, "producers");
            assert_eq!(bytes, &vec![9, 8, 7]);
        }
        _ => panic!("no custom section"),
    }
    match &decoded.sections[11].value {
        Section::Custom(_, CustomSection::Name(names)) => {
            let map = names.func_names.as_ref().unwrap();
            assert_eq!(map.len(), 3);
            assert_eq!(map.get(&1), Some(&"first".to_string()));
            assert!(names.module.is_none());
        }
        _ => panic!("no name section"),
    }
    match &decoded.sections[12].value {
        Section::Unknown(id, size, bytes) => {
            assert_eq!((*id, *size), (12, 1));
            assert_eq!(bytes, &vec![3]);
        }
        _ => panic!("no unknown section"),
    }
}

#[test]
fn decoder_records_offsets() {
    let mut bytes = HEADER.to_vec();
    // code section: one body with locals [] and body: i32.const 1, drop, end
    bytes.extend_from_slice(&[0x0a, 0x07, 0x01, 0x05, 0x00, 0x41, 0x01, 0x1a, 0x0b]);
    let module = parse(&bytes).unwrap();
    assert_eq!(module.sections[0].start_offset, 8);
    assert_eq!(module.sections[0].end_offset, 17);
    match &module.sections[0].value {
        Section::Code(size, codes) => {
            assert_eq!(size.value, 7);
            assert_eq!((size.start_offset, size.end_offset), (9, 10));
            let code = &codes.value[0];
            assert_eq!(code.size.value, 5);
            assert_eq!((code.size.start_offset, code.size.end_offset), (11, 12));
            assert_eq!(code.body.start_offset, 13);
            assert_eq!(code.body.end_offset, 17);
            let i = &code.body.value;
            assert_eq!((i[0].start_offset, i[0].end_offset), (13, 15));
            assert_eq!((i[1].start_offset, i[1].end_offset), (15, 16));
            assert_eq!((i[2].start_offset, i[2].end_offset), (16, 17));
        }
        _ => panic!("no code section"),
    }
}

#[test]
fn section_sizes_are_recomputed() {
    let mut module = sample_module();
    for section in module.sections.iter_mut() {
        if let Section::Type(size, _) = &mut section.value {
            size.value = 9999;
        }
    }
    assert_eq!(print(&module).unwrap(), print(&sample_module()).unwrap());
}

#[test]
fn size_placeholder_is_replaced_by_the_length() {
    let mut bytes = vec![1, 0, 3];
    write_unsigned_leb128_at_offset(&mut bytes, 1, 300);
    assert_eq!(bytes, vec![1, 0xac, 0x02, 3]);
    let mut bytes = vec![0];
    write_unsigned_leb128_at_offset(&mut bytes, 0, 5);
    assert_eq!(bytes, vec![5]);
}

#[test]
fn large_section_has_a_long_size() {
    let module = Module {
        sections: vec![Value::new(Section::Custom(
            Value::new(0),
            CustomSection::Unknown("x".to_string(), vec![0xaa; 200]),
        ))],
    };
    let bytes = print(&module).unwrap();
    assert_eq!(&bytes[8..13], &[0x00, 0xca, 0x01, 0x01, b'x']);
    assert_eq!(bytes.len(), 8 + 3 + 202);
    match &parse(&bytes).unwrap().sections[0].value {
        Section::Custom(size, CustomSection::Unknown(name, data)) => {
            assert_eq!(size.value, 202);
            assert_eq!(name, "x");
            assert_eq!(data, &vec![0xaa; 200]);
        }
        _ => panic!("no custom section"),
    }
}

#[test]
fn unknown_section_is_kept_as_it_is() {
    let mut bytes = HEADER.to_vec();
    bytes.extend_from_slice(&[0x0d, 0x02, 0xaa, 0xbb, 0x08, 0x01, 0x00]);
    let module = parse(&bytes).unwrap();
    assert_eq!(module.sections[0].value, Section::Unknown(13, 2, vec![0xaa, 0xbb]));
    assert_eq!(module.sections[1].value, Section::Unknown(8, 1, vec![0x00]));
    assert_eq!(print(&module).unwrap(), bytes);
}

#[test]
fn custom_section_that_cannot_be_decoded_is_kept_as_unknown() {
    let mut bytes = HEADER.to_vec();
    // a section named "name" whose function names are cut short
    bytes.extend_from_slice(&[0x00, 0x08, 0x04, b'n', b'a', b'm', b'e', 0x01, 0x02, 0x05]);
    // a type section behind it
    bytes.extend_from_slice(&[0x01, 0x01, 0x00]);
    let module = parse(&bytes).unwrap();
    assert_eq!(
        module.sections[0].value,
        Section::Unknown(0, 8, vec![0x04, b'n', b'a', b'm', b'e', 0x01, 0x02, 0x05])
    );
    assert_eq!(module.sections[1].value, Section::Type(module_size(&module, 1), vec![]));
    assert_eq!(print(&module).unwrap(), bytes);
}

fn module_size(module: &Module, k: usize) -> Value<u32> {
    match &module.sections[k].value {
        Section::Type(size, _) => *size,
        _ => panic!("no type section"),
    }
}

#[test]
fn name_section_skips_other_subsections() {
    let mut bytes = HEADER.to_vec();
    bytes.extend_from_slice(&[
        0x00, 0x10, 0x04, b'n', b'a', b'm', b'e', // section and name
        0x00, 0x02, 0x01, b'm', // module name, passed over
        0x01, 0x05, 0x01, 0x07, 0x02, b'h', b'i', // function names
    ]);
    let module = parse(&bytes).unwrap();
    match &module.sections[0].value {
        Section::Custom(_, CustomSection::Name(names)) => {
            let map = names.func_names.as_ref().unwrap();
            assert_eq!(map.len(), 1);
            assert_eq!(map.get(&7), Some(&"hi".to_string()));
            assert!(names.module.is_none());
            assert!(names.func_local_names.is_none());
        }
        other => panic!("no name section: {:?}", other),
    }
}

#[test]
fn build_id_section_is_written_with_its_length() {
    let module = Module {
        sections: vec![Value::new(Section::Custom(
            Value::new(0),
            CustomSection::BuildId(vec![1, 2, 3]),
        ))],
    };
    let bytes = print(&module).unwrap();
    assert_eq!(
        &bytes[8..],
        &[0x00, 0x0d, 0x08, b'b', b'u', b'i', b'l', b'd', b'_', b'i', b'd', 0x03, 1, 2, 3]
    );
    let decoded = parse(&bytes).unwrap();
    assert_eq!(
        decoded.sections[0].value,
        Section::Custom(
            match &decoded.sections[0].value {
                Section::Custom(size, _) => *size,
                _ => panic!("no custom section"),
            },
            CustomSection::Unknown("build_id".to_string(), vec![0x03, 1, 2, 3])
        )
    );
    assert_eq!(print(&decoded).unwrap(), bytes);
}

#[test]
fn name_section_writes_its_names_in_the_order_of_their_indices() {
    let mut names = HashMap::new();
    names.insert(5u32, "far".to_string());
    names.insert(0u32, "a".to_string());
    let section = Section::Custom(
        Value::new(0),
        CustomSection::Name(DebugNames {
            module: Some("ignored".to_string()),
            func_names: Some(names),
            func_local_names: None,
        }),
    );
    let mut out = vec![];
    write_section(&mut out, &section).unwrap();
    assert_eq!(
        out,
        vec![
            0x00, 0x10, 0x04, b'n', b'a', b'm', b'e', // section and name
            0x01, 0x09, 0x02, // function names: two of them
            0x00, 0x01, b'a', // 0
            0x05, 0x03, b'f', b'a', b'r', // 5
        ]
    );
}

#[test]
fn instruction_without_an_opcode_is_not_encoded() {
    let mut out = vec![];
    assert_eq!(
        write_instr(&mut out, &Instr::i32_trunc_sat_f32_s),
        Err(EncodeError::UnsupportedInstruction)
    );
    let module = Module {
        sections: vec![Value::new(Section::Code(
            Value::new(0),
            Value::new(vec![Code {
                size: Value::new(0),
                locals: vec![],
                body: expr(vec![
                    Instr::Block(
                        BlockType::Empty,
                        expr(vec![Instr::i64_trunc_sat_f64_u, Instr::end]),
                    ),
                    Instr::end,
                ]),
            }]),
        ))],
    };
    assert_eq!(print(&module), Err(EncodeError::UnsupportedInstruction));
}

#[test]
fn floating_point_constants_are_written_least_significant_byte_first() {
    assert_eq!(encode(&Instr::f32_const(0x3f80_0000)), vec![0x43, 0x00, 0x00, 0x80, 0x3f]);
    assert_eq!(
        encode(&Instr::f64_const(0x4084_d000_0000_0001)),
        vec![0x44, 0x01, 0x00, 0x00, 0x00, 0x00, 0xd0, 0x84, 0x40]
    );
    let bytes = [0x43, 0x00, 0x00, 0x80, 0x3f];
    let (_, instr) = decode_instr(InputContext::new(&bytes)).unwrap();
    assert_eq!(instr.value, Instr::f32_const(0x3f80_0000));
    let one = f32::from_bits(0x3f80_0000);
    assert_eq!(one, 1.0);
}

#[test]
fn names_are_read_as_text() {
    let bytes = [0x03, b'a', 0xc3, 0xa9];
    let (ctx, name) = decode_name(InputContext::new(&bytes)).unwrap();
    assert_eq!(name, "a\u{e9}");
    assert_eq!(ctx.offset, 4);
    let bytes = [0x02, b'a', 0xff];
    let (_, name) = decode_name(InputContext::new(&bytes)).unwrap();
    assert_eq!(name, "a\u{fffd}");
    assert!(decode_name(InputContext::new(&[0x05, b'a'])).is_none());
    let mut out = vec![];
    write_utf8(&mut out, "a\u{e9}");
    assert_eq!(out, vec![0x03, b'a', 0xc3, 0xa9]);
}

#[test]
fn block_types_are_told_apart() {
    let (_, t) = decode_blocktype(InputContext::new(&[0x40])).unwrap();
    assert_eq!(t, BlockType::Empty);
    let (_, t) = decode_blocktype(InputContext::new(&[0x7e])).unwrap();
    assert_eq!(t, BlockType::ValueType(ValueType::NumType(NumType::I64)));
    let (_, t) = decode_blocktype(InputContext::new(&[0x05])).unwrap();
    assert_eq!(t, BlockType::Typeidx(5));
    let (ctx, t) = decode_blocktype(InputContext::new(&[0xc6, 0x00])).unwrap();
    assert_eq!(t, BlockType::Typeidx(70));
    assert_eq!(ctx.offset, 2);
    assert!(decode_blocktype(InputContext::new(&[0x41])).is_none());
    assert!(decode_blocktype(InputContext::new(&[])).is_none());
}

#[test]
fn every_plain_opcode_stands_for_its_instruction() {
    let mut plain = 0;
    for op in 0..=255u8 {
        if let Some(instr) = decode_plain(op) {
            plain += 1;
            assert_eq!(opcode_of(&instr), Some(op));
            assert_eq!(encode(&instr), vec![op]);
            let bytes = [op];
            let (ctx, node) = decode_instr(InputContext::new(&bytes)).unwrap();
            assert_eq!(node.value, instr);
            assert_eq!((node.start_offset, node.end_offset, ctx.offset), (0, 1, 1));
        }
    }
    assert_eq!(plain, 135);
    assert_eq!(decode_plain(0x6a), Some(Instr::i32_add));
    assert_eq!(decode_plain(0x0b), Some(Instr::end));
    assert_eq!(decode_plain(0xc4), Some(Instr::i64_extend32_s));
    assert_eq!(decode_plain(0x02), None);
}

#[test]
fn instructions_with_immediates_round_trip() {
    let samples = vec![
        (Instr::br(3), vec![0x0c, 0x03]),
        (Instr::br_if(1), vec![0x0d, 0x01]),
        (Instr::local_set(4), vec![0x21, 0x04]),
        (Instr::local_tee(5), vec![0x22, 0x05]),
        (Instr::global_get(6), vec![0x23, 0x06]),
        (Instr::global_set(7), vec![0x24, 0x07]),
        (Instr::table_get(8), vec![0x25, 0x08]),
        (Instr::table_set(9), vec![0x26, 0x09]),
        (Instr::call_indirect(2, 0), vec![0x11, 0x02, 0x00]),
        (Instr::memory_grow(0), vec![0x40, 0x00]),
        (Instr::memory_size(0), vec![0x3f, 0x00]),
        (Instr::memory_copy(1, 2), vec![0xfc, 0x0a, 0x01, 0x02]),
        (Instr::memory_fill(3), vec![0xfc, 0x0b, 0x03]),
        (Instr::br_table(vec![1, 2], 0), vec![0x0e, 0x02, 0x01, 0x02, 0x00]),
    ];
    for (instr, bytes) in samples {
        assert_eq!(encode(&instr), bytes);
        let (ctx, node) = decode_instr(InputContext::new(&bytes)).unwrap();
        assert_eq!(node.value, instr);
        assert_eq!(ctx.offset, bytes.len());
    }
}

#[test]
fn loads_and_stores_keep_the_place_of_their_first_immediate() {
    let bytes = [0x28, 0x02, 0x90, 0x01];
    let (_, node) = decode_instr(InputContext::new(&bytes)).unwrap();
    assert_eq!(
        node.value,
        Instr::i32_load(Value { value: 2, start_offset: 1, end_offset: 2 }, 144)
    );
    assert_eq!(encode(&node.value), bytes);
    let bytes = [0x3e, 0x03, 0x00];
    let (_, node) = decode_instr(InputContext::new(&bytes)).unwrap();
    assert_eq!(
        node.value,
        Instr::i64_store32(Value { value: 3, start_offset: 1, end_offset: 2 }, 0)
    );
    let bytes = [0x10, 0x85, 0x01];
    let (_, node) = decode_instr(InputContext::new(&bytes)).unwrap();
    assert_eq!(node.value, Instr::call(Value { value: 133, start_offset: 1, end_offset: 3 }));
}

#[test]
fn structured_instructions_own_their_bodies() {
    let bytes = [0x02, 0x40, 0x03, 0x7f, 0x01, 0x0b, 0x0b];
    let (ctx, node) = decode_instr(InputContext::new(&bytes)).unwrap();
    assert_eq!(ctx.offset, 7);
    match &node.value {
        Instr::Block(BlockType::Empty, body) => {
            assert_eq!(body.value.len(), 2);
            assert_eq!((body.start_offset, body.end_offset), (2, 7));
            match &body.value[0].value {
                Instr::Loop(t, inner) => {
                    assert_eq!(*t, BlockType::ValueType(ValueType::NumType(NumType::I32)));
                    assert_eq!(inner.value.len(), 2);
                    assert_eq!(inner.value[0].value, Instr::nop);
                    assert_eq!(inner.value[1].value, Instr::end);
                }
                _ => panic!("no loop"),
            }
            assert_eq!(body.value[1].value, Instr::end);
        }
        _ => panic!("no block"),
    }
    assert_eq!(encode(&node.value), bytes);
    assert!(decode_instr(InputContext::new(&[0x02, 0x40, 0x01])).is_none());
}

#[test]
fn data_segment_offset_is_its_constant() {
    let segment = DataSegment {
        offset: Some(expr(vec![Instr::i32_const(24), Instr::end])),
        bytes: vec![],
        mode: DataSegmentMode::Active,
    };
    assert_eq!(segment.compute_offset(), 24);
    assert_eq!(segment.const_offset(), Some(24));
    let passive = DataSegment { offset: None, bytes: vec![], mode: DataSegmentMode::Passive };
    assert_eq!(passive.const_offset(), None);
    let odd = DataSegment {
        offset: Some(expr(vec![Instr::global_get(0), Instr::end])),
        bytes: vec![],
        mode: DataSegmentMode::Active,
    };
    assert_eq!(odd.const_offset(), None);
}

#[test]
fn global_value_is_its_constant() {
    let global = Global {
        global_type: GlobalType { valtype: ValueType::NumType(NumType::I32), mutable: false },
        expr: expr(vec![Instr::i32_const(-9), Instr::end]),
    };
    assert_eq!(global.compute_value(), -9);
}

#[test]
fn sections_have_their_place() {
    let places: Vec<usize> = sample_module().sections.iter().map(|s| s.pos()).collect();
    assert_eq!(places, vec![1, 2, 3, 4, 5, 6, 7, 9, 10, 11, 99, 99, 99]);
}

#[test]
fn instructions_are_cloned_with_their_bodies() {
    let module = sample_module();
    let copy = module.clone();
    assert_eq!(copy, module);
}

#[test]
fn names_with_gaps_are_read_back() {
    let mut names = HashMap::new();
    names.insert(0u32, "a".to_string());
    names.insert(5u32, "far".to_string());
    names.insert(70_000u32, "farther".to_string());
    let module = Module {
        sections: vec![Value::new(Section::Custom(
            Value::new(0),
            CustomSection::Name(DebugNames {
                module: None,
                func_names: Some(names.clone()),
                func_local_names: None,
            }),
        ))],
    };
    let bytes = print(&module).unwrap();
    let decoded = parse(&bytes).unwrap();
    match &decoded.sections[0].value {
        Section::Custom(_, CustomSection::Name(read)) => {
            assert_eq!(read.func_names.as_ref(), Some(&names));
        }
        other => panic!("no name section: {:?}", other),
    }
    assert_eq!(print(&decoded).unwrap(), bytes);
}

#[test]
fn what_was_decoded_is_written_twice_alike() {
    let mut bytes = HEADER.to_vec();
    // a type section whose size and count take two bytes each
    bytes.extend_from_slice(&[0x01, 0x85, 0x00, 0x81, 0x00, 0x60, 0x00, 0x00]);
    // a code section with room behind the body of its function
    bytes.extend_from_slice(&[0x0a, 0x05, 0x01, 0x03, 0x00, 0x0b, 0xff]);
    // a custom section of a name that the decoder does not know
    bytes.extend_from_slice(&[0x00, 0x04, 0x01, b'x', 0xaa, 0xbb]);
    let module = parse(&bytes).unwrap();
    let first = print(&module).unwrap();
    assert_ne!(first, bytes);
    assert_eq!(
        &first[8..],
        &[
            0x01, 0x04, 0x01, 0x60, 0x00, 0x00, // types
            0x0a, 0x04, 0x01, 0x02, 0x00, 0x0b, // code
            0x00, 0x04, 0x01, b'x', 0xaa, 0xbb, // custom
        ]
    );
    let again = parse(&first).unwrap();
    assert_eq!(print(&again).unwrap(), first);
    // the same sections with the same contents, at other places
    assert_eq!(again.sections.len(), module.sections.len());
    match (&module.sections[0].value, &again.sections[0].value) {
        (Section::Type(_, a), Section::Type(_, b)) => assert_eq!(a, b),
        other => panic!("no type sections: {:?}", other),
    }
    match (&module.sections[1].value, &again.sections[1].value) {
        (Section::Code(_, a), Section::Code(_, b)) => {
            assert_eq!(a.value.len(), 1);
            assert_eq!(b.value.len(), 1);
            assert_eq!(a.value[0].locals, b.value[0].locals);
            let left: Vec<&Instr> = a.value[0].body.value.iter().map(|n| &n.value).collect();
            let right: Vec<&Instr> = b.value[0].body.value.iter().map(|n| &n.value).collect();
            assert_eq!(left, right);
            assert_ne!(a.value[0].body.start_offset, b.value[0].body.start_offset);
        }
        other => panic!("no code sections: {:?}", other),
    }
    match (&module.sections[2].value, &again.sections[2].value) {
        (Section::Custom(_, a), Section::Custom(_, b)) => assert_eq!(a, b),
        other => panic!("no custom sections: {:?}", other),
    }
}

#[test]
fn custom_section_ends_with_its_size() {
    let mut bytes = HEADER.to_vec();
    // a `core` section whose name would run into the next section
    bytes.extend_from_slice(&[0x00, 0x07, 0x04, b'c', b'o', b'r', b'e', 0x00, 0x03]);
    bytes.extend_from_slice(&[0x01, 0x01, 0x00]);
    let module = parse(&bytes).unwrap();
    assert_eq!(
        module.sections[0].value,
        Section::Unknown(0, 7, vec![0x04, b'c', b'o', b'r', b'e', 0x00, 0x03])
    );
    assert_eq!(module.sections.len(), 2);
    assert_eq!(print(&module).unwrap(), bytes);
}

#[test]
fn unknown_section_is_written_with_the_length_of_its_bytes() {
    let one = Module { sections: vec![Value::new(Section::Unknown(12, 1, vec![0xaa]))] };
    let two = Module { sections: vec![Value::new(Section::Unknown(12, 2, vec![0xaa]))] };
    let bytes = print(&one).unwrap();
    assert_eq!(&bytes[8..], &[0x0c, 0x01, 0xaa]);
    assert_eq!(print(&two).unwrap(), bytes);
    let long = Module { sections: vec![Value::new(Section::Unknown(13, 0, vec![7; 200]))] };
    let bytes = print(&long).unwrap();
    assert_eq!(&bytes[8..11], &[0x0d, 0xc8, 0x01]);
    assert_eq!(bytes.len(), 8 + 3 + 200);
}

#[test]
fn header_is_written_byte_for_byte() {
    let bytes = print(&Module { sections: vec![] }).unwrap();
    assert_eq!(bytes, vec![0x00, 0x61, 0x73, 0x6d, 0x01, 0x00, 0x00, 0x00]);
    assert_eq!(
        parse(&[0x00, 0x61, 0x73, 0x6d, 0x01, 0x00, 0x00, 0x01]).err(),
        Some(DecodeError::BadVersion)
    );
    assert_eq!(
        parse(&[0x00, 0x61, 0x73, 0x6d, 0x02, 0x00, 0x00, 0x00]).err(),
        Some(DecodeError::BadVersion)
    );
    assert_eq!(parse(&[0x00, 0x61, 0x73, 0x6d, 0x01, 0x00]).err(), Some(DecodeError::Malformed));
}

#[test]
fn number_of_more_than_32_bits_is_rejected() {
    // a type section whose count is 2^32 + 1
    let mut bytes = HEADER.to_vec();
    bytes.extend_from_slice(&[0x01, 0x05, 0x81, 0x80, 0x80, 0x80, 0x10]);
    assert_eq!(parse(&bytes).err(), Some(DecodeError::Malformed));
    // the greatest 32-bit number is read: a function section of one index
    let mut bytes = HEADER.to_vec();
    bytes.extend_from_slice(&[0x03, 0x06, 0x01, 0xff, 0xff, 0xff, 0xff, 0x0f]);
    let module = parse(&bytes).unwrap();
    match &module.sections[0].value {
        Section::Func(_, v) => assert_eq!(v, &vec![0xffff_ffffu32]),
        other => panic!("no function section: {:?}", other),
    }
    // a section whose size is 2^32
    let mut bytes = HEADER.to_vec();
    bytes.extend_from_slice(&[0x0d, 0x80, 0x80, 0x80, 0x80, 0x10]);
    assert_eq!(parse(&bytes).err(), Some(DecodeError::Malformed));
}

#[test]
fn floating_point_bits_are_read_least_significant_byte_first() {
    let mut bytes = HEADER.to_vec();
    // a global of type f32 that starts at the bits 0x44268000, and one of
    // type f64
    bytes.extend_from_slice(&[
        0x06, 0x15, 0x02, // globals: two
        0x7d, 0x00, 0x43, 0x00, 0x80, 0x26, 0x44, 0x0b, // f32
        0x7c, 0x00, 0x44, 0x08, 0x07, 0x06, 0x05, 0x04, 0x03, 0x02, 0x01, 0x0b, // f64
    ]);
    let module = parse(&bytes).unwrap();
    match &module.sections[0].value {
        Section::Global(_, v) => {
            assert_eq!(v[0].expr.value[0].value, Instr::f32_const(0x4426_8000));
            assert_eq!(v[1].expr.value[0].value, Instr::f64_const(0x0102_0304_0506_0708));
        }
        other => panic!("no global section: {:?}", other),
    }
    assert_eq!(print(&module).unwrap(), bytes);
}
