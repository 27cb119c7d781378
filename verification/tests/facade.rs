use wasm_coredump::ast::{
    Code, CodeLocal, CustomSection, DataSegmentMode, DebugNames, Export, ExportDescr, Global,
    GlobalType, Import, ImportType, Instr, Memory, Module, NumType, Section, SectionKind, Type,
    Value, ValueType,
};
use wasm_coredump::traverse::{FacadeError, WasmModule};
use std::collections::HashMap;

const I32: ValueType = ValueType::NumType(NumType::I32);
const I64: ValueType = ValueType::NumType(NumType::I64);

fn expr(instrs: Vec<Instr>) -> Value<Vec<Value<Instr>>> {
    Value::new(instrs.into_iter().map(Value::new).collect())
}

fn code(locals: Vec<CodeLocal>, instrs: Vec<Instr>) -> Code {
    Code { size: Value::new(0), locals, body: expr(instrs) }
}

fn import(name: &str, import_type: ImportType) -> Import {
    Import { module: "env".to_string(), name: name.to_string(), import_type }
}

fn global(value: i64) -> Global {
    Global {
        global_type: GlobalType { valtype: I32, mutable: true },
        expr: expr(vec![Instr::i32_const(value), Instr::end]),
    }
}

/// Two imported functions and an imported global, two functions with bodies.
fn sample() -> WasmModule {
    let mut names = HashMap::new();
    names.insert(2u32, "main".to_string());
    WasmModule::new(Module {
        sections: vec![
            Value::new(Section::Type(
                Value::new(0),
                vec![
                    Type { params: vec![], results: vec![] },
                    Type { params: vec![I32, I64], results: vec![I32] },
                ],
            )),
            Value::new(Section::Import(
                Value::new(0),
                vec![
                    import("a", ImportType::Func(1)),
                    import("g", ImportType::Global(GlobalType { valtype: I32, mutable: false })),
                    import("b", ImportType::Func(0)),
                    import("m", ImportType::Memory(Memory { min: Value::new(1), max: None })),
                ],
            )),
            Value::new(Section::Func(Value::new(0), vec![1, 0])),
            Value::new(Section::Export(
                Value::new(0),
                vec![
                    Export { name: "memory".to_string(), descr: ExportDescr::Mem(0) },
                    Export { name: "run".to_string(), descr: ExportDescr::Func(3) },
                    Export { name: "ext".to_string(), descr: ExportDescr::Func(0) },
                ],
            )),
            Value::new(Section::Code(
                Value::new(0),
                Value::new(vec![
                    code(
                        vec![
                            CodeLocal { count: 2, value_type: I32 },
                            CodeLocal { count: 3, value_type: I64 },
                        ],
                        vec![Instr::nop, Instr::end],
                    ),
                    code(vec![], vec![Instr::end]),
                ]),
            )),
            Value::new(Section::Data(Value::new(0), vec![])),
            Value::new(Section::Custom(
                Value::new(0),
                CustomSection::Unknown("notes".to_string(), vec![1]),
            )),
            Value::new(Section::Custom(
                Value::new(0),
                CustomSection::Name(DebugNames {
                    module: None,
                    func_names: Some(names),
                    func_local_names: None,
                }),
            )),
            Value::new(Section::Custom(
                Value::new(0),
                CustomSection::Unknown("notes".to_string(), vec![2]),
            )),
        ],
    })
}

fn kinds(module: &WasmModule) -> Vec<SectionKind> {
    module.inner.sections.iter().map(|s| s.value.kind()).collect()
}

#[test]
fn index_space_has_imports_first() {
    let module = sample();
    assert_eq!(module.imported_func_types(), vec![1, 0]);
    assert_eq!(module.get_code_count(), 2);
    for funcidx in 0..4u32 {
        let imported = module.is_func_imported(funcidx);
        let has_code = module.get_code(funcidx).is_some();
        assert_ne!(imported, has_code);
        assert_eq!(imported, funcidx < 2);
        assert!(module.func_type(funcidx).is_some());
    }
    assert!(!module.is_func_imported(4));
    assert!(module.get_code(4).is_none());
    assert!(module.func_type(4).is_none());
}

#[test]
fn function_types_go_through_the_type_indices() {
    let module = sample();
    assert_eq!(module.get_func_typeidx(0), 1);
    assert_eq!(module.get_func_typeidx(1), 0);
    assert_eq!(module.get_func_typeidx(2), 1);
    assert_eq!(module.get_func_typeidx(3), 0);
    assert_eq!(module.get_func_type(2), Type { params: vec![I32, I64], results: vec![I32] });
    assert_eq!(module.get_func_type(1), Type { params: vec![], results: vec![] });
    assert_eq!(module.get_type(1), Some(Type { params: vec![I32, I64], results: vec![I32] }));
    assert_eq!(module.get_type(2), None);
}

#[test]
fn locals_are_counted_by_their_runs() {
    let module = sample();
    assert_eq!(
        module.func_locals(2),
        vec![CodeLocal { count: 2, value_type: I32 }, CodeLocal { count: 3, value_type: I64 }]
    );
    assert_eq!(module.func_locals_count(2), 5);
    assert_eq!(module.func_locals_count(3), 0);
}

#[test]
fn add_type_returns_the_next_index() {
    let mut module = sample();
    let t = Type { params: vec![I64], results: vec![] };
    assert_eq!(module.add_type(&t), 2);
    assert_eq!(module.get_type(2), Some(t.clone()));
    assert_eq!(module.add_type(&t), 3);
    assert_eq!(module.get_type(3), Some(t));
    assert_eq!(module.get_type(0), Some(Type { params: vec![], results: vec![] }));
}

#[test]
fn sections_are_told_present_or_absent() {
    let module = sample();
    assert!(module.has_section(SectionKind::Type));
    assert!(module.has_section(SectionKind::Code));
    assert!(module.has_section(SectionKind::Func));
    let bare = WasmModule::new(Module { sections: vec![] });
    assert!(!bare.has_section(SectionKind::Type));
    assert!(!bare.has_section(SectionKind::Data));
    assert!(!bare.has_export_section());
}

#[test]
fn add_function_returns_the_next_index() {
    let mut module = sample();
    let shim = code(vec![], vec![Instr::i32_const(1), Instr::drop, Instr::end]);
    assert_eq!(module.add_function(shim.clone(), 1), 4);
    assert_eq!(module.get_code(4), Some(&shim));
    assert_eq!(module.get_func_typeidx(4), 1);
    assert_eq!(module.get_func_type(4), Type { params: vec![I32, I64], results: vec![I32] });
    assert_eq!(module.add_function(shim.clone(), 0), 5);
    assert_eq!(module.get_func_typeidx(5), 0);
    assert_eq!(module.get_code(2).unwrap().locals.len(), 2);
    assert!(!module.is_func_imported(5));
}

#[test]
fn add_global_counts_imported_globals() {
    let mut module = sample();
    assert_eq!(module.global_import_count(), 1);
    assert!(module.globals().is_empty());
    assert_eq!(module.add_global(global(7)), Some(1));
    assert_eq!(module.globals().len(), 1);
    assert_eq!(module.globals()[0], global(7));
    assert_eq!(module.add_global(global(8)), Some(2));
    assert_eq!(module.globals()[1], global(8));
    assert_eq!(
        kinds(&module),
        vec![
            SectionKind::Type,
            SectionKind::Import,
            SectionKind::Func,
            SectionKind::Global,
            SectionKind::Export,
            SectionKind::Code,
            SectionKind::Data,
            SectionKind::Custom,
            SectionKind::Custom,
            SectionKind::Custom,
        ]
    );
}

#[test]
fn add_global_to_an_empty_module_makes_a_section() {
    let mut module = WasmModule::new(Module { sections: vec![] });
    assert_eq!(module.add_global(global(1)), Some(0));
    assert_eq!(kinds(&module), vec![SectionKind::Global]);
    assert_eq!(module.globals(), &[global(1)]);
}

#[test]
fn add_import_is_not_offered() {
    let mut module = sample();
    let before = module.inner.clone();
    assert_eq!(
        module.add_import(&import("c", ImportType::Func(0))),
        Err(FacadeError::Unsupported)
    );
    assert_eq!(module.inner, before);
    assert_eq!(module.imports().len(), 4);
}

#[test]
fn add_func_local_appends_a_run() {
    let mut module = sample();
    let local = CodeLocal { count: 1, value_type: I32 };
    assert!(module.add_func_local(3, local));
    assert_eq!(module.func_locals(3), vec![local]);
    assert!(module.add_func_local(2, local));
    assert_eq!(module.func_locals_count(2), 6);
    assert!(!module.add_func_local(0, local));
    assert!(!module.add_func_local(4, local));
}

#[test]
fn exports_are_found_by_name() {
    let module = sample();
    assert!(module.is_func_exported(3));
    assert!(module.is_func_exported(0));
    assert!(!module.is_func_exported(2));
    let (code, t) = module.get_export_func("run").unwrap();
    assert_eq!(code.body.value.len(), 1);
    assert_eq!(t, Type { params: vec![], results: vec![] });
    assert_eq!(module.get_export_func("none").err(), Some(FacadeError::NotFound));
    assert_eq!(module.get_export_func("memory").err(), Some(FacadeError::TypeMismatch));
    assert_eq!(module.get_export_func("ext").err(), Some(FacadeError::NotFound));
}

#[test]
fn add_export_func_appends_an_export() {
    let mut module = sample();
    assert!(module.has_export_section());
    module.add_export_func("again", 2);
    assert!(module.is_func_exported(2));
    let (code, _) = module.get_export_func("again").unwrap();
    assert_eq!(code.locals.len(), 2);
    assert!(!WasmModule::new(Module { sections: vec![] }).has_export_section());
}

#[test]
fn imports_are_found_by_name() {
    let module = sample();
    assert_eq!(module.find_import("a"), 0);
    assert_eq!(module.find_import("b"), 2);
    assert_eq!(module.find_import("m"), 3);
    assert_eq!(module.find_import("none"), 0);
}

#[test]
fn custom_sections_are_found_by_name() {
    let module = sample();
    assert_eq!(module.get_custom_section("notes"), Some(vec![1]));
    assert_eq!(module.get_custom_section("name"), None);
    assert_eq!(module.get_custom_section("none"), None);
    assert_eq!(module.get_custom_sections().len(), 3);
}

#[test]
fn remove_custom_section_removes_the_last_one() {
    let mut module = sample();
    assert_eq!(module.remove_custom_section("notes"), Some(()));
    assert_eq!(module.get_custom_sections().len(), 2);
    assert_eq!(module.get_custom_section("notes"), Some(vec![1]));
    assert_eq!(module.remove_custom_section("notes"), Some(()));
    assert_eq!(module.get_custom_section("notes"), None);
    assert_eq!(module.remove_custom_section("notes"), None);
    assert_eq!(module.remove_custom_section("name"), Some(()));
    assert_eq!(module.get_func_name(2), None);
    assert_eq!(module.remove_custom_section("name"), None);
    assert_eq!(module.get_custom_sections().len(), 0);
}

#[test]
fn function_names_are_kept_in_the_name_section() {
    let mut module = sample();
    assert_eq!(module.get_func_name(2), Some("main".to_string()));
    assert_eq!(module.get_func_name(3), None);
    module.add_func_name(3, "helper");
    assert_eq!(module.get_func_name(3), Some("helper".to_string()));
    module.add_func_name(2, "renamed");
    assert_eq!(module.get_func_name(2), Some("renamed".to_string()));
    assert_eq!(module.func_names().len(), 2);
    let mut bare = WasmModule::new(Module { sections: vec![] });
    bare.add_func_name(0, "lost");
    assert_eq!(bare.get_func_name(0), None);
    assert!(bare.func_names().is_empty());
}

#[test]
fn build_id_is_a_custom_section() {
    let mut module = sample();
    assert_eq!(module.get_build_id(), None);
    module.set_build_id(&[1, 2, 3]);
    assert_eq!(module.get_build_id(), Some(&vec![1, 2, 3]));
    module.set_build_id(&[4]);
    assert_eq!(module.get_build_id(), Some(&vec![4]));
    assert_eq!(kinds(&module).len(), 11);
    assert_eq!(kinds(&module)[10], SectionKind::Custom);
}

#[test]
fn add_section_puts_the_section_in_its_place() {
    let mut module = sample();
    module.add_section(Section::Memory(Value::new(0), vec![]));
    module.add_section(Section::Element(Value::new(0), vec![]));
    assert_eq!(
        kinds(&module),
        vec![
            SectionKind::Type,
            SectionKind::Import,
            SectionKind::Func,
            SectionKind::Memory,
            SectionKind::Export,
            SectionKind::Element,
            SectionKind::Code,
            SectionKind::Data,
            SectionKind::Custom,
            SectionKind::Custom,
            SectionKind::Custom,
        ]
    );
    let mut empty = WasmModule::new(Module { sections: vec![] });
    empty.add_custom_section(CustomSection::Unknown("c".to_string(), vec![]));
    empty.add_section(Section::Type(Value::new(0), vec![]));
    assert_eq!(kinds(&empty), vec![SectionKind::Type, SectionKind::Custom]);
}

#[test]
fn add_data_appends_an_active_segment() {
    let mut module = sample();
    assert_eq!(module.add_data(16, &[1, 2, 3]), (16, 19));
    match &module.inner.sections[5].value {
        Section::Data(_, segments) => {
            assert_eq!(segments.len(), 1);
            assert_eq!(segments[0].mode, DataSegmentMode::Active);
            assert_eq!(segments[0].bytes, vec![1, 2, 3]);
            assert_eq!(segments[0].compute_offset(), 16);
        }
        _ => panic!("no data section"),
    }
}

#[test]
fn start_of_a_function_is_where_its_body_was_decoded() {
    let mut bytes = vec![0x00, 0x61, 0x73, 0x6d, 0x01, 0x00, 0x00, 0x00];
    bytes.extend_from_slice(&[0x0a, 0x07, 0x02, 0x02, 0x00, 0x0b, 0x02, 0x00, 0x0b]);
    let module = WasmModule::new(wasm_coredump::parser::parse(&bytes).unwrap());
    assert_eq!(module.get_start_of_func(0), Some(13));
    assert_eq!(module.get_start_of_func(1), Some(16));
    assert_eq!(module.get_start_of_func(2), None);
}

#[test]
fn bodies_are_taken_out_and_put_back() {
    let mut module = sample();
    let nodes = module.take_body(2).unwrap();
    assert_eq!(nodes.len(), 2);
    assert!(module.get_code(2).unwrap().body.value.is_empty());
    assert!(module.put_body(2, nodes));
    assert_eq!(module.get_code(2).unwrap().body.value.len(), 2);
    assert!(module.take_body(0).is_none());
    assert!(!module.put_body(9, vec![]));
    assert!(module.replace_code(3, code(vec![], vec![Instr::nop, Instr::end])));
    assert_eq!(module.get_code(3).unwrap().body.value.len(), 2);
    assert!(!module.replace_code(1, code(vec![], vec![])));
}

#[test]
fn last_section_of_a_kind_counts() {
    let module = sample();
    assert_eq!(module.last_section(SectionKind::Type), Some(0));
    assert_eq!(module.last_section(SectionKind::Custom), Some(8));
    assert_eq!(module.last_section(SectionKind::Global), None);
    let inner = module.into_inner();
    assert_eq!(inner.sections.len(), 9);
}
