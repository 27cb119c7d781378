use wasm_coredump::ast::{
    Code, CustomSection, DebugNames, Instr, Memory, Module, Section, Type, Value,
};
use wasm_coredump::split::split;
use std::collections::HashMap;

fn node(section: Section) -> Value<Section> {
    Value { value: section, start_offset: 3, end_offset: 9 }
}

fn names() -> DebugNames {
    let mut map = HashMap::new();
    map.insert(0u32, "main".to_string());
    DebugNames { module: None, func_names: Some(map), func_local_names: None }
}

fn body() -> Code {
    Code {
        size: Value::new(0),
        locals: vec![],
        body: Value::new(vec![Value::new(Instr::end)]),
    }
}

#[test]
fn split_moves_what_a_debugger_reads() {
    let types = Section::Type(Value::new(4), vec![Type { params: vec![], results: vec![] }]);
    let funcs = Section::Func(Value::new(2), vec![0]);
    let memory = Section::Memory(Value::new(3), vec![Memory { min: Value::new(1), max: None }]);
    let code = Section::Code(Value::new(4), Value::new(vec![body()]));
    let dwarf = CustomSection::Unknown(".debug_info".to_string(), vec![1, 2, 3]);
    let lines = CustomSection::Unknown(".debug_line".to_string(), vec![4]);
    let core = CustomSection::BuildId(vec![9]);
    let module = Module {
        sections: vec![
            node(Section::Custom(Value::new(1), dwarf.clone())),
            node(types.clone()),
            node(funcs.clone()),
            node(memory.clone()),
            node(code.clone()),
            node(Section::Custom(Value::new(1), CustomSection::Name(names()))),
            node(Section::Custom(Value::new(1), core.clone())),
            node(Section::Custom(Value::new(1), lines.clone())),
        ],
    };
    let (stripped, debug) = split(module, &[0xab, 0xcd]);
    let left: Vec<Section> = stripped.sections.iter().map(|n| n.value.clone()).collect();
    assert_eq!(
        left,
        vec![
            types.clone(),
            funcs.clone(),
            memory.clone(),
            code,
            Section::Custom(Value::new(1), core),
            Section::Custom(Value::new(0), CustomSection::BuildId(vec![0xab, 0xcd])),
        ]
    );
    // what stays keeps its place in the input
    assert_eq!(stripped.sections[0].start_offset, 3);
    assert_eq!(stripped.sections[5].start_offset, 0);
    let moved: Vec<Section> = debug.sections.iter().map(|n| n.value.clone()).collect();
    assert_eq!(
        moved,
        vec![
            types,
            funcs,
            memory,
            Section::Custom(Value::new(0), dwarf),
            Section::Custom(Value::new(0), CustomSection::Name(names())),
            Section::Custom(Value::new(0), lines),
        ]
    );
}

#[test]
fn split_of_an_empty_module_adds_the_build_id() {
    let (stripped, debug) = split(Module { sections: vec![] }, &[1]);
    assert_eq!(stripped.sections.len(), 1);
    assert_eq!(
        stripped.sections[0].value,
        Section::Custom(Value::new(0), CustomSection::BuildId(vec![1]))
    );
    assert!(debug.sections.is_empty());
}
