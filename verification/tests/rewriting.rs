use wasm_coredump::ast::{
    BlockType, Code, CodeLocal, Export, ExportDescr, Instr, Module, NumType, Section, Type, Value,
    ValueType,
};
use wasm_coredump::parser::DecodeError;
use wasm_coredump::printer::print;
use wasm_coredump::rewriter::{
    get_runtime, locals_flatten, prepend, rewrite, total_locals, CoredumpTransform, RewriteError,
    RuntimeTransform, NO_ENTRY_FUNCIDX_VALUE,
};
use wasm_coredump::traverse::{visit_expr, WasmModule};

const I32: ValueType = ValueType::NumType(NumType::I32);
const I64: ValueType = ValueType::NumType(NumType::I64);
const F32: ValueType = ValueType::NumType(NumType::F32);
const F64: ValueType = ValueType::NumType(NumType::F64);

fn nodes(instrs: Vec<Instr>) -> Vec<Value<Instr>> {
    instrs.into_iter().map(Value::new).collect()
}

fn expr(instrs: Vec<Instr>) -> Value<Vec<Value<Instr>>> {
    Value::new(nodes(instrs))
}

fn plain(body: &[Value<Instr>]) -> Vec<Instr> {
    body.iter().map(|n| n.value.clone()).collect()
}

fn call(f: u32) -> Instr {
    Instr::call(Value::new(f))
}

fn code(locals: Vec<CodeLocal>, instrs: Vec<Instr>) -> Code {
    Code { size: Value::new(0), locals, body: expr(instrs) }
}

fn transform(check_memory_operations: bool) -> CoredumpTransform {
    CoredumpTransform {
        is_unwinding: 10,
        entry_funcidx: 11,
        unreachable_shim: 20,
        write_coredump: 21,
        start_frame: 22,
        add_i32_local: 23,
        add_i64_local: 24,
        add_f32_local: 25,
        add_f64_local: 26,
        check_memory_operations,
    }
}

/// One function, the function 0, of type (i32, f64) -> (i64, f32), with
/// the locals i32, i32, i64. It is exported where `exported` is true.
fn subject(exported: bool, body: Vec<Instr>) -> WasmModule {
    WasmModule::new(Module {
        sections: vec![
            Value::new(Section::Type(
                Value::new(0),
                vec![Type { params: vec![I32, F64], results: vec![I64, F32] }],
            )),
            Value::new(Section::Func(Value::new(0), vec![0])),
            Value::new(Section::Export(
                Value::new(0),
                if exported {
                    vec![Export { name: "main".to_string(), descr: ExportDescr::Func(0) }]
                } else {
                    vec![]
                },
            )),
            Value::new(Section::Code(
                Value::new(0),
                Value::new(vec![code(
                    vec![
                        CodeLocal { count: 2, value_type: I32 },
                        CodeLocal { count: 1, value_type: I64 },
                    ],
                    body,
                )]),
            )),
        ],
    })
}

fn frame(real_params: bool) -> Vec<Instr> {
    let mut out = vec![Instr::i32_const(0), Instr::i32_const(5), call(22)];
    if real_params {
        out.extend(vec![Instr::local_get(0), call(23), Instr::local_get(1), call(26)]);
    } else {
        out.extend(vec![Instr::i32_const(669), call(23), Instr::i32_const(670), call(23)]);
    }
    out.extend(vec![
        Instr::local_get(2),
        call(23),
        Instr::local_get(3),
        call(23),
        Instr::local_get(4),
        call(24),
    ]);
    out
}

#[test]
fn locals_are_flattened_run_by_run() {
    let flat = locals_flatten(vec![
        CodeLocal { count: 2, value_type: I32 },
        CodeLocal { count: 0, value_type: F32 },
        CodeLocal { count: 1, value_type: I64 },
    ]);
    assert_eq!(
        flat,
        vec![
            CodeLocal { count: 1, value_type: I32 },
            CodeLocal { count: 1, value_type: I32 },
            CodeLocal { count: 1, value_type: I64 },
        ]
    );
    assert!(locals_flatten(vec![]).is_empty());
}

#[test]
fn locals_are_counted_in_32_bits() {
    assert_eq!(total_locals(&vec![]), Some(0));
    assert_eq!(
        total_locals(&vec![
            CodeLocal { count: 2, value_type: I32 },
            CodeLocal { count: 3, value_type: I32 }
        ]),
        Some(5)
    );
    assert_eq!(
        total_locals(&vec![
            CodeLocal { count: u32::MAX, value_type: I32 },
            CodeLocal { count: 1, value_type: I32 }
        ]),
        None
    );
}

#[test]
fn prepend_puts_the_second_first() {
    assert_eq!(prepend(vec![3, 4], vec![1, 2]), vec![1, 2, 3, 4]);
    assert_eq!(prepend(Vec::<u8>::new(), vec![]), Vec::<u8>::new());
}

#[test]
fn entry_value_is_the_largest_i32() {
    assert_eq!(NO_ENTRY_FUNCIDX_VALUE, i32::MAX);
}

#[test]
fn unreachable_becomes_a_frame_and_a_return() {
    let mut module = subject(false, vec![]);
    let body = nodes(vec![Instr::nop, Instr::unreachable, Instr::nop, Instr::end]);
    module.put_body(0, vec![]);
    let (module, out, _) = visit_expr(module, body, &transform(true), 0);
    let mut expected = vec![Instr::nop, call(20)];
    expected.extend(frame(true));
    expected.extend(vec![
        Instr::i64_const(666),
        Instr::f32_const(0x4426_8000),
        Instr::Return,
        Instr::nop,
        Instr::end,
    ]);
    assert_eq!(plain(&out), expected);
    assert_eq!(module.func_locals_count(0), 3);
    assert_eq!(f32::from_bits(0x4426_8000), 666.0);
    assert_eq!(f64::from_bits(0x4084_d000_0000_0000), 666.0);
    assert_eq!(f32::from_bits(0x4426_c000), 667.0);
    assert_eq!(f64::from_bits(0x4084_d800_0000_0000), 667.0);
}

#[test]
fn calls_are_followed_by_the_unwinding_check() {
    let module = subject(true, vec![]);
    let body = nodes(vec![call(7), Instr::call_indirect(0, 0), Instr::end]);
    let (_, out, _) = visit_expr(module, body, &transform(false), 0);
    assert_eq!(out.len(), 3 + 2 * 2);
    assert_eq!(out[0].value, call(7));
    assert_eq!(out[1].value, Instr::global_get(10));
    assert_eq!(out[3].value, Instr::call_indirect(0, 0));
    assert_eq!(out[4].value, Instr::global_get(10));
    assert_eq!(out[5].value, out[2].value);
    assert_eq!(out[6].value, Instr::end);
    let mut expected = frame(false);
    expected.extend(vec![
        Instr::global_get(11),
        Instr::i32_const(0),
        Instr::i32_eq,
        Instr::If(
            BlockType::Empty,
            expr(vec![
                call(21),
                Instr::unreachable,
                Instr::else_end,
                Instr::i64_const(667),
                Instr::f32_const(0x4426_c000),
                Instr::Return,
                Instr::end,
            ]),
        ),
        Instr::end,
    ]);
    assert_eq!(out[2].value, Instr::If(BlockType::Empty, expr(expected)));
}

#[test]
fn loads_are_checked_where_that_is_asked_for() {
    let load = Instr::i32_load(Value::new(2), 0);
    let body = vec![Instr::local_get(0), load.clone(), Instr::drop, Instr::end];

    let (module, out, _) =
        visit_expr(subject(false, vec![]), nodes(body.clone()), &transform(false), 0);
    assert_eq!(plain(&out), body);
    assert_eq!(module.func_locals_count(0), 3);

    let (module, out, _) =
        visit_expr(subject(true, vec![]), nodes(body.clone()), &transform(true), 0);
    assert_eq!(
        plain(&out),
        vec![
            Instr::local_get(0),
            Instr::local_tee(3),
            Instr::memory_size(0),
            Instr::i32_const(16384),
            Instr::i32_mul,
            Instr::i32_gt_u,
            Instr::If(
                BlockType::Empty,
                expr(vec![call(21), Instr::unreachable, Instr::end])
            ),
            Instr::local_get(3),
            load.clone(),
            Instr::drop,
            Instr::end,
        ]
    );
    assert_eq!(module.func_locals_count(0), 4);
    assert_eq!(module.func_locals(0)[2], CodeLocal { count: 1, value_type: I32 });

    let (_, out, _) = visit_expr(subject(false, vec![]), nodes(body), &transform(true), 0);
    let mut branch = vec![call(20)];
    branch.extend(frame(true));
    branch.extend(vec![
        Instr::i64_const(667),
        Instr::f32_const(0x4426_c000),
        Instr::Return,
        Instr::end,
    ]);
    assert_eq!(out[6].value, Instr::If(BlockType::Empty, expr(branch)));
}

#[test]
fn functions_of_the_runtime_are_left_alone() {
    let mut t = transform(true);
    t.start_frame = 0;
    let body = vec![call(1), Instr::unreachable, Instr::end];
    let (_, out, _) = visit_expr(subject(false, vec![]), nodes(body.clone()), &t, 0);
    assert_eq!(plain(&out), body);
    let (_, out, _) = visit_expr(subject(false, vec![]), nodes(body.clone()), &transform(true), 9);
    assert_eq!(plain(&out), body);
}

#[test]
fn runtime_globals_are_renumbered() {
    let body = nodes(vec![
        Instr::global_get(0),
        Instr::global_set(1),
        Instr::global_get(1),
        Instr::global_set(0),
        Instr::global_get(2),
        Instr::end,
    ]);
    let visitor = RuntimeTransform { frames_ptr_global: 40, frames_count_global: 41 };
    let (_, out, _) = visit_expr(WasmModule::new(Module { sections: vec![] }), body, &visitor, 0);
    assert_eq!(
        plain(&out),
        vec![
            Instr::global_get(40),
            Instr::global_set(41),
            Instr::global_get(41),
            Instr::global_set(40),
            Instr::global_get(2),
            Instr::end,
        ]
    );
}

fn runtime_module() -> Vec<u8> {
    let names =
        ["write_coredump", "start_frame", "add_i32_local", "add_i64_local", "add_f32_local", "add_f64_local"];
    let module = Module {
        sections: vec![
            Value::new(Section::Type(
                Value::new(0),
                vec![
                    Type { params: vec![], results: vec![] },
                    Type { params: vec![I32], results: vec![] },
                ],
            )),
            Value::new(Section::Func(Value::new(0), vec![0, 1, 1, 1, 1, 1])),
            Value::new(Section::Export(
                Value::new(0),
                names
                    .iter()
                    .enumerate()
                    .map(|(i, n)| Export { name: n.to_string(), descr: ExportDescr::Func(i as u32) })
                    .collect(),
            )),
            Value::new(Section::Code(
                Value::new(0),
                Value::new(
                    (0..6)
                        .map(|_| {
                            code(
                                vec![],
                                vec![Instr::global_get(0), Instr::global_set(1), Instr::end],
                            )
                        })
                        .collect(),
                ),
            )),
        ],
    };
    print(&module).unwrap()
}

#[test]
fn runtime_is_decoded_and_given_its_globals() {
    let runtime = get_runtime(&runtime_module(), 5, 6).unwrap();
    let (code, t) = runtime.get_export_func("start_frame").unwrap();
    assert_eq!(t, Type { params: vec![I32], results: vec![] });
    assert_eq!(
        plain(&code.body.value),
        vec![Instr::global_get(5), Instr::global_set(6), Instr::end]
    );
    assert_eq!(get_runtime(&[1, 2, 3], 0, 0).err(), Some(DecodeError::Malformed));
}

#[test]
fn rewrite_adds_the_runtime_and_instruments_the_functions() {
    let mut module = subject(true, vec![call(0), Instr::unreachable, Instr::end]).into_inner();
    module.sections.push(Value::new(Section::Custom(
        Value::new(0),
        wasm_coredump::ast::CustomSection::Name(wasm_coredump::ast::DebugNames {
            module: None,
            func_names: Some(std::collections::HashMap::new()),
            func_local_names: None,
        }),
    )));
    assert_eq!(rewrite(&mut module, false, &runtime_module()).map(|_| ()), Ok(()));
    let wasm = WasmModule::new(module);
    assert_eq!(wasm.globals().len(), 4);
    assert_eq!(wasm.globals()[3].expr.value[0].value, Instr::i32_const(NO_ENTRY_FUNCIDX_VALUE as i64));
    assert_eq!(wasm.get_code_count(), 8);
    assert_eq!(wasm.get_func_name(1), Some("coredump/unreachable_shim".to_string()));
    assert_eq!(wasm.get_func_name(2), Some("coredump/write_coredump".to_string()));
    assert_eq!(wasm.get_func_name(3), Some("coredump/start_frame".to_string()));
    assert_eq!(wasm.get_func_name(4), Some("coredump/add_i32_local".to_string()));
    assert_eq!(wasm.get_func_name(5), Some("coredump/add_f32_local".to_string()));
    assert_eq!(wasm.get_func_name(6), Some("coredump/add_f64_local".to_string()));
    assert_eq!(wasm.get_func_name(7), Some("coredump/add_i64_local".to_string()));
    assert_eq!(
        plain(&wasm.get_code(1).unwrap().body.value),
        vec![Instr::i32_const(1), Instr::global_set(2), Instr::end]
    );
    assert_eq!(
        plain(&wasm.get_code(3).unwrap().body.value),
        vec![Instr::global_get(0), Instr::global_set(1), Instr::end]
    );
    let body = plain(&wasm.get_code(0).unwrap().body.value);
    assert_eq!(
        &body[..4],
        &[
            Instr::global_get(3),
            Instr::i32_const(NO_ENTRY_FUNCIDX_VALUE as i64),
            Instr::i32_eq,
            Instr::If(
                BlockType::Empty,
                expr(vec![Instr::i32_const(0), Instr::global_set(3), Instr::end])
            ),
        ]
    );
    assert_eq!(body[4], call(0));
    assert_eq!(body[5], Instr::global_get(2));
    assert_eq!(body[7], call(1));
    assert_eq!(body[body.len() - 2], Instr::Return);
    assert_eq!(body[body.len() - 1], Instr::end);
    assert!(print(&wasm.inner).is_ok());
}

#[test]
fn rewrite_needs_a_runtime_with_its_exports() {
    let mut module = subject(false, vec![Instr::end]).into_inner();
    assert_eq!(
        rewrite(&mut module, false, &[0, 1]).map(|_| ()),
        Err(RewriteError::BadRuntime(DecodeError::Malformed))
    );
    let empty = print(&Module { sections: vec![] }).unwrap();
    let mut module = subject(false, vec![Instr::end]).into_inner();
    assert_eq!(rewrite(&mut module, false, &empty).map(|_| ()), Err(RewriteError::MissingExport));
}

#[test]
fn rewrite_needs_the_sections_that_it_adds_to() {
    let mut module = Module { sections: vec![] };
    assert_eq!(
        rewrite(&mut module, false, &runtime_module()).map(|_| ()),
        Err(RewriteError::MissingSection)
    );
    // the four globals were added before the functions were
    let wasm = WasmModule::new(module);
    assert_eq!(wasm.globals().len(), 4);
    assert_eq!(wasm.get_code_count(), 0);
}
