use wasm_coredump::ast::{
    BlockType, Code, CodeLocal, DataSegment, DataSegmentMode, Export, ExportDescr, Global,
    GlobalType, Import, ImportType, Instr, Module, NumType, Section, Type, Value, ValueType,
};
use wasm_coredump::traverse::{traverse, visit_expr, Visitor, VisitorContext, WasmModule};
use std::cell::RefCell;

const I32: ValueType = ValueType::NumType(NumType::I32);

fn nodes(instrs: Vec<Instr>) -> Vec<Value<Instr>> {
    instrs.into_iter().map(Value::new).collect()
}

fn expr(instrs: Vec<Instr>) -> Value<Vec<Value<Instr>>> {
    Value::new(nodes(instrs))
}

fn plain(body: &[Value<Instr>]) -> Vec<Instr> {
    body.iter().map(|n| n.value.clone()).collect()
}

fn call(f: u32) -> Instr {
    Instr::call(Value::new(f))
}

fn code(instrs: Vec<Instr>) -> Code {
    Code { size: Value::new(0), locals: vec![], body: expr(instrs) }
}

fn module_with(bodies: Vec<Vec<Instr>>, imports: u32) -> Module {
    let mut import_list = vec![];
    for i in 0..imports {
        import_list.push(Import {
            module: "env".to_string(),
            name: format!("f{}", i),
            import_type: ImportType::Func(0),
        });
    }
    import_list.push(Import {
        module: "env".to_string(),
        name: "g".to_string(),
        import_type: ImportType::Global(GlobalType { valtype: I32, mutable: false }),
    });
    Module {
        sections: vec![
            Value::new(Section::Type(
                Value::new(0),
                vec![Type { params: vec![], results: vec![] }],
            )),
            Value::new(Section::Import(Value::new(0), import_list)),
            Value::new(Section::Func(Value::new(0), bodies.iter().map(|_| 0).collect())),
            Value::new(Section::Export(
                Value::new(0),
                vec![Export { name: "e".to_string(), descr: ExportDescr::Func(imports) }],
            )),
            Value::new(Section::Code(
                Value::new(0),
                Value::new(bodies.into_iter().map(code).collect()),
            )),
            Value::new(Section::Data(Value::new(0), vec![])),
        ],
    }
}

fn bodies_of(module: &Module) -> Vec<Vec<Instr>> {
    for section in &module.sections {
        if let Section::Code(_, codes) = &section.value {
            return codes.value.iter().map(|c| plain(&c.body.value)).collect();
        }
    }
    vec![]
}

#[derive(Default)]
struct Recorder {
    functions: RefCell<Vec<u32>>,
    instructions: RefCell<Vec<(u32, Instr)>>,
    types: RefCell<Vec<u32>>,
    exports: RefCell<Vec<String>>,
    sections: RefCell<Vec<&'static str>>,
}

impl Visitor for Recorder {
    fn visit_instr<'a>(&self, ctx: &mut VisitorContext<'a, Value<Instr>>) {
        self.instructions
            .borrow_mut()
            .push((ctx.curr_funcidx.unwrap(), ctx.node.value.clone()));
    }

    fn visit_type<'a>(&self, _ctx: &mut VisitorContext<'a, Type>, typeidx: u32) {
        self.types.borrow_mut().push(typeidx);
    }

    fn visit_code_section<'a>(&self, ctx: &mut VisitorContext<'a, Vec<Code>>) {
        assert_eq!(ctx.node.len(), ctx.module.get_code_count());
        self.sections.borrow_mut().push("code");
    }

    fn visit_import_section<'a>(&self, _ctx: &mut VisitorContext<'a, Vec<Import>>) {
        self.sections.borrow_mut().push("import");
    }

    fn visit_func_section<'a>(&self, _ctx: &mut VisitorContext<'a, Vec<u32>>) {
        self.sections.borrow_mut().push("func");
    }

    fn visit_data_section<'a>(&self, _ctx: &mut VisitorContext<'a, Vec<DataSegment>>) {
        self.sections.borrow_mut().push("data");
    }

    fn visit_export<'a>(&self, ctx: &mut VisitorContext<'a, Export>) {
        self.exports.borrow_mut().push(ctx.node.name.clone());
    }

    fn visit_code<'a>(&self, ctx: &mut VisitorContext<'a, Code>, funcidx: u32) {
        assert_eq!(ctx.module.get_code(funcidx), Some(ctx.node));
        self.functions.borrow_mut().push(funcidx);
    }
}

#[test]
fn every_function_with_a_body_is_visited_once() {
    let mut module = module_with(
        vec![vec![Instr::nop, Instr::end], vec![Instr::end], vec![Instr::drop, Instr::end]],
        2,
    );
    let before = module.clone();
    let recorder = Recorder::default();
    let _ = traverse(&mut module, &recorder);
    assert_eq!(*recorder.functions.borrow(), vec![2, 3, 4]);
    assert_eq!(
        *recorder.instructions.borrow(),
        vec![
            (2, Instr::nop),
            (2, Instr::end),
            (3, Instr::end),
            (4, Instr::drop),
            (4, Instr::end)
        ]
    );
    assert_eq!(*recorder.types.borrow(), vec![0]);
    assert_eq!(*recorder.exports.borrow(), vec!["e".to_string()]);
    assert_eq!(*recorder.sections.borrow(), vec!["import", "func", "code", "data"]);
    assert_eq!(module, before);
}

#[test]
fn module_without_functions_is_left_alone() {
    let mut module = Module { sections: vec![] };
    let recorder = Recorder::default();
    let _ = traverse(&mut module, &recorder);
    assert!(recorder.functions.borrow().is_empty());
    assert!(module.sections.is_empty());
}

struct Marker;

impl Visitor for Marker {
    fn visit_instr<'a>(&self, ctx: &mut VisitorContext<'a, Value<Instr>>) {
        if let Instr::call(_) = ctx.node.value {
            ctx.insert_node_before(Instr::i32_const(111));
            ctx.insert_node_after(Instr::i32_const(222));
        }
    }
}

#[test]
fn markers_surround_every_call() {
    let body = nodes(vec![
        call(1),
        Instr::nop,
        Instr::Block(BlockType::Empty, expr(vec![call(2), call(3), Instr::end])),
        call(4),
        Instr::end,
    ]);
    let module = WasmModule::new(Module { sections: vec![] });
    let (_, out, _) = visit_expr(module, body, &Marker, 0);
    let before = Instr::i32_const(111);
    let after = Instr::i32_const(222);
    assert_eq!(out.len(), 5 + 2 * 2);
    assert_eq!(out[0].value, before);
    assert_eq!(out[1].value, call(1));
    assert_eq!(out[2].value, after);
    assert_eq!(out[3].value, Instr::nop);
    assert_eq!(out[5].value, before);
    assert_eq!(out[6].value, call(4));
    assert_eq!(out[7].value, after);
    assert_eq!(out[8].value, Instr::end);
    match &out[4].value {
        Instr::Block(_, inner) => assert_eq!(
            plain(&inner.value),
            vec![
                before.clone(),
                call(2),
                after.clone(),
                before.clone(),
                call(3),
                after.clone(),
                Instr::end
            ]
        ),
        _ => panic!("no block"),
    }
}

#[test]
fn markers_add_two_instructions_for_each_call() {
    let mut module = module_with(
        vec![
            vec![call(0), call(0), Instr::end],
            vec![Instr::nop, Instr::end],
            vec![Instr::If(BlockType::Empty, expr(vec![call(1), Instr::end])), Instr::end],
        ],
        1,
    );
    let _ = traverse(&mut module, &Marker);
    let bodies = bodies_of(&module);
    assert_eq!(bodies[0].len(), 3 + 4);
    assert_eq!(bodies[1].len(), 2);
    assert_eq!(bodies[2].len(), 2);
    match &bodies[2][0] {
        Instr::If(_, inner) => assert_eq!(inner.value.len(), 2 + 2),
        _ => panic!("no if"),
    }
}

struct Replacer;

impl Visitor for Replacer {
    fn visit_instr<'a>(&self, ctx: &mut VisitorContext<'a, Value<Instr>>) {
        match ctx.node.value {
            Instr::nop => ctx.replace_node(Instr::drop),
            Instr::unreachable => {
                ctx.insert_node_before(Instr::i32_const(1));
                ctx.insert_node_before(Instr::i32_const(2));
                ctx.insert_node_after(Instr::i32_const(3));
                ctx.insert_node_after(Instr::i32_const(4));
                ctx.replace_node(Instr::Return);
                ctx.stop_traversal();
            }
            _ => {}
        }
    }
}

#[test]
fn edits_are_done_in_order_and_stop_ends_the_walk() {
    let body = nodes(vec![Instr::nop, Instr::unreachable, Instr::nop, Instr::end]);
    let module = WasmModule::new(Module { sections: vec![] });
    let (_, out, _) = visit_expr(module, body, &Replacer, 5);
    assert_eq!(
        plain(&out),
        vec![
            Instr::drop,
            Instr::i32_const(1),
            Instr::i32_const(2),
            Instr::Return,
            Instr::i32_const(3),
            Instr::i32_const(4),
            Instr::nop,
            Instr::end,
        ]
    );
}

#[test]
fn stop_in_a_block_ends_the_walk_of_the_block_alone() {
    let body = nodes(vec![
        Instr::Loop(BlockType::Empty, expr(vec![Instr::unreachable, Instr::nop, Instr::end])),
        Instr::nop,
        Instr::end,
    ]);
    let module = WasmModule::new(Module { sections: vec![] });
    let (_, out, _) = visit_expr(module, body, &Replacer, 0);
    assert_eq!(out.len(), 3);
    assert_eq!(out[1].value, Instr::drop);
    match &out[0].value {
        Instr::Loop(_, inner) => assert_eq!(
            plain(&inner.value),
            vec![
                Instr::i32_const(1),
                Instr::i32_const(2),
                Instr::Return,
                Instr::i32_const(3),
                Instr::i32_const(4),
                Instr::nop,
                Instr::end
            ]
        ),
        _ => panic!("no loop"),
    }
}

struct Appender;

impl Visitor for Appender {
    fn visit_func_section<'a>(&self, ctx: &mut VisitorContext<'a, Vec<u32>>) {
        ctx.insert_node_after(0);
        ctx.insert_node_after(0);
    }

    fn visit_code_section<'a>(&self, ctx: &mut VisitorContext<'a, Vec<Code>>) {
        ctx.insert_node_after(code(vec![Instr::i32_const(1), Instr::end]));
        ctx.insert_node_after(code(vec![Instr::i32_const(2), Instr::end]));
    }

    fn visit_import_section<'a>(&self, ctx: &mut VisitorContext<'a, Vec<Import>>) {
        for name in ["x", "y"] {
            ctx.insert_node_after(Import {
                module: "env".to_string(),
                name: name.to_string(),
                import_type: ImportType::Func(0),
            });
        }
    }

    fn visit_data_section<'a>(&self, ctx: &mut VisitorContext<'a, Vec<DataSegment>>) {
        ctx.insert_node_after(DataSegment {
            offset: None,
            bytes: vec![1],
            mode: DataSegmentMode::Passive,
        });
    }
}

#[test]
fn nodes_are_added_at_the_end_of_their_section() {
    let mut module = module_with(vec![vec![Instr::end]], 1);
    let _ = traverse(&mut module, &Appender);
    let wasm = WasmModule::new(module);
    let names: Vec<&str> = wasm.imports().iter().map(|i| i.name.as_str()).collect();
    assert_eq!(names, vec!["f0", "g", "x", "y"]);
    assert_eq!(wasm.imported_func_types(), vec![0, 0, 0]);
    assert_eq!(wasm.get_code_count(), 3);
    assert_eq!(
        bodies_of(&wasm.inner),
        vec![
            vec![Instr::end],
            vec![Instr::i32_const(2), Instr::end],
            vec![Instr::i32_const(1), Instr::end]
        ]
    );
    assert_eq!(wasm.get_func_typeidx(5), 0);
    match &wasm.inner.sections[5].value {
        Section::Data(_, segments) => assert_eq!(segments.len(), 1),
        _ => panic!("no data section"),
    }
}

struct Counter;

impl Visitor for Counter {
    fn visit_instr<'a>(&self, ctx: &mut VisitorContext<'a, Value<Instr>>) {
        if let Instr::nop = ctx.node.value {
            let global = Global {
                global_type: GlobalType { valtype: I32, mutable: true },
                expr: expr(vec![Instr::i32_const(0), Instr::end]),
            };
            let idx = ctx.module.add_global(global).unwrap();
            ctx.replace_node(Instr::global_set(idx));
        }
    }
}

#[test]
fn globals_added_during_the_walk_are_all_kept() {
    let mut module = module_with(
        vec![
            vec![Instr::nop, Instr::end],
            vec![Instr::nop, Instr::end],
            vec![Instr::nop, Instr::end],
        ],
        0,
    );
    let _ = traverse(&mut module, &Counter);
    let wasm = WasmModule::new(module);
    assert_eq!(wasm.globals().len(), 3);
    assert_eq!(
        bodies_of(&wasm.inner),
        vec![
            vec![Instr::global_set(1), Instr::end],
            vec![Instr::global_set(2), Instr::end],
            vec![Instr::global_set(3), Instr::end]
        ]
    );
}

struct Wrapper;

impl Visitor for Wrapper {
    fn visit_code<'a>(&self, ctx: &mut VisitorContext<'a, Code>, funcidx: u32) {
        if funcidx == 1 {
            let mut body = ctx.node.body.clone();
            body.value.insert(0, Value::new(Instr::nop));
            ctx.replace_node = Some(Code {
                size: ctx.node.size,
                locals: vec![CodeLocal { count: 1, value_type: I32 }],
                body,
            });
        }
    }
}

#[test]
fn a_body_can_be_replaced_before_it_is_walked() {
    let mut module = module_with(vec![vec![Instr::end], vec![Instr::drop, Instr::end]], 0);
    let _ = traverse(&mut module, &Wrapper);
    assert_eq!(
        bodies_of(&module),
        vec![vec![Instr::end], vec![Instr::nop, Instr::drop, Instr::end]]
    );
    assert_eq!(WasmModule::new(module).func_locals_count(1), 1);
}
