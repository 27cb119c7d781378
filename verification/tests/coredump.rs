use wasm_coredump::coredump_builder::{CoredumpBuilder, FrameBuilder, ThreadBuilder};
use wasm_coredump::coredump_types::{CoreStack, Coredump, ProcessInfo, StackFrame, ThreadInfo, Value};
use wasm_coredump::parser::parse;
use wasm_coredump::traverse::{FacadeError, WasmModule};
use wasm_coredump::wast::dump_coredump;

const EXPECTED: &str = r#"(module (coredump)
    (process (name "foo.exe"))
    (thread (name "main-thread")
        (func 456 (offset 123))
        (func 0 (offset 789))
    )
    (memory 0)
)"#;

fn sample_builder() -> CoredumpBuilder {
    let mut coredump_builder = CoredumpBuilder::new().executable_name("foo.exe");

    {
        let mut thread_builder = ThreadBuilder::new().thread_name("main-thread");

        {
            let coredump_frame = FrameBuilder::new().codeoffset(123).funcidx(456).build();
            thread_builder.add_frame(coredump_frame);
        }
        {
            let coredump_frame = FrameBuilder::new().codeoffset(789).funcidx(0).build();
            thread_builder.add_frame(coredump_frame);
        }

        coredump_builder.add_thread(thread_builder.build());
    }
    coredump_builder
}

#[test]
fn test_basic() {
    let coredump_builder = sample_builder();
    let coredump = coredump_builder.build();

    let mut out = String::new();
    dump_coredump(&mut out, &coredump);

    assert_eq!(out, EXPECTED);
}

#[test]
fn test_test_basic() {
    let coredump_builder = sample_builder();

    let coredump_wasm = coredump_builder.serialize();
    let coredump_wasm = parse(&coredump_wasm).unwrap();
    let coredump_wasm = WasmModule::new(coredump_wasm);
    let coredump = coredump_wasm.get_coredump().unwrap();

    let mut out = String::new();
    dump_coredump(&mut out, &coredump);

    assert_eq!(out, EXPECTED);
}

#[test]
fn serialized_coredump_has_expected_bytes() {
    let bytes = CoredumpBuilder::new()
        .executable_name("a")
        .memory(1, Some(2))
        .data(&[7, 8])
        .serialize();
    let expected: Vec<u8> = vec![
        0x00, 0x61, 0x73, 0x6d, 0x01, 0x00, 0x00, 0x00, // header
        0x00, 0x08, 0x04, b'c', b'o', b'r', b'e', 0x00, 0x01, b'a', // core
        0x05, 0x04, 0x01, 0x01, 0x01, 0x02, // memory
        0x0b, 0x08, 0x01, 0x00, 0x41, 0x00, 0x0b, 0x02, 0x07, 0x08, // data
    ];
    assert_eq!(bytes, expected);
}

#[test]
fn serialized_coredump_is_what_the_encoder_writes() {
    let bytes = sample_builder().data(&[1, 2, 3]).memory(3, None).serialize();
    let module = parse(&bytes).unwrap();
    let again = wasm_coredump::printer::print(&module).unwrap();
    assert_eq!(again, bytes);
}

#[test]
fn decoded_coredump_holds_data_and_memory() {
    let bytes = sample_builder().data(&[9, 9]).memory(4, Some(8)).serialize();
    let module = WasmModule::new(parse(&bytes).unwrap());
    let coredump = module.get_coredump().unwrap();
    assert_eq!(coredump.process_info.executable_name, "foo.exe");
    assert_eq!(coredump.stacks.len(), 1);
    assert_eq!(coredump.stacks[0].frames.len(), 2);
    assert_eq!(coredump.stacks[0].frames[0].funcidx, 456);
    assert_eq!(coredump.stacks[0].frames[0].codeoffset, 123);
    assert_eq!(coredump.data, vec![9, 9]);
    assert_eq!(coredump.memory, vec![(4, Some(8))]);
}

#[test]
fn module_without_core_section_is_no_coredump() {
    let bytes = vec![0x00, 0x61, 0x73, 0x6d, 0x01, 0x00, 0x00, 0x00];
    let module = WasmModule::new(parse(&bytes).unwrap());
    assert_eq!(module.get_coredump(), Err(FacadeError::Malformed));
}

#[test]
fn dump_shows_locals_and_data() {
    let coredump = Coredump {
        process_info: ProcessInfo { executable_name: "p".to_string() },
        stacks: vec![CoreStack {
            thread_info: ThreadInfo { thread_name: "t".to_string() },
            frames: vec![StackFrame {
                funcidx: 7,
                codeoffset: 10,
                locals: vec![
                    Value::I32(-5),
                    Value::I64(i64::MIN),
                    Value::Missing,
                    Value::F32(0x3f80_0000),
                    Value::F64(0),
                ],
                stack: vec![],
            }],
        }],
        memory: vec![(1, Some(20)), (0, None)],
        data: vec![0; 12],
    };
    let mut out = String::from(">");
    dump_coredump(&mut out, &coredump);
    let expected = r#">(module (coredump)
    (process (name "p"))
    (thread (name "t")
        (func 7 (offset 10)
            (local i32 -5)
            (local i64 -9223372036854775808)
            (local  (optimized out))
            (local f32 0x3f800000)
            (local f64 0x0)
        )
    )
    (data (i32.const 0) "...12 bytes")
    (memory 1 20)
    (memory 0)
)"#;
    assert_eq!(out, expected);
}

#[test]
fn frame_builder_defaults_and_sets() {
    let frame = FrameBuilder::new().build();
    assert_eq!(frame.funcidx, 0);
    assert_eq!(frame.codeoffset, 0);
    assert!(frame.locals.is_empty());
    assert!(frame.stack.is_empty());
    let frame = FrameBuilder::new().funcidx(3).codeoffset(4).build();
    assert_eq!((frame.funcidx, frame.codeoffset), (3, 4));
}

#[test]
fn value_as_i32() {
    assert_eq!(Value::I32(-3).as_i32(), -3);
}
