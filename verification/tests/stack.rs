use wasm_coredump::coredump_builder::{CoredumpBuilder, FrameBuilder, ThreadBuilder};
use wasm_coredump::coredump_to_stack::{find_among, 
    CoredumpToStack, DebugFunction, Frame, FrameLocation, StackError,
};
use wasm_coredump::memory::{read, read_ptr, MemoryError};
use wasm_coredump::parser::DecodeError;

fn coredump(frames: &[u32]) -> Vec<u8> {
    let mut thread = ThreadBuilder::new().thread_name("main");
    for f in frames {
        thread.add_frame(FrameBuilder::new().funcidx(*f).codeoffset(1).build());
    }
    let mut builder = CoredumpBuilder::new().executable_name("prog");
    builder.add_thread(thread.build());
    builder.serialize()
}

fn name_section() -> Vec<u8> {
    let mangled = b"_ZN3foo3barE";
    let mut pairs = vec![0x02, 0x01, 0x04, b'm', b'a', b'i', b'n', 0x02, mangled.len() as u8];
    pairs.extend_from_slice(mangled);
    let mut out = vec![0x01, pairs.len() as u8];
    out.extend(pairs);
    out
}

fn unknown() -> FrameLocation {
    FrameLocation { file: "unknown.rs".to_string(), line: 0 }
}

#[test]
fn unknown_location_names_no_file() {
    assert_eq!(FrameLocation::unknown(), unknown());
}

#[test]
fn stack_needs_names() {
    let stack = CoredumpToStack::new(&coredump(&[1])).unwrap();
    assert_eq!(stack.stack(None), Err(StackError::MissingNames));
    assert_eq!(CoredumpToStack::new(&[0]).err(), Some(DecodeError::Malformed));
}

#[test]
fn frames_are_shown_innermost_last() {
    let stack = CoredumpToStack::new(&coredump(&[1, 2, 9]))
        .unwrap()
        .with_debug_sections(vec![
            (".debug_info".to_string(), vec![1, 2]),
            ("name".to_string(), name_section()),
            (".debug_line".to_string(), vec![3]),
        ])
        .unwrap();
    let module = stack.debug_module.clone().unwrap();
    let mut expected = vec![0x00, 0x61, 0x73, 0x6d, 0x01, 0x00, 0x00, 0x00];
    expected.extend_from_slice(&[0x00, 0x0e, 0x0b]);
    expected.extend_from_slice(b".debug_info");
    expected.extend_from_slice(&[1, 2, 0x00, 0x0d, 0x0b]);
    expected.extend_from_slice(b".debug_line");
    expected.push(3);
    assert_eq!(module, expected);
    let frames = stack.stack(None).unwrap();
    assert_eq!(
        frames,
        vec![
            Frame { name: "<unknown-func9>".to_string(), location: unknown() },
            Frame { name: "_ZN3foo3barE".to_string(), location: unknown() },
            Frame { name: "main".to_string(), location: unknown() },
        ]
    );
}

#[test]
fn debugging_information_gives_names_and_places() {
    let functions = vec![
        DebugFunction {
            linkage_name: "_ZN3foo3barE".to_string(),
            namespace: Some("foo".to_string()),
            name: Some("bar".to_string()),
            directory: Some("/src".to_string()),
            file: Some("lib.rs".to_string()),
            line: 12,
        },
        DebugFunction {
            linkage_name: "main".to_string(),
            namespace: None,
            name: None,
            directory: None,
            file: None,
            line: 3,
        },
    ];
    let stack = CoredumpToStack::new(&coredump(&[2, 1, 7]))
        .unwrap()
        .with_debug_sections(vec![("name".to_string(), name_section())])
        .unwrap();
    let frames = stack.stack(Some(&functions)).unwrap();
    assert_eq!(
        frames,
        vec![
            Frame { name: "<unknown-func7>".to_string(), location: unknown() },
            Frame {
                name: "main".to_string(),
                location: FrameLocation { file: "/unknown.rs".to_string(), line: 3 }
            },
            Frame {
                name: "foo::bar".to_string(),
                location: FrameLocation { file: "/src/lib.rs".to_string(), line: 12 }
            },
        ]
    );
}

#[test]
fn demangled_names_are_found_too() {
    let functions = vec![DebugFunction {
        linkage_name: "_ZN4mainE".to_string(),
        namespace: None,
        name: Some("entry".to_string()),
        directory: Some("d".to_string()),
        file: Some("f.rs".to_string()),
        line: 1,
    }];
    let stack = CoredumpToStack::new(&coredump(&[1]))
        .unwrap()
        .with_debug_sections(vec![("name".to_string(), name_section())])
        .unwrap();
    let frames = stack.stack(Some(&functions)).unwrap();
    assert_eq!(
        frames,
        vec![Frame {
            name: "entry".to_string(),
            location: FrameLocation { file: "d/f.rs".to_string(), line: 1 }
        }]
    );
}

#[test]
fn debug_sections_need_function_names() {
    let stack = CoredumpToStack::new(&coredump(&[1])).unwrap();
    assert_eq!(
        stack.with_debug_sections(vec![("x".to_string(), vec![])]).err(),
        Some(StackError::MissingNames)
    );
    let stack = CoredumpToStack::new(&coredump(&[1])).unwrap();
    assert_eq!(
        stack.with_debug_sections(vec![("name".to_string(), vec![0x01])]).err(),
        Some(StackError::Malformed)
    );
    let stack = CoredumpToStack::new(&coredump(&[1])).unwrap();
    assert_eq!(
        stack.with_debug_sections(vec![("name".to_string(), vec![])]).err(),
        Some(StackError::MissingNames)
    );
}

#[test]
fn names_are_taken_from_a_debug_module() {
    let mut module = vec![0x00, 0x61, 0x73, 0x6d, 0x01, 0x00, 0x00, 0x00];
    let names = name_section();
    module.extend_from_slice(&[0x00, (names.len() + 5) as u8, 0x04, b'n', b'a', b'm', b'e']);
    module.extend(names);
    let stack = CoredumpToStack::new(&coredump(&[1]))
        .unwrap()
        .with_debug_module(&module)
        .unwrap();
    assert_eq!(stack.debug_module, Some(module));
    assert_eq!(
        stack.stack(None).unwrap(),
        vec![Frame { name: "main".to_string(), location: unknown() }]
    );
    let stack = CoredumpToStack::new(&coredump(&[1])).unwrap();
    assert_eq!(stack.with_debug_module(&[9]).err(), Some(DecodeError::Malformed));
}

#[test]
fn module_that_is_no_coredump_has_no_stack() {
    let module = [0x00, 0x61, 0x73, 0x6d, 0x01, 0x00, 0x00, 0x00];
    let stack = CoredumpToStack::new(&module)
        .unwrap()
        .with_debug_sections(vec![("name".to_string(), name_section())])
        .unwrap();
    assert_eq!(stack.stack(None), Err(StackError::NotACoredump));
    let bytes = CoredumpBuilder::new().serialize();
    let stack = CoredumpToStack::new(&bytes)
        .unwrap()
        .with_debug_sections(vec![("name".to_string(), name_section())])
        .unwrap();
    assert_eq!(stack.stack(None), Err(StackError::NoThread));
}

#[test]
fn memory_is_read_within_its_bounds() {
    let image = [1u8, 2, 3, 4, 5, 6];
    assert_eq!(read(&image, 1, 3), Ok(&image[1..4]));
    assert_eq!(read(&image, 6, 0), Ok(&image[6..6]));
    assert_eq!(read(&image, 0, 6), Ok(&image[..]));
    assert_eq!(read(&image, 4, 3), Err(MemoryError::OutOfBounds));
    assert_eq!(read(&image, 7, 0), Err(MemoryError::OutOfBounds));
    assert_eq!(read(&image, 0, u64::MAX), Err(MemoryError::OutOfBounds));
    assert_eq!(read_ptr(&image, 1), Ok(0x0504_0302));
    assert_eq!(read_ptr(&image, 2), Ok(0x0605_0403));
    assert_eq!(read_ptr(&image, 3), Err(MemoryError::OutOfBounds));
}

fn function(linkage_name: &str) -> DebugFunction {
    DebugFunction {
        linkage_name: linkage_name.to_string(),
        namespace: None,
        name: None,
        directory: None,
        file: None,
        line: 0,
    }
}

#[test]
fn function_is_found_by_its_demangled_name_first() {
    let functions = vec![function("a"), function("b"), function("c"), function("a")];
    let plain: Vec<String> =
        vec!["x".to_string(), "a".to_string(), "a".to_string(), "y".to_string()];
    // the last whose demangled name it is
    assert_eq!(find_among(&plain, &functions, "a"), Some(2));
    // else the last whose linkage name it is
    assert_eq!(find_among(&plain, &functions, "b"), Some(1));
    assert_eq!(find_among(&plain, &functions, "c"), Some(2));
    assert_eq!(find_among(&plain, &functions, "y"), Some(3));
    assert_eq!(find_among(&plain, &functions, "z"), None);
    assert_eq!(find_among(&vec![], &vec![], "a"), None);
}
