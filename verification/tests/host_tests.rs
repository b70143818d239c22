use wasm_host::descriptor::ModuleDescriptor;
use wasm_host::host::{add_name, add_result, EngineOutcome, ExecOutcome, InvokeError, LoadError, ModuleHost};
use wasm_host::resolver::{resolve, CapabilityProvider, LinkError};
use wasm_host::values::{decode_i32, encode_i32, Value, ValueKind};

/// A minimal binary module exporting `add: (i32, i32) -> i32`.
fn add_module_bytes() -> Vec<u8> {
    let mut b: Vec<u8> = Vec::new();
    // header: magic and version
    b.extend_from_slice(&[0x00, 0x61, 0x73, 0x6d, 0x01, 0x00, 0x00, 0x00]);
    // type section: one function type (i32, i32) -> i32
    b.extend_from_slice(&[0x01, 0x07, 0x01, 0x60, 0x02, 0x7f, 0x7f, 0x01, 0x7f]);
    // function section: one function of type 0
    b.extend_from_slice(&[0x03, 0x02, 0x01, 0x00]);
    // export section: "add" as a function export of function 0
    b.extend_from_slice(&[0x07, 0x07, 0x01, 0x03, 0x61, 0x64, 0x64, 0x00, 0x00]);
    b
}

/// A module importing `wasi_snapshot_preview1::fd_write`.
fn wasi_import_module_bytes() -> Vec<u8> {
    let mut b: Vec<u8> = Vec::new();
    b.extend_from_slice(&[0x00, 0x61, 0x73, 0x6d, 0x01, 0x00, 0x00, 0x00]);
    // type section: one function type () -> ()
    b.extend_from_slice(&[0x01, 0x04, 0x01, 0x60, 0x00, 0x00]);
    // import section: one function import
    let module_name = b"wasi_snapshot_preview1";
    let entry_name = b"fd_write";
    let mut content: Vec<u8> = Vec::new();
    content.push(0x01);
    content.push(module_name.len() as u8);
    content.extend_from_slice(module_name);
    content.push(entry_name.len() as u8);
    content.extend_from_slice(entry_name);
    content.push(0x00); // function import
    content.push(0x00); // of type 0
    b.push(0x02);
    b.push(content.len() as u8);
    b.extend_from_slice(&content);
    b
}

/// A module importing from a namespace no provider answers to.
fn unmarked_import_module_bytes() -> Vec<u8> {
    let mut b: Vec<u8> = Vec::new();
    b.extend_from_slice(&[0x00, 0x61, 0x73, 0x6d, 0x01, 0x00, 0x00, 0x00]);
    b.extend_from_slice(&[0x01, 0x04, 0x01, 0x60, 0x00, 0x00]);
    // import section: env::foo as a function import
    b.extend_from_slice(&[0x02, 0x0b, 0x01, 0x03, 0x65, 0x6e, 0x76, 0x03, 0x66, 0x6f, 0x6f, 0x00, 0x00]);
    b
}

fn wasi_provider(entries: &[&[u8]]) -> CapabilityProvider {
    CapabilityProvider {
        reserved_names: vec![b"wasi_snapshot_preview1".to_vec(), b"wasi_unstable".to_vec()],
        entries: entries.iter().map(|e| e.to_vec()).collect(),
    }
}

fn ready_add_host() -> ModuleHost {
    let bytes = add_module_bytes();
    let provider = wasi_provider(&[]);
    let plan = ModuleHost::prepare(&bytes, &provider).expect("the add module must prepare");
    ModuleHost::complete(plan, EngineOutcome::Instantiated).expect("instantiation was accepted")
}

#[test]
fn parse_extracts_add_export() {
    let bytes = add_module_bytes();
    let d = ModuleDescriptor::parse(&bytes).expect("well-formed module");
    assert_eq!(d.imports.len(), 0);
    assert_eq!(d.exports.len(), 1);
    assert_eq!(d.exports[0].name, b"add".to_vec());
    assert_eq!(d.exports[0].param_kinds, vec![ValueKind::Int32, ValueKind::Int32]);
    assert_eq!(d.exports[0].result_kinds, vec![ValueKind::Int32]);
}

#[test]
fn parse_extracts_wasi_import() {
    let bytes = wasi_import_module_bytes();
    let d = ModuleDescriptor::parse(&bytes).expect("well-formed module");
    assert_eq!(d.imports.len(), 1);
    assert_eq!(d.imports[0].module_name, b"wasi_snapshot_preview1".to_vec());
    assert_eq!(d.imports[0].entry_name, b"fd_write".to_vec());
    assert_eq!(d.exports.len(), 0);
    let provider = wasi_provider(&[]);
    let marker = d.capability_module(&provider.reserved_names);
    assert_eq!(marker, Some(b"wasi_snapshot_preview1".to_vec()));
}

#[test]
fn parse_rejects_bad_magic() {
    let mut bytes = add_module_bytes();
    bytes[0] = 0x01;
    assert!(ModuleDescriptor::parse(&bytes).is_err());
}

#[test]
fn parse_rejects_truncated_buffer() {
    let bytes: Vec<u8> = vec![0x00, 0x61, 0x73, 0x6d];
    assert!(ModuleDescriptor::parse(&bytes).is_err());
}

#[test]
fn parse_rejects_oversized_section() {
    let mut bytes = add_module_bytes();
    // declare a section payload running past the end of the buffer
    bytes.push(0x00);
    bytes.push(0x7f);
    assert!(ModuleDescriptor::parse(&bytes).is_err());
}

#[test]
fn load_without_imports_reaches_ready() {
    let bytes = add_module_bytes();
    let provider = wasi_provider(&[]);
    let plan = ModuleHost::prepare(&bytes, &provider).expect("no imports to resolve");
    assert_eq!(plan.bindings.len(), 0);
    assert!(plan.features.multi_value_returns);
    assert!(plan.features.reference_types);
    assert!(plan.features.debug_info);
    let host = ModuleHost::complete(plan, EngineOutcome::Instantiated);
    assert!(host.is_ok());
}

#[test]
fn load_with_marked_import_binds_it() {
    let bytes = wasi_import_module_bytes();
    let provider = wasi_provider(&[b"fd_read", b"fd_write"]);
    let plan = ModuleHost::prepare(&bytes, &provider).expect("fd_write is offered");
    assert_eq!(plan.bindings.len(), 1);
    assert_eq!(plan.bindings[0].entry_index, 1);
}

#[test]
fn load_with_unmarked_import_fails_before_compile() {
    let bytes = unmarked_import_module_bytes();
    let provider = wasi_provider(&[b"foo"]);
    match ModuleHost::prepare(&bytes, &provider) {
        Err(LoadError::Link(LinkError::UnknownImportModule { module_name })) => {
            assert_eq!(module_name, b"env".to_vec());
        }
        other => panic!("expected an unknown-import-module link error, got {:?}", other.is_ok()),
    }
}

#[test]
fn complete_surfaces_compile_rejection() {
    let bytes = add_module_bytes();
    let provider = wasi_provider(&[]);
    let plan = ModuleHost::prepare(&bytes, &provider).unwrap();
    match ModuleHost::complete(plan, EngineOutcome::CompileRejected(String::from("bad opcode"))) {
        Err(LoadError::Compile(m)) => assert_eq!(m, "bad opcode"),
        _ => panic!("expected a compile error"),
    }
}

#[test]
fn complete_surfaces_instantiation_trap() {
    let bytes = add_module_bytes();
    let provider = wasi_provider(&[]);
    let plan = ModuleHost::prepare(&bytes, &provider).unwrap();
    match ModuleHost::complete(plan, EngineOutcome::InstantiationTrapped(String::from("start trapped"))) {
        Err(LoadError::InstantiationTrap(m)) => assert_eq!(m, "start trapped"),
        _ => panic!("expected an instantiation trap"),
    }
}

#[test]
fn resolve_binds_all_in_order() {
    let imports = vec![
        wasm_host::descriptor::ImportDescriptor {
            module_name: b"wasi_snapshot_preview1".to_vec(),
            entry_name: b"fd_write".to_vec(),
        },
        wasm_host::descriptor::ImportDescriptor {
            module_name: b"wasi_snapshot_preview1".to_vec(),
            entry_name: b"proc_exit".to_vec(),
        },
    ];
    let provider = wasi_provider(&[b"proc_exit", b"fd_write"]);
    let cap = Some(b"wasi_snapshot_preview1".to_vec());
    let bound = resolve(&imports, &cap, &provider).expect("all entries offered");
    assert_eq!(bound.len(), 2);
    assert_eq!(bound[0].entry_index, 1);
    assert_eq!(bound[1].entry_index, 0);
}

#[test]
fn resolve_fails_on_missing_entry() {
    let imports = vec![
        wasm_host::descriptor::ImportDescriptor {
            module_name: b"wasi_snapshot_preview1".to_vec(),
            entry_name: b"fd_write".to_vec(),
        },
        wasm_host::descriptor::ImportDescriptor {
            module_name: b"wasi_snapshot_preview1".to_vec(),
            entry_name: b"sock_accept".to_vec(),
        },
    ];
    let provider = wasi_provider(&[b"fd_write"]);
    let cap = Some(b"wasi_snapshot_preview1".to_vec());
    match resolve(&imports, &cap, &provider) {
        Err(LinkError::UnknownImport { module_name, entry_name }) => {
            assert_eq!(module_name, b"wasi_snapshot_preview1".to_vec());
            assert_eq!(entry_name, b"sock_accept".to_vec());
        }
        _ => panic!("expected an unknown-import link error"),
    }
}

#[test]
fn resolve_checks_module_name_before_entry() {
    // the offending import's entry is not offered either, but the
    // module name is reported, because it is checked first
    let imports = vec![wasm_host::descriptor::ImportDescriptor {
        module_name: b"wasi_unstable".to_vec(),
        entry_name: b"sock_accept".to_vec(),
    }];
    let provider = wasi_provider(&[b"fd_write"]);
    let cap = Some(b"wasi_snapshot_preview1".to_vec());
    match resolve(&imports, &cap, &provider) {
        Err(LinkError::UnknownImportModule { module_name }) => {
            assert_eq!(module_name, b"wasi_unstable".to_vec());
        }
        _ => panic!("expected an unknown-import-module link error"),
    }
}

#[test]
fn resolve_without_capability_rejects_any_import() {
    let imports = vec![wasm_host::descriptor::ImportDescriptor {
        module_name: b"wasi_snapshot_preview1".to_vec(),
        entry_name: b"fd_write".to_vec(),
    }];
    let provider = wasi_provider(&[b"fd_write"]);
    let cap: Option<Vec<u8>> = None;
    assert!(resolve(&imports, &cap, &provider).is_err());
}

#[test]
fn add_one_and_two_gives_three() {
    let host = ready_add_host();
    let req = host.add_call(1, 2).expect("add is exported with two i32 parameters");
    assert_eq!(req.export_index, 0);
    // the engine executes the validated request and returns one value
    let returned = ExecOutcome::Returned(vec![Value::Int32(3)]);
    let values = host.finish_invoke(&req, returned).expect("one value returned");
    assert_eq!(add_result(&values).unwrap(), 3);
    // a repeated identical call validates identically
    let req2 = host.add_call(1, 2).expect("repeatable");
    assert_eq!(req2.export_index, 0);
    let returned2 = ExecOutcome::Returned(vec![Value::Int32(3)]);
    let values2 = host.finish_invoke(&req2, returned2).expect("one value returned");
    assert_eq!(add_result(&values2).unwrap(), 3);
}

#[test]
fn invoke_unknown_export_fails_without_engine() {
    let host = ready_add_host();
    let args = vec![Value::Int32(1)];
    match host.check_invoke(&b"mul3".to_vec(), &args) {
        Err(InvokeError::UnknownExport { name }) => assert_eq!(name, b"mul3".to_vec()),
        _ => panic!("expected an unknown-export error"),
    }
}

#[test]
fn invoke_with_wrong_kind_names_the_position() {
    let host = ready_add_host();
    let name = add_name();
    let args = vec![Value::Int32(1), Value::Float64(0x4000000000000000)];
    match host.check_invoke(&name, &args) {
        Err(InvokeError::TypeMismatch { position, expected, actual }) => {
            assert_eq!(position, 1);
            assert_eq!(expected, Some(ValueKind::Int32));
            assert_eq!(actual, Some(ValueKind::Float64));
        }
        _ => panic!("expected a type mismatch"),
    }
}

#[test]
fn invoke_with_missing_argument_is_a_mismatch() {
    let host = ready_add_host();
    let name = add_name();
    let args = vec![Value::Int32(1)];
    match host.check_invoke(&name, &args) {
        Err(InvokeError::TypeMismatch { position, expected, actual }) => {
            assert_eq!(position, 1);
            assert_eq!(expected, Some(ValueKind::Int32));
            assert_eq!(actual, None);
        }
        _ => panic!("expected a type mismatch"),
    }
}

#[test]
fn invoke_with_surplus_argument_is_a_mismatch() {
    let host = ready_add_host();
    let name = add_name();
    let args = vec![Value::Int32(1), Value::Int32(2), Value::Int32(3)];
    match host.check_invoke(&name, &args) {
        Err(InvokeError::TypeMismatch { position, expected, actual }) => {
            assert_eq!(position, 2);
            assert_eq!(expected, None);
            assert_eq!(actual, Some(ValueKind::Int32));
        }
        _ => panic!("expected a type mismatch"),
    }
}

#[test]
fn missing_return_is_reported() {
    let host = ready_add_host();
    let req = host.add_call(4, 5).unwrap();
    match host.finish_invoke(&req, ExecOutcome::Returned(vec![])) {
        Err(InvokeError::MissingReturn { expected, actual }) => {
            assert_eq!(expected, 1);
            assert_eq!(actual, 0);
        }
        _ => panic!("expected a missing-return error"),
    }
}

#[test]
fn execution_trap_is_reported() {
    let host = ready_add_host();
    let req = host.add_call(4, 5).unwrap();
    match host.finish_invoke(&req, ExecOutcome::Trapped(String::from("unreachable executed"))) {
        Err(InvokeError::ExecutionTrap { message }) => {
            assert_eq!(message, "unreachable executed");
        }
        _ => panic!("expected an execution trap"),
    }
}

#[test]
fn wrong_result_kind_is_a_conversion_error() {
    let values = vec![Value::Float64(0)];
    match add_result(&values) {
        Err(InvokeError::ResultConversion { expected, actual }) => {
            assert_eq!(expected, ValueKind::Int32);
            assert_eq!(actual, ValueKind::Float64);
        }
        _ => panic!("expected a result-conversion error"),
    }
}

#[test]
fn codec_round_trips_i32() {
    let v = encode_i32(-7);
    assert_eq!(v, Value::Int32(-7));
    assert_eq!(decode_i32(&v), Some(-7));
    assert_eq!(decode_i32(&Value::Int64(-7)), None);
    assert_eq!(v.kind(), ValueKind::Int32);
}

#[test]
fn provider_has_entry_answers_membership() {
    let provider = wasi_provider(&[b"fd_write", b"proc_exit"]);
    assert!(provider.has_entry(&b"proc_exit".to_vec()));
    assert!(!provider.has_entry(&b"sock_accept".to_vec()));
}
