use qmpp::abi::InitEnv;
use qmpp::guest;
use qmpp::hooks::{dispatch_init, ImportCall, ImportResult};
use qmpp::GuestMem;
use qmpp::HostFault;

#[test]
fn init() {
    let expected_name: &str = "hello";

    let mut env = InitEnv::new(Vec::new());
    let mut mem = GuestMem::new(0);
    guest::register(&mut env, &mut mem, &expected_name.as_bytes().to_vec()).unwrap();

    assert_eq!(env.plugin_name.len(), expected_name.len());
}

#[test]
fn register_stores_the_name_bytes() {
    let mut env = InitEnv::new(Vec::new());
    let mut mem = GuestMem::new(0);
    guest::register(&mut env, &mut mem, &b"mapstats".to_vec()).unwrap();
    assert_eq!(env.plugin_name, b"mapstats".to_vec());
}

#[test]
fn register_rejects_invalid_utf8() {
    let mut env = InitEnv::new(b"before".to_vec());
    let mut mem = GuestMem::new(0);
    let r = guest::register(&mut env, &mut mem, &vec![0xFF, 0xFE]);
    assert_eq!(r, Err(HostFault::InvalidText));
    assert_eq!(env.plugin_name, b"before".to_vec());
}

#[test]
fn init_hook_log_is_live() {
    let mut env = InitEnv::new(Vec::new());
    let mut mem = GuestMem::new(0);
    guest::register(&mut env, &mut mem, &b"hello".to_vec()).unwrap();
    let line = guest::log_info(&env, &mut mem, &b"starting".to_vec()).unwrap();
    assert_eq!(line, b"hello\tINFO\tstarting\n".to_vec());
}

#[test]
fn init_hook_refuses_process_imports() {
    let mut env = InitEnv::new(Vec::new());
    let mem = GuestMem::new(64);
    let r = dispatch_init(&mut env, &mem, ImportCall::EhandleCount);
    assert_eq!(r, Err(HostFault::NotInContext));

    let r = dispatch_init(
        &mut env,
        &mem,
        ImportCall::KeyvalueInitRead { ehandle: 0, key_ptr: 0, size_ptr: 8 },
    );
    assert_eq!(r, Err(HostFault::NotInContext));

    let r = dispatch_init(
        &mut env,
        &mem,
        ImportCall::TextureAxesRead { ehandle: 0, brush_idx: 0, surface_idx: 0, ptr: 0 },
    );
    assert_eq!(r, Err(HostFault::NotInContext));
}

#[test]
fn init_hook_serves_register_through_dispatch() {
    let mut env = InitEnv::new(Vec::new());
    let mut mem = GuestMem::new(16);
    mem.write_bytes(0, &b"tool".to_vec());
    let r = dispatch_init(&mut env, &mem, ImportCall::Register { name_len: 4, name_ptr: 0 });
    assert!(matches!(r, Ok(ImportResult::Unit)));
    assert_eq!(env.plugin_name, b"tool".to_vec());
}
