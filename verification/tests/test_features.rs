use wasmer::sys::{BaseTunables, NativeEngineExt};
use wasmer::{AsStoreMut, Engine, Imports, Instance, Module, Pages, Store, Value};
use wasmer_as::{BufferPtr, Env, Guest, Read, StringPtr, Write};

const GUEST: &str = r#"
(module
  (memory (export "memory") 1)
  (global $next (mut i32) (i32.const 2048))
  (global $pinned (mut i32) (i32.const 0))
  (data (i32.const 1020) "\14\00\00\00\68\00\65\00\6c\00\6c\00\6f\00\20\00\74\00\65\00\73\00\74\00")
  (data (i32.const 1200) "\18\00\00\00\24\00\c2\00\a2\00\e0\00\a4\00\b9\00\ed\00\22\20\53\01\f0\00\52\01\20\20")
  (data (i32.const 1300) "\04\00\00\00\01\03\03\ff")
  (func (export "__new") (param $size i32) (param $class i32) (result i32)
    (local $ptr i32)
    (local.set $ptr (i32.add (global.get $next) (i32.const 4)))
    (i32.store (global.get $next) (local.get $size))
    (global.set $next
      (i32.and (i32.add (i32.add (local.get $ptr) (local.get $size)) (i32.const 3)) (i32.const -4)))
    (local.get $ptr))
  (func (export "__pin") (param $ptr i32) (result i32)
    (global.set $pinned (i32.add (global.get $pinned) (i32.const 1)))
    (local.get $ptr))
  (func (export "__unpin") (param $ptr i32)
    (global.set $pinned (i32.sub (global.get $pinned) (i32.const 1))))
  (func (export "__collect"))
  (func (export "getString") (result i32) (i32.const 1024))
  (func (export "getFeatures") (result i32) (i32.const 1204))
  (func (export "get_buffer") (result i32) (i32.const 1304))
  (func (export "sortBuffer") (param $ptr i32)
    (local $n i32) (local $i i32) (local $j i32) (local $a i32) (local $b i32)
    (local.set $n (i32.load (i32.sub (local.get $ptr) (i32.const 4))))
    (block $done
      (loop $outer
        (br_if $done (i32.ge_u (local.get $i) (local.get $n)))
        (local.set $j (i32.const 0))
        (block $swept
          (loop $inner
            (br_if $swept (i32.ge_u (i32.add (local.get $j) (i32.const 1)) (local.get $n)))
            (local.set $a (i32.load8_u (i32.add (local.get $ptr) (local.get $j))))
            (local.set $b (i32.load8_u offset=1 (i32.add (local.get $ptr) (local.get $j))))
            (if (i32.gt_u (local.get $a) (local.get $b))
              (then
                (i32.store8 (i32.add (local.get $ptr) (local.get $j)) (local.get $b))
                (i32.store8 offset=1 (i32.add (local.get $ptr) (local.get $j)) (local.get $a))))
            (local.set $j (i32.add (local.get $j) (i32.const 1)))
            (br $inner)))
        (local.set $i (i32.add (local.get $i) (i32.const 1)))
        (br $outer)))))
"#;

fn small_store() -> Store {
    let mut engine = Engine::default();
    engine.set_tunables(BaseTunables {
        static_memory_bound: Pages(0),
        static_memory_offset_guard_size: 0x1_0000,
        dynamic_memory_offset_guard_size: 0x1_0000,
    });
    Store::new(engine)
}

fn instantiate(store: &mut Store) -> Instance {
    let module = Module::new(store, GUEST).expect("guest module");
    Instance::new(store, &module, &Imports::new()).expect("guest instance")
}

fn get_handle(store: &mut Store, instance: &Instance, name: &str) -> u32 {
    let export = instance.exports.get_function(name).expect("exported getter");
    let results = export.call(store, &[]).expect("getter call");
    results[0].unwrap_i32() as u32
}

fn full_env(instance: &Instance) -> Env {
    let memory = instance.exports.get_memory("memory").expect("get memory");
    Env::new(
        memory.clone(),
        match instance.exports.get_function("__new") {
            Ok(func) => Some(func.clone()),
            _ => None,
        },
        match instance.exports.get_function("__pin") {
            Ok(func) => Some(func.clone()),
            _ => None,
        },
        match instance.exports.get_function("__unpin") {
            Ok(func) => Some(func.clone()),
            _ => None,
        },
        match instance.exports.get_function("__collect") {
            Ok(func) => Some(func.clone()),
            _ => None,
        },
    )
}

#[test]
fn test_features_read_strings() {
    let mut store = small_store();
    let instance = instantiate(&mut store);
    let memory = instance.exports.get_memory("memory").expect("get memory");

    let str_ptr = StringPtr::new(get_handle(&mut store, &instance, "getFeatures"));
    let string = str_ptr.read(&Guest::new(store.as_store_mut()), memory).unwrap();

    assert_eq!(string, "$Â¢à¤¹í•œðŒ†");
}

#[test]
fn test_features_read_alloc_strings() {
    let mut store = small_store();
    let instance = instantiate(&mut store);
    let memory = instance.exports.get_memory("memory").expect("get memory");
    let env = full_env(&instance);

    let str_ptr = StringPtr::new(get_handle(&mut store, &instance, "getString"));
    let string = str_ptr.read(&Guest::new(store.as_store_mut()), memory).unwrap();

    assert_eq!(string, "hello test");

    let str_ptr_2 =
        StringPtr::allocate(&"hello return".to_string(), &mut Guest::new(store.as_store_mut()), &env).unwrap();
    let string = str_ptr_2.read(&Guest::new(store.as_store_mut()), memory).unwrap();
    assert_eq!(string, "hello return");
}

#[test]
fn test_features_read_write_strings() {
    let mut store = small_store();
    let instance = instantiate(&mut store);
    let memory = instance.exports.get_memory("memory").expect("get memory");
    let env = full_env(&instance);

    let mut str_ptr = StringPtr::new(get_handle(&mut store, &instance, "getString"));
    let string = str_ptr.read(&Guest::new(store.as_store_mut()), memory).unwrap();

    assert_eq!(string, "hello test");

    str_ptr
        .write(&"hallo tast".to_string(), &mut Guest::new(store.as_store_mut()), &env)
        .unwrap();

    let str_ptr_2 = StringPtr::new(get_handle(&mut store, &instance, "getString"));
    let string = str_ptr_2.read(&Guest::new(store.as_store_mut()), memory).unwrap();

    assert_eq!(string, "hallo tast");
}

#[test]
fn read_buffers() {
    let mut store = small_store();
    let instance = instantiate(&mut store);
    let memory = instance.exports.get_memory("memory").expect("get memory");

    let str_ptr = BufferPtr::new(get_handle(&mut store, &instance, "get_buffer"));
    let vec = str_ptr.read(&Guest::new(store.as_store_mut()), memory).unwrap();
    let expected: Vec<u8> = vec![0x01, 0x03, 0x03, 0xFF];
    assert_eq!(vec, expected);
}

#[test]
fn alloc_buffer() {
    let mut store = small_store();
    let instance = instantiate(&mut store);
    let memory = instance.exports.get_memory("memory").expect("get memory");
    let env = full_env(&instance);

    let sort_buffer = instance.exports.get_function("sortBuffer").expect("sortBuffer");

    let input: Vec<u8> = vec![0x03, 0x02, 0x00, 0x01];
    let buffer_ptr = BufferPtr::allocate(&input, &mut Guest::new(store.as_store_mut()), &env).unwrap();
    sort_buffer
        .call(&mut store, &[Value::I32(buffer_ptr.offset() as i32)])
        .unwrap();
    let sorted = buffer_ptr.read(&Guest::new(store.as_store_mut()), memory).unwrap();

    let expected: Vec<u8> = vec![0x00, 0x01, 0x02, 0x03];
    assert_eq!(sorted, expected);
}
