use wasmer::sys::{BaseTunables, NativeEngineExt};
use wasmer::{AsStoreMut, Engine, Imports, Instance, Memory, Module, Pages, Store};
use wasmer_as::buffer_ptr;
use wasmer_as::env::{handle_from, handle_word};
use wasmer_as::header::size_of;
use wasmer_as::string_ptr;
use wasmer_as::utf16::{decode_utf16_lossy, encode_utf16};
use wasmer_as::{BufferPtr, Env, Error, Export, Guest, Read, StringPtr, Write};

const HEAD: &str = r#"
(module
  (memory (export "memory") 1)
  (global $next (mut i32) (i32.const 2048))
  (global $logged (mut i32) (i32.const 0))
  (data (i32.const 1020) "\14\00\00\00\68\00\65\00\6c\00\6c\00\6f\00\20\00\74\00\65\00\73\00\74\00")
  (data (i32.const 1300) "\04\00\00\00\01\03\03\ff")
  (data (i32.const 1400) "\05\00\00\00\61\00\62\00\63\00")
  (data (i32.const 1500) "\ff\ff\ff\ff\61\00")
  (data (i32.const 1600) "\78\56\34\12")
  (func $log (param $code i32) (param $arg i32)
    (i32.store
      (i32.add (i32.const 8192) (i32.mul (global.get $logged) (i32.const 8)))
      (local.get $code))
    (i32.store offset=4
      (i32.add (i32.const 8192) (i32.mul (global.get $logged) (i32.const 8)))
      (local.get $arg))
    (global.set $logged (i32.add (global.get $logged) (i32.const 1))))
  (func (export "logged") (result i32) (global.get $logged))
  (func (export "getString") (result i32) (i32.const 1024))
"#;

const NEW: &str = r#"
  (func (export "__new") (param $size i32) (param $class i32) (result i32)
    (local $ptr i32)
    (call $log (i32.const 1) (local.get $size))
    (call $log (i32.const 5) (local.get $class))
    (local.set $ptr (i32.add (global.get $next) (i32.const 4)))
    (i32.store (global.get $next) (local.get $size))
    (global.set $next
      (i32.and (i32.add (i32.add (local.get $ptr) (local.get $size)) (i32.const 3)) (i32.const -4)))
    (local.get $ptr))
"#;

const PIN: &str = r#"
  (func (export "__pin") (param $ptr i32) (result i32)
    (call $log (i32.const 2) (local.get $ptr))
    (local.get $ptr))
"#;

const UNPIN: &str = r#"
  (func (export "__unpin") (param $ptr i32)
    (call $log (i32.const 3) (local.get $ptr)))
"#;

const COLLECT: &str = r#"
  (func (export "__collect")
    (call $log (i32.const 4) (i32.const 0)))
"#;

const TRAPPING_NEW: &str = r#"
  (func (export "__new") (param i32 i32) (result i32) unreachable)
"#;

const NEGATIVE_NEW: &str = r#"
  (func (export "__new") (param i32 i32) (result i32) (i32.const -8))
"#;

const FAR_NEW: &str = r#"
  (func (export "__new") (param i32 i32) (result i32) (i32.const 70000))
"#;

const VOID_NEW: &str = r#"
  (func (export "__new") (param i32 i32))
"#;

const WIDE_NEW: &str = r#"
  (func (export "__new") (param i32 i32) (result i64) (i64.const 2052))
"#;

const TRAPPING_UNPIN: &str = r#"
  (func (export "__unpin") (param i32) unreachable)
"#;

const NO_MEMORY: &str = r#"
(module
  (func (export "__new") (param i32 i32) (result i32) (i32.const 8)))
"#;

fn small_store() -> Store {
    let mut engine = Engine::default();
    engine.set_tunables(BaseTunables {
        static_memory_bound: Pages(0),
        static_memory_offset_guard_size: 0x1_0000,
        dynamic_memory_offset_guard_size: 0x1_0000,
    });
    Store::new(engine)
}

fn guest_with(store: &mut Store, parts: &[&str]) -> Instance {
    let mut text = String::from(HEAD);
    for part in parts {
        text.push_str(part);
    }
    text.push_str(")\n");
    let module = Module::new(store, text).expect("guest module");
    Instance::new(store, &module, &Imports::new()).expect("guest instance")
}

fn full_guest(store: &mut Store) -> Instance {
    guest_with(store, &[NEW, PIN, UNPIN, COLLECT])
}

fn memory_of(instance: &Instance) -> Memory {
    instance.exports.get_memory("memory").expect("get memory").clone()
}

fn snapshot(store: &Store, memory: &Memory) -> Vec<u8> {
    memory.view(store).copy_to_vec().expect("memory copy")
}

fn bytes_at(store: &Store, memory: &Memory, offset: u64, count: usize) -> Vec<u8> {
    let mut buffer = vec![0u8; count];
    memory.view(store).read(offset, &mut buffer).expect("memory read");
    buffer
}

fn word_at(store: &Store, memory: &Memory, offset: u64) -> i32 {
    let bytes = bytes_at(store, memory, offset, 4);
    i32::from_le_bytes([bytes[0], bytes[1], bytes[2], bytes[3]])
}

fn log(store: &mut Store, instance: &Instance) -> Vec<(i32, i32)> {
    let logged = instance.exports.get_function("logged").expect("logged");
    let count = logged.call(store, &[]).expect("logged call")[0].unwrap_i32();
    let memory = memory_of(instance);
    let mut entries = Vec::new();
    for index in 0..count {
        let at = 8192 + 8 * index as u64;
        entries.push((word_at(store, &memory, at), word_at(store, &memory, at + 4)));
    }
    entries
}

#[test]
fn encode_gives_the_code_units_of_each_character() {
    assert_eq!(
        encode_utf16("$¢ह한𝌆"),
        vec![0x24, 0xA2, 0x939, 0xD55C, 0xD834, 0xDF06]
    );
    assert_eq!(encode_utf16(""), Vec::<u16>::new());
    assert_eq!(encode_utf16("\u{FFFF}\u{10000}\u{10FFFF}"), vec![0xFFFF, 0xD800, 0xDC00, 0xDBFF, 0xDFFF]);
    assert_eq!(encode_utf16("\u{D7FF}\u{E000}"), vec![0xD7FF, 0xE000]);
}

#[test]
fn encode_agrees_with_the_standard_library() {
    for text in ["", "hello test", "$¢ह한𝌆", "a\u{10000}b\u{10FFFF}", "\u{FFFD}\u{0}"] {
        let expected: Vec<u16> = text.encode_utf16().collect();
        assert_eq!(encode_utf16(text), expected);
    }
}

#[test]
fn decode_replaces_each_unpaired_surrogate() {
    assert_eq!(decode_utf16_lossy(&vec![0x61, 0xD800, 0x62]), "a\u{FFFD}b");
    assert_eq!(decode_utf16_lossy(&vec![0xDC00]), "\u{FFFD}");
    assert_eq!(decode_utf16_lossy(&vec![0xD834]), "\u{FFFD}");
    assert_eq!(decode_utf16_lossy(&vec![0xD834, 0xDF06]), "𝌆");
    assert_eq!(decode_utf16_lossy(&vec![0xD834, 0xD834, 0xDF06]), "\u{FFFD}𝌆");
    assert_eq!(decode_utf16_lossy(&vec![0xDF06, 0xD834]), "\u{FFFD}\u{FFFD}");
    assert_eq!(decode_utf16_lossy(&vec![]), "");
}

#[test]
fn decode_agrees_with_the_standard_library() {
    let samples: Vec<Vec<u16>> = vec![
        vec![],
        vec![0x68, 0x69],
        vec![0xD800],
        vec![0xD800, 0xD800, 0xDC00, 0xDC00],
        vec![0xDBFF, 0xDFFF, 0xE000, 0xD7FF],
        vec![0xDC00, 0x41, 0xD83D, 0xDE00, 0xD83D],
    ];
    for units in samples {
        assert_eq!(decode_utf16_lossy(&units), String::from_utf16_lossy(&units));
    }
}

#[test]
fn decoding_what_was_encoded_gives_the_text_back() {
    for text in ["", "hello return", "$¢ह한𝌆", "\u{10000}\u{10FFFF}\u{FFFF}\u{E000}\u{D7FF}"] {
        assert_eq!(decode_utf16_lossy(&encode_utf16(text)), text);
    }
}

#[test]
fn encoding_what_well_formed_units_decode_to_gives_them_back() {
    let samples: Vec<Vec<u16>> = vec![
        vec![],
        vec![0x68, 0x69],
        vec![0xD834, 0xDF06],
        vec![0xD7FF, 0xD800, 0xDC00, 0xE000, 0xDBFF, 0xDFFF, 0xFFFF],
    ];
    for units in samples {
        assert_eq!(encode_utf16(&decode_utf16_lossy(&units)), units);
    }
    // an unpaired surrogate is lost
    assert_eq!(encode_utf16(&decode_utf16_lossy(&vec![0xD800])), vec![0xFFFD]);
}

#[test]
fn code_units_are_laid_out_low_byte_first() {
    assert_eq!(
        string_ptr::bytes_of(&vec![0x0068, 0xD834, 0x00FF, 0xFF00]),
        vec![0x68, 0x00, 0x34, 0xD8, 0xFF, 0x00, 0x00, 0xFF]
    );
    assert_eq!(
        string_ptr::units_of(&vec![0x68, 0x00, 0x34, 0xD8, 0xFF, 0x00, 0x00, 0xFF]),
        vec![0x0068, 0xD834, 0x00FF, 0xFF00]
    );
    assert_eq!(string_ptr::units_of(&vec![]), Vec::<u16>::new());
    assert_eq!(string_ptr::units_of(&vec![0x61, 0x00, 0x62]), vec![0x0061]);
}

#[test]
fn the_header_word_is_little_endian() {
    let mut store = small_store();
    let instance = full_guest(&mut store);
    let memory = memory_of(&instance);
    let guest = Guest::new(store.as_store_mut());
    assert_eq!(size_of(1604, &guest, &memory), Ok(0x1234_5678));
    assert_eq!(size_of(1504, &guest, &memory), Ok(u32::MAX));
    assert_eq!(size_of(1024, &guest, &memory), Ok(20));
}

#[test]
fn the_answer_of_new_is_its_first_result() {
    assert_eq!(handle_from(&vec![]), Err(Error::CallFailed));
    assert_eq!(handle_from(&vec![None]), Err(Error::CallFailed));
    assert_eq!(handle_from(&vec![Some(-1)]), Err(Error::InvalidOffset));
    assert_eq!(handle_from(&vec![Some(i32::MIN)]), Err(Error::InvalidOffset));
    assert_eq!(handle_from(&vec![Some(0)]), Ok(0));
    assert_eq!(handle_from(&vec![Some(2052), None]), Ok(2052));
    assert_eq!(handle_from(&vec![Some(i32::MAX)]), Ok(0x7FFF_FFFF));
}

#[test]
fn a_handle_goes_to_the_guest_with_the_same_bits() {
    assert_eq!(handle_word(0), 0);
    assert_eq!(handle_word(1024), 1024);
    assert_eq!(handle_word(0x7FFF_FFFF), i32::MAX);
    assert_eq!(handle_word(0x8000_0000), i32::MIN);
    assert_eq!(handle_word(0xFFFF_FFFF), -1);
}

#[test]
fn handles_below_the_header_are_rejected() {
    let mut store = small_store();
    let instance = full_guest(&mut store);
    let memory = memory_of(&instance);
    for handle in 0..4u32 {
        let guest = Guest::new(store.as_store_mut());
        assert_eq!(size_of(handle, &guest, &memory), Err(Error::InvalidOffset));
        assert_eq!(string_ptr::size(handle, &guest, &memory), Err(Error::InvalidOffset));
        assert_eq!(buffer_ptr::size(handle, &guest, &memory), Err(Error::InvalidOffset));
        assert_eq!(StringPtr::new(handle).size(&guest, &memory), Err(Error::InvalidOffset));
        assert_eq!(StringPtr::new(handle).read(&guest, &memory), Err(Error::InvalidOffset));
        assert_eq!(BufferPtr::new(handle).size(&guest, &memory), Err(Error::InvalidOffset));
        assert_eq!(BufferPtr::new(handle).read(&guest, &memory), Err(Error::InvalidOffset));
    }
}

#[test]
fn the_size_is_the_word_before_the_payload() {
    let mut store = small_store();
    let instance = full_guest(&mut store);
    let memory = memory_of(&instance);
    let guest = Guest::new(store.as_store_mut());
    assert_eq!(string_ptr::size(1024, &guest, &memory), Ok(20));
    assert_eq!(buffer_ptr::size(1304, &guest, &memory), Ok(4));
    assert_eq!(StringPtr::new(1404).size(&guest, &memory), Ok(5));
    assert_eq!(size_of(4, &guest, &memory), Ok(0));
    // the header index is the handle's word index less one, whatever is left over
    assert_eq!(size_of(1027, &guest, &memory), Ok(20));
}

#[test]
fn a_header_beyond_the_memory_is_out_of_bounds() {
    let mut store = small_store();
    let instance = full_guest(&mut store);
    let memory = memory_of(&instance);
    let guest = Guest::new(store.as_store_mut());
    assert_eq!(size_of(65536, &guest, &memory), Ok(0));
    assert_eq!(size_of(65540, &guest, &memory), Err(Error::OutOfBounds));
    assert_eq!(size_of(u32::MAX, &guest, &memory), Err(Error::OutOfBounds));
    assert_eq!(StringPtr::new(65540).read(&guest, &memory), Err(Error::OutOfBounds));
    assert_eq!(BufferPtr::new(70000).read(&guest, &memory), Err(Error::OutOfBounds));
}

#[test]
fn a_payload_beyond_the_memory_is_a_memory_fault() {
    let mut store = small_store();
    let instance = full_guest(&mut store);
    let memory = memory_of(&instance);
    let guest = Guest::new(store.as_store_mut());
    assert_eq!(string_ptr::size(1504, &guest, &memory), Ok(u32::MAX));
    assert_eq!(StringPtr::new(1504).read(&guest, &memory), Err(Error::MemoryFault));
    assert_eq!(BufferPtr::new(1504).read(&guest, &memory), Err(Error::MemoryFault));
}

#[test]
fn an_odd_size_reads_the_whole_code_units_only() {
    let mut store = small_store();
    let instance = full_guest(&mut store);
    let memory = memory_of(&instance);
    let guest = Guest::new(store.as_store_mut());
    assert_eq!(StringPtr::new(1404).read(&guest, &memory), Ok("ab".to_string()));
    assert_eq!(
        BufferPtr::new(1404).read(&guest, &memory),
        Ok(vec![0x61, 0x00, 0x62, 0x00, 0x63])
    );
}

#[test]
fn allocating_without_new_fails_and_writes_nothing() {
    let mut store = small_store();
    let instance = guest_with(&mut store, &[PIN, UNPIN, COLLECT]);
    let memory = memory_of(&instance);
    let env = Env::from_instance(&instance).expect("bindings");
    assert!(!env.has(Export::New));
    let before = snapshot(&store, &memory);

    let text = StringPtr::allocate(&"hello".to_string(), &mut Guest::new(store.as_store_mut()), &env);
    assert_eq!(text, Err(Error::AllocatorUnavailable(Export::New)));
    let bytes = BufferPtr::allocate(&vec![1, 2, 3], &mut Guest::new(store.as_store_mut()), &env);
    assert_eq!(bytes, Err(Error::AllocatorUnavailable(Export::New)));

    assert_eq!(snapshot(&store, &memory), before);
    assert_eq!(log(&mut store, &instance), vec![]);
}

#[test]
fn allocating_asks_for_the_encoded_size_then_stores_then_pins() {
    let mut store = small_store();
    let instance = full_guest(&mut store);
    let memory = memory_of(&instance);
    let env = Env::from_instance(&instance).expect("bindings");

    let ptr = StringPtr::allocate(&"h𝌆".to_string(), &mut Guest::new(store.as_store_mut()), &env).unwrap();
    assert_eq!(ptr.offset(), 2052);
    assert_eq!(log(&mut store, &instance), vec![(1, 6), (5, 1), (2, 2052)]);
    assert_eq!(
        bytes_at(&store, &memory, 2048, 10),
        vec![6, 0, 0, 0, 0x68, 0x00, 0x34, 0xD8, 0x06, 0xDF]
    );
    assert_eq!(ptr.read(&Guest::new(store.as_store_mut()), &memory), Ok("h𝌆".to_string()));

    let buffer = BufferPtr::allocate(&vec![9, 8, 7], &mut Guest::new(store.as_store_mut()), &env).unwrap();
    assert_eq!(buffer.offset(), 2064);
    assert_eq!(
        log(&mut store, &instance),
        vec![(1, 6), (5, 1), (2, 2052), (1, 3), (5, 0), (2, 2064)]
    );
    assert_eq!(buffer.read(&Guest::new(store.as_store_mut()), &memory), Ok(vec![9, 8, 7]));
}

#[test]
fn writing_the_same_size_keeps_the_handle() {
    let mut store = small_store();
    let instance = full_guest(&mut store);
    let memory = memory_of(&instance);
    let env = Env::from_instance(&instance).expect("bindings");

    let mut ptr = StringPtr::new(1024);
    let next = ptr
        .write(&"hallo tast".to_string(), &mut Guest::new(store.as_store_mut()), &env)
        .unwrap();
    assert_eq!(*next, ptr);
    assert_eq!(next.offset(), 1024);
    assert_eq!(ptr.read(&Guest::new(store.as_store_mut()), &memory), Ok("hallo tast".to_string()));
    assert_eq!(ptr.size(&Guest::new(store.as_store_mut()), &memory), Ok(20));
    assert_eq!(log(&mut store, &instance), vec![]);

    let mut buffer = BufferPtr::new(1304);
    let next = buffer.write(&vec![4, 3, 2, 1], &mut Guest::new(store.as_store_mut()), &env).unwrap();
    assert_eq!(*next, buffer);
    assert_eq!(buffer.read(&Guest::new(store.as_store_mut()), &memory), Ok(vec![4, 3, 2, 1]));
    assert_eq!(log(&mut store, &instance), vec![]);
}

#[test]
fn writing_back_what_was_read_changes_nothing() {
    let mut store = small_store();
    let instance = full_guest(&mut store);
    let memory = memory_of(&instance);
    let env = Env::from_instance(&instance).expect("bindings");
    let before = snapshot(&store, &memory);

    let mut ptr = StringPtr::new(1024);
    let text = ptr.read(&Guest::new(store.as_store_mut()), &memory).unwrap();
    let next = ptr.write(&text, &mut Guest::new(store.as_store_mut()), &env).unwrap();
    assert_eq!(*next, ptr);
    assert_eq!(snapshot(&store, &memory), before);

    let mut buffer = BufferPtr::new(1304);
    let data = buffer.read(&Guest::new(store.as_store_mut()), &memory).unwrap();
    let next = buffer.write(&data, &mut Guest::new(store.as_store_mut()), &env).unwrap();
    assert_eq!(*next, buffer);
    assert_eq!(snapshot(&store, &memory), before);
}

#[test]
fn writing_another_size_releases_and_allocates_anew() {
    let mut store = small_store();
    let instance = full_guest(&mut store);
    let memory = memory_of(&instance);
    let env = Env::from_instance(&instance).expect("bindings");

    let mut ptr = StringPtr::new(1024);
    let next = ptr.write(&"hi".to_string(), &mut Guest::new(store.as_store_mut()), &env).unwrap();
    assert_ne!(*next, ptr);
    assert_eq!(next.offset(), 2052);
    assert_eq!(next.read(&Guest::new(store.as_store_mut()), &memory), Ok("hi".to_string()));
    assert_eq!(
        log(&mut store, &instance),
        vec![(3, 1024), (4, 0), (1, 4), (5, 1), (2, 2052)]
    );

    let mut buffer = BufferPtr::new(1304);
    let next = buffer.write(&vec![1, 2, 3, 4, 5], &mut Guest::new(store.as_store_mut()), &env).unwrap();
    assert_ne!(*next, buffer);
    assert_eq!(next.read(&Guest::new(store.as_store_mut()), &memory), Ok(vec![1, 2, 3, 4, 5]));
    assert_eq!(
        log(&mut store, &instance)[5..],
        [(3, 1304), (4, 0), (1, 5), (5, 0), (2, 2060)]
    );
}

#[test]
fn writing_another_size_without_new_fails() {
    let mut store = small_store();
    let instance = guest_with(&mut store, &[]);
    let memory = memory_of(&instance);
    let env = Env::from_instance(&instance).expect("bindings");
    let before = snapshot(&store, &memory);

    let mut ptr = StringPtr::new(1024);
    let next = ptr.write(&"hi".to_string(), &mut Guest::new(store.as_store_mut()), &env);
    assert_eq!(next, Err(Error::AllocatorUnavailable(Export::New)));
    assert_eq!(snapshot(&store, &memory), before);
}

#[test]
fn writing_another_size_without_new_releases_nothing() {
    let mut store = small_store();
    let instance = guest_with(&mut store, &[PIN, UNPIN, COLLECT]);
    let memory = memory_of(&instance);
    let env = Env::from_instance(&instance).expect("bindings");
    let before = snapshot(&store, &memory);

    let mut ptr = StringPtr::new(1024);
    let next = ptr.write(&"hi".to_string(), &mut Guest::new(store.as_store_mut()), &env);
    assert_eq!(next, Err(Error::AllocatorUnavailable(Export::New)));
    let mut buffer = BufferPtr::new(1304);
    let next = buffer.write(&vec![1], &mut Guest::new(store.as_store_mut()), &env);
    assert_eq!(next, Err(Error::AllocatorUnavailable(Export::New)));
    assert_eq!(log(&mut store, &instance), vec![]);
    assert_eq!(snapshot(&store, &memory), before);
}

#[test]
fn writing_another_size_stops_where_the_release_fails() {
    let mut store = small_store();
    let instance = guest_with(&mut store, &[NEW, PIN, TRAPPING_UNPIN, COLLECT]);
    let env = Env::from_instance(&instance).expect("bindings");

    let mut ptr = StringPtr::new(1024);
    let next = ptr.write(&"hi".to_string(), &mut Guest::new(store.as_store_mut()), &env);
    assert_eq!(next, Err(Error::CallFailed));
    assert_eq!(log(&mut store, &instance), vec![]);
}

#[test]
fn writing_through_a_bad_handle_fails_as_reading_its_size_does() {
    let mut store = small_store();
    let instance = full_guest(&mut store);
    let env = Env::from_instance(&instance).expect("bindings");

    let mut low = StringPtr::new(2);
    assert_eq!(
        low.write(&"hi".to_string(), &mut Guest::new(store.as_store_mut()), &env),
        Err(Error::InvalidOffset)
    );
    let mut far = BufferPtr::new(70000);
    assert_eq!(
        far.write(&vec![1], &mut Guest::new(store.as_store_mut()), &env),
        Err(Error::OutOfBounds)
    );
    assert_eq!(log(&mut store, &instance), vec![]);
}

#[test]
fn freeing_unpins_then_collects() {
    let mut store = small_store();
    let instance = full_guest(&mut store);
    let env = Env::from_instance(&instance).expect("bindings");

    assert_eq!(StringPtr::new(1024).free(&mut Guest::new(store.as_store_mut()), &env), Ok(()));
    assert_eq!(log(&mut store, &instance), vec![(3, 1024), (4, 0)]);
    assert_eq!(BufferPtr::new(1304).free(&mut Guest::new(store.as_store_mut()), &env), Ok(()));
    assert_eq!(
        log(&mut store, &instance),
        vec![(3, 1024), (4, 0), (3, 1304), (4, 0)]
    );
}

#[test]
fn freeing_without_the_collector_does_nothing() {
    let mut store = small_store();
    let instance = guest_with(&mut store, &[NEW]);
    let memory = memory_of(&instance);
    let env = Env::from_instance(&instance).expect("bindings");
    let before = snapshot(&store, &memory);

    assert_eq!(StringPtr::new(1024).free(&mut Guest::new(store.as_store_mut()), &env), Ok(()));
    assert_eq!(env.release(&mut Guest::new(store.as_store_mut()), 1024), Ok(()));
    assert_eq!(env.pin(&mut Guest::new(store.as_store_mut()), 1024), Ok(()));
    assert_eq!(snapshot(&store, &memory), before);
}

#[test]
fn a_guest_that_misbehaves_is_reported() {
    let mut store = small_store();
    let value = "hi".to_string();

    let trapping = guest_with(&mut store, &[TRAPPING_NEW]);
    let env = Env::from_instance(&trapping).expect("bindings");
    assert_eq!(
        StringPtr::allocate(&value, &mut Guest::new(store.as_store_mut()), &env),
        Err(Error::CallFailed)
    );

    let negative = guest_with(&mut store, &[NEGATIVE_NEW]);
    let env = Env::from_instance(&negative).expect("bindings");
    assert_eq!(
        StringPtr::allocate(&value, &mut Guest::new(store.as_store_mut()), &env),
        Err(Error::InvalidOffset)
    );

    let far = guest_with(&mut store, &[FAR_NEW, PIN]);
    let env = Env::from_instance(&far).expect("bindings");
    assert_eq!(
        BufferPtr::allocate(&vec![1, 2], &mut Guest::new(store.as_store_mut()), &env),
        Err(Error::OutOfBounds)
    );
    assert_eq!(log(&mut store, &far), vec![]);

    let void = guest_with(&mut store, &[VOID_NEW]);
    let env = Env::from_instance(&void).expect("bindings");
    assert_eq!(env.reserve(&mut Guest::new(store.as_store_mut()), 4, 1), Err(Error::CallFailed));

    let wide = guest_with(&mut store, &[WIDE_NEW]);
    let env = Env::from_instance(&wide).expect("bindings");
    assert_eq!(env.reserve(&mut Guest::new(store.as_store_mut()), 4, 1), Err(Error::CallFailed));

    let stuck = guest_with(&mut store, &[NEW, TRAPPING_UNPIN, COLLECT]);
    let env = Env::from_instance(&stuck).expect("bindings");
    assert_eq!(
        StringPtr::new(1024).free(&mut Guest::new(store.as_store_mut()), &env),
        Err(Error::CallFailed)
    );
    assert_eq!(log(&mut store, &stuck), vec![]);
}

#[test]
fn the_size_argument_counts_bytes() {
    assert_eq!(string_ptr::request_size(0), Ok(0));
    assert_eq!(string_ptr::request_size(10), Ok(20));
    assert_eq!(string_ptr::request_size(0x3FFF_FFFF), Ok(0x7FFF_FFFE));
    assert_eq!(string_ptr::request_size(0x4000_0000), Err(Error::SizeOverflow));
    assert_eq!(string_ptr::request_size(usize::MAX), Err(Error::SizeOverflow));
    assert_eq!(buffer_ptr::request_size(0), Ok(0));
    assert_eq!(buffer_ptr::request_size(10), Ok(10));
    assert_eq!(buffer_ptr::request_size(0x7FFF_FFFF), Ok(i32::MAX));
    assert_eq!(buffer_ptr::request_size(0x8000_0000), Err(Error::SizeOverflow));
}

#[test]
fn bindings_are_resolved_by_name() {
    let mut store = small_store();
    let full = Env::from_instance(&full_guest(&mut store)).expect("bindings");
    assert!(full.has(Export::New));
    assert!(full.has(Export::Pin));
    assert!(full.has(Export::Unpin));
    assert!(full.has(Export::Collect));

    let partial = Env::from_instance(&guest_with(&mut store, &[NEW, COLLECT])).expect("bindings");
    assert!(partial.has(Export::New));
    assert!(!partial.has(Export::Pin));
    assert!(!partial.has(Export::Unpin));
    assert!(partial.has(Export::Collect));

    let module = Module::new(&store, NO_MEMORY).expect("guest module");
    let bare = Instance::new(&mut store, &module, &Imports::new()).expect("guest instance");
    assert_eq!(Env::from_instance(&bare).err(), Some(Error::MemoryUnavailable));
}

#[test]
fn bindings_of_another_store_are_refused() {
    let mut home = small_store();
    let mut other = small_store();
    let instance = full_guest(&mut home);
    let memory = memory_of(&instance);
    let env = Env::from_instance(&instance).expect("bindings");

    assert!(env.serves(&Guest::new(home.as_store_mut())));
    assert!(!env.serves(&Guest::new(other.as_store_mut())));

    let value = "hi".to_string();
    let guest = &mut Guest::new(other.as_store_mut());
    assert_eq!(StringPtr::allocate(&value, guest, &env), Err(Error::WrongStore));
    assert_eq!(StringPtr::new(1024).write(&value, guest, &env), Err(Error::WrongStore));
    assert_eq!(StringPtr::new(1024).free(guest, &env), Err(Error::WrongStore));
    assert_eq!(StringPtr::new(1024).read(guest, &memory), Err(Error::WrongStore));
    assert_eq!(StringPtr::new(1024).size(guest, &memory), Err(Error::WrongStore));
    assert_eq!(BufferPtr::allocate(&vec![1], guest, &env), Err(Error::WrongStore));
    assert_eq!(BufferPtr::new(1304).write(&vec![1], guest, &env), Err(Error::WrongStore));
    assert_eq!(BufferPtr::new(1304).free(guest, &env), Err(Error::WrongStore));
    assert_eq!(BufferPtr::new(1304).read(guest, &memory), Err(Error::WrongStore));
    assert_eq!(string_ptr::write_str(1024, "hi", guest, &memory), Err(Error::WrongStore));
    assert_eq!(buffer_ptr::write_buffer(1304, &[1], guest, &memory), Err(Error::WrongStore));
    assert_eq!(log(&mut home, &instance), vec![]);
}

#[test]
fn storing_is_all_or_nothing() {
    let mut store = small_store();
    let instance = full_guest(&mut store);
    let memory = memory_of(&instance);
    let before = snapshot(&store, &memory);

    let guest = &mut Guest::new(store.as_store_mut());
    assert_eq!(string_ptr::write_str(65528, "hello", guest, &memory), Err(Error::OutOfBounds));
    assert_eq!(string_ptr::write_str(65537, "", guest, &memory), Err(Error::OutOfBounds));
    assert_eq!(
        buffer_ptr::write_buffer(65534, &[1, 2, 3], guest, &memory),
        Err(Error::OutOfBounds)
    );
    assert_eq!(snapshot(&store, &memory), before);

    let guest = &mut Guest::new(store.as_store_mut());
    assert_eq!(string_ptr::write_str(65526, "hello", guest, &memory), Ok(()));
    assert_eq!(string_ptr::write_str(65536, "", guest, &memory), Ok(()));
    assert_eq!(buffer_ptr::write_buffer(3001, &[1, 2, 3], guest, &memory), Ok(()));
    assert_eq!(
        bytes_at(&store, &memory, 65526, 10),
        vec![0x68, 0, 0x65, 0, 0x6C, 0, 0x6C, 0, 0x6F, 0]
    );
    assert_eq!(bytes_at(&store, &memory, 3000, 5), vec![0, 1, 2, 3, 0]);
    let mut expected = before;
    expected[65526..65536].copy_from_slice(&[0x68, 0, 0x65, 0, 0x6C, 0, 0x6C, 0, 0x6F, 0]);
    expected[3001..3004].copy_from_slice(&[1, 2, 3]);
    assert_eq!(snapshot(&store, &memory), expected);
}

#[test]
fn errors_and_exports_have_their_words() {
    assert_eq!(Export::New.name(), "__new");
    assert_eq!(Export::Pin.name(), "__pin");
    assert_eq!(Export::Unpin.name(), "__unpin");
    assert_eq!(Export::Collect.name(), "__collect");
    assert_eq!(Error::InvalidOffset.message(), "Wrong offset: less than 4");
    assert_eq!(Error::OutOfBounds.message(), "Wrong offset: can't read size");
    assert_eq!(
        Error::AllocatorUnavailable(Export::New).message(),
        "Assembly Script Runtime not exported"
    );
    assert_eq!(Error::MemoryFault.message(), "Wrong offset: can't reach the payload");
    assert_eq!(Error::SizeOverflow.message(), "Value too long for the allocator");
    assert_eq!(Error::CallFailed.message(), "Failed to call the guest");
    assert_eq!(Error::WrongStore.message(), "Memory or function of another store");
    assert_eq!(Error::MemoryUnavailable.message(), "Memory not exported");
}
