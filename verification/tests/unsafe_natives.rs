use jvm::class::FieldDecl;
use jvm::native::sun_misc_Unsafe::{
    complete_memory_request, get_native_methods, jvm_addressSize, jvm_allocateMemory,
    jvm_arrayBaseOffset, jvm_arrayIndexScale, jvm_compareAndSwapInt, jvm_compareAndSwapLong,
    jvm_compareAndSwapObject, jvm_freeMemory, jvm_getByte, jvm_getIntVolatile,
    jvm_getLongVolatile, jvm_getObjectVolatile, jvm_pageSize, jvm_putChar, jvm_putLong,
    jvm_registerNatives, jvm_setMemory, to_be_bytes, MemoryReply, MemoryRequest,
};
use jvm::native::{JNIEnv, NativeFn};
use jvm::oop::{ClassId, ComponentType, OopRef};
use jvm::runtime::Vm;

fn env() -> JNIEnv {
    JNIEnv { class: ClassId { index: 0 } }
}

fn int_of(vm: &Vm, r: Result<Option<OopRef>, jvm::native::Exception>) -> i32 {
    vm.heap.extract_int(r.unwrap().unwrap()).unwrap()
}

#[test]
fn unsafe_registers_eighteen_native_methods() {
    let table = get_native_methods();
    let names: Vec<(&str, &str, NativeFn)> = table.iter().map(|m| (m.name, m.desc, m.fnptr)).collect();
    assert_eq!(
        names,
        vec![
            ("registerNatives", "()V", NativeFn::UnsafeRegisterNatives),
            ("arrayBaseOffset", "(Ljava/lang/Class;)I", NativeFn::UnsafeArrayBaseOffset),
            ("arrayIndexScale", "(Ljava/lang/Class;)I", NativeFn::UnsafeArrayIndexScale),
            ("addressSize", "()I", NativeFn::UnsafeAddressSize),
            ("objectFieldOffset", "(Ljava/lang/reflect/Field;)J", NativeFn::UnsafeObjectFieldOffset),
            (
                "compareAndSwapObject",
                "(Ljava/lang/Object;JLjava/lang/Object;Ljava/lang/Object;)Z",
                NativeFn::UnsafeCompareAndSwapObject
            ),
            ("getIntVolatile", "(Ljava/lang/Object;J)I", NativeFn::UnsafeGetIntVolatile),
            ("compareAndSwapInt", "(Ljava/lang/Object;JII)Z", NativeFn::UnsafeCompareAndSwapInt),
            ("allocateMemory", "(J)J", NativeFn::UnsafeAllocateMemory),
            ("freeMemory", "(J)V", NativeFn::UnsafeFreeMemory),
            ("putLong", "(JJ)V", NativeFn::UnsafePutLong),
            ("getByte", "(J)B", NativeFn::UnsafeGetByte),
            ("compareAndSwapLong", "(Ljava/lang/Object;JJJ)Z", NativeFn::UnsafeCompareAndSwapLong),
            (
                "getObjectVolatile",
                "(Ljava/lang/Object;J)Ljava/lang/Object;",
                NativeFn::UnsafeGetObjectVolatile
            ),
            ("pageSize", "()I", NativeFn::UnsafePageSize),
            ("getLongVolatile", "(Ljava/lang/Object;J)J", NativeFn::UnsafeGetLongVolatile),
            ("setMemory", "(Ljava/lang/Object;JJB)V", NativeFn::UnsafeSetMemory),
            ("putChar", "(JC)V", NativeFn::UnsafePutChar),
        ]
    );
}

#[test]
fn unsafe_constants() {
    let mut vm = Vm::new();
    assert_eq!(jvm_registerNatives(&mut vm, env(), vec![]), Ok(None));
    let r = jvm_arrayBaseOffset(&mut vm, env(), vec![]);
    assert_eq!(int_of(&vm, r), 0);
    let r = jvm_arrayIndexScale(&mut vm, env(), vec![]);
    assert_eq!(int_of(&vm, r), 1);
    let r = jvm_pageSize(&mut vm, env(), vec![]);
    assert_eq!(int_of(&vm, r), 4096);
    let r = jvm_addressSize(&mut vm, env(), vec![]);
    assert_eq!(int_of(&vm, r) as usize, std::mem::size_of::<usize>());
}

struct Counter {
    vm: Vm,
    this: OopRef,
    owner: OopRef,
    offset: OopRef,
}

fn counter(initial: i32) -> Counter {
    let mut vm = Vm::new();
    let a = vm.define_class(
        b"A".to_vec(),
        None,
        vec![
            FieldDecl { name: b"pad".to_vec(), desc: b"J".to_vec(), is_static: true },
            FieldDecl { name: b"x".to_vec(), desc: b"I".to_vec(), is_static: true },
        ],
        vec![],
    );
    let owner = vm.new_mirror(a);
    let start = vm.heap.new_int(initial);
    vm.heap.set_slot(owner, 1, start);
    let this = vm.heap.null();
    let offset = vm.heap.new_long(1);
    Counter { vm, this, owner, offset }
}

fn cas_int(c: &mut Counter, expected: i32, new: i32) -> i32 {
    let e = c.vm.heap.new_int(expected);
    let n = c.vm.heap.new_int(new);
    let r = jvm_compareAndSwapInt(&mut c.vm, env(), vec![c.this, c.owner, c.offset, e, n]);
    int_of(&c.vm, r)
}

fn read_int(c: &mut Counter) -> i32 {
    let r = jvm_getIntVolatile(&mut c.vm, env(), vec![c.this, c.owner, c.offset]);
    int_of(&c.vm, r)
}

#[test]
fn compare_and_swap_int_succeeds_on_the_expected_value_alone() {
    let mut c = counter(10);
    assert_eq!(cas_int(&mut c, 10, 11), 1);
    assert_eq!(read_int(&mut c), 11);
    assert_eq!(cas_int(&mut c, 10, 12), 0);
    assert_eq!(read_int(&mut c), 11);
    assert_eq!(cas_int(&mut c, 11, 11), 1);
    assert_eq!(read_int(&mut c), 11);
    assert_eq!(c.vm.heap.extract_long(c.vm.heap.get_slot(c.owner, 0)), Ok(0));
}

#[test]
fn of_two_swaps_from_one_value_one_wins() {
    for (first, second) in [(1, 2), (2, 1)] {
        let mut c = counter(0);
        let a = cas_int(&mut c, 0, first);
        let b = cas_int(&mut c, 0, second);
        assert_eq!((a, b), (1, 0));
        assert_eq!(read_int(&mut c), first);
    }
}

#[test]
fn a_million_increments_by_compare_and_swap() {
    let mut c = counter(0);
    let mut seen = [0i32; 2];
    let mut done = [0u32; 2];
    let mut turn = 0usize;
    while done[0] + done[1] < 1_000_000 {
        let t = turn % 2;
        turn += 1;
        if done[t] == 500_000 {
            continue;
        }
        if turn % 7 != 0 {
            seen[t] = read_int(&mut c);
        }
        if cas_int(&mut c, seen[t], seen[t] + 1) == 1 {
            done[t] += 1;
            seen[t] += 1;
        } else {
            seen[t] = read_int(&mut c);
        }
    }
    assert_eq!(read_int(&mut c), 1_000_000);
}

#[test]
fn as_many_increments_take_effect_as_return_one() {
    let mut c = counter(40);
    let expected = [40, 40, 41, 7, 41, 42, 42, 45, 43, 40];
    let mut ones = 0;
    for e in expected {
        ones += cas_int(&mut c, e, e + 1);
    }
    assert_eq!(ones, 4);
    assert_eq!(read_int(&mut c), 40 + ones);
    let mut c = counter(-3);
    assert_eq!(cas_int(&mut c, -2, -1) + cas_int(&mut c, 0, 1), 0);
    assert_eq!(read_int(&mut c), -3);
}

#[test]
fn compare_and_swap_long_on_an_array_element() {
    let mut vm = Vm::new();
    let a = vm.heap.new_array(ComponentType::Long, 3);
    let this = vm.heap.null();
    let offset = vm.heap.new_long(2);
    let zero = vm.heap.new_long(0);
    let big = vm.heap.new_long(1 << 40);
    let r = jvm_compareAndSwapLong(&mut vm, env(), vec![this, a, offset, big, zero]);
    assert_eq!(int_of(&vm, r), 0);
    assert_eq!(vm.heap.extract_long(vm.heap.get_slot(a, 2)), Ok(0));
    let r = jvm_compareAndSwapLong(&mut vm, env(), vec![this, a, offset, zero, big]);
    assert_eq!(int_of(&vm, r), 1);
    assert_eq!(vm.heap.get_slot(a, 2), big);
    let r = jvm_getLongVolatile(&mut vm, env(), vec![this, a, offset]);
    assert_eq!(r, Ok(Some(big)));
    assert_eq!(vm.heap.extract_long(vm.heap.get_slot(a, 1)), Ok(0));
}

#[test]
fn compare_and_swap_object_goes_by_identity() {
    let mut vm = Vm::new();
    let object = vm.define_class(b"java/lang/Object".to_vec(), None, vec![], vec![]);
    let holder = vm.define_class(
        b"Holder".to_vec(),
        Some(object),
        vec![FieldDecl { name: b"value".to_vec(), desc: b"Ljava/lang/Object;".to_vec(), is_static: false }],
        vec![],
    );
    let h = vm.new_inst(holder);
    let this = vm.heap.null();
    let null = vm.heap.null();
    let offset = vm.heap.new_long(0);
    let one = vm.heap.new_str(b"same".to_vec());
    let twin = vm.heap.new_str(b"same".to_vec());
    let r = jvm_compareAndSwapObject(&mut vm, env(), vec![this, h, offset, null, one]);
    assert_eq!(int_of(&vm, r), 1);
    assert_eq!(vm.heap.get_slot(h, 0), one);
    let r = jvm_compareAndSwapObject(&mut vm, env(), vec![this, h, offset, twin, null]);
    assert_eq!(int_of(&vm, r), 0);
    assert_eq!(vm.heap.get_slot(h, 0), one);
    let r = jvm_compareAndSwapObject(&mut vm, env(), vec![this, h, offset, one, twin]);
    assert_eq!(int_of(&vm, r), 1);
    let r = jvm_getObjectVolatile(&mut vm, env(), vec![this, h, offset]);
    assert_eq!(r, Ok(Some(twin)));
}

#[test]
fn big_endian_bytes_of_a_long() {
    assert_eq!(to_be_bytes(0x0102030405060708), vec![1, 2, 3, 4, 5, 6, 7, 8]);
    assert_eq!(to_be_bytes(0), vec![0; 8]);
    assert_eq!(to_be_bytes(-1), vec![0xff; 8]);
    assert_eq!(to_be_bytes(-2), vec![0xff, 0xff, 0xff, 0xff, 0xff, 0xff, 0xff, 0xfe]);
    assert_eq!(to_be_bytes(i64::MIN), vec![0x80, 0, 0, 0, 0, 0, 0, 0]);
    assert_eq!(to_be_bytes(i64::MAX).to_vec(), i64::MAX.to_be_bytes().to_vec());
}

fn serve(memory: &mut Vec<u8>, request: &MemoryRequest) -> MemoryReply {
    match request {
        MemoryRequest::Allocate { size } => {
            let address = memory.len() + 16;
            memory.resize(memory.len() + size, 0);
            MemoryReply::Address(address as i64)
        }
        MemoryRequest::Free { .. } => MemoryReply::Done,
        MemoryRequest::Write { address, bytes } => {
            let at = *address as usize - 16;
            memory[at..at + bytes.len()].copy_from_slice(bytes);
            MemoryReply::Done
        }
        MemoryRequest::ReadByte { address } => MemoryReply::Byte(memory[*address as usize - 16]),
        MemoryRequest::Fill { address, value, count } => {
            let at = *address as usize - 16;
            for b in &mut memory[at..at + count] {
                *b = *value as u8;
            }
            MemoryReply::Done
        }
    }
}

#[test]
fn put_long_writes_the_most_significant_byte_first() {
    let mut vm = Vm::new();
    let mut memory: Vec<u8> = Vec::new();
    let this = vm.heap.null();
    let eight = vm.heap.new_long(8);
    let request = jvm_allocateMemory(&mut vm, env(), vec![this, eight]);
    assert_eq!(request, MemoryRequest::Allocate { size: 8 });
    let reply = serve(&mut memory, &request);
    let address = complete_memory_request(&mut vm, &request, reply).unwrap().unwrap();
    assert_eq!(vm.heap.extract_long(address), Ok(16));

    let value = vm.heap.new_long(0x0102030405060708);
    let request = jvm_putLong(&mut vm, env(), vec![this, address, value]);
    assert_eq!(request, MemoryRequest::Write { address: 16, bytes: vec![1, 2, 3, 4, 5, 6, 7, 8] });
    let reply = serve(&mut memory, &request);
    assert_eq!(complete_memory_request(&mut vm, &request, reply), Ok(None));

    let request = jvm_getByte(&mut vm, env(), vec![this, address]);
    assert_eq!(request, MemoryRequest::ReadByte { address: 16 });
    let reply = serve(&mut memory, &request);
    let byte = complete_memory_request(&mut vm, &request, reply).unwrap().unwrap();
    assert_eq!(vm.heap.extract_int(byte), Ok(0x01));

    let request = jvm_freeMemory(&mut vm, env(), vec![this, address]);
    assert_eq!(request, MemoryRequest::Free { address: 16 });
    let reply = serve(&mut memory, &request);
    assert_eq!(complete_memory_request(&mut vm, &request, reply), Ok(None));
}

#[test]
fn a_byte_that_was_read_is_returned_unsigned() {
    let mut vm = Vm::new();
    let request = MemoryRequest::ReadByte { address: 0 };
    let r = complete_memory_request(&mut vm, &request, MemoryReply::Byte(0xff));
    assert_eq!(int_of(&vm, r), 255);
    let before = vm.heap.len();
    assert_eq!(complete_memory_request(&mut vm, &request, MemoryReply::Done), Ok(None));
    assert_eq!(complete_memory_request(&mut vm, &request, MemoryReply::Address(3)), Ok(None));
    assert_eq!(vm.heap.len(), before);
}

#[test]
fn set_memory_and_put_char_ask_for_fills() {
    let mut vm = Vm::new();
    let this = vm.heap.null();
    let null = vm.heap.null();
    let address = vm.heap.new_long(4096);
    let size = vm.heap.new_long(32);
    let value = vm.heap.new_int(7);
    assert_eq!(
        jvm_setMemory(&mut vm, env(), vec![this, null, address, size, value]),
        MemoryRequest::Fill { address: 4096, value: 7, count: 32 }
    );
    let c = vm.heap.new_int(0x41);
    assert_eq!(
        jvm_putChar(&mut vm, env(), vec![this, address, c]),
        MemoryRequest::Fill { address: 4096, value: 0x41, count: 1 }
    );
    let mut memory = vec![0u8; 4];
    assert_eq!(serve(&mut memory, &MemoryRequest::Fill { address: 17, value: 0x141, count: 2 }), MemoryReply::Done);
    assert_eq!(memory, vec![0, 0x41, 0x41, 0]);
}
