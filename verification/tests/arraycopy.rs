use jvm::class::FieldDecl;
use jvm::native::java_lang_System::jvm_arraycopy;
use jvm::native::{Exception, JNIEnv};
use jvm::oop::{ClassId, ComponentType, Oop, OopRef};
use jvm::runtime::Vm;

fn env() -> JNIEnv {
    JNIEnv { class: ClassId { index: 0 } }
}

fn int_array(vm: &mut Vm, values: &[i32]) -> OopRef {
    let a = vm.heap.new_array(ComponentType::Int, values.len());
    for (i, v) in values.iter().enumerate() {
        let cell = vm.heap.new_int(*v);
        vm.heap.set_slot(a, i, cell);
    }
    a
}

fn ints(vm: &Vm, a: OopRef) -> Vec<i32> {
    let n = vm.heap.slot_count(a);
    (0..n).map(|i| vm.heap.extract_int(vm.heap.get_slot(a, i)).unwrap()).collect()
}

fn copy(vm: &mut Vm, src: OopRef, sp: i32, dest: OopRef, dp: i32, len: i32) -> Result<Option<OopRef>, Exception> {
    let sp = vm.heap.new_int(sp);
    let dp = vm.heap.new_int(dp);
    let len = vm.heap.new_int(len);
    jvm_arraycopy(vm, env(), vec![src, sp, dest, dp, len])
}

#[test]
fn arraycopy_within_one_array_shifts_right() {
    let mut vm = Vm::new();
    let a = int_array(&mut vm, &[1, 2, 3, 4]);
    assert_eq!(copy(&mut vm, a, 0, a, 1, 3), Ok(None));
    assert_eq!(ints(&vm, a), vec![1, 1, 2, 3]);
}

#[test]
fn arraycopy_between_arrays_shares_cells() {
    let mut vm = Vm::new();
    let a = int_array(&mut vm, &[7, 8, 9]);
    let b = int_array(&mut vm, &[0, 0, 0, 0, 0]);
    assert_eq!(copy(&mut vm, a, 1, b, 2, 2), Ok(None));
    assert_eq!(ints(&vm, b), vec![0, 0, 8, 9, 0]);
    assert_eq!(vm.heap.get_slot(b, 2), vm.heap.get_slot(a, 1));
    assert_eq!(vm.heap.get_slot(b, 3), vm.heap.get_slot(a, 2));
}

#[test]
fn arraycopy_from_string_carrier_widens_bytes() {
    let mut vm = Vm::new();
    let s = vm.heap.new_str(vec![b'h', b'e', 0xff, b'l']);
    let d = vm.heap.new_array(ComponentType::Char, 4);
    assert_eq!(copy(&mut vm, s, 1, d, 0, 3), Ok(None));
    assert_eq!(ints(&vm, d), vec![b'e' as i32, 255, b'l' as i32, 0]);
}

#[test]
fn arraycopy_of_length_zero_checks_nothing() {
    let mut vm = Vm::new();
    let null = vm.heap.null();
    let before = vm.heap.len();
    assert_eq!(copy(&mut vm, null, 0, null, 0, 0), Ok(None));
    assert_eq!(vm.heap.len(), before + 3);
}

#[test]
fn arraycopy_raises_before_it_writes() {
    let mut vm = Vm::new();
    let a = int_array(&mut vm, &[1, 2, 3]);
    let b = int_array(&mut vm, &[4, 5, 6]);
    let l = vm.heap.new_array(ComponentType::Long, 3);
    let null = vm.heap.null();
    assert_eq!(copy(&mut vm, null, 0, b, 0, 1), Err(Exception::NullPointerException));
    assert_eq!(copy(&mut vm, a, 0, null, 0, 1), Err(Exception::NullPointerException));
    assert_eq!(copy(&mut vm, a, 0, l, 0, 1), Err(Exception::ArrayStoreException));
    let five = vm.heap.new_int(5);
    assert_eq!(copy(&mut vm, five, 0, b, 0, 1), Err(Exception::ArrayStoreException));
    assert_eq!(copy(&mut vm, a, 2, b, 0, 2), Err(Exception::ArrayIndexOutOfBoundsException));
    assert_eq!(copy(&mut vm, a, 0, b, 2, 2), Err(Exception::ArrayIndexOutOfBoundsException));
    assert_eq!(copy(&mut vm, a, -1, b, 0, 1), Err(Exception::ArrayIndexOutOfBoundsException));
    assert_eq!(copy(&mut vm, a, 0, b, 0, -1), Err(Exception::ArrayIndexOutOfBoundsException));
    assert_eq!(copy(&mut vm, a, i32::MAX, b, 0, i32::MAX), Err(Exception::ArrayIndexOutOfBoundsException));
    assert_eq!(ints(&vm, b), vec![4, 5, 6]);
    assert!(matches!(vm.heap.get(a), Oop::Array { .. }));
}

#[test]
fn arraycopy_within_one_array_keeps_every_source_element() {
    for n in 2..8usize {
        for k in 1..n {
            let mut vm = Vm::new();
            let values: Vec<i32> = (0..n as i32).collect();
            let a = int_array(&mut vm, &values);
            assert_eq!(copy(&mut vm, a, 0, a, k as i32, (n - k) as i32), Ok(None));
            let mut expected: Vec<i32> = (0..k as i32).collect();
            expected.extend(0..(n - k) as i32);
            assert_eq!(ints(&vm, a), expected);
        }
    }
}

#[test]
fn arraycopy_within_one_array_shifts_left() {
    let mut vm = Vm::new();
    let a = int_array(&mut vm, &[1, 2, 3, 4, 5]);
    assert_eq!(copy(&mut vm, a, 2, a, 0, 3), Ok(None));
    assert_eq!(ints(&vm, a), vec![3, 4, 5, 4, 5]);
}

#[test]
fn arraycopy_copies_up_to_the_last_element() {
    let mut vm = Vm::new();
    let a = int_array(&mut vm, &[1, 2, 3]);
    let b = int_array(&mut vm, &[0, 0, 0]);
    assert_eq!(copy(&mut vm, a, 0, b, 0, 3), Ok(None));
    assert_eq!(ints(&vm, b), vec![1, 2, 3]);
}

#[test]
fn arraycopy_checks_what_a_reference_array_may_hold() {
    let mut vm = Vm::new();
    let object = vm.define_class(b"java/lang/Object".to_vec(), None, Vec::<FieldDecl>::new(), vec![]);
    let animal = vm.define_class(b"Animal".to_vec(), Some(object), vec![], vec![]);
    let dog = vm.define_class(b"Dog".to_vec(), Some(animal), vec![], vec![]);
    let cat = vm.define_class(b"Cat".to_vec(), Some(animal), vec![], vec![]);
    let rex = vm.new_inst(dog);
    let tom = vm.new_inst(cat);
    let animals = vm.heap.new_array(ComponentType::Reference(animal), 3);
    vm.heap.set_slot(animals, 0, rex);
    vm.heap.set_slot(animals, 1, tom);
    let dogs = vm.heap.new_array(ComponentType::Reference(dog), 3);
    let objects = vm.heap.new_array(ComponentType::Reference(object), 3);
    let ints = vm.heap.new_array(ComponentType::Int, 3);
    let null = vm.heap.null();

    assert_eq!(copy(&mut vm, animals, 0, dogs, 0, 1), Ok(None));
    assert_eq!(vm.heap.get_slot(dogs, 0), rex);
    assert_eq!(copy(&mut vm, animals, 2, dogs, 1, 1), Ok(None));
    assert_eq!(vm.heap.get_slot(dogs, 1), null);
    assert_eq!(copy(&mut vm, animals, 0, dogs, 1, 2), Err(Exception::ArrayStoreException));
    assert_eq!(vm.heap.get_slot(dogs, 1), null);
    assert_eq!(vm.heap.get_slot(dogs, 2), null);
    assert_eq!(copy(&mut vm, animals, 0, objects, 0, 3), Ok(None));
    assert_eq!(vm.heap.get_slot(objects, 1), tom);
    assert_eq!(copy(&mut vm, animals, 0, ints, 0, 1), Err(Exception::ArrayStoreException));
    assert_eq!(copy(&mut vm, ints, 0, animals, 0, 1), Err(Exception::ArrayStoreException));

    let nested = vm.heap.new_array(ComponentType::Reference(object), 1);
    vm.heap.set_slot(nested, 0, animals);
    assert_eq!(copy(&mut vm, nested, 0, objects, 2, 1), Ok(None));
    assert_eq!(vm.heap.get_slot(objects, 2), animals);
    assert_eq!(copy(&mut vm, nested, 0, dogs, 2, 1), Err(Exception::ArrayStoreException));
}

#[test]
fn arraycopy_from_string_carrier_needs_a_char_array() {
    let mut vm = Vm::new();
    let s = vm.heap.new_str(vec![b'a']);
    let d = vm.heap.new_array(ComponentType::Int, 1);
    assert_eq!(copy(&mut vm, s, 0, d, 0, 1), Err(Exception::ArrayStoreException));
    let c = vm.heap.new_array(ComponentType::Char, 1);
    assert_eq!(copy(&mut vm, s, 0, c, 0, 2), Err(Exception::ArrayIndexOutOfBoundsException));
    assert_eq!(copy(&mut vm, c, 0, s, 0, 1), Err(Exception::ArrayStoreException));
}

#[test]
fn arraycopy_takes_what_implements_the_interface_of_the_destination() {
    let mut vm = Vm::new();
    let object = vm.define_class(b"java/lang/Object".to_vec(), None, Vec::<FieldDecl>::new(), vec![]);
    let runnable = vm.define_class(b"Runnable".to_vec(), Some(object), vec![], vec![]);
    let task = vm.define_class_implementing(b"Task".to_vec(), Some(object), vec![runnable], vec![], vec![]);
    let other = vm.define_class(b"Other".to_vec(), Some(object), vec![], vec![]);
    let t = vm.new_inst(task);
    let o = vm.new_inst(other);
    let objects = vm.heap.new_array(ComponentType::Reference(object), 2);
    vm.heap.set_slot(objects, 0, t);
    vm.heap.set_slot(objects, 1, o);
    let runnables = vm.heap.new_array(ComponentType::Reference(runnable), 2);
    assert_eq!(copy(&mut vm, objects, 0, runnables, 1, 1), Ok(None));
    assert_eq!(vm.heap.get_slot(runnables, 1), t);
    assert_eq!(copy(&mut vm, objects, 0, runnables, 0, 2), Err(Exception::ArrayStoreException));
    assert_eq!(vm.heap.get_slot(runnables, 0), vm.heap.null());
}

struct Library {
    object: ClassId,
    sequence: ClassId,
    string: ClassId,
    class: ClassId,
}

fn library(vm: &mut Vm) -> Library {
    let object = vm.define_class(b"java/lang/Object".to_vec(), None, Vec::<FieldDecl>::new(), vec![]);
    let sequence = vm.define_class(b"java/lang/CharSequence".to_vec(), Some(object), vec![], vec![]);
    let string =
        vm.define_class_implementing(b"java/lang/String".to_vec(), Some(object), vec![sequence], vec![], vec![]);
    let class = vm.define_class(b"java/lang/Class".to_vec(), Some(object), vec![], vec![]);
    Library { object, sequence, string, class }
}

fn array_of(vm: &mut Vm, class: ClassId, items: &[OopRef], length: usize) -> OopRef {
    let a = vm.heap.new_array(ComponentType::Reference(class), length);
    for (i, item) in items.iter().enumerate() {
        vm.heap.set_slot(a, i, *item);
    }
    a
}

fn elements(vm: &Vm, a: OopRef) -> Vec<OopRef> {
    (0..vm.heap.slot_count(a)).map(|i| vm.heap.get_slot(a, i)).collect()
}

#[test]
fn arraycopy_within_an_array_of_strings() {
    let mut vm = Vm::new();
    let lib = library(&mut vm);
    let a = vm.heap.new_str(b"a".to_vec());
    let b = vm.heap.new_str(b"b".to_vec());
    let strings = array_of(&mut vm, lib.string, &[a, b], 2);
    assert_eq!(copy(&mut vm, strings, 0, strings, 1, 1), Ok(None));
    assert_eq!(elements(&vm, strings), vec![a, a]);
    assert_eq!(vm.heap.get(a), &Oop::Str(b"a".to_vec()));

    let c = vm.heap.new_str(b"c".to_vec());
    let d = vm.heap.new_str(b"d".to_vec());
    let four = array_of(&mut vm, lib.string, &[a, b, c, d], 4);
    assert_eq!(copy(&mut vm, four, 0, four, 1, 3), Ok(None));
    assert_eq!(elements(&vm, four), vec![a, a, b, c]);
    assert_eq!(copy(&mut vm, four, 1, four, 0, 3), Ok(None));
    assert_eq!(elements(&vm, four), vec![a, b, c, c]);
}

#[test]
fn arraycopy_between_arrays_of_strings() {
    let mut vm = Vm::new();
    let lib = library(&mut vm);
    let null = vm.heap.null();
    let a = vm.heap.new_str(b"a".to_vec());
    let b = vm.heap.new_str(b"b".to_vec());
    let strings = array_of(&mut vm, lib.string, &[a, b], 3);
    let more = array_of(&mut vm, lib.string, &[], 3);
    assert_eq!(copy(&mut vm, strings, 0, more, 1, 2), Ok(None));
    assert_eq!(elements(&vm, more), vec![null, a, b]);
    // to the arrays of what a string is
    let objects = array_of(&mut vm, lib.object, &[], 2);
    assert_eq!(copy(&mut vm, strings, 0, objects, 0, 2), Ok(None));
    assert_eq!(elements(&vm, objects), vec![a, b]);
    let sequences = array_of(&mut vm, lib.sequence, &[], 2);
    assert_eq!(copy(&mut vm, strings, 1, sequences, 0, 2), Ok(None));
    assert_eq!(elements(&vm, sequences), vec![b, null]);
    // and back, where each element is looked at
    let back = array_of(&mut vm, lib.string, &[], 2);
    assert_eq!(copy(&mut vm, objects, 0, back, 0, 2), Ok(None));
    assert_eq!(elements(&vm, back), vec![a, b]);
    assert_eq!(copy(&mut vm, sequences, 0, back, 1, 1), Ok(None));
    assert_eq!(elements(&vm, back), vec![a, b]);
    // a string is no class
    let classes = array_of(&mut vm, lib.class, &[], 2);
    assert_eq!(copy(&mut vm, strings, 0, classes, 0, 1), Err(Exception::ArrayStoreException));
    assert_eq!(copy(&mut vm, objects, 0, classes, 0, 2), Err(Exception::ArrayStoreException));
    assert_eq!(elements(&vm, classes), vec![null, null]);
    // but the null cell of an array of strings is stored anywhere
    assert_eq!(copy(&mut vm, strings, 2, classes, 1, 1), Ok(None));
    assert_eq!(elements(&vm, classes), vec![null, null]);
}

#[test]
fn arraycopy_of_mirrors() {
    let mut vm = Vm::new();
    let lib = library(&mut vm);
    let null = vm.heap.null();
    let of_string = vm.new_mirror(lib.string);
    let of_object = vm.new_mirror(lib.object);
    let classes = array_of(&mut vm, lib.class, &[of_string, of_object], 3);
    assert_eq!(copy(&mut vm, classes, 0, classes, 1, 2), Ok(None));
    assert_eq!(elements(&vm, classes), vec![of_string, of_string, of_object]);
    let objects = array_of(&mut vm, lib.object, &[], 3);
    assert_eq!(copy(&mut vm, classes, 0, objects, 0, 3), Ok(None));
    assert_eq!(elements(&vm, objects), vec![of_string, of_string, of_object]);
    let back = array_of(&mut vm, lib.class, &[], 3);
    assert_eq!(copy(&mut vm, objects, 1, back, 0, 2), Ok(None));
    assert_eq!(elements(&vm, back), vec![of_string, of_object, null]);
    let strings = array_of(&mut vm, lib.string, &[], 3);
    assert_eq!(copy(&mut vm, objects, 0, strings, 0, 1), Err(Exception::ArrayStoreException));
    assert_eq!(copy(&mut vm, classes, 0, strings, 0, 1), Err(Exception::ArrayStoreException));
    assert_eq!(elements(&vm, strings), vec![null, null, null]);
    // one element that cannot be stored keeps the whole range out
    let a = vm.heap.new_str(b"a".to_vec());
    let mixed = array_of(&mut vm, lib.object, &[a, a, of_object], 3);
    assert_eq!(copy(&mut vm, mixed, 0, strings, 0, 3), Err(Exception::ArrayStoreException));
    assert_eq!(elements(&vm, strings), vec![null, null, null]);
    assert_eq!(copy(&mut vm, mixed, 0, strings, 1, 2), Ok(None));
    assert_eq!(elements(&vm, strings), vec![null, a, a]);
}

#[test]
fn arraycopy_within_one_array_looks_at_no_element() {
    let mut vm = Vm::new();
    let lib = library(&mut vm);
    // an array of strings that was made to hold a mirror and an array
    let mirror = vm.new_mirror(lib.object);
    let inner = vm.heap.new_array(ComponentType::Int, 0);
    let odd = array_of(&mut vm, lib.string, &[mirror, inner], 3);
    assert_eq!(copy(&mut vm, odd, 0, odd, 1, 2), Ok(None));
    assert_eq!(elements(&vm, odd), vec![mirror, mirror, inner]);
    let other = array_of(&mut vm, lib.string, &[], 3);
    assert_eq!(copy(&mut vm, odd, 0, other, 0, 3), Ok(None));
    assert_eq!(elements(&vm, other), vec![mirror, mirror, inner]);
    // an array itself is stored where objects are, and nowhere else
    let objects = array_of(&mut vm, lib.object, &[inner], 1);
    let sequences = array_of(&mut vm, lib.sequence, &[], 1);
    assert_eq!(copy(&mut vm, objects, 0, sequences, 0, 1), Err(Exception::ArrayStoreException));
    let more = array_of(&mut vm, lib.object, &[], 1);
    assert_eq!(copy(&mut vm, objects, 0, more, 0, 1), Ok(None));
    assert_eq!(elements(&vm, more), vec![inner]);
}

#[test]
fn arraycopy_of_strings_where_their_class_is_not_loaded() {
    let mut vm = Vm::new();
    let object = vm.define_class(b"java/lang/Object".to_vec(), None, Vec::<FieldDecl>::new(), vec![]);
    let animal = vm.define_class(b"Animal".to_vec(), Some(object), vec![], vec![]);
    let a = vm.heap.new_str(b"a".to_vec());
    let objects = array_of(&mut vm, object, &[a], 2);
    let more = array_of(&mut vm, object, &[], 2);
    assert_eq!(copy(&mut vm, objects, 0, more, 1, 1), Ok(None));
    assert_eq!(elements(&vm, more), vec![vm.heap.null(), a]);
    let animals = array_of(&mut vm, animal, &[], 2);
    assert_eq!(copy(&mut vm, objects, 0, animals, 0, 1), Err(Exception::ArrayStoreException));
    assert_eq!(copy(&mut vm, objects, 1, animals, 0, 1), Ok(None));
}
