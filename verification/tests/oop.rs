use jvm::oop::{if_acmpeq, default_handle, ComponentType, Heap, Oop, OopRef, TypeMismatch};

#[test]
fn new_heap_holds_the_initial_cells() {
    let heap = Heap::new();
    assert_eq!(heap.len(), 5);
    assert_eq!(heap.null(), OopRef { cell: 0 });
    assert_eq!(heap.get(OopRef { cell: 0 }), &Oop::Null);
    assert_eq!(heap.get(OopRef { cell: 1 }), &Oop::Int(0));
    assert_eq!(heap.get(OopRef { cell: 2 }), &Oop::Long(0));
    assert_eq!(heap.get(OopRef { cell: 3 }), &Oop::Float(0));
    assert_eq!(heap.get(OopRef { cell: 4 }), &Oop::Double(0));
}

#[test]
fn constructors_append_one_cell_each() {
    let mut heap = Heap::new();
    let i = heap.new_int(-7);
    let l = heap.new_long(1 << 40);
    let f = heap.new_float(1.5f32.to_bits());
    let d = heap.new_double(2.25f64.to_bits());
    let s = heap.new_str(vec![b'h', b'i']);
    assert_eq!([i.cell, l.cell, f.cell, d.cell, s.cell], [5, 6, 7, 8, 9]);
    assert_eq!(heap.len(), 10);
    assert_eq!(heap.extract_int(i), Ok(-7));
    assert_eq!(heap.extract_long(l), Ok(1 << 40));
    assert_eq!(heap.extract_float(f).map(f32::from_bits), Ok(1.5));
    assert_eq!(heap.extract_double(d).map(f64::from_bits), Ok(2.25));
    assert_eq!(heap.extract_str(s), Ok(vec![b'h', b'i']));
}

#[test]
fn projections_fail_on_another_variant() {
    let mut heap = Heap::new();
    let i = heap.new_int(1);
    let l = heap.new_long(1);
    assert_eq!(heap.extract_int(l), Err(TypeMismatch));
    assert_eq!(heap.extract_long(i), Err(TypeMismatch));
    assert_eq!(heap.extract_float(i), Err(TypeMismatch));
    assert_eq!(heap.extract_double(l), Err(TypeMismatch));
    assert_eq!(heap.extract_str(i), Err(TypeMismatch));
    assert_eq!(heap.extract_int(heap.null()), Err(TypeMismatch));
}

#[test]
fn identity_is_not_equality_of_content() {
    let mut heap = Heap::new();
    let a = heap.new_int(42);
    let b = heap.new_int(42);
    assert_eq!(heap.get(a), heap.get(b));
    assert!(!if_acmpeq(a, b));
    assert!(if_acmpeq(a, a));
    let a_again = OopRef { cell: a.cell };
    assert!(if_acmpeq(a, a_again));
    let s = heap.new_str(vec![1, 2, 3]);
    let t = heap.new_str(vec![1, 2, 3]);
    assert!(!if_acmpeq(s, t));
}

#[test]
fn identity_survives_a_change_of_content() {
    let mut heap = Heap::new();
    let a = heap.new_array(ComponentType::Int, 2);
    let alias = a;
    let v = heap.new_int(9);
    heap.set_slot(a, 1, v);
    assert!(if_acmpeq(a, alias));
    assert_eq!(heap.get_slot(alias, 1), v);
}

#[test]
fn new_array_is_zero_initialized() {
    let mut heap = Heap::new();
    let ints = heap.new_array(ComponentType::Int, 3);
    let longs = heap.new_array(ComponentType::Long, 2);
    let floats = heap.new_array(ComponentType::Float, 1);
    let doubles = heap.new_array(ComponentType::Double, 1);
    let refs = heap.new_array(ComponentType::Reference(jvm::oop::ClassId { index: 0 }), 2);
    let empty = heap.new_array(ComponentType::Byte, 0);
    assert_eq!(heap.slot_count(ints), 3);
    assert_eq!(heap.slot_count(empty), 0);
    for i in 0..3 {
        assert_eq!(heap.extract_int(heap.get_slot(ints, i)), Ok(0));
    }
    assert_eq!(heap.extract_long(heap.get_slot(longs, 1)), Ok(0));
    assert_eq!(heap.extract_float(heap.get_slot(floats, 0)), Ok(0));
    assert_eq!(heap.extract_double(heap.get_slot(doubles, 0)), Ok(0));
    assert_eq!(heap.get_slot(refs, 0), heap.null());
    assert_eq!(heap.get_slot(refs, 1), heap.null());
    assert_eq!(
        heap.get(ints),
        &Oop::Array { component: ComponentType::Int, elements: vec![OopRef { cell: 1 }; 3] }
    );
}

#[test]
fn set_slot_changes_one_slot_of_one_cell() {
    let mut heap = Heap::new();
    let a = heap.new_array(ComponentType::Int, 3);
    let b = heap.new_array(ComponentType::Int, 3);
    let v = heap.new_int(5);
    heap.set_slot(a, 2, v);
    assert_eq!(heap.get_slot(a, 0), OopRef { cell: 1 });
    assert_eq!(heap.get_slot(a, 1), OopRef { cell: 1 });
    assert_eq!(heap.get_slot(a, 2), v);
    assert_eq!(heap.get_slot(b, 2), OopRef { cell: 1 });
    assert_eq!(heap.slot_count(v), 0);
}

#[test]
fn default_handle_goes_by_the_first_byte_of_the_descriptor() {
    assert_eq!(default_handle(b"I"), OopRef { cell: 1 });
    assert_eq!(default_handle(b"Z"), OopRef { cell: 1 });
    assert_eq!(default_handle(b"B"), OopRef { cell: 1 });
    assert_eq!(default_handle(b"C"), OopRef { cell: 1 });
    assert_eq!(default_handle(b"S"), OopRef { cell: 1 });
    assert_eq!(default_handle(b"J"), OopRef { cell: 2 });
    assert_eq!(default_handle(b"F"), OopRef { cell: 3 });
    assert_eq!(default_handle(b"D"), OopRef { cell: 4 });
    assert_eq!(default_handle(b"Ljava/lang/String;"), OopRef { cell: 0 });
    assert_eq!(default_handle(b"[I"), OopRef { cell: 0 });
    assert_eq!(default_handle(b""), OopRef { cell: 0 });
}
