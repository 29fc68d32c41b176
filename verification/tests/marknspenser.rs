use liblog::marknspenser::{AllocError, Arena, FinalTypeDesc, Gc, ObjectInfo, read_object_info};

fn type_info(second_size: usize) -> Vec<FinalTypeDesc> {
    vec![
        FinalTypeDesc { size: 1, offsets: vec![], parent: 0 },
        FinalTypeDesc { size: second_size, offsets: vec![1], parent: 0 },
        FinalTypeDesc { size: 3, offsets: vec![2], parent: 1 },
    ]
}

/// One frame of the third type: its tag, no parent, and one field that holds no address yet.
fn one_frame() -> Vec<usize> {
    vec![2 * 2, 0usize, 0usize]
}

fn used(gc: &Gc) -> usize {
    gc.arena().size() - gc.arena().free()
}

#[test]
fn lib_it_works() {
    let result = 2 + 2;
    assert_eq!(result, 4);
}

#[test]
fn test_arena_drop() {
    // The heap gives its memory back when it goes.
    let arena = Arena::from_memory(vec![0; 32]);
    assert_eq!(arena.size(), 32);
    drop(arena);
}

#[test]
fn test_arena_alloc_success() {
    let type_info = vec![
        FinalTypeDesc { size: 1, offsets: vec![], parent: 0 },
        FinalTypeDesc { size: 2, offsets: vec![1], parent: 0 },
    ];
    let mut a = Arena::from_memory(vec![0; 32]);

    a.allocate(&type_info, 0).unwrap();
    a.allocate(&type_info, 1).unwrap();
    assert_eq!(a.size() - a.free(), type_info[0].size + type_info[1].size);
}

#[test]
fn test_gc_alloc_success() {
    let type_info = type_info(2);
    let mut gc = Gc::new(32, 1024);

    let mut stack = one_frame();
    println!("type_info base: {:x}", stack[0]);

    gc.allocate(&type_info, 0, &mut stack, 1).unwrap();
    gc.allocate(&type_info, 1, &mut stack, 1).unwrap();
    assert_eq!(used(&gc), type_info[0].size + type_info[1].size);
}

#[test]
fn test_gc_alloc_many() {
    let type_info = type_info(2);
    let mut gc = Gc::new(1, 1024);

    let mut stack = one_frame();

    let count = 100;
    stack[2] = gc.allocate(&type_info, 0, &mut stack, 1).unwrap();
    for _ in 0..count {
        let new_obj = gc.allocate(&type_info, 1, &mut stack, 1).unwrap();
        assert!(gc.store(new_obj + 1, stack[2]));
        stack[2] = new_obj;
    }
    assert_eq!(used(&gc), type_info[0].size + count * type_info[1].size);
}

#[test]
fn test_gc_alloc_overflow() {
    let type_info = type_info(2048);
    let mut gc = Gc::new(1, 1024);
    let mut stack = one_frame();

    stack[2] = gc.allocate(&type_info, 0, &mut stack, 1).unwrap();
    assert!(gc.allocate(&type_info, 1, &mut stack, 1).is_err());
}

#[test]
fn collection_keeps_the_list_and_drops_the_rest() {
    let type_info = type_info(2);
    let mut gc = Gc::new(4, 1024);
    let mut stack = one_frame();
    // Two objects that nothing points to, then a list of two.
    gc.allocate(&type_info, 0, &mut stack, 1).unwrap();
    gc.allocate(&type_info, 0, &mut stack, 1).unwrap();
    let tail = gc.allocate(&type_info, 1, &mut stack, 1).unwrap();
    assert!(gc.store(tail + 1, 0));
    stack[2] = tail;
    assert_eq!(gc.arena().free(), 0);
    // No room: the heap is collected and grows from 4 words to 8.
    let head = gc.allocate(&type_info, 1, &mut stack, 1).unwrap();
    assert_eq!(gc.arena().size(), 8);
    assert_eq!(used(&gc), 4);
    let moved_tail = stack[2];
    assert_eq!(gc.load(moved_tail), Some(2));
    assert_eq!(gc.load(moved_tail + 1), Some(0));
    assert!(gc.store(head + 1, moved_tail));
    stack[2] = head;
    assert_eq!(gc.load(head), Some(2));
}

#[test]
fn shared_object_moves_once() {
    let types = vec![
        FinalTypeDesc { size: 1, offsets: vec![], parent: 0 },
        FinalTypeDesc { size: 4, offsets: vec![2, 3], parent: 1 },
    ];
    let mut gc = Gc::new(1, 16);
    // A frame with two fields that point to the same object.
    let mut stack = vec![2 * 1, 0usize, 0usize, 0usize];
    let shared = gc.allocate(&types, 0, &mut stack, 1).unwrap();
    stack[2] = shared;
    stack[3] = shared;
    gc.allocate(&types, 0, &mut stack, 1).unwrap();
    assert_eq!(gc.arena().size(), 2);
    assert_eq!(used(&gc), 2);
    assert_eq!(stack[2], stack[3]);
    assert_eq!(gc.load(stack[2]), Some(0));
}

#[test]
fn grown_heap_stops_at_the_limit() {
    let type_info = type_info(2);
    let mut gc = Gc::new(3, 4);
    let mut stack = one_frame();
    stack[2] = gc.allocate(&type_info, 1, &mut stack, 1).unwrap();
    gc.allocate(&type_info, 0, &mut stack, 1).unwrap();
    // 3 + 3 is more than the limit of 4.
    let second = gc.allocate(&type_info, 1, &mut stack, 1).unwrap();
    assert_eq!(gc.arena().size(), 4);
    assert!(gc.store(second + 1, stack[2]));
    stack[2] = second;
    assert_eq!(
        gc.allocate(&type_info, 1, &mut stack, 1),
        Err(AllocError::OutOufMemory { words: 2 })
    );
}

#[test]
fn corrupt_stack_is_reported() {
    let type_info = type_info(2);
    let mut gc = Gc::new(1, 1024);
    // The type of the frame names no parent field.
    let mut stack = vec![2 * 1, 0usize, 0usize];
    gc.allocate(&type_info, 0, &mut stack, 1).unwrap();
    assert_eq!(gc.allocate(&type_info, 0, &mut stack, 1), Err(AllocError::Corrupt));
    // An object without a tag word cannot be allocated.
    let empty = vec![FinalTypeDesc { size: 0, offsets: vec![], parent: 0 }];
    let mut gc = Gc::new(8, 8);
    assert_eq!(gc.allocate(&empty, 0, &mut stack, 1), Err(AllocError::Corrupt));
}

#[test]
fn arena_fills_from_the_end() {
    let type_info = type_info(2);
    let mut a = Arena::from_memory(vec![0; 32]);
    assert_eq!(a.allocate(&type_info, 0), Ok(32));
    assert_eq!(a.allocate(&type_info, 1), Ok(30));
    assert_eq!(a.size() - a.free(), type_info[0].size + type_info[1].size);
    assert_eq!(a.load(30), Some(2));
    assert_eq!(a.load(33), None);
    assert_eq!(a.load(0), None);
    let mut small = Arena::from_memory(vec![0; 1]);
    assert_eq!(small.allocate(&type_info, 1), Err(AllocError::OutOufMemory { words: 2 }));
}

#[test]
fn tags_tell_moved_objects_from_types() {
    assert_eq!(read_object_info(0), ObjectInfo::Object(0));
    assert_eq!(read_object_info(6), ObjectInfo::Object(3));
    assert_eq!(read_object_info(7), ObjectInfo::Forward(3));
}
