use nightmare::{GenerationError, GenerationalVec, Handle, HandleAllocator, SlotVec};

#[test]
fn insertion_and_removal() -> Result<(), GenerationError> {
    let mut elements = GenerationalVec::new(SlotVec::<u32>::default());
    let mut handle_allocator = HandleAllocator::new();

    // allocate a handle
    let handle = handle_allocator.allocate();
    elements.insert(handle, 3)?;
    assert_eq!(elements.get(handle), Some(&3));

    // modify an existing handle
    if let Some(element) = elements.get_mut(handle) {
        *element = 10;
    }
    assert_eq!(elements.get(handle), Some(&10));

    // clear a handle's slot
    elements.remove(handle);
    assert_eq!(elements.get(handle), None);

    // deallocate a handle
    handle_allocator.deallocate(&handle);
    assert!(!handle_allocator.is_allocated(&handle));

    // the reissued index carries a new generation
    let next_handle = handle_allocator.allocate();
    assert_eq!(
        next_handle,
        Handle {
            index: handle.index,
            generation: handle.index + 1,
        }
    );

    Ok(())
}

#[test]
fn allocated_handles() -> Result<(), GenerationError> {
    let mut handle_allocator = HandleAllocator::new();

    let first_handle = handle_allocator.allocate();
    assert!(handle_allocator.is_allocated(&first_handle));
    assert_eq!(handle_allocator.allocated_handles(), &[first_handle]);

    let second_handle = handle_allocator.allocate();
    assert!(handle_allocator.is_allocated(&second_handle));
    assert_eq!(
        handle_allocator.allocated_handles(),
        &[first_handle, second_handle]
    );

    Ok(())
}

#[test]
fn test_insert() {
    let mut vec = GenerationalVec::new(Vec::new());

    let handle = HandleAllocator::new().allocate();
    assert!(vec.insert(handle, 10).is_ok());

    assert_eq!(*vec.get(handle).unwrap(), 10);
}

#[test]
fn test_remove() {
    let mut vec = GenerationalVec::new(Vec::new());

    let handle = HandleAllocator::new().allocate();
    vec.insert(handle, 10).unwrap();

    vec.remove(handle);

    assert!(vec.get(handle).is_none());
}

#[test]
fn test_get_mut() {
    let mut vec = GenerationalVec::new(Vec::new());

    let handle = HandleAllocator::new().allocate();
    vec.insert(handle, 10).unwrap();

    *vec.get_mut(handle).unwrap() = 20;

    assert_eq!(*vec.get(handle).unwrap(), 20);
}

#[test]
fn test_invalid_generation() {
    let mut vec = GenerationalVec::new(Vec::new());

    let handle = HandleAllocator::new().allocate();
    vec.insert(handle, 10).unwrap();

    // the same index under a generation that was never written
    let invalid_handle = Handle {
        generation: handle.generation() + 1,
        ..handle
    };

    assert!(vec.get(invalid_handle).is_none());
    assert!(vec.get_mut(invalid_handle).is_none());
}

#[test]
fn test_generational_vec() -> Result<(), GenerationError> {
    let mut allocator = HandleAllocator::new();
    let handle1 = allocator.allocate();
    let handle2 = allocator.allocate();
    let handle3 = allocator.allocate();

    let mut vec = GenerationalVec::new(Vec::new());

    assert!(vec.get(handle1).is_none());
    assert!(vec.get(handle2).is_none());
    assert!(vec.get(handle3).is_none());

    vec.insert(handle1, "value1".to_string())?;
    vec.insert(handle2, "value2".to_string())?;
    vec.insert(handle3, "value3".to_string())?;

    assert_eq!(vec.get(handle1), Some(&"value1".to_string()));
    assert_eq!(vec.get(handle2), Some(&"value2".to_string()));
    assert_eq!(vec.get(handle3), Some(&"value3".to_string()));

    vec.remove(handle1);
    assert!(vec.get(handle1).is_none());
    assert_eq!(vec.get(handle2), Some(&"value2".to_string()));
    assert_eq!(vec.get(handle3), Some(&"value3".to_string()));

    allocator.deallocate(&handle1);
    allocator.deallocate(&handle2);
    allocator.deallocate(&handle3);

    assert!(!allocator.is_allocated(&handle1));
    assert!(!allocator.is_allocated(&handle2));
    assert!(!allocator.is_allocated(&handle3));

    Ok(())
}
