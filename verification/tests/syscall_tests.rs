use neonforge::screen::COLOR_ERROR;
use linked_list_allocator::Heap;
use neonforge::syscall::{
    alloc_layout, allocate, string_to_print, syscall_action, syscall_return, SyscallAction, HEAP_SIZE,
};

#[test]
fn print_char_takes_low_bytes_of_character_and_colour() {
    assert_eq!(
        syscall_action(0, 3, 4, 0x141, 0x20F),
        SyscallAction::PrintChar { row: 3, col: 4, ch: 0x41, color: 0x0F }
    );
}

#[test]
fn print_string_keeps_address() {
    assert_eq!(
        syscall_action(1, 1, 2, 0xdead_beef, 0x1E),
        SyscallAction::PrintString { row: 1, col: 2, text_address: 0xdead_beef, color: 0x1E }
    );
}

#[test]
fn reading_calls_answer_their_values() {
    assert_eq!(syscall_action(2, 9, 9, 9, 9), SyscallAction::Ticks);
    assert_eq!(syscall_action(3, 9, 9, 9, 9), SyscallAction::LastKeycode);
    assert_eq!(syscall_action(0x10, 9, 9, 9, 9), SyscallAction::HeapSize);
    assert_eq!(syscall_return(SyscallAction::Ticks, 1234, 7, None), 1234);
    assert_eq!(syscall_return(SyscallAction::LastKeycode, 1234, 7, None), 7);
    assert_eq!(syscall_return(SyscallAction::HeapSize, 1234, 7, None), HEAP_SIZE as u64);
}

#[test]
fn allocation_uses_eight_byte_alignment() {
    assert_eq!(syscall_action(0x11, 24, 0, 0, 0), SyscallAction::Allocate { size: 24, align: 8 });
    assert_eq!(alloc_layout(0), (0, 8));
}

#[test]
fn oversized_allocation_falls_back_to_one_byte() {
    assert_eq!(alloc_layout(usize::MAX), (1, 1));
    assert_eq!(alloc_layout(isize::MAX as usize), (1, 1));
    assert_eq!(alloc_layout(isize::MAX as usize - 7), (isize::MAX as usize - 7, 8));
}

#[test]
fn allocation_answers_address_or_zero() {
    let a = SyscallAction::Allocate { size: 16, align: 8 };
    assert_eq!(syscall_return(a, 0, 0, Some(0x1000)), 0x1000);
    assert_eq!(syscall_return(a, 0, 0, None), 0);
}

#[test]
fn deallocation_of_null_does_nothing() {
    assert_eq!(syscall_action(0x12, 0, 64, 0, 0), SyscallAction::Nothing);
    assert_eq!(
        syscall_action(0x12, 0x2000, 64, 0, 0),
        SyscallAction::Deallocate { address: 0x2000, size: 64, align: 8 }
    );
}

#[test]
fn unknown_call_does_nothing_and_answers_zero() {
    let a = syscall_action(0x99, 1, 2, 3, 4);
    assert_eq!(a, SyscallAction::Nothing);
    assert_eq!(syscall_return(a, 5, 5, Some(5)), 0);
    let p = SyscallAction::PrintChar { row: 0, col: 0, ch: 0, color: 0 };
    assert_eq!(syscall_return(p, 5, 5, Some(5)), 0);
}

#[test]
fn valid_utf8_is_printed_in_requested_colour() {
    assert_eq!(string_to_print(b"hi there", 0x0A), (b"hi there".to_vec(), 0x0A));
    assert_eq!(string_to_print("h\u{e9}".as_bytes(), 0x0A), ("h\u{e9}".as_bytes().to_vec(), 0x0A));
    assert_eq!(string_to_print(b"", 0x0A), (Vec::new(), 0x0A));
}

#[test]
fn invalid_utf8_prints_error_text() {
    assert_eq!(string_to_print(&[0x66, 0xff, 0x66], 0x0A), (b"UTF8 Err".to_vec(), COLOR_ERROR));
    assert_eq!(COLOR_ERROR, 0x4F);
}

#[test]
fn empty_heap_has_no_room() {
    let mut heap = Heap::empty();
    assert_eq!(allocate(&mut heap, 16, 8), None);
    assert_eq!(allocate(&mut heap, 1, 1), None);
}

#[test]
fn heap_hands_out_aligned_distinct_blocks() {
    let mem: &'static mut [std::mem::MaybeUninit<u8>] =
        Box::leak(vec![std::mem::MaybeUninit::<u8>::uninit(); 4096].into_boxed_slice());
    let mut heap = Heap::from_slice(mem);
    assert_eq!(heap.used(), 0);
    let a = allocate(&mut heap, 24, 8).unwrap();
    assert!(heap.used() >= 24);
    let b = allocate(&mut heap, 24, 8).unwrap();
    assert!(a != 0 && b != 0);
    assert_eq!(a % 8, 0);
    assert_eq!(b % 8, 0);
    assert_ne!(a, b);
    let bottom = heap.bottom() as usize as u64;
    let top = heap.top() as usize as u64;
    assert!(bottom <= a && a + 24 <= top);
    assert!(bottom <= b && b + 24 <= top);
    let c = allocate(&mut heap, 100, 64).unwrap();
    assert_eq!(c % 64, 0);
    let used = heap.used();
    assert_eq!(allocate(&mut heap, 1 << 20, 8), None);
    assert_eq!(heap.used(), used);
}
