//! The system-call interface behind `int 0x80`: what each call number asks
//! of the kernel, the memory layout of an allocation request, the text that a
//! string request prints, and the value handed back in `rax`.
use vstd::prelude::*;
use vstd::layout::valid_layout;
use vstd::utf8::valid_utf8;
use crate::screen::COLOR_ERROR;
use linked_list_allocator::Heap;

verus! {

/// Call number: put one character on the screen.
pub const SYS_PRINT_CHAR: u64 = 0;

/// Call number: put a NUL-terminated string on the screen.
pub const SYS_PRINT_STRING: u64 = 1;

/// Call number: read the timer tick counter.
pub const SYS_GET_TICKS: u64 = 2;

/// Call number: read the keycode of the last key pressed.
pub const SYS_LAST_KEY: u64 = 3;

/// Call number: read the size of the kernel heap.
pub const SYS_HEAP_SIZE: u64 = 0x10;

/// Call number: allocate memory from the kernel heap.
pub const SYS_ALLOC: u64 = 0x11;

/// Call number: give memory back to the kernel heap.
pub const SYS_DEALLOC: u64 = 0x12;

/// Size in bytes of the kernel heap.
pub const HEAP_SIZE: usize = 102400;

/// Alignment of every block handed out by the allocation call.
pub const ALLOC_ALIGN: usize = 8;

/// What a system call asks the kernel to do.
#[derive(Clone, Copy, Debug, PartialEq, Eq, Structural)]
pub enum SyscallAction {
    /// Put `ch` with attribute `color` at `row`, `col`.
    PrintChar { row: usize, col: usize, ch: u8, color: u8 },
    /// Put the NUL-terminated string at `text_address` from `row`, `col`.
    PrintString { row: usize, col: usize, text_address: u64, color: u8 },
    /// Answer with the tick counter.
    Ticks,
    /// Answer with the last keycode.
    LastKeycode,
    /// Answer with the heap size.
    HeapSize,
    /// Allocate a block with this size and alignment (first fit) and answer
    /// with its address, or 0 when the heap has no room.
    Allocate { size: usize, align: usize },
    /// Give back the block at `address` with this size and alignment.
    Deallocate { address: usize, size: usize, align: usize },
    /// Nothing to do.
    Nothing,
}

/// The layout that the allocation calls use for a requested size: the size
/// itself with `ALLOC_ALIGN`, when that is a valid layout; otherwise the layout
/// of a single byte.
pub open spec fn alloc_layout_spec(size: usize) -> (usize, usize) {
    if valid_layout(size, ALLOC_ALIGN) {
        (size, ALLOC_ALIGN)
    } else {
        (1usize, 1usize)
    }
}

/// What the call with number `num` and arguments `arg1` to `arg4` asks for.
/// Arguments become positions and sizes as machine words, and characters and
/// colours as their low byte; a deallocation of address 0 and an unknown call
/// number ask for nothing.
pub open spec fn syscall_action_spec(num: u64, arg1: u64, arg2: u64, arg3: u64, arg4: u64) -> SyscallAction {
    if num == SYS_PRINT_CHAR {
        SyscallAction::PrintChar {
            row: arg1 as usize,
            col: arg2 as usize,
            ch: arg3 as u8,
            color: arg4 as u8,
        }
    } else if num == SYS_PRINT_STRING {
        SyscallAction::PrintString {
            row: arg1 as usize,
            col: arg2 as usize,
            text_address: arg3,
            color: arg4 as u8,
        }
    } else if num == SYS_GET_TICKS {
        SyscallAction::Ticks
    } else if num == SYS_LAST_KEY {
        SyscallAction::LastKeycode
    } else if num == SYS_HEAP_SIZE {
        SyscallAction::HeapSize
    } else if num == SYS_ALLOC {
        SyscallAction::Allocate {
            size: alloc_layout_spec(arg1 as usize).0,
            align: alloc_layout_spec(arg1 as usize).1,
        }
    } else if num == SYS_DEALLOC {
        if arg1 as usize == 0 {
            SyscallAction::Nothing
        } else {
            SyscallAction::Deallocate {
                address: arg1 as usize,
                size: alloc_layout_spec(arg2 as usize).0,
                align: alloc_layout_spec(arg2 as usize).1,
            }
        }
    } else {
        SyscallAction::Nothing
    }
}

/// The value that a call answers with: the tick counter, the last keycode or
/// the heap size for the calls that read them, the block's address (0 when
/// the heap had no room) for an allocation, and 0 for everything else.
pub open spec fn syscall_return_spec(
    action: SyscallAction,
    ticks: u64,
    last_keycode: u8,
    allocated: Option<u64>,
) -> u64 {
    match action {
        SyscallAction::Ticks => ticks,
        SyscallAction::LastKeycode => last_keycode as u64,
        SyscallAction::HeapSize => HEAP_SIZE as u64,
        SyscallAction::Allocate { .. } => match allocated {
            Some(a) => a,
            None => 0,
        },
        _ => 0,
    }
}

/// The text shown when a string is not valid UTF-8: `UTF8 Err`.
pub open spec fn utf8_error_text() -> Seq<u8> {
    seq![85u8, 84u8, 70u8, 56u8, 32u8, 69u8, 114u8, 114u8]
}

/// `core::alloc::Layout::from_size_align`. Its documentation says that it
/// succeeds exactly when `align` is a power of two and `size`, rounded up to a
/// multiple of `align`, does not exceed `isize::MAX` (vstd's `valid_layout`),
/// and that the layout then has the given size and alignment. The contract
/// claims that, as the pair (size, alignment).
#[verifier::external_body]
fn layout_from_size_align(size: usize, align: usize) -> (r: Option<(usize, usize)>)
    ensures
        r is Some <==> valid_layout(size, align),
        r matches Some(l) ==> l == (size, align),
{
    match core::alloc::Layout::from_size_align(size, align) {
        Ok(l) => Some((l.size(), l.align())),
        Err(_) => None,
    }
}

/// `core::str::from_utf8`, of which only success counts here. Its
/// documentation says that it succeeds exactly when the bytes are valid
/// UTF-8; the contract claims that, with vstd's `valid_utf8` as the meaning of
/// valid UTF-8.
#[verifier::external_body]
fn is_valid_utf8(bytes: &[u8]) -> (ok: bool)
    ensures
        ok == valid_utf8(bytes@),
{
    core::str::from_utf8(bytes).is_ok()
}

/// The heap of `linked_list_allocator`, carried through as it is.
#[verifier::external_type_specification]
#[verifier::external_body]
pub struct ExHeap(Heap);

/// The lowest address of the memory that a heap hands blocks out of (what
/// `Heap::bottom` returns, as an address).
pub uninterp spec fn heap_bottom(heap: Heap) -> usize;

/// The address just past the memory that a heap owns (what `Heap::top`
/// returns, as an address).
pub uninterp spec fn heap_top(heap: Heap) -> usize;

/// The number of bytes of a heap that blocks take up (what `Heap::used`
/// returns).
pub uninterp spec fn heap_used(heap: Heap) -> usize;

/// `linked_list_allocator::Heap::allocate_first_fit`, for the layout of
/// `size` bytes aligned to `align` (which the caller has checked to be a valid
/// layout, so building it cannot fail). Whether a block comes back depends on
/// the heap's free holes, which live in the heap's memory and not in the
/// `Heap` value; of them nothing is stated. The contract claims what every
/// outcome shares, as the crate's source shows it: a block is never at address
/// 0 (it is handed out as a `NonNull`); it starts at a multiple of the
/// alignment (`split_current` places it at `align_up(.., align)`); its `size`
/// bytes lie inside the heap, between its bottom and its top (the block is cut
/// from a hole, and holes lie in that range); an allocation moves neither
/// bound; and the heap's used bytes grow by the block's size, rounded up by the
/// heap (so by at least `size`), when a block comes back, and stay as they
/// were when none does.
#[verifier::external_body]
fn heap_allocate_first_fit(heap: &mut Heap, size: usize, align: usize) -> (r: Option<usize>)
    requires
        valid_layout(size, align),
    ensures
        r matches Some(a) ==> a != 0 && a % align == 0,
        r matches Some(a) ==> heap_bottom(*old(heap)) <= a && a + size <= heap_top(*old(heap)),
        heap_bottom(*final(heap)) == heap_bottom(*old(heap)),
        heap_top(*final(heap)) == heap_top(*old(heap)),
        r is Some ==> heap_used(*final(heap)) >= heap_used(*old(heap)) + size,
        r is None ==> heap_used(*final(heap)) == heap_used(*old(heap)),
{
    match heap.allocate_first_fit(core::alloc::Layout::from_size_align(size, align).unwrap()) {
        Ok(block) => Some(block.as_ptr() as usize),
        Err(()) => None,
    }
}

/// Allocates a block of `size` bytes aligned to `align` from the heap, first
/// fit, and answers its address, or `None` when no free hole of the heap has
/// room. A block is never at address 0, starts at a multiple of `align`, and
/// its `size` bytes lie between the heap's bottom and top, which the
/// allocation leaves where they were. The heap's used bytes grow by at least
/// `size` with a block, and do not change without one.
pub fn allocate(heap: &mut Heap, size: usize, align: usize) -> (r: Option<u64>)
    requires
        valid_layout(size, align),
    ensures
        r matches Some(a) ==> a != 0 && a % (align as u64) == 0,
        r matches Some(a) ==> heap_bottom(*old(heap)) <= a && a + size <= heap_top(*old(heap)),
        heap_bottom(*final(heap)) == heap_bottom(*old(heap)),
        heap_top(*final(heap)) == heap_top(*old(heap)),
        r is Some ==> heap_used(*final(heap)) >= heap_used(*old(heap)) + size,
        r is None ==> heap_used(*final(heap)) == heap_used(*old(heap)),
{
    match heap_allocate_first_fit(heap, size, align) {
        Some(a) => Some(a as u64),
        None => None,
    }
}

/// The layout of an allocation call is always a valid layout, so it can be
/// handed to the heap.
pub proof fn lemma_alloc_layout_valid(size: usize)
    ensures
        valid_layout(alloc_layout_spec(size).0, alloc_layout_spec(size).1),
{
    reveal_with_fuel(vstd::arithmetic::power2::is_pow2, 2);
    assert(vstd::arithmetic::power2::is_pow2(1));
    assert(isize::MAX as int % 1 == 0);
}

/// The layout of an allocation call for `size` bytes (see `alloc_layout_spec`).
pub fn alloc_layout(size: usize) -> (l: (usize, usize))
    ensures
        l == alloc_layout_spec(size),
{
    match layout_from_size_align(size, ALLOC_ALIGN) {
        Some(l) => l,
        None => (1, 1),
    }
}

/// Decides what the call with number `num` and arguments `arg1` to `arg4`
/// asks the kernel to do.
pub fn syscall_action(num: u64, arg1: u64, arg2: u64, arg3: u64, arg4: u64) -> (a: SyscallAction)
    ensures
        a == syscall_action_spec(num, arg1, arg2, arg3, arg4),
{
    if num == SYS_PRINT_CHAR {
        SyscallAction::PrintChar {
            row: arg1 as usize,
            col: arg2 as usize,
            ch: arg3 as u8,
            color: arg4 as u8,
        }
    } else if num == SYS_PRINT_STRING {
        SyscallAction::PrintString {
            row: arg1 as usize,
            col: arg2 as usize,
            text_address: arg3,
            color: arg4 as u8,
        }
    } else if num == SYS_GET_TICKS {
        SyscallAction::Ticks
    } else if num == SYS_LAST_KEY {
        SyscallAction::LastKeycode
    } else if num == SYS_HEAP_SIZE {
        SyscallAction::HeapSize
    } else if num == SYS_ALLOC {
        let (size, align) = alloc_layout(arg1 as usize);
        SyscallAction::Allocate { size, align }
    } else if num == SYS_DEALLOC {
        let address = arg1 as usize;
        if address == 0 {
            SyscallAction::Nothing
        } else {
            let (size, align) = alloc_layout(arg2 as usize);
            SyscallAction::Deallocate { address, size, align }
        }
    } else {
        SyscallAction::Nothing
    }
}

/// The value that the call answers with, given the tick counter, the last
/// keycode and, for an allocation, the address of the block the heap gave
/// (`None` when it had no room).
pub fn syscall_return(action: SyscallAction, ticks: u64, last_keycode: u8, allocated: Option<u64>) -> (r: u64)
    ensures
        r == syscall_return_spec(action, ticks, last_keycode, allocated),
{
    match action {
        SyscallAction::Ticks => ticks,
        SyscallAction::LastKeycode => last_keycode as u64,
        SyscallAction::HeapSize => HEAP_SIZE as u64,
        SyscallAction::Allocate { .. } => match allocated {
            Some(a) => a,
            None => 0,
        },
        _ => 0,
    }
}

/// What a string call prints, given the bytes found at its address up to the
/// NUL byte and the requested colour: the bytes in that colour when they are
/// valid UTF-8, and otherwise `UTF8 Err` in the error colour.
pub fn string_to_print(bytes: &[u8], color: u8) -> (r: (Vec<u8>, u8))
    ensures
        valid_utf8(bytes@) ==> r.0@ == bytes@ && r.1 == color,
        !valid_utf8(bytes@) ==> r.0@ == utf8_error_text() && r.1 == COLOR_ERROR,
{
    if is_valid_utf8(bytes) {
        let mut text: Vec<u8> = Vec::new();
        let mut i: usize = 0;
        while i < bytes.len()
            invariant
                i <= bytes@.len(),
                text@ == bytes@.take(i as int),
            decreases bytes@.len() - i,
        {
            text.push(bytes[i]);
            i = i + 1;
            assert(text@ =~= bytes@.take(i as int));
        }
        assert(bytes@.take(bytes@.len() as int) =~= bytes@);
        (text, color)
    } else {
        let text: Vec<u8> = vec![85, 84, 70, 56, 32, 69, 114, 114];
        assert(text@ =~= utf8_error_text());
        (text, COLOR_ERROR)
    }
}

/// An allocation call's layout is the requested size with the allocation
/// alignment whenever the size, rounded up to that alignment, stays within
/// `isize::MAX`.
pub proof fn lemma_alloc_layout_small(size: usize)
    requires
        size <= isize::MAX - 7,
    ensures
        alloc_layout_spec(size) == (size, ALLOC_ALIGN),
{
    reveal_with_fuel(vstd::arithmetic::power2::is_pow2, 5);
    assert(vstd::arithmetic::power2::is_pow2(8));
    assert(isize::MAX == 0x7fff_ffff || isize::MAX == 0x7fff_ffff_ffff_ffff);
    assert(isize::MAX as int % 8 == 7);
}

/// What each call asks for, in plain terms: a character call puts the low
/// byte of its third argument, in the colour of the fourth's low byte, at the
/// row and column of the first two; a string call keeps the address; the
/// reading calls ask for their value; allocation asks for the requested size
/// with alignment 8 when that is a valid layout; a deallocation of address 0
/// and any other call number ask for nothing.
pub proof fn lemma_syscall_actions(num: u64, arg1: u64, arg2: u64, arg3: u64, arg4: u64)
    ensures
        num == 0 ==> syscall_action_spec(num, arg1, arg2, arg3, arg4) is PrintChar
            && syscall_action_spec(num, arg1, arg2, arg3, arg4)->ch == arg3 % 256
            && syscall_action_spec(num, arg1, arg2, arg3, arg4)->PrintChar_color == arg4 % 256,
        num == 1 ==> syscall_action_spec(num, arg1, arg2, arg3, arg4) is PrintString
            && syscall_action_spec(num, arg1, arg2, arg3, arg4)->text_address == arg3
            && syscall_action_spec(num, arg1, arg2, arg3, arg4)->PrintString_color == arg4 % 256,
        num == 2 <==> syscall_action_spec(num, arg1, arg2, arg3, arg4) == SyscallAction::Ticks,
        num == 3 <==> syscall_action_spec(num, arg1, arg2, arg3, arg4) == SyscallAction::LastKeycode,
        num == 0x10 <==> syscall_action_spec(num, arg1, arg2, arg3, arg4) == SyscallAction::HeapSize,
        (num == 0x11 && arg1 as usize <= isize::MAX - 7) ==> syscall_action_spec(num, arg1, arg2, arg3, arg4)
            == (SyscallAction::Allocate { size: arg1 as usize, align: 8 }),
        (num == 0x12 && arg1 as usize == 0) ==> syscall_action_spec(num, arg1, arg2, arg3, arg4)
            == SyscallAction::Nothing,
        (num == 0x12 && arg1 as usize != 0) ==> syscall_action_spec(num, arg1, arg2, arg3, arg4) is Deallocate
            && syscall_action_spec(num, arg1, arg2, arg3, arg4)->address == arg1 as usize,
        !(num <= 3 || 0x10 <= num <= 0x12) ==> syscall_action_spec(num, arg1, arg2, arg3, arg4)
            == SyscallAction::Nothing,
{
    assert(arg3 as u8 == arg3 % 256) by (bit_vector);
    assert(arg4 as u8 == arg4 % 256) by (bit_vector);
    if num == 0x11 && arg1 as usize <= isize::MAX - 7 {
        lemma_alloc_layout_small(arg1 as usize);
    }
}

/// The answer of each call, in plain terms: the tick counter, the last
/// keycode, or the heap size for the reading calls; the block's address, or 0
/// when the heap had no room, for an allocation; 0 for every other call.
pub proof fn lemma_syscall_answers(action: SyscallAction, ticks: u64, last_keycode: u8, allocated: Option<u64>)
    ensures
        action == SyscallAction::Ticks ==> syscall_return_spec(action, ticks, last_keycode, allocated) == ticks,
        action == SyscallAction::LastKeycode ==> syscall_return_spec(action, ticks, last_keycode, allocated)
            == last_keycode,
        action == SyscallAction::HeapSize ==> syscall_return_spec(action, ticks, last_keycode, allocated)
            == 102400,
        (action is Allocate && allocated is None) ==> syscall_return_spec(action, ticks, last_keycode, allocated) == 0,
        (action is Allocate && allocated matches Some(a)) ==> syscall_return_spec(action, ticks, last_keycode, allocated)
            == allocated.unwrap(),
        !(action is Ticks || action is LastKeycode || action is HeapSize || action is Allocate)
            ==> syscall_return_spec(action, ticks, last_keycode, allocated) == 0,
{
}

} // verus!
