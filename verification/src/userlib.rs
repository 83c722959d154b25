//! The user-side system-call library: building the register image a software
//! interrupt carries, and turning streams of decoded keys into values.

use vstd::prelude::*;

use crate::syscall::Syscall;
use crate::syscall::spec_syscall_code;
use crate::syscall::syscall_code;

verus! {

/// The register image one software interrupt carries: the operation code and
/// three arguments in their fixed registers. The runtime raises the actual
/// interrupt; the library only assembles the image.
#[derive(Debug, PartialEq, Eq, Clone, Copy, Structural)]
pub struct SyscallRequest {
    pub id: u64,
    pub arg0: u64,
    pub arg1: u64,
    pub arg2: u64,
}

/// Assemble one software-interrupt register image.
pub fn syscall(id: u64, arg0: u64, arg1: u64, arg2: u64) -> (r: SyscallRequest)
    ensures
        r == (SyscallRequest { id, arg0, arg1, arg2 }),
{
    SyscallRequest { id, arg0, arg1, arg2 }
}

/// Print the `len` bytes at user address `addr`.
pub fn sys_print_str(addr: u64, len: u64) -> (r: SyscallRequest)
    ensures
        r == (SyscallRequest {
            id: spec_syscall_code(Syscall::PrintStr),
            arg0: addr,
            arg1: len,
            arg2: 0,
        }),
{
    syscall(syscall_code(Syscall::PrintStr), addr, len, 0)
}

/// Ask for the next decoded key into the slot at `slot`.
pub fn sys_read_key(slot: u64) -> (r: SyscallRequest)
    ensures
        r == (SyscallRequest {
            id: spec_syscall_code(Syscall::ReadKey),
            arg0: slot,
            arg1: 0,
            arg2: 0,
        }),
{
    syscall(syscall_code(Syscall::ReadKey), slot, 0, 0)
}

/// Set the pixel at `(x, y)` to a 24-bit color.
pub fn sys_plot_pixel(x: usize, y: usize, color: u32) -> (r: SyscallRequest)
    ensures
        r == (SyscallRequest {
            id: spec_syscall_code(Syscall::PlotPixel),
            arg0: x as u64,
            arg1: y as u64,
            arg2: color as u64,
        }),
{
    syscall(syscall_code(Syscall::PlotPixel), x as u64, y as u64, color as u64)
}

/// Busy-wait for `ns` nanoseconds.
pub fn sys_sleep(ns: u64) -> (r: SyscallRequest)
    ensures
        r == (SyscallRequest { id: spec_syscall_code(Syscall::Sleep), arg0: ns, arg1: 0, arg2: 0 }),
{
    syscall(syscall_code(Syscall::Sleep), ns, 0, 0)
}

/// Ask for the display resolution into the two slots.
pub fn sys_display_resolution(x_slot: u64, y_slot: u64) -> (r: SyscallRequest)
    ensures
        r == (SyscallRequest {
            id: spec_syscall_code(Syscall::DisplayResolution),
            arg0: x_slot,
            arg1: y_slot,
            arg2: 0,
        }),
{
    syscall(syscall_code(Syscall::DisplayResolution), x_slot, y_slot, 0)
}

/// Allocate kernel heap memory under the layout at `layout`; the resulting
/// pointer lands in the slot at `slot`.
pub fn sys_allocate(layout: u64, slot: u64) -> (r: SyscallRequest)
    ensures
        r == (SyscallRequest {
            id: spec_syscall_code(Syscall::Allocate),
            arg0: layout,
            arg1: slot,
            arg2: 0,
        }),
{
    syscall(syscall_code(Syscall::Allocate), layout, slot, 0)
}

/// Free the kernel heap pointer `ptr` under the layout at `layout`.
pub fn sys_deallocate(ptr: u64, layout: u64) -> (r: SyscallRequest)
    ensures
        r == (SyscallRequest {
            id: spec_syscall_code(Syscall::Deallocate),
            arg0: ptr,
            arg1: layout,
            arg2: 0,
        }),
{
    syscall(syscall_code(Syscall::Deallocate), ptr, layout, 0)
}

/// The reserved disk-read call: a stub that does nothing yet.
pub fn sys_read_disk(id: u64, dst: u64) {
    let _ = id;
    let _ = dst;
}

/// Whether `c` is a decimal digit.
pub open spec fn spec_is_digit(c: char) -> bool {
    48 <= c as u32 <= 57
}

/// The value of the decimal-digit prefix of `s` from position `i`, folded
/// onto `acc`: reading stops at the first non-digit.
pub open spec fn spec_digits_value(s: Seq<char>, i: int, acc: int) -> int
    decreases s.len() - i,
{
    if i < 0 || i >= s.len() || !spec_is_digit(s[i]) {
        acc
    } else {
        spec_digits_value(s, i + 1, 10 * acc + (s[i] as u32 - 48))
    }
}

/// Folding digits never shrinks the accumulator.
proof fn lemma_digits_value_grows(s: Seq<char>, i: int, acc: int)
    requires
        acc >= 0,
    ensures
        spec_digits_value(s, i, acc) >= acc,
    decreases s.len() - i,
{
    if 0 <= i < s.len() && spec_is_digit(s[i]) {
        lemma_digits_value_grows(s, i + 1, 10 * acc + (s[i] as u32 - 48));
    }
}

/// Read an unsigned decimal number from a stream of typed characters: digits
/// accumulate until the first non-digit ends the number.
pub fn read_u64(input: &Vec<char>) -> (r: u64)
    requires
        exists|k: int| 0 <= k < input@.len() && !spec_is_digit(input@[k]),
        spec_digits_value(input@, 0, 0) <= u64::MAX,
    ensures
        r == spec_digits_value(input@, 0, 0),
{
    let mut val: u64 = 0;
    let mut i: usize = 0;
    let n = input.len();
    loop
        invariant
            0 <= i <= n,
            n == input@.len(),
            spec_digits_value(input@, 0, 0) == spec_digits_value(input@, i as int, val as int),
            spec_digits_value(input@, 0, 0) <= u64::MAX,
            exists|k: int| i <= k < input@.len() && !spec_is_digit(input@[k]),
        decreases n - i,
    {
        let c = input[i];
        let code = c as u32;
        if code >= 48 && code <= 57 {
            proof {
                lemma_digits_value_grows(input@, i + 1, 10 * (val as int) + (code - 48));
                let k = choose|k: int| i <= k < input@.len() && !spec_is_digit(input@[k]);
                assert(k > i);
            }
            val = val * 10;
            val = val + (code - 48) as u64;
            i = i + 1;
        } else {
            return val;
        }
    }
}

/// Index of the first blank or line break in `s` at or after `i`, or -1: the
/// character that ends a typed word.
pub open spec fn spec_first_break(s: Seq<char>, i: int) -> int
    decreases s.len() - i,
{
    if i < 0 || i >= s.len() {
        -1
    } else if s[i] == '\n' || s[i] == ' ' {
        i
    } else {
        spec_first_break(s, i + 1)
    }
}

/// What `spec_first_break` finds: the first word-ending character at or
/// after `i`.
proof fn lemma_first_break_props(s: Seq<char>, i: int)
    requires
        0 <= i <= s.len(),
    ensures
        spec_first_break(s, i) == -1 || spec_first_break(s, i) >= i,
        spec_first_break(s, i) >= 0 ==> i <= spec_first_break(s, i) < s.len(),
        spec_first_break(s, i) >= 0 ==> (s[spec_first_break(s, i)] == '\n' || s[spec_first_break(
            s,
            i,
        )] == ' '),
        spec_first_break(s, i) >= 0 ==> forall|j: int|
            i <= j < spec_first_break(s, i) ==> s[j] != '\n' && s[j] != ' ',
    decreases s.len() - i,
{
    if i < s.len() && s[i] != '\n' && s[i] != ' ' {
        lemma_first_break_props(s, i + 1);
    }
}

/// Read one word from a stream of typed characters into `buf`: characters
/// land byte by byte until a blank or line break ends the word; the number of
/// bytes written comes back.
pub fn read_str(input: &Vec<char>, buf: &mut Vec<u8>) -> (n: usize)
    requires
        spec_first_break(input@, 0) >= 0,
        old(buf)@.len() >= spec_first_break(input@, 0),
    ensures
        n == spec_first_break(input@, 0),
        final(buf)@.len() == old(buf)@.len(),
        forall|j: int| 0 <= j < n ==> final(buf)@[j] == (input@[j] as u32) as u8,
        forall|j: int| n <= j < final(buf)@.len() ==> final(buf)@[j] == old(buf)@[j],
{
    let mut idx: usize = 0;
    let n = input.len();
    loop
        invariant
            0 <= idx <= n,
            n == input@.len(),
            spec_first_break(input@, 0) == spec_first_break(input@, idx as int),
            spec_first_break(input@, idx as int) >= idx,
            old(buf)@.len() >= spec_first_break(input@, 0),
            buf@.len() == old(buf)@.len(),
            forall|j: int| 0 <= j < idx ==> buf@[j] == (input@[j] as u32) as u8,
            forall|j: int| idx <= j < buf@.len() ==> buf@[j] == old(buf)@[j],
        decreases input@.len() - idx,
    {
        proof {
            lemma_first_break_props(input@, idx as int);
        }
        let c = input[idx];
        if c == '\n' || c == ' ' {
            return idx;
        }
        buf[idx] = (c as u32) as u8;
        idx = idx + 1;
    }
}

} // verus!
