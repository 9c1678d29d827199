use vstd::prelude::*;

verus! {

/// Bytes below the top of a new thread's stack that its initial frame takes:
/// eight registers of four bytes, and four bytes left free above them.
pub const FRAME_OFFSET: usize = 36;

/// The registers that a new thread's first return from the PendSV handler pops, lowest
/// address first: r0 (the argument), r1, r2, r3, r12, lr (where the thread goes when its
/// function returns), pc (the thread's function) and xPSR (the Thumb bit).
pub open spec fn initial_frame(func: usize, arg: usize, exit: usize) -> Seq<u32> {
    seq![arg as u32, 1u32, 2u32, 3u32, 12u32, exit as u32, func as u32, 0x0100_0000u32]
}

/// The four bytes of a register in memory, least significant first.
pub open spec fn word_bytes(w: u32) -> Seq<u8> {
    seq![
        (w % 256) as u8,
        ((w / 256) % 256) as u8,
        ((w / 65536) % 256) as u8,
        (w / 16777216) as u8,
    ]
}

/// The bytes of a sequence of registers laid out one after the other.
pub open spec fn words_bytes(words: Seq<u32>) -> Seq<u8> {
    Seq::new(4 * words.len(), |i: int| word_bytes(words[i / 4])[i % 4])
}

/// `s` with the bytes of `b` written over it from index `at` on.
pub open spec fn overwrite(s: Seq<u8>, at: int, b: Seq<u8>) -> Seq<u8> {
    Seq::new(s.len(), |i: int| if at <= i < at + b.len() { b[i - at] } else { s[i] })
}

fn write_word(stack: &mut [u8], at: usize, w: u32)
    requires
        at + 4 <= old(stack)@.len(),
    ensures
        final(stack)@ == overwrite(old(stack)@, at as int, word_bytes(w)),
{
    stack[at] = (w % 256) as u8;
    stack[at + 1] = ((w / 256) % 256) as u8;
    stack[at + 2] = ((w / 65536) % 256) as u8;
    stack[at + 3] = (w / 16777216) as u8;
    assert(stack@ =~= overwrite(old(stack)@, at as int, word_bytes(w)));
}

/// Sets up stack for newly created threads.
///
/// After running this, the stack should look as if the thread was
/// interrupted by an ISR. On the next return, it starts executing
/// `func`.
///
/// `stack_start` is the address of `stack[0]`; `exit` is the address of the function that a
/// thread enters when its function returns. Returns the new thread's stack pointer.
pub fn setup_stack(stack: &mut [u8], stack_start: usize, func: usize, arg: usize, exit: usize) -> (sp: usize)
    requires
        old(stack)@.len() >= FRAME_OFFSET,
        stack_start + old(stack)@.len() <= usize::MAX,
    ensures
        sp == stack_start + old(stack)@.len() - FRAME_OFFSET,
        final(stack)@ == overwrite(
            old(stack)@,
            old(stack)@.len() - FRAME_OFFSET,
            words_bytes(initial_frame(func, arg, exit)),
        ),
{
    let base: usize = stack.len() - FRAME_OFFSET;
    let words: [u32; 8] = [
        #[verifier::truncate] (arg as u32),
        1,
        2,
        3,
        12,
        #[verifier::truncate] (exit as u32),
        #[verifier::truncate] (func as u32),
        0x0100_0000,
    ];
    let ghost frame = initial_frame(func, arg, exit);
    assert(words@ =~= frame);
    let ghost start = stack@;
    let mut k: usize = 0;
    while k < 8
        invariant
            0 <= k <= 8,
            base + FRAME_OFFSET == start.len(),
            start.len() <= usize::MAX,
            words@ == frame,
            frame.len() == 8,
            stack@.len() == start.len(),
            forall|i: int|
                0 <= i < start.len() ==> #[trigger] stack@[i] == (if base <= i < base + 4 * k {
                    words_bytes(frame)[i - base]
                } else {
                    start[i]
                }),
        decreases 8 - k,
    {
        write_word(stack, base + 4 * k, words[k]);
        k = k + 1;
    }
    assert(stack@ =~= overwrite(start, base as int, words_bytes(frame)));
    stack_start + stack.len() - FRAME_OFFSET
}

} // verus!
