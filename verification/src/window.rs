//! The bounded read window of the text decoder, and the decoder itself.
//!
//! Between two reads the window holds nothing but the digits of the frame
//! that is still open, left-aligned.  A read appends to them, the scan runs
//! over the whole window, and the digits behind the last delimiter stay for
//! the next read.

use vstd::prelude::*;
use vstd::slice::slice_subrange;
use crate::ascii::{
    all_digits, carry_of, clamp, digits_of, has_delimiter, lemma_carry_bounds, lemma_digit_run,
    lemma_scan_push, lemma_split_scan, pow10, run_value, samples_of, unrecognized_of, DELIMITER,
    DIGIT_NINE, DIGIT_ZERO, PADDING,
};
use crate::decoder::Decoded;

verus! {

/// Mathematical model of the window between two reads.
pub struct Window {
    /// The digits carried over from the reads so far.
    pub carry: Seq<u8>,
    /// The number of bytes that the window can hold.
    pub capacity: int,
}

impl Window {
    /// Only digits are carried, and at least one byte of room is left.
    pub open spec fn wf(self) -> bool {
        self.carry.len() < self.capacity && all_digits(self.carry)
    }

    pub open spec fn empty(capacity: int) -> Window {
        Window { carry: Seq::empty(), capacity }
    }

    /// The room that a read may fill.
    pub open spec fn free(self) -> int {
        self.capacity - self.carry.len()
    }

    /// How many bytes of `input` the window takes: as many as fit.
    pub open spec fn accepted(self, input: Seq<u8>) -> int {
        if input.len() <= self.free() {
            input.len() as int
        } else {
            self.free()
        }
    }

    /// The window's content during the scan: the carried digits, then the
    /// accepted part of `input`.
    pub open spec fn scanned(self, input: Seq<u8>) -> Seq<u8> {
        self.carry + input.take(self.accepted(input))
    }

    /// The window is full and holds no delimiter: the open frame is longer
    /// than any window can hold.
    pub open spec fn overflows(self, input: Seq<u8>) -> bool {
        self.scanned(input).len() == self.capacity && !has_delimiter(self.scanned(input))
    }

    /// The window after a scan.  An overlong frame is dropped; otherwise the
    /// digits of the open frame are carried.
    pub open spec fn after(self, input: Seq<u8>) -> Window {
        Window {
            carry: if self.overflows(input) {
                Seq::empty()
            } else {
                carry_of(self.scanned(input))
            },
            capacity: self.capacity,
        }
    }
}

/// Decoder for the text format.  It owns the read window.
pub struct AsciiDecoder {
    carry: Vec<u8>,
    capacity: usize,
}

impl View for AsciiDecoder {
    type V = Window;

    closed spec fn view(&self) -> Window {
        Window { carry: self.carry@, capacity: self.capacity as int }
    }
}

impl AsciiDecoder {
    #[verifier::type_invariant]
    spec fn inv(self) -> bool {
        self@.wf()
    }

    /// A decoder whose window holds `capacity` bytes and carries nothing.
    pub fn new(capacity: usize) -> (decoder: AsciiDecoder)
        requires
            capacity > 0,
        ensures
            decoder@ == Window::empty(capacity as int),
            decoder@.wf(),
    {
        AsciiDecoder { carry: Vec::new(), capacity }
    }

    /// The number of bytes that the window can hold.
    pub fn capacity(&self) -> (capacity: usize)
        ensures
            capacity == self@.capacity,
    {
        self.capacity
    }

    /// The room that the next read may fill.  It is never zero.
    pub fn free(&self) -> (free: usize)
        ensures
            free == self@.free(),
            free > 0,
            self@.wf(),
    {
        proof {
            use_type_invariant(self);
        }
        self.capacity - self.carry.len()
    }

    /// The digits carried over from the reads so far.
    pub fn carried(&self) -> (carry: &[u8])
        ensures
            carry@ == self@.carry,
            self@.wf(),
    {
        proof {
            use_type_invariant(self);
        }
        self.carry.as_slice()
    }

    /// One decoding pass: takes as much of `input` as the window has room
    /// for, scans the window, and keeps the digits of the open frame for the
    /// next pass.  A window that is full without a delimiter is emptied, and
    /// the pass reports the dropped frame.
    pub fn decode(&mut self, input: &[u8]) -> (pass: Decoded)
        ensures
            old(self)@.wf(),
            final(self)@.wf(),
            final(self)@ == old(self)@.after(input@),
            pass.accepted == old(self)@.accepted(input@),
            pass.samples@ == samples_of(old(self)@.scanned(input@)),
            pass.unrecognized@ == unrecognized_of(old(self)@.scanned(input@)),
            pass.frame_overflow == old(self)@.overflows(input@),
    {
        proof {
            use_type_invariant(&*self);
        }
        let free: usize = self.capacity - self.carry.len();
        let accepted: usize = if input.len() <= free {
            input.len()
        } else {
            free
        };
        let found = scan(&self.carry, slice_subrange(input, 0, accepted));
        let overflow: bool = accepted == free && !found.closed;
        if overflow {
            self.carry = Vec::new();
        } else {
            self.carry = found.open;
        }
        Decoded {
            samples: found.samples,
            accepted,
            unrecognized: found.unrecognized,
            frame_overflow: overflow,
        }
    }
}

/// What one scan over a window finds.
struct Scan {
    /// The samples of the frames that a delimiter closed.
    samples: Vec<u64>,
    /// The bytes that are neither digit, delimiter nor padding.
    unrecognized: Vec<u8>,
    /// The digits of the frame that is still open.
    open: Vec<u8>,
    /// Whether the window held a delimiter.
    closed: bool,
}

/// Adds the digit `digit` at the position whose weight is `weight` to a
/// running value, and moves the weight on to the next position.  Both numbers
/// are kept as `clamp` gives them.
fn add_digit(value: u64, power: u64, digit: u8, Ghost(total): Ghost<nat>, Ghost(weight): Ghost<nat>)
    -> (next: (u64, u64))
    requires
        value == clamp(total),
        power == clamp(weight),
        digit <= 9,
    ensures
        next.0 == clamp(total + digit as nat * weight),
        next.1 == clamp(10 * weight),
{
    let term: u64 = if digit == 0 {
        assert(0 * weight == 0) by (nonlinear_arith);
        0
    } else if power == u64::MAX {
        assert(digit as nat * weight >= u64::MAX) by (nonlinear_arith)
            requires
                digit >= 1,
                weight >= u64::MAX,
        ;
        u64::MAX
    } else {
        assert(power as nat * digit as nat == digit as nat * weight) by (nonlinear_arith)
            requires
                power as nat == weight,
        ;
        match power.checked_mul(digit as u64) {
            Some(product) => product,
            None => u64::MAX,
        }
    };
    assert(term == clamp(digit as nat * weight));
    let sum: u64 = if value == u64::MAX || term == u64::MAX {
        u64::MAX
    } else {
        match value.checked_add(term) {
            Some(sum) => sum,
            None => u64::MAX,
        }
    };
    let next_power: u64 = if power == u64::MAX {
        u64::MAX
    } else {
        match power.checked_mul(10) {
            Some(product) => product,
            None => u64::MAX,
        }
    };
    (sum, next_power)
}

/// One scan over the window that holds `carry` followed by `input`.  The
/// value of the open frame is kept as the digits arrive: each digit is added
/// at the weight of its position.
fn scan(carry: &Vec<u8>, input: &[u8]) -> (found: Scan)
    requires
        carry@.len() + input@.len() <= usize::MAX,
    ensures
        found.samples@ == samples_of(carry@ + input@),
        found.unrecognized@ == unrecognized_of(carry@ + input@),
        found.open@ == carry_of(carry@ + input@),
        found.closed == has_delimiter(carry@ + input@),
        all_digits(found.open@),
        found.open@.len() <= carry@.len() + input@.len(),
        found.closed ==> found.open@.len() < carry@.len() + input@.len(),
{
    let ghost window: Seq<u8> = carry@ + input@;
    let carried: usize = carry.len();
    let total: usize = carried + input.len();
    let mut samples: Vec<u64> = Vec::new();
    let mut unrecognized: Vec<u8> = Vec::new();
    let mut open: Vec<u8> = Vec::new();
    let mut value: u64 = 0;
    let mut power: u64 = 1;
    let mut closed: bool = false;
    let mut i: usize = 0;
    proof {
        assert(window.take(0) =~= Seq::<u8>::empty());
        assert(digits_of(Seq::<u8>::empty()) =~= Seq::<u8>::empty()) by {
            reveal(Seq::filter);
        }
        assert(unrecognized_of(Seq::<u8>::empty()) =~= Seq::<u8>::empty()) by {
            reveal(Seq::filter);
        }
    }
    while i < total
        invariant
            i <= total,
            total == carried + input@.len(),
            carried == carry@.len(),
            window == carry@ + input@,
            samples@ == samples_of(window.take(i as int)),
            unrecognized@ == unrecognized_of(window.take(i as int)),
            open@ == carry_of(window.take(i as int)),
            closed == has_delimiter(window.take(i as int)),
            all_digits(open@),
            open@.len() <= i,
            closed ==> open@.len() < i,
            value == clamp(run_value(open@)),
            power == clamp(pow10(open@.len())),
        decreases total - i,
    {
        let byte: u8 = if i < carried {
            carry[i]
        } else {
            input[i - carried]
        };
        proof {
            assert(byte == window[i as int]);
            assert(window.take(i + 1) =~= window.take(i as int).push(byte));
            lemma_scan_push(window.take(i as int), byte);
        }
        if byte >= DIGIT_ZERO && byte <= DIGIT_NINE {
            let ghost run = open@;
            let pair = add_digit(
                value,
                power,
                byte - DIGIT_ZERO,
                Ghost(run_value(run)),
                Ghost(pow10(run.len())),
            );
            open.push(byte);
            value = pair.0;
            power = pair.1;
            proof {
                assert(open@.drop_last() =~= run);
            }
        } else if byte == DELIMITER {
            samples.push(value);
            open = Vec::new();
            value = 0;
            power = 1;
            closed = true;
        } else if byte != PADDING {
            unrecognized.push(byte);
        }
        i += 1;
    }
    assert(window.take(total as int) =~= window);
    Scan { samples, unrecognized, open, closed }
}

/// A pass leaves the window well formed: it carries digits only, and fewer
/// than the window holds.
pub proof fn lemma_pass_keeps_window(window: Window, input: Seq<u8>)
    requires
        window.wf(),
    ensures
        window.after(input).wf(),
        window.after(input).capacity == window.capacity,
        0 <= window.accepted(input) <= input.len(),
        window.scanned(input).len() <= window.capacity,
{
    lemma_carry_bounds(window.scanned(input));
}

/// A read that brings no bytes is a pass without effect: no sample, no
/// diagnostic, and the window stays as it is.
pub proof fn lemma_idle_pass(window: Window)
    requires
        window.wf(),
    ensures
        window.after(Seq::empty()) == window,
        window.accepted(Seq::empty()) == 0,
        samples_of(window.scanned(Seq::empty())) == Seq::<u64>::empty(),
        unrecognized_of(window.scanned(Seq::empty())) == Seq::<u8>::empty(),
        !window.overflows(Seq::empty()),
{
    let nothing = Seq::<u8>::empty();
    assert(window.scanned(nothing) =~= window.carry);
    lemma_digit_run(window.carry);
}

/// Carry-over across reads.  Bytes that arrive in two reads are decoded as
/// if they had arrived in one: the two passes together yield the samples and
/// the diagnostics of the single pass, in order, and leave the same window.
/// This holds where the window has room for all the bytes and no pass drops
/// an overlong frame.
pub proof fn lemma_two_reads_as_one(window: Window, first: Seq<u8>, second: Seq<u8>)
    requires
        window.wf(),
        window.carry.len() + first.len() + second.len() <= window.capacity,
        !window.overflows(first),
        !window.overflows(first + second),
    ensures
        window.after(first).after(second) == window.after(first + second),
        !window.after(first).overflows(second),
        samples_of(window.scanned(first)) + samples_of(window.after(first).scanned(second))
            == samples_of(window.scanned(first + second)),
        unrecognized_of(window.scanned(first)) + unrecognized_of(
            window.after(first).scanned(second),
        ) == unrecognized_of(window.scanned(first + second)),
{
    let start = window.carry + first;
    let both = first + second;
    assert(first.take(first.len() as int) =~= first);
    assert(both.take(both.len() as int) =~= both);
    assert(window.scanned(first) == start);
    assert(window.scanned(both) =~= start + second);
    lemma_carry_bounds(start);
    let middle = window.after(first);
    assert(middle.carry == carry_of(start));
    assert(second.take(second.len() as int) =~= second);
    assert(middle.scanned(second) == carry_of(start) + second);
    lemma_split_scan(start, second);
    if middle.overflows(second) {
        assert(carry_of(start).len() == start.len());
        assert(middle.scanned(second) == start + second);
    }
}

} // verus!
