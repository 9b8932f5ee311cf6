//! The text wire format: runs of ASCII digits, each closed by a comma.
//!
//! A frame carries one sample.  Its digits arrive least significant first, so
//! the bytes `3 2 ,` encode twenty-three.  Zero bytes are padding; any other
//! byte is noise that is reported and skipped.  Neither ends nor resets the
//! frame in which it occurs.

use vstd::prelude::*;

verus! {

/// `'0'`, the lowest digit byte.
pub const DIGIT_ZERO: u8 = 0x30;

/// `'9'`, the highest digit byte.
pub const DIGIT_NINE: u8 = 0x39;

/// `','`, which closes a frame.
pub const DELIMITER: u8 = 0x2c;

/// The zero byte, which the device sends as padding.
pub const PADDING: u8 = 0x00;

pub open spec fn is_digit(byte: u8) -> bool {
    DIGIT_ZERO <= byte <= DIGIT_NINE
}

pub open spec fn is_delimiter(byte: u8) -> bool {
    byte == DELIMITER
}

pub open spec fn is_padding(byte: u8) -> bool {
    byte == PADDING
}

/// A byte that has no meaning in the format.
pub open spec fn is_unrecognized(byte: u8) -> bool {
    !is_digit(byte) && !is_delimiter(byte) && !is_padding(byte)
}

/// A byte that takes part in a frame: a digit or the delimiter.
pub open spec fn is_framing(byte: u8) -> bool {
    is_digit(byte) || is_delimiter(byte)
}

/// The number that a digit byte stands for.
pub open spec fn digit_value(byte: u8) -> nat {
    if is_digit(byte) {
        (byte - DIGIT_ZERO) as nat
    } else {
        0
    }
}

pub open spec fn pow10(exponent: nat) -> nat
    decreases exponent,
{
    if exponent == 0 {
        1
    } else {
        10 * pow10((exponent - 1) as nat)
    }
}

/// The number that a run of digit bytes encodes, least significant digit
/// first: the digit at position `i` counts `10^i` times its value.
pub open spec fn run_value(digits: Seq<u8>) -> nat
    decreases digits.len(),
{
    if digits.len() == 0 {
        0
    } else {
        run_value(digits.drop_last()) + digit_value(digits.last()) * pow10(
            (digits.len() - 1) as nat,
        )
    }
}

/// A number as a sample can hold it: numbers beyond `u64::MAX` are held at
/// `u64::MAX`.
pub open spec fn clamp(value: nat) -> u64 {
    if value <= u64::MAX {
        value as u64
    } else {
        u64::MAX
    }
}

/// The digit bytes among `bytes`, in order.
pub open spec fn digits_of(bytes: Seq<u8>) -> Seq<u8> {
    bytes.filter(|byte: u8| is_digit(byte))
}

/// The unrecognized bytes among `bytes`, in order: one diagnostic each.
pub open spec fn unrecognized_of(bytes: Seq<u8>) -> Seq<u8> {
    bytes.filter(|byte: u8| is_unrecognized(byte))
}

/// What is left of `bytes` once padding and noise are taken out.
pub open spec fn framing_of(bytes: Seq<u8>) -> Seq<u8> {
    bytes.filter(|byte: u8| is_framing(byte))
}

pub open spec fn has_delimiter(bytes: Seq<u8>) -> bool {
    bytes.contains(DELIMITER)
}

/// The bytes behind the last delimiter (all of `bytes` where there is none):
/// the frame that is still open.
pub open spec fn open_frame(bytes: Seq<u8>) -> Seq<u8>
    decreases bytes.len(),
{
    if bytes.len() == 0 {
        bytes
    } else if is_delimiter(bytes.last()) {
        Seq::empty()
    } else {
        open_frame(bytes.drop_last()).push(bytes.last())
    }
}

/// The sample that a frame yields when its delimiter arrives.  A frame
/// without digits yields zero.
pub open spec fn sample_of(frame: Seq<u8>) -> u64 {
    clamp(run_value(digits_of(frame)))
}

/// The samples that `bytes` yield, one for each delimiter, in order.
pub open spec fn samples_of(bytes: Seq<u8>) -> Seq<u64>
    decreases bytes.len(),
{
    if bytes.len() == 0 {
        Seq::empty()
    } else if is_delimiter(bytes.last()) {
        samples_of(bytes.drop_last()).push(sample_of(open_frame(bytes.drop_last())))
    } else {
        samples_of(bytes.drop_last())
    }
}

/// The digits of the open frame: what a decoder carries over to the next
/// read.
pub open spec fn carry_of(bytes: Seq<u8>) -> Seq<u8> {
    digits_of(open_frame(bytes))
}

/// How many of `bytes` a scan uses up: all but the carried digits.
pub open spec fn consumed_of(bytes: Seq<u8>) -> int {
    bytes.len() - carry_of(bytes).len()
}

pub open spec fn all_digits(bytes: Seq<u8>) -> bool {
    forall|i: int| 0 <= i < bytes.len() ==> is_digit(#[trigger] bytes[i])
}

/// What one more byte does to each of the functions above.
pub proof fn lemma_scan_push(bytes: Seq<u8>, byte: u8)
    ensures
        open_frame(bytes.push(byte)) == if is_delimiter(byte) {
            Seq::<u8>::empty()
        } else {
            open_frame(bytes).push(byte)
        },
        carry_of(bytes.push(byte)) == if is_delimiter(byte) {
            Seq::<u8>::empty()
        } else if is_digit(byte) {
            carry_of(bytes).push(byte)
        } else {
            carry_of(bytes)
        },
        samples_of(bytes.push(byte)) == if is_delimiter(byte) {
            samples_of(bytes).push(clamp(run_value(carry_of(bytes))))
        } else {
            samples_of(bytes)
        },
        unrecognized_of(bytes.push(byte)) == if is_unrecognized(byte) {
            unrecognized_of(bytes).push(byte)
        } else {
            unrecognized_of(bytes)
        },
        framing_of(bytes.push(byte)) == if is_framing(byte) {
            framing_of(bytes).push(byte)
        } else {
            framing_of(bytes)
        },
        has_delimiter(bytes.push(byte)) == (has_delimiter(bytes) || is_delimiter(byte)),
{
    let longer = bytes.push(byte);
    assert(longer.drop_last() =~= bytes);
    assert(longer.last() == byte);
    open_frame(bytes).lemma_filter_push(byte, |b: u8| is_digit(b));
    bytes.lemma_filter_push(byte, |b: u8| is_unrecognized(b));
    bytes.lemma_filter_push(byte, |b: u8| is_framing(b));
    assert(Seq::<u8>::empty().filter(|b: u8| is_digit(b)) =~= Seq::<u8>::empty()) by {
        reveal(Seq::filter);
    }
    if has_delimiter(bytes) {
        let i = choose|i: int| 0 <= i < bytes.len() && bytes[i] == DELIMITER;
        assert(longer[i] == DELIMITER);
    }
    if is_delimiter(byte) {
        assert(longer[bytes.len() as int] == DELIMITER);
    }
    if has_delimiter(longer) && !is_delimiter(byte) {
        let i = choose|i: int| 0 <= i < longer.len() && longer[i] == DELIMITER;
        assert(bytes[i] == DELIMITER);
    }
}

/// The digit filter and the noise filter keep nothing of an empty sequence.
pub proof fn lemma_scan_empty()
    ensures
        open_frame(Seq::<u8>::empty()) == Seq::<u8>::empty(),
        carry_of(Seq::<u8>::empty()) == Seq::<u8>::empty(),
        samples_of(Seq::<u8>::empty()) == Seq::<u64>::empty(),
        unrecognized_of(Seq::<u8>::empty()) == Seq::<u8>::empty(),
        framing_of(Seq::<u8>::empty()) == Seq::<u8>::empty(),
        !has_delimiter(Seq::<u8>::empty()),
{
    reveal(Seq::filter);
}

/// The carried bytes are digits, taken from the open frame.  Where nothing
/// was left out of them, the scanned bytes were one unbroken run of digits.
pub proof fn lemma_carry_bounds(bytes: Seq<u8>)
    ensures
        all_digits(carry_of(bytes)),
        carry_of(bytes).len() <= open_frame(bytes).len() <= bytes.len(),
        has_delimiter(bytes) ==> open_frame(bytes).len() < bytes.len(),
        carry_of(bytes).len() == bytes.len() ==> carry_of(bytes) == bytes,
    decreases bytes.len(),
{
    if bytes.len() == 0 {
        lemma_scan_empty();
        assert(bytes =~= Seq::<u8>::empty());
    } else {
        let front = bytes.drop_last();
        assert(front.push(bytes.last()) =~= bytes);
        lemma_carry_bounds(front);
        lemma_scan_push(front, bytes.last());
    }
}

/// A run of digits alone completes no frame and is carried as it is.
pub proof fn lemma_digit_run(digits: Seq<u8>)
    requires
        all_digits(digits),
    ensures
        open_frame(digits) == digits,
        carry_of(digits) == digits,
        samples_of(digits) == Seq::<u64>::empty(),
        unrecognized_of(digits) == Seq::<u8>::empty(),
        !has_delimiter(digits),
    decreases digits.len(),
{
    if digits.len() == 0 {
        lemma_scan_empty();
        assert(digits =~= Seq::<u8>::empty());
    } else {
        let front = digits.drop_last();
        assert(front.push(digits.last()) =~= digits);
        lemma_digit_run(front);
        lemma_scan_push(front, digits.last());
    }
}

/// A frame on its own: a run of digits and its delimiter yield exactly one
/// sample, the run's value, and leave nothing to carry.  A delimiter alone
/// yields zero.
pub proof fn lemma_single_frame(digits: Seq<u8>)
    requires
        all_digits(digits),
    ensures
        samples_of(digits.push(DELIMITER)) == seq![clamp(run_value(digits))],
        carry_of(digits.push(DELIMITER)) == Seq::<u8>::empty(),
        digits.len() == 0 ==> samples_of(digits.push(DELIMITER)) == seq![0u64],
{
    lemma_digit_run(digits);
    lemma_scan_push(digits, DELIMITER);
    assert(Seq::<u64>::empty().push(clamp(run_value(digits))) =~= seq![clamp(run_value(digits))]);
}

/// Frames decode independently.  Behind a delimiter nothing is carried, so
/// what follows decodes as it would on its own; in particular a delimiter
/// that follows a delimiter yields zero.
pub proof fn lemma_closed_frame_carries_nothing(bytes: Seq<u8>, rest: Seq<u8>)
    ensures
        carry_of(bytes.push(DELIMITER)) == Seq::<u8>::empty(),
        samples_of(bytes.push(DELIMITER) + rest) == samples_of(bytes.push(DELIMITER)) + samples_of(
            rest,
        ),
        carry_of(bytes.push(DELIMITER) + rest) == carry_of(rest),
        samples_of(bytes.push(DELIMITER).push(DELIMITER)) == samples_of(
            bytes.push(DELIMITER),
        ).push(0u64),
{
    let closed = bytes.push(DELIMITER);
    lemma_scan_push(bytes, DELIMITER);
    lemma_split_scan(closed, rest);
    assert(Seq::<u8>::empty() + rest =~= rest);
    lemma_scan_push(closed, DELIMITER);
    lemma_scan_empty();
}

/// Every delimiter yields a sample: as many samples as delimiters.
pub proof fn lemma_sample_per_delimiter(bytes: Seq<u8>)
    ensures
        samples_of(bytes).len() == bytes.filter(|byte: u8| is_delimiter(byte)).len(),
    decreases bytes.len(),
{
    if bytes.len() == 0 {
        reveal(Seq::filter);
    } else {
        let front = bytes.drop_last();
        assert(front.push(bytes.last()) =~= bytes);
        lemma_sample_per_delimiter(front);
        lemma_scan_push(front, bytes.last());
        front.lemma_filter_push(bytes.last(), |byte: u8| is_delimiter(byte));
    }
}

/// Carry-over.  Scanning `first` and then, in a second pass, the carried
/// digits followed by `second` yields what one scan of `first + second`
/// yields: the same samples, the same diagnostics and the same carry.
pub proof fn lemma_split_scan(first: Seq<u8>, second: Seq<u8>)
    ensures
        samples_of(first + second) == samples_of(first) + samples_of(carry_of(first) + second),
        unrecognized_of(first + second) == unrecognized_of(first) + unrecognized_of(
            carry_of(first) + second,
        ),
        carry_of(first + second) == carry_of(carry_of(first) + second),
    decreases second.len(),
{
    let carry = carry_of(first);
    if second.len() == 0 {
        assert(first + second =~= first);
        assert(carry + second =~= carry);
        lemma_carry_bounds(first);
        lemma_digit_run(carry);
        assert(samples_of(first) + Seq::<u64>::empty() =~= samples_of(first));
        assert(unrecognized_of(first) + Seq::<u8>::empty() =~= unrecognized_of(first));
    } else {
        let front = second.drop_last();
        let byte = second.last();
        assert((first + front).push(byte) =~= first + second);
        assert((carry + front).push(byte) =~= carry + second);
        lemma_split_scan(first, front);
        lemma_scan_push(first + front, byte);
        lemma_scan_push(carry + front, byte);
        if is_delimiter(byte) {
            let sample = clamp(run_value(carry_of(first + front)));
            assert((samples_of(first) + samples_of(carry + front)).push(sample) =~= samples_of(first)
                + samples_of(carry + front).push(sample));
        }
        if is_unrecognized(byte) {
            assert((unrecognized_of(first) + unrecognized_of(carry + front)).push(byte)
                =~= unrecognized_of(first) + unrecognized_of(carry + front).push(byte));
        }
    }
}

/// Resilience.  Padding and noise change no sample and no carried digit:
/// the scan of `bytes` yields what the scan of its digits and delimiters
/// alone yields.
pub proof fn lemma_noise_is_skipped(bytes: Seq<u8>)
    ensures
        samples_of(bytes) == samples_of(framing_of(bytes)),
        carry_of(bytes) == carry_of(framing_of(bytes)),
        has_delimiter(bytes) == has_delimiter(framing_of(bytes)),
        unrecognized_of(framing_of(bytes)) == Seq::<u8>::empty(),
    decreases bytes.len(),
{
    if bytes.len() == 0 {
        lemma_scan_empty();
        assert(bytes =~= Seq::<u8>::empty());
    } else {
        let front = bytes.drop_last();
        let byte = bytes.last();
        assert(front.push(byte) =~= bytes);
        lemma_noise_is_skipped(front);
        lemma_scan_push(front, byte);
        if is_framing(byte) {
            lemma_scan_push(framing_of(front), byte);
        }
    }
}

/// The open frame is the end of the scanned bytes.  Where it holds digits
/// only, the carry is what a left shift by the consumed bytes leaves.
pub proof fn lemma_carry_is_shift(bytes: Seq<u8>)
    ensures
        open_frame(bytes) == bytes.skip(bytes.len() - open_frame(bytes).len()),
        all_digits(open_frame(bytes)) ==> carry_of(bytes) == bytes.skip(consumed_of(bytes)),
    decreases bytes.len(),
{
    lemma_carry_bounds(bytes);
    if bytes.len() == 0 {
        lemma_scan_empty();
        assert(bytes =~= Seq::<u8>::empty());
        assert(bytes.skip(0) =~= bytes);
    } else {
        let front = bytes.drop_last();
        let byte = bytes.last();
        assert(front.push(byte) =~= bytes);
        lemma_carry_is_shift(front);
        lemma_carry_bounds(front);
        lemma_scan_push(front, byte);
        if is_delimiter(byte) {
            assert(bytes.skip(bytes.len() as int) =~= Seq::<u8>::empty());
        } else {
            let kept = open_frame(front).len();
            assert(front.skip(front.len() - kept).push(byte) =~= bytes.skip(bytes.len() - (kept + 1)));
        }
    }
    if all_digits(open_frame(bytes)) {
        lemma_digit_run(open_frame(bytes));
    }
}

} // verus!
