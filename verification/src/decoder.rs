//! The frame decoder: one interface over the two wire formats.
//!
//! The format is chosen when a connection is opened.  From then on a decoder
//! is asked two things on every acquisition pass: how the transport is to be
//! read, and what the bytes that came back decode to.

use vstd::prelude::*;
use crate::ascii::{samples_of, unrecognized_of};
use crate::binary::{binary_samples_of, decode_frames, frame_count, FRAME_BYTES};
use crate::window::{lemma_idle_pass, AsciiDecoder, Window};

verus! {

/// The size of the text decoder's read window in bytes.
pub const WINDOW_CAPACITY: usize = 128;

/// The outcome of one decoding pass over the bytes of one read.
#[derive(Debug, PartialEq, Eq)]
pub struct Decoded {
    /// The samples of the frames that the pass completed, in order.
    pub samples: Vec<u64>,
    /// How many bytes of the input the decoder took, counted from its start.
    pub accepted: usize,
    /// The bytes without meaning in the format that the pass skipped, in
    /// order: one diagnostic is due for each.
    pub unrecognized: Vec<u8>,
    /// Whether the pass dropped a frame that was too long for the window.
    pub frame_overflow: bool,
}

/// The wire format of a connection.
#[derive(Clone, Copy, Debug, PartialEq, Eq)]
pub enum Protocol {
    /// Digits and commas, see [`crate::ascii`].
    Ascii,
    /// Two bytes per sample, see [`crate::binary`].
    Binary,
}

/// How the transport is to be read on the next pass.
#[derive(Clone, Copy, Debug, PartialEq, Eq)]
pub enum ReadRequest {
    /// One read of at most this many bytes.
    UpTo(usize),
    /// Reads of exactly this many bytes each, for as long as the transport
    /// has a whole frame ready.
    WholeFrames(usize),
}

/// Mathematical model of a decoder between two passes.
pub enum DecoderModel {
    Ascii(Window),
    Binary,
}

impl DecoderModel {
    /// The decoder as a new connection starts with it: nothing carried.
    pub open spec fn fresh(protocol: Protocol) -> DecoderModel {
        match protocol {
            Protocol::Ascii => DecoderModel::Ascii(Window::empty(WINDOW_CAPACITY as int)),
            Protocol::Binary => DecoderModel::Binary,
        }
    }

    pub open spec fn wf(self) -> bool {
        match self {
            DecoderModel::Ascii(window) => window.wf(),
            DecoderModel::Binary => true,
        }
    }

    pub open spec fn protocol(self) -> Protocol {
        match self {
            DecoderModel::Ascii(_) => Protocol::Ascii,
            DecoderModel::Binary => Protocol::Binary,
        }
    }

    /// How the transport is to be read.
    pub open spec fn read_request(self) -> ReadRequest {
        match self {
            DecoderModel::Ascii(window) => ReadRequest::UpTo(window.free() as usize),
            DecoderModel::Binary => ReadRequest::WholeFrames(FRAME_BYTES),
        }
    }

    /// How many bytes of `raw` a pass takes.
    pub open spec fn accepted(self, raw: Seq<u8>) -> int {
        match self {
            DecoderModel::Ascii(window) => window.accepted(raw),
            DecoderModel::Binary => FRAME_BYTES * frame_count(raw),
        }
    }

    /// The samples that a pass over `raw` yields.
    pub open spec fn samples(self, raw: Seq<u8>) -> Seq<u64> {
        match self {
            DecoderModel::Ascii(window) => samples_of(window.scanned(raw)),
            DecoderModel::Binary => binary_samples_of(raw),
        }
    }

    /// The bytes that a pass over `raw` reports as unrecognized.
    pub open spec fn unrecognized(self, raw: Seq<u8>) -> Seq<u8> {
        match self {
            DecoderModel::Ascii(window) => unrecognized_of(window.scanned(raw)),
            DecoderModel::Binary => Seq::empty(),
        }
    }

    /// Whether a pass over `raw` drops an overlong frame.
    pub open spec fn overflows(self, raw: Seq<u8>) -> bool {
        match self {
            DecoderModel::Ascii(window) => window.overflows(raw),
            DecoderModel::Binary => false,
        }
    }

    /// The decoder after a pass over `raw`.
    pub open spec fn after(self, raw: Seq<u8>) -> DecoderModel {
        match self {
            DecoderModel::Ascii(window) => DecoderModel::Ascii(window.after(raw)),
            DecoderModel::Binary => DecoderModel::Binary,
        }
    }
}

/// A frame decoder for one of the two wire formats.
pub enum Decoder {
    Ascii(AsciiDecoder),
    Binary,
}

impl View for Decoder {
    type V = DecoderModel;

    open spec fn view(&self) -> DecoderModel {
        match self {
            Decoder::Ascii(decoder) => DecoderModel::Ascii(decoder@),
            Decoder::Binary => DecoderModel::Binary,
        }
    }
}

impl Decoder {
    /// A decoder for `protocol` that carries nothing.
    pub fn new(protocol: Protocol) -> (decoder: Decoder)
        ensures
            decoder@ == DecoderModel::fresh(protocol),
            decoder@.wf(),
    {
        match protocol {
            Protocol::Ascii => Decoder::Ascii(AsciiDecoder::new(WINDOW_CAPACITY)),
            Protocol::Binary => Decoder::Binary,
        }
    }

    /// The wire format that this decoder reads.
    pub fn protocol(&self) -> (protocol: Protocol)
        ensures
            protocol == self@.protocol(),
    {
        match self {
            Decoder::Ascii(_) => Protocol::Ascii,
            Decoder::Binary => Protocol::Binary,
        }
    }

    /// How the transport is to be read on the next pass: for the text
    /// format, once, for no more bytes than the window has room for; for the
    /// binary format, frame by frame.
    pub fn read_request(&self) -> (request: ReadRequest)
        ensures
            request == self@.read_request(),
            self@.wf(),
            request matches ReadRequest::UpTo(room) ==> room > 0,
    {
        match self {
            Decoder::Ascii(decoder) => ReadRequest::UpTo(decoder.free()),
            Decoder::Binary => ReadRequest::WholeFrames(FRAME_BYTES),
        }
    }

    /// One decoding pass over the bytes that the transport returned.
    pub fn decode(&mut self, raw: &[u8]) -> (pass: Decoded)
        ensures
            old(self)@.wf(),
            final(self)@.wf(),
            final(self)@ == old(self)@.after(raw@),
            pass.accepted == old(self)@.accepted(raw@),
            pass.samples@ == old(self)@.samples(raw@),
            pass.unrecognized@ == old(self)@.unrecognized(raw@),
            pass.frame_overflow == old(self)@.overflows(raw@),
    {
        match self {
            Decoder::Ascii(decoder) => decoder.decode(raw),
            Decoder::Binary => decode_frames(raw),
        }
    }
}

/// A pass over no bytes yields nothing and leaves the decoder as it is,
/// whichever the format.
pub proof fn lemma_idle_decode(decoder: DecoderModel)
    requires
        decoder.wf(),
    ensures
        decoder.after(Seq::empty()) == decoder,
        decoder.accepted(Seq::empty()) == 0,
        decoder.samples(Seq::empty()) == Seq::<u64>::empty(),
        decoder.unrecognized(Seq::empty()) == Seq::<u8>::empty(),
        !decoder.overflows(Seq::empty()),
{
    match decoder {
        DecoderModel::Ascii(window) => {
            lemma_idle_pass(window);
        },
        DecoderModel::Binary => {
            assert(binary_samples_of(Seq::<u8>::empty()) =~= Seq::<u64>::empty()) by {
                reveal(Seq::filter);
            }
        },
    }
}

} // verus!
