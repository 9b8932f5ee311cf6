//! The connection state machine.
//!
//! A connection is either being chosen or being read.  The machine decides;
//! its caller performs.  The caller enumerates the ports, opens the one the
//! machine names, reads as the decoder asks, and hands each result back
//! together with the time.  The transport handle `H` is whatever the caller
//! opened; the machine owns it while reading and never looks inside.

use vstd::prelude::*;
use crate::binary::lemma_binary_split;
use crate::decoder::{lemma_idle_decode, Decoded, Decoder, DecoderModel, Protocol, ReadRequest};
use crate::rate::{Meter, RateWindow};
use crate::ring::{lemma_push_all, lemma_push_all_add, Ring, RingBuffer};
use crate::window::{lemma_pass_keeps_window, lemma_two_reads_as_one};

verus! {

/// The number of samples that the display history holds.
pub const RING_CAPACITY: usize = 128;

/// The line speed of the device in symbols per second.
pub const BAUD_RATE: u32 = 9600;

/// How long a read waits for data, in seconds.
pub const READ_TIMEOUT_SECS: u64 = 10;

/// Number of bits per character.
#[derive(Clone, Copy, Debug, PartialEq, Eq)]
pub enum DataBits {
    Five,
    Six,
    Seven,
    Eight,
}

/// Flow control mode.
#[derive(Clone, Copy, Debug, PartialEq, Eq)]
pub enum FlowControl {
    Off,
    Software,
    Hardware,
}

/// Parity checking mode.
#[derive(Clone, Copy, Debug, PartialEq, Eq)]
pub enum Parity {
    Off,
    Odd,
    Even,
}

/// Number of stop bits after each character.
#[derive(Clone, Copy, Debug, PartialEq, Eq)]
pub enum StopBits {
    One,
    Two,
}

/// The parameters with which a port is opened.
#[derive(Clone, Copy, Debug, PartialEq, Eq)]
pub struct PortSettings {
    pub baud_rate: u32,
    pub data_bits: DataBits,
    pub flow_control: FlowControl,
    pub parity: Parity,
    pub stop_bits: StopBits,
    pub timeout_secs: u64,
}

impl PortSettings {
    /// The device's line parameters: 9600 baud, eight data bits, no flow
    /// control, one stop bit, reads that wait ten seconds.  The parity differs
    /// between the firmware variants and is the caller's to give.
    pub open spec fn with_parity(parity: Parity) -> PortSettings {
        PortSettings {
            baud_rate: BAUD_RATE,
            data_bits: DataBits::Eight,
            flow_control: FlowControl::Off,
            parity,
            stop_bits: StopBits::One,
            timeout_secs: READ_TIMEOUT_SECS,
        }
    }

    /// The device's line parameters with the given parity.
    pub fn for_device(parity: Parity) -> (settings: PortSettings)
        ensures
            settings == PortSettings::with_parity(parity),
    {
        PortSettings {
            baud_rate: BAUD_RATE,
            data_bits: DataBits::Eight,
            flow_control: FlowControl::Off,
            parity,
            stop_bits: StopBits::One,
            timeout_secs: READ_TIMEOUT_SECS,
        }
    }
}

/// What kind of failure the transport reported.
#[derive(Clone, Copy, Debug, PartialEq, Eq)]
pub enum TransportErrorKind {
    /// The device is not there, or another process holds it.
    NoDevice,
    /// A parameter was refused.
    InvalidInput,
    /// The transport could not say more.
    Unknown,
    /// The operating system reported an input or output error.
    Io,
}

/// A failure of the transport: listing the ports, opening one, or reading.
#[derive(Debug, PartialEq, Eq)]
pub struct TransportError {
    pub kind: TransportErrorKind,
    /// A description for the user.
    pub description: String,
}

/// The order to open a port.
#[derive(Debug, PartialEq, Eq)]
pub struct OpenRequest {
    pub port_name: String,
    pub settings: PortSettings,
}

/// Mathematical model of the machine.
pub enum Machine<H> {
    Selecting {
        ports: Result<Vec<String>, TransportError>,
        selected: usize,
        creation_error: Option<TransportError>,
    },
    Reading { port: H, ring: Ring, decoder: DecoderModel, meter: Meter },
}

impl<H> Machine<H> {
    /// Only the reading state has parts with an invariant.
    pub open spec fn wf(self) -> bool {
        match self {
            Machine::Selecting { .. } => true,
            Machine::Reading { ring, decoder, meter, .. } => ring.wf() && decoder.wf() && meter.wf(),
        }
    }

    /// The state after an enumeration: the first port preselected, no error
    /// on record.  A failed enumeration is part of the state.
    pub open spec fn selecting(ports: Result<Vec<String>, TransportError>) -> Machine<H> {
        Machine::Selecting { ports, selected: 0, creation_error: None }
    }

    /// The state in which a session starts: every slot of the history zero,
    /// nothing carried by the decoder, the first rate window beginning at
    /// `now`.
    pub open spec fn fresh_reading(port: H, protocol: Protocol, now: int) -> Machine<H> {
        Machine::Reading {
            port,
            ring: Ring::zeroed(RING_CAPACITY as int),
            decoder: DecoderModel::fresh(protocol),
            meter: Meter::starting(now),
        }
    }

    /// The port that an open request names, by its place in the list:
    /// the selected one, where the enumeration succeeded and the selection
    /// lies in the list.  Otherwise there is no device to open.
    pub open spec fn device(self) -> Option<int> {
        match self {
            Machine::Selecting { ports: Ok(names), selected, .. } => if selected < names@.len() {
                Some(selected as int)
            } else {
                None
            },
            _ => None,
        }
    }

    /// The selection moves to `index` where the list has such a port.
    pub open spec fn select(self, index: usize) -> Machine<H> {
        match self {
            Machine::Selecting { ports: Ok(names), selected, creation_error } => if index
                < names@.len() {
                Machine::Selecting { ports: Ok(names), selected: index, creation_error }
            } else {
                self
            },
            _ => self,
        }
    }

    /// The transport's answer to an open request.  Success starts a session;
    /// failure is put on record and changes nothing else.  Where the machine
    /// has no device to open it has made no request, and nothing that is
    /// handed in as an answer changes it.
    pub open spec fn opened(
        self,
        outcome: Result<H, TransportError>,
        protocol: Protocol,
        now: int,
    ) -> Machine<H> {
        match self {
            Machine::Selecting { ports, selected, creation_error } => if self.device() is Some {
                match outcome {
                    Ok(port) => Machine::fresh_reading(port, protocol, now),
                    Err(error) => Machine::Selecting {
                        ports,
                        selected,
                        creation_error: Some(error),
                    },
                }
            } else {
                self
            },
            Machine::Reading { .. } => self,
        }
    }

    /// A read failed for good.  The session ends; the machine selects again
    /// with the failure on record.
    pub open spec fn read_failed(
        self,
        error: TransportError,
        ports: Result<Vec<String>, TransportError>,
    ) -> Machine<H> {
        match self {
            Machine::Selecting { .. } => self,
            Machine::Reading { .. } => Machine::Selecting {
                ports,
                selected: 0,
                creation_error: Some(error),
            },
        }
    }

    /// One acquisition pass at time `now` over the bytes `raw` that the
    /// transport returned: the decoded samples go into the history and into
    /// the running count, then the rate window is ticked once.
    pub open spec fn acquired(self, raw: Seq<u8>, now: int) -> Machine<H> {
        match self {
            Machine::Selecting { .. } => self,
            Machine::Reading { port, ring, decoder, meter } => Machine::Reading {
                port,
                ring: ring.push_all(decoder.samples(raw)),
                decoder: decoder.after(raw),
                meter: meter.record(decoder.samples(raw).len() as int).tick(now),
            },
        }
    }
}

/// The connection: selecting a port, or reading from the one opened.
pub enum State<H> {
    SelectingSerialPort {
        /// The result of the last enumeration.
        ports: Result<Vec<String>, TransportError>,
        /// The place of the selected port in the list.
        selected: usize,
        /// Why the last attempt to open a port failed, or why the last
        /// session ended.
        creation_error: Option<TransportError>,
    },
    Reading {
        /// The open transport.
        port: H,
        /// The history of decoded samples.
        value_buf: RingBuffer,
        decoder: Decoder,
        rate: RateWindow,
    },
}

impl<H> View for State<H> {
    type V = Machine<H>;

    open spec fn view(&self) -> Machine<H> {
        match *self {
            State::SelectingSerialPort { ports, selected, creation_error } => Machine::Selecting {
                ports,
                selected,
                creation_error,
            },
            State::Reading { port, value_buf, decoder, rate } => Machine::Reading {
                port,
                ring: value_buf@,
                decoder: decoder@,
                meter: rate@,
            },
        }
    }
}

impl<H> State<H> {
    /// The state after an enumeration of the ports.
    pub fn new_selecting_serial_port(ports: Result<Vec<String>, TransportError>) -> (state: State<H>)
        ensures
            state@ == Machine::<H>::selecting(ports),
    {
        State::SelectingSerialPort { ports, selected: 0, creation_error: None }
    }

    /// The state in which a session on the open transport `port` starts.
    pub fn new_reading(port: H, protocol: Protocol, now: u64) -> (state: State<H>)
        ensures
            state@ == Machine::fresh_reading(port, protocol, now as int),
            state@.wf(),
    {
        State::Reading {
            port,
            value_buf: RingBuffer::new(RING_CAPACITY),
            decoder: Decoder::new(protocol),
            rate: RateWindow::new(now),
        }
    }

    /// Whether the machine is reading.
    pub fn is_reading(&self) -> (reading: bool)
        ensures
            reading == (self@ is Reading),
    {
        match self {
            State::SelectingSerialPort { .. } => false,
            State::Reading { .. } => true,
        }
    }

    /// The user chose the port at `index`.  A choice outside the list, or
    /// one made while reading, is not taken up.
    pub fn select_port(&mut self, index: usize)
        ensures
            final(self)@ == old(self)@.select(index),
    {
        match self {
            State::SelectingSerialPort { ports, selected, .. } => {
                match ports {
                    Ok(names) => {
                        if index < names.len() {
                            *selected = index;
                        }
                    },
                    Err(_) => {},
                }
            },
            State::Reading { .. } => {},
        }
    }

    /// Whether there is a device to open: the machine is selecting, the
    /// enumeration succeeded and the selection lies in the list.
    pub fn has_device(&self) -> (present: bool)
        ensures
            present == (self@.device() is Some),
    {
        match self {
            State::SelectingSerialPort { ports, selected, .. } => {
                match ports {
                    Ok(names) => *selected < names.len(),
                    Err(_) => false,
                }
            },
            State::Reading { .. } => false,
        }
    }

    /// The user asked to open the selected port.  Returns the order for the
    /// transport, or nothing where there is no device to open: the list is
    /// empty, the enumeration failed, or a session is running.
    pub fn open_request(&self, parity: Parity) -> (request: Option<OpenRequest>)
        ensures
            request is Some <==> self@.device() is Some,
            request matches Some(order) ==> {
                &&& self@ matches Machine::Selecting { ports: Ok(names), selected, .. }
                &&& order.port_name@ == names@[selected as int]@
                &&& order.settings == PortSettings::with_parity(parity)
            },
    {
        match self {
            State::SelectingSerialPort { ports, selected, .. } => {
                match ports {
                    Ok(names) => {
                        if *selected < names.len() {
                            Some(
                                OpenRequest {
                                    port_name: names[*selected].clone(),
                                    settings: PortSettings::for_device(parity),
                                },
                            )
                        } else {
                            None
                        }
                    },
                    Err(_) => None,
                }
            },
            State::Reading { .. } => None,
        }
    }

    /// The transport answered an open request at time `now`.  On success a
    /// session with a decoder for `protocol` starts; on failure the error is
    /// put on record and the selection stays as it is.  Without a device to
    /// open there was no request, and the answer is dropped.
    pub fn open_result(&mut self, outcome: Result<H, TransportError>, protocol: Protocol, now: u64)
        ensures
            final(self)@ == old(self)@.opened(outcome, protocol, now as int),
            old(self)@.wf() ==> final(self)@.wf(),
    {
        if self.has_device() {
            match outcome {
                Ok(port) => {
                    *self = State::new_reading(port, protocol, now);
                },
                Err(error) => {
                    match self {
                        State::SelectingSerialPort { creation_error, .. } => {
                            *creation_error = Some(error);
                        },
                        State::Reading { .. } => {},
                    }
                },
            }
        }
    }

    /// The user asked for a reload, and `ports` is the new enumeration.
    /// Whatever the state was, its data is dropped, the transport with it.
    pub fn reload(&mut self, ports: Result<Vec<String>, TransportError>)
        ensures
            final(self)@ == Machine::<H>::selecting(ports),
    {
        *self = State::new_selecting_serial_port(ports);
    }

    /// A read failed with `error`, which is no mere lack of data, and `ports`
    /// is a new enumeration.  The session ends: its data is dropped, the
    /// transport with it, and the error is on record for the display.
    pub fn read_failed(&mut self, error: TransportError, ports: Result<Vec<String>, TransportError>)
        ensures
            final(self)@ == old(self)@.read_failed(error, ports),
    {
        if self.is_reading() {
            *self = State::SelectingSerialPort { ports, selected: 0, creation_error: Some(error) };
        }
    }

    /// How the transport is to be read on the next pass; nothing while no
    /// session is running.
    pub fn read_request(&self) -> (request: Option<ReadRequest>)
        ensures
            request == match self@ {
                Machine::Selecting { .. } => None,
                Machine::Reading { decoder, .. } => Some(decoder.read_request()),
            },
            request matches Some(ReadRequest::UpTo(room)) ==> room > 0,
    {
        match self {
            State::SelectingSerialPort { .. } => None,
            State::Reading { decoder, .. } => Some(decoder.read_request()),
        }
    }

    /// One acquisition pass at time `now` over the bytes `raw` that the
    /// transport returned, which may be none.  Returns what the decoder made
    /// of them.  While no session is running nothing is taken and nothing
    /// changes.
    pub fn acquire(&mut self, raw: &[u8], now: u64) -> (pass: Decoded)
        ensures
            final(self)@ == old(self)@.acquired(raw@, now as int),
            old(self)@.wf(),
            final(self)@.wf(),
            match old(self)@ {
                Machine::Selecting { .. } => {
                    &&& pass.accepted == 0
                    &&& pass.samples@ == Seq::<u64>::empty()
                    &&& pass.unrecognized@ == Seq::<u8>::empty()
                    &&& !pass.frame_overflow
                },
                Machine::Reading { decoder, .. } => {
                    &&& pass.accepted == decoder.accepted(raw@)
                    &&& pass.samples@ == decoder.samples(raw@)
                    &&& pass.unrecognized@ == decoder.unrecognized(raw@)
                    &&& pass.frame_overflow == decoder.overflows(raw@)
                },
            },
    {
        match self {
            State::SelectingSerialPort { .. } => Decoded {
                samples: Vec::new(),
                accepted: 0,
                unrecognized: Vec::new(),
                frame_overflow: false,
            },
            State::Reading { value_buf, decoder, rate, .. } => {
                let pass = decoder.decode(raw);
                value_buf.push_all(pass.samples.as_slice());
                rate.record_samples(pass.samples.len());
                rate.tick(now);
                pass
            },
        }
    }
}

/// The state graph.  A session starts with a successful open of a device
/// and with nothing else; it ends with a reload or a failed read and with
/// nothing else.  Selecting a port, a failed open and an acquisition pass
/// leave the machine in the state it is in.
pub proof fn lemma_state_graph<H>(
    machine: Machine<H>,
    index: usize,
    outcome: Result<H, TransportError>,
    protocol: Protocol,
    error: TransportError,
    ports: Result<Vec<String>, TransportError>,
    raw: Seq<u8>,
    now: int,
)
    ensures
        Machine::<H>::selecting(ports) is Selecting,
        machine.select(index) is Reading <==> machine is Reading,
        machine.opened(outcome, protocol, now) is Reading <==> machine is Reading || (
        machine.device() is Some && outcome is Ok),
        machine.acquired(raw, now) is Reading <==> machine is Reading,
        machine.read_failed(error, ports) is Selecting,
        machine is Reading ==> machine.opened(outcome, protocol, now) == machine,
        machine is Reading ==> machine.select(index) == machine,
        machine is Selecting ==> machine.acquired(raw, now) == machine,
        machine is Selecting ==> machine.read_failed(error, ports) == machine,
{
}

/// No device, no attempt.  An open request names a port only while the
/// machine is selecting, the enumeration has succeeded and the selection lies
/// in the list; on an empty list, after a failed enumeration and during a
/// session it names none.  Then an open is without effect, whatever is handed
/// in as its result.
pub proof fn lemma_open_needs_device<H>(
    machine: Machine<H>,
    outcome: Result<H, TransportError>,
    protocol: Protocol,
    now: int,
)
    ensures
        machine.device() matches Some(index) ==> {
            &&& machine matches Machine::Selecting { ports: Ok(names), selected, .. }
            &&& index == selected
            &&& 0 <= index < names@.len()
        },
        machine matches Machine::Selecting { ports: Ok(names), .. } && names@.len() == 0
            ==> machine.device() is None,
        machine matches Machine::Selecting { ports: Err(_), .. } ==> machine.device() is None,
        machine is Reading ==> machine.device() is None,
        machine.device() is None ==> machine.opened(outcome, protocol, now) == machine,
{
}

/// A failed open leaves the machine selecting, with the same list and the
/// same selection, and with the failure on record.
pub proof fn lemma_open_failure_keeps_selection<H>(
    machine: Machine<H>,
    error: TransportError,
    protocol: Protocol,
    now: int,
)
    requires
        machine.device() is Some,
    ensures
        machine.opened(Err(error), protocol, now) matches Machine::Selecting {
            ports,
            selected,
            creation_error,
        } && ports == machine->Selecting_ports && selected == machine->selected && creation_error
            == Some(error),
        machine.opened(Err(error), protocol, now).device() == machine.device(),
{
}

/// Every session starts afresh.  After a reload that finds a port, whatever
/// the machine held before, the next successful open gives a history of zeros
/// with the cursor on slot 0, a decoder that carries nothing, a rate of zero
/// and a first window that begins at the time of the open.
pub proof fn lemma_reload_then_open_is_fresh<H>(
    names: Vec<String>,
    port: H,
    protocol: Protocol,
    now: int,
)
    requires
        names@.len() > 0,
        0 <= now,
    ensures
        Machine::<H>::selecting(Ok(names)) is Selecting,
        Machine::<H>::selecting(Ok(names)).device() == Some(0int),
        Machine::<H>::selecting(Ok(names)).opened(Ok(port), protocol, now)
            == Machine::fresh_reading(port, protocol, now),
        Machine::fresh_reading(port, protocol, now).wf(),
        Machine::fresh_reading(port, protocol, now) matches Machine::Reading {
            ring,
            decoder,
            meter,
            ..
        } && {
            &&& ring.cursor == 0
            &&& ring.slots.len() == RING_CAPACITY
            &&& forall|slot: int| 0 <= slot < RING_CAPACITY ==> ring.slots[slot] == 0
            &&& decoder == DecoderModel::fresh(protocol)
            &&& meter.rate == 0
            &&& meter.count == 0
        },
{
}

/// A pass keeps a session in order: the machine stays reading on the same
/// transport, and the history keeps its number of slots.
pub proof fn lemma_acquire_keeps_session<H>(machine: Machine<H>, raw: Seq<u8>, now: int)
    requires
        machine.wf(),
        machine is Reading,
    ensures
        machine.acquired(raw, now).wf(),
        machine.acquired(raw, now) matches Machine::Reading { port, ring, .. } && port
            == machine->port && ring.capacity() == machine->ring.capacity(),
{
    let decoder = machine->Reading_decoder;
    lemma_push_all(machine->ring, decoder.samples(raw));
    match decoder {
        DecoderModel::Ascii(window) => {
            lemma_pass_keeps_window(window, raw);
        },
        DecoderModel::Binary => {},
    }
}

/// A pass over no bytes only ticks the rate window.
pub proof fn lemma_idle_acquire<H>(machine: Machine<H>, now: int)
    requires
        machine.wf(),
        machine is Reading,
    ensures
        machine.acquired(Seq::empty(), now) == (Machine::Reading {
            port: machine->port,
            ring: machine->ring,
            decoder: machine->Reading_decoder,
            meter: machine->meter.tick(now),
        }),
{
    lemma_idle_decode(machine->Reading_decoder);
}

/// The history does not depend on how the transport cuts the byte stream
/// into reads.  Two passes over `first` and `second` leave the history and
/// the decoder as one pass over `first + second` does.  For the text format
/// this holds where the window has room for all the bytes and no pass drops
/// an overlong frame; for the binary format, where `first` ends on a frame
/// boundary.
pub proof fn lemma_split_acquire<H>(
    machine: Machine<H>,
    first: Seq<u8>,
    second: Seq<u8>,
    between: int,
    now: int,
)
    requires
        machine.wf(),
        machine matches Machine::Reading { decoder, .. } && match decoder {
            DecoderModel::Ascii(window) => {
                &&& window.carry.len() + first.len() + second.len() <= window.capacity
                &&& !window.overflows(first)
                &&& !window.overflows(first + second)
            },
            DecoderModel::Binary => first.len() % 2 == 0,
        },
    ensures
        machine.acquired(first, between).acquired(second, now) matches Machine::Reading {
            ring,
            decoder,
            ..
        } && machine.acquired(first + second, now) matches Machine::Reading {
            ring: ring_at_once,
            decoder: decoder_at_once,
            ..
        } && ring == ring_at_once && decoder == decoder_at_once,
{
    let ring = machine->ring;
    let decoder = machine->Reading_decoder;
    match decoder {
        DecoderModel::Ascii(window) => {
            lemma_two_reads_as_one(window, first, second);
        },
        DecoderModel::Binary => {
            lemma_binary_split(first, second);
        },
    }
    lemma_push_all_add(ring, decoder.samples(first), decoder.after(first).samples(second));
}

} // verus!
