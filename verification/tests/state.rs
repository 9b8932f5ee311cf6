use oscilloscope::decoder::{Decoder, Protocol, ReadRequest, WINDOW_CAPACITY};
use oscilloscope::state::{
    DataBits, FlowControl, OpenRequest, Parity, PortSettings, State, StopBits, TransportError,
    TransportErrorKind, BAUD_RATE, READ_TIMEOUT_SECS, RING_CAPACITY,
};

type Handle = &'static str;

fn names(list: &[&str]) -> Vec<String> {
    list.iter().map(|name| name.to_string()).collect()
}

fn failure(kind: TransportErrorKind, description: &str) -> TransportError {
    TransportError { kind, description: description.to_string() }
}

fn reading(protocol: Protocol, now: u64) -> State<Handle> {
    let mut state: State<Handle> =
        State::new_selecting_serial_port(Ok(names(&["/dev/ttyACM0"])));
    state.open_result(Ok("handle"), protocol, now);
    state
}

#[test]
fn machine_starts_selecting_the_first_port() {
    let state: State<Handle> = State::new_selecting_serial_port(Ok(names(&["a", "b"])));
    assert!(!state.is_reading());
    match state {
        State::SelectingSerialPort { ports, selected, creation_error } => {
            assert_eq!(ports, Ok(names(&["a", "b"])));
            assert_eq!(selected, 0);
            assert_eq!(creation_error, None);
        }
        State::Reading { .. } => panic!("a new machine reads nothing"),
    }
}

#[test]
fn failed_enumeration_is_part_of_the_state() {
    let error = failure(TransportErrorKind::Unknown, "no bus");
    let state: State<Handle> =
        State::new_selecting_serial_port(Err(failure(TransportErrorKind::Unknown, "no bus")));
    assert_eq!(state.open_request(Parity::Off), None);
    match state {
        State::SelectingSerialPort { ports, .. } => assert_eq!(ports, Err(error)),
        State::Reading { .. } => panic!("a failed enumeration opens nothing"),
    }
}

#[test]
fn open_on_an_empty_list_attempts_nothing() {
    let state: State<Handle> = State::new_selecting_serial_port(Ok(Vec::new()));
    assert_eq!(state.open_request(Parity::Off), None);
    assert_eq!(state.read_request(), None);
}

#[test]
fn open_result_without_a_device_is_dropped() {
    let mut state: State<Handle> = State::new_selecting_serial_port(Ok(Vec::new()));
    assert!(!state.has_device());
    state.open_result(Ok("stray"), Protocol::Ascii, 0);
    assert!(!state.is_reading());
    state.open_result(Err(failure(TransportErrorKind::InvalidInput, "stray")), Protocol::Ascii, 0);
    match &state {
        State::SelectingSerialPort { ports, selected, creation_error } => {
            assert_eq!(*ports, Ok(Vec::new()));
            assert_eq!(*selected, 0);
            assert_eq!(*creation_error, None);
        }
        State::Reading { .. } => panic!("there was nothing to open"),
    }
    let mut failed: State<Handle> =
        State::new_selecting_serial_port(Err(failure(TransportErrorKind::Unknown, "no bus")));
    failed.open_result(Ok("stray"), Protocol::Binary, 0);
    assert!(!failed.is_reading());
    assert!(!failed.has_device());
}

#[test]
fn device_is_present_while_the_selection_lies_in_the_list() {
    let mut state: State<Handle> = State::new_selecting_serial_port(Ok(names(&["a", "b"])));
    assert!(state.has_device());
    state.select_port(1);
    assert!(state.has_device());
    state.open_result(Ok("handle"), Protocol::Ascii, 0);
    assert!(!state.has_device());
    let stale: State<Handle> = State::SelectingSerialPort {
        ports: Ok(names(&["a"])),
        selected: 3,
        creation_error: None,
    };
    assert!(!stale.has_device());
    assert_eq!(stale.open_request(Parity::Off), None);
}

#[test]
fn open_names_the_selected_port_with_the_device_settings() {
    let mut state: State<Handle> = State::new_selecting_serial_port(Ok(names(&["a", "b", "c"])));
    state.select_port(2);
    let expected = OpenRequest {
        port_name: "c".to_string(),
        settings: PortSettings {
            baud_rate: 9600,
            data_bits: DataBits::Eight,
            flow_control: FlowControl::Off,
            parity: Parity::Even,
            stop_bits: StopBits::One,
            timeout_secs: 10,
        },
    };
    assert_eq!(state.open_request(Parity::Even), Some(expected));
}

#[test]
fn device_settings_take_the_given_parity() {
    assert_eq!(BAUD_RATE, 9600);
    assert_eq!(READ_TIMEOUT_SECS, 10);
    for parity in [Parity::Off, Parity::Odd, Parity::Even] {
        let settings = PortSettings::for_device(parity);
        assert_eq!(settings.parity, parity);
        assert_eq!(settings.baud_rate, 9600);
        assert_eq!(settings.data_bits, DataBits::Eight);
        assert_eq!(settings.flow_control, FlowControl::Off);
        assert_eq!(settings.stop_bits, StopBits::One);
        assert_eq!(settings.timeout_secs, 10);
    }
}

#[test]
fn selection_outside_the_list_is_not_taken_up() {
    let mut state: State<Handle> = State::new_selecting_serial_port(Ok(names(&["a", "b"])));
    state.select_port(1);
    state.select_port(2);
    match &state {
        State::SelectingSerialPort { selected, .. } => assert_eq!(*selected, 1),
        State::Reading { .. } => panic!("selecting opens nothing"),
    }
    assert_eq!(state.open_request(Parity::Off).map(|order| order.port_name), Some("b".to_string()));
}

#[test]
fn successful_open_starts_a_fresh_session() {
    let state = reading(Protocol::Ascii, 500);
    assert!(state.is_reading());
    match &state {
        State::Reading { port, value_buf, decoder, rate } => {
            assert_eq!(*port, "handle");
            assert_eq!(value_buf.capacity(), RING_CAPACITY);
            assert_eq!(value_buf.cursor(), 0);
            assert_eq!(value_buf.snapshot(), vec![0u64; 128].as_slice());
            assert_eq!(decoder.protocol(), Protocol::Ascii);
            assert_eq!(decoder.read_request(), ReadRequest::UpTo(WINDOW_CAPACITY));
            assert_eq!(rate.current_rate(), 0);
            assert_eq!(rate.count(), 0);
            assert_eq!(rate.next_boundary(), 1500);
        }
        State::SelectingSerialPort { .. } => panic!("the open succeeded"),
    }
    assert_eq!(state.open_request(Parity::Off), None);
}

#[test]
fn failed_open_is_put_on_record_and_keeps_the_selection() {
    let mut state: State<Handle> = State::new_selecting_serial_port(Ok(names(&["a", "b"])));
    state.select_port(1);
    state.open_result(Err(failure(TransportErrorKind::NoDevice, "busy")), Protocol::Ascii, 0);
    assert!(!state.is_reading());
    match &state {
        State::SelectingSerialPort { ports, selected, creation_error } => {
            assert_eq!(*ports, Ok(names(&["a", "b"])));
            assert_eq!(*selected, 1);
            assert_eq!(*creation_error, Some(failure(TransportErrorKind::NoDevice, "busy")));
        }
        State::Reading { .. } => panic!("the open failed"),
    }
    assert_eq!(state.open_request(Parity::Off).map(|order| order.port_name), Some("b".to_string()));
}

#[test]
fn open_result_during_a_session_changes_nothing() {
    let mut state = reading(Protocol::Ascii, 0);
    state.acquire(b"7,", 10);
    state.open_result(Ok("other"), Protocol::Binary, 20);
    match &state {
        State::Reading { port, value_buf, decoder, .. } => {
            assert_eq!(*port, "handle");
            assert_eq!(value_buf.snapshot()[0], 7);
            assert_eq!(decoder.protocol(), Protocol::Ascii);
        }
        State::SelectingSerialPort { .. } => panic!("the session goes on"),
    }
}

#[test]
fn reload_from_reading_selects_again() {
    let mut state = reading(Protocol::Ascii, 0);
    state.acquire(b"1,2,3", 10);
    state.reload(Ok(names(&["x"])));
    assert!(!state.is_reading());
    match &state {
        State::SelectingSerialPort { ports, selected, creation_error } => {
            assert_eq!(*ports, Ok(names(&["x"])));
            assert_eq!(*selected, 0);
            assert_eq!(*creation_error, None);
        }
        State::Reading { .. } => panic!("a reload ends the session"),
    }
}

#[test]
fn session_after_a_reload_starts_with_an_empty_history() {
    let mut state = reading(Protocol::Ascii, 0);
    state.acquire(b"1,2,3", 10);
    state.reload(Ok(names(&["x"])));
    state.open_result(Ok("again"), Protocol::Ascii, 7000);
    match &state {
        State::Reading { port, value_buf, decoder, rate } => {
            assert_eq!(*port, "again");
            assert_eq!(value_buf.snapshot(), vec![0u64; 128].as_slice());
            assert_eq!(value_buf.cursor(), 0);
            assert_eq!(decoder.read_request(), ReadRequest::UpTo(128));
            assert_eq!(rate.current_rate(), 0);
            assert_eq!(rate.next_boundary(), 8000);
        }
        State::SelectingSerialPort { .. } => panic!("the open succeeded"),
    }
    let pass = state.acquire(b",", 7001);
    assert_eq!(pass.samples, vec![0]);
}

#[test]
fn reload_clears_the_error_on_record() {
    let mut state: State<Handle> = State::new_selecting_serial_port(Ok(names(&["a"])));
    state.open_result(Err(failure(TransportErrorKind::Io, "denied")), Protocol::Ascii, 0);
    state.reload(Ok(Vec::new()));
    match &state {
        State::SelectingSerialPort { ports, creation_error, .. } => {
            assert_eq!(*ports, Ok(Vec::new()));
            assert_eq!(*creation_error, None);
        }
        State::Reading { .. } => panic!("a reload opens nothing"),
    }
    assert_eq!(state.open_request(Parity::Off), None);
}

#[test]
fn pass_puts_samples_into_history_and_count() {
    let mut state = reading(Protocol::Ascii, 0);
    let pass = state.acquire(b"5,32,1", 100);
    assert_eq!(pass.samples, vec![5, 23]);
    assert_eq!(pass.accepted, 6);
    match &state {
        State::Reading { value_buf, decoder, rate, .. } => {
            assert_eq!(&value_buf.snapshot()[..3], &[5, 23, 0]);
            assert_eq!(value_buf.cursor(), 2);
            assert_eq!(decoder.read_request(), ReadRequest::UpTo(127));
            assert_eq!(rate.count(), 2);
            assert_eq!(rate.current_rate(), 0);
        }
        State::SelectingSerialPort { .. } => panic!("the session goes on"),
    }
    assert_eq!(state.read_request(), Some(ReadRequest::UpTo(127)));
}

#[test]
fn pass_ticks_the_rate_once_after_counting() {
    let mut state = reading(Protocol::Ascii, 0);
    state.acquire(b"1,2,3,", 400);
    state.acquire(b"4,5,", 1000);
    match &state {
        State::Reading { rate, .. } => {
            assert_eq!(rate.current_rate(), 5);
            assert_eq!(rate.count(), 0);
            assert_eq!(rate.next_boundary(), 2000);
        }
        State::SelectingSerialPort { .. } => panic!("the session goes on"),
    }
    state.acquire(b"", 1500);
    state.acquire(b"6,", 1999);
    match &state {
        State::Reading { rate, .. } => {
            assert_eq!(rate.current_rate(), 5);
            assert_eq!(rate.count(), 1);
        }
        State::SelectingSerialPort { .. } => panic!("the session goes on"),
    }
}

#[test]
fn pass_without_bytes_changes_neither_history_nor_decoder() {
    let mut state = reading(Protocol::Ascii, 0);
    state.acquire(b"9,8", 10);
    let pass = state.acquire(b"", 20);
    assert!(pass.samples.is_empty());
    assert_eq!(pass.accepted, 0);
    match &state {
        State::Reading { value_buf, decoder, .. } => {
            assert_eq!(value_buf.snapshot()[0], 9);
            assert_eq!(value_buf.cursor(), 1);
            assert_eq!(decoder.read_request(), ReadRequest::UpTo(127));
        }
        State::SelectingSerialPort { .. } => panic!("the session goes on"),
    }
}

#[test]
fn pass_while_selecting_takes_nothing() {
    let mut state: State<Handle> = State::new_selecting_serial_port(Ok(names(&["a"])));
    let pass = state.acquire(b"1,2,", 10);
    assert_eq!(pass.accepted, 0);
    assert!(pass.samples.is_empty());
    assert!(pass.unrecognized.is_empty());
    assert!(!pass.frame_overflow);
    assert!(!state.is_reading());
}

#[test]
fn history_does_not_depend_on_how_reads_are_cut() {
    let stream: &[u8] = b"1,22,?333,4\x00,55";
    let mut whole = reading(Protocol::Ascii, 0);
    whole.acquire(stream, 10);
    for cut in 0..=stream.len() {
        let mut split = reading(Protocol::Ascii, 0);
        split.acquire(&stream[..cut], 5);
        split.acquire(&stream[cut..], 10);
        match (&whole, &split) {
            (
                State::Reading { value_buf: one, decoder: Decoder::Ascii(left), .. },
                State::Reading { value_buf: other, decoder: Decoder::Ascii(right), .. },
            ) => {
                assert_eq!(one.snapshot(), other.snapshot());
                assert_eq!(one.cursor(), other.cursor());
                assert_eq!(left.carried(), right.carried());
            }
            _ => panic!("both sessions go on"),
        }
    }
}

#[test]
fn binary_session_reads_whole_frames() {
    let mut state = reading(Protocol::Binary, 0);
    assert_eq!(state.read_request(), Some(ReadRequest::WholeFrames(2)));
    let pass = state.acquire(&[0x00, 0x00, 0xFF, 0x03, 0x00, 0x04], 10);
    assert_eq!(pass.samples, vec![0, 1023]);
    assert_eq!(pass.accepted, 6);
    match &state {
        State::Reading { value_buf, decoder, rate, .. } => {
            assert_eq!(&value_buf.snapshot()[..3], &[0, 1023, 0]);
            assert_eq!(value_buf.cursor(), 2);
            assert_eq!(decoder.protocol(), Protocol::Binary);
            assert_eq!(rate.count(), 2);
        }
        State::SelectingSerialPort { .. } => panic!("the session goes on"),
    }
}

#[test]
fn history_wraps_during_a_session() {
    let mut state = reading(Protocol::Binary, 0);
    let mut stream = Vec::new();
    for value in 0..130u16 {
        stream.extend_from_slice(&value.to_le_bytes());
    }
    state.acquire(&stream, 10);
    match &state {
        State::Reading { value_buf, .. } => {
            assert_eq!(value_buf.cursor(), 2);
            assert_eq!(&value_buf.snapshot()[..4], &[128, 129, 2, 3]);
            assert_eq!(value_buf.snapshot()[127], 127);
        }
        State::SelectingSerialPort { .. } => panic!("the session goes on"),
    }
}

#[test]
fn overlong_frame_is_reported_by_the_pass() {
    let mut state = reading(Protocol::Ascii, 0);
    let digits = vec![b'1'; 128];
    let pass = state.acquire(&digits, 10);
    assert!(pass.frame_overflow);
    assert!(pass.samples.is_empty());
    assert_eq!(state.read_request(), Some(ReadRequest::UpTo(128)));
}

#[test]
fn failed_read_ends_the_session_with_the_error_on_record() {
    let mut state = reading(Protocol::Ascii, 0);
    state.acquire(b"1,2", 10);
    state.read_failed(failure(TransportErrorKind::Io, "unplugged"), Ok(names(&["a", "b"])));
    assert!(!state.is_reading());
    match &state {
        State::SelectingSerialPort { ports, selected, creation_error } => {
            assert_eq!(*ports, Ok(names(&["a", "b"])));
            assert_eq!(*selected, 0);
            assert_eq!(*creation_error, Some(failure(TransportErrorKind::Io, "unplugged")));
        }
        State::Reading { .. } => panic!("the session ended"),
    }
}

#[test]
fn failed_read_while_selecting_changes_nothing() {
    let mut state: State<Handle> = State::new_selecting_serial_port(Ok(names(&["a", "b"])));
    state.select_port(1);
    state.read_failed(failure(TransportErrorKind::Io, "late"), Ok(Vec::new()));
    match &state {
        State::SelectingSerialPort { ports, selected, creation_error } => {
            assert_eq!(*ports, Ok(names(&["a", "b"])));
            assert_eq!(*selected, 1);
            assert_eq!(*creation_error, None);
        }
        State::Reading { .. } => panic!("nothing was opened"),
    }
}

#[test]
fn new_reading_starts_a_session_on_the_given_transport() {
    let state: State<Handle> = State::new_reading("direct", Protocol::Binary, 3);
    match &state {
        State::Reading { port, value_buf, decoder, rate } => {
            assert_eq!(*port, "direct");
            assert_eq!(value_buf.snapshot(), vec![0u64; 128].as_slice());
            assert_eq!(decoder.protocol(), Protocol::Binary);
            assert_eq!(rate.next_boundary(), 1003);
        }
        State::SelectingSerialPort { .. } => panic!("the session started"),
    }
}

#[test]
fn decoder_asks_for_reads_that_fit() {
    let mut decoder = Decoder::new(Protocol::Ascii);
    assert_eq!(decoder.read_request(), ReadRequest::UpTo(128));
    decoder.decode(b"123");
    assert_eq!(decoder.read_request(), ReadRequest::UpTo(125));
    let binary = Decoder::new(Protocol::Binary);
    assert_eq!(binary.read_request(), ReadRequest::WholeFrames(2));
}

#[test]
fn decoder_interface_is_the_same_for_both_formats() {
    let mut ascii = Decoder::new(Protocol::Ascii);
    let mut binary = Decoder::new(Protocol::Binary);
    assert_eq!(ascii.decode(b"3201,").samples, vec![1023]);
    assert_eq!(binary.decode(&[0xFF, 0x03]).samples, vec![1023]);
    assert_eq!(ascii.decode(b"").samples, Vec::<u64>::new());
    assert_eq!(binary.decode(&[]).samples, Vec::<u64>::new());
}
