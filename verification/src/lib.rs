//! Acquisition core of a serial oscilloscope: frame decoding for the two wire
//! formats of the sampling device, the circular store of decoded samples, the
//! one-second throughput window and the connection state machine that ties
//! them together.  All input and output (the serial link, the clock, the
//! display) is performed by the caller and handed in as plain values.

pub mod ascii;
pub mod binary;
pub mod decoder;
pub mod rate;
pub mod ring;
pub mod state;
pub mod window;
