//! Verified core of a dual-source audio capture pipeline: sample queues, a
//! pairing mixer, a nearest-neighbour rate converter, a throttled level
//! meter, the recording session state machine, the decoding of raw capture
//! buffers and the choice of a microphone configuration.
//!
//! Samples travel as the bit patterns of 32-bit floats; the arithmetic on
//! their values is left to the host.

pub mod ring;
pub mod mixer;
pub mod resample;
pub mod meter;
pub mod session;
pub mod decode;
pub mod device;
