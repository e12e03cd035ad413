//! Recording implementations of the host resource traits and of the
//! transport, with optional fault injection.
//!
//! Each mock stores its history as plain data, so a test can drive the
//! library and then inspect exactly which transitions reached the wires.

use vstd::prelude::*;

use crate::hal::{Delay, OutputPin, SpiDevice};
use crate::interface::{Interface, InterfaceKind, Packet};
use crate::models::ili9225::ILI9225Rgb565;
use crate::models::Model;
use crate::options::{ColorInversion, ColorOrder, ModelOptions, Orientation, Rotation};
use crate::Display;

verus! {

/// The error every mock reports when a fault is injected.
#[derive(Debug, Clone, Copy, PartialEq, Eq, Structural)]
pub struct MockError;

/// An output pin that records every write attempt, and can be told to fail
/// one attempt.
pub struct MockOutputPin {
    log: Vec<Option<bool>>,
    fail_at: Option<usize>,
}

impl MockOutputPin {
    /// A pin that acknowledges every write.
    pub fn new() -> (r: Self)
        ensures
            r.ops() == Seq::<Option<bool>>::empty(),
    {
        MockOutputPin { log: Vec::new(), fail_at: None }
    }

    /// A pin whose write attempt number `n` (counting from zero) fails.
    pub fn failing_at(n: usize) -> (r: Self)
        ensures
            r.ops() == Seq::<Option<bool>>::empty(),
    {
        MockOutputPin { log: Vec::new(), fail_at: Some(n) }
    }

    /// The recorded write attempts.
    pub fn history(&self) -> (r: &Vec<Option<bool>>)
        ensures
            r@ == self.ops(),
    {
        &self.log
    }
}

impl OutputPin for MockOutputPin {
    type Error = MockError;

    closed spec fn ops(&self) -> Seq<Option<bool>> {
        self.log@
    }

    fn set_low(&mut self) -> (r: Result<(), MockError>) {
        match self.fail_at {
            Some(n) if n == self.log.len() => {
                self.log.push(None);
                Err(MockError)
            },
            _ => {
                self.log.push(Some(false));
                Ok(())
            },
        }
    }

    fn set_high(&mut self) -> (r: Result<(), MockError>) {
        match self.fail_at {
            Some(n) if n == self.log.len() => {
                self.log.push(None);
                Err(MockError)
            },
            _ => {
                self.log.push(Some(true));
                Ok(())
            },
        }
    }
}

/// A serial bus that records every acknowledged burst, and can be told to
/// fail one burst.
pub struct MockSpi {
    log: Vec<Vec<u8>>,
    fail_at: Option<usize>,
}

impl MockSpi {
    /// A bus that acknowledges every burst.
    pub fn new() -> (r: Self)
        ensures
            r.writes() == Seq::<Seq<u8>>::empty(),
    {
        MockSpi { log: Vec::new(), fail_at: None }
    }

    /// A bus whose burst number `n` (counting from zero) fails.
    pub fn failing_at(n: usize) -> (r: Self)
        ensures
            r.writes() == Seq::<Seq<u8>>::empty(),
    {
        MockSpi { log: Vec::new(), fail_at: Some(n) }
    }

    /// The recorded bursts.
    pub fn bursts(&self) -> (r: &Vec<Vec<u8>>)
        ensures
            r@.map_values(|burst: Vec<u8>| burst@) == self.writes(),
    {
        &self.log
    }
}

impl SpiDevice for MockSpi {
    type Error = MockError;

    closed spec fn writes(&self) -> Seq<Seq<u8>> {
        self.log@.map_values(|burst: Vec<u8>| burst@)
    }

    fn write(&mut self, words: &[u8]) -> (r: Result<(), MockError>) {
        match self.fail_at {
            Some(n) if n == self.log.len() => Err(MockError),
            _ => {
                let burst = vstd::slice::slice_to_vec(words);
                self.log.push(burst);
                proof {
                    assert(self.log@.map_values(|b: Vec<u8>| b@) =~= old(
                        self,
                    ).log@.map_values(|b: Vec<u8>| b@).push(words@));
                }
                Ok(())
            },
        }
    }
}

/// A delay provider that records every wait.
pub struct MockDelay {
    log: Vec<u32>,
}

impl MockDelay {
    /// A delay provider with an empty history.
    pub fn new() -> (r: Self)
        ensures
            r.waits() == Seq::<u32>::empty(),
    {
        MockDelay { log: Vec::new() }
    }

    /// The recorded waits, in microseconds.
    pub fn waited(&self) -> (r: &Vec<u32>)
        ensures
            r@ == self.waits(),
    {
        &self.log
    }
}

impl Delay for MockDelay {
    closed spec fn waits(&self) -> Seq<u32> {
        self.log@
    }

    fn delay_us(&mut self, us: u32) {
        self.log.push(us);
    }
}

/// One packet as a transport mock records it.
#[derive(Debug, Clone, PartialEq, Eq)]
pub enum MockPacket {
    /// A command with its parameter bytes.
    Command(u8, Vec<u8>),
    /// A burst of data words.
    Data(Vec<u8>),
}

/// The packet a recorded entry stands for.
pub open spec fn mock_packet_view(p: MockPacket) -> Packet<u8> {
    match p {
        MockPacket::Command(instruction, parameters) => Packet::Command {
            instruction,
            parameters: parameters@,
        },
        MockPacket::Data(words) => Packet::Data { words: words@ },
    }
}

/// A transport that records every packet it completes, and can be told to
/// fail one operation.
pub struct MockDisplayInterface {
    log: Vec<MockPacket>,
    fail_at: Option<usize>,
}

impl MockDisplayInterface {
    /// A transport that completes every packet.
    pub fn new() -> (r: Self)
        ensures
            r.taken() == Seq::<Packet<u8>>::empty(),
    {
        MockDisplayInterface { log: Vec::new(), fail_at: None }
    }

    /// A transport whose operation number `n` (counting from zero) fails.
    pub fn failing_at(n: usize) -> (r: Self)
        ensures
            r.taken() == Seq::<Packet<u8>>::empty(),
    {
        MockDisplayInterface { log: Vec::new(), fail_at: Some(n) }
    }

    /// The recorded packets.
    pub fn records(&self) -> (r: &Vec<MockPacket>)
        ensures
            r@.map_values(|p: MockPacket| mock_packet_view(p)) == self.taken(),
    {
        &self.log
    }
}

impl Interface for MockDisplayInterface {
    type Word = u8;

    type Error = MockError;

    const KIND: InterfaceKind = InterfaceKind::Serial4Line;

    open spec fn inv(&self) -> bool {
        true
    }

    closed spec fn taken(&self) -> Seq<Packet<u8>> {
        self.log@.map_values(|p: MockPacket| mock_packet_view(p))
    }

    fn send_command(&mut self, command: u8, args: &[u8]) -> (r: Result<(), MockError>) {
        match self.fail_at {
            Some(n) if n == self.log.len() => Err(MockError),
            _ => {
                let parameters = vstd::slice::slice_to_vec(args);
                self.log.push(MockPacket::Command(command, parameters));
                proof {
                    assert(self.taken() =~= old(self).taken().push(
                        Packet::Command { instruction: command, parameters: args@ },
                    ));
                }
                Ok(())
            },
        }
    }

    fn send_data_slice(&mut self, data: &[u8]) -> (r: Result<(), MockError>) {
        match self.fail_at {
            Some(n) if n == self.log.len() => Err(MockError),
            _ => {
                let words = vstd::slice::slice_to_vec(data);
                self.log.push(MockPacket::Data(words));
                proof {
                    assert(self.taken() =~= old(self).taken().push(Packet::Data { words: data@ }));
                }
                Ok(())
            },
        }
    }
}

/// Builds a display over the recording transport and the ILI9225 model,
/// running the bring-up sequence against it.
pub fn new_mock_display() -> (r: Display<MockDisplayInterface, ILI9225Rgb565, MockOutputPin>)
    ensures
        r.wf(),
        !r.spec_sleeping(),
{
    let mut di = MockDisplayInterface::new();
    let mut delay = MockDelay::new();
    let mut model = ILI9225Rgb565;
    let options = ModelOptions {
        orientation: Orientation { rotation: Rotation::Deg0, mirrored: false },
        color_order: ColorOrder::Rgb,
        invert_colors: ColorInversion::Normal,
        display_size: (176, 220),
        display_offset: (0, 0),
    };
    let _ = model.init(&mut di, &mut delay, &options);
    Display::new(di, model, None, options)
}

} // verus!
