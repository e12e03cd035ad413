//! The command and pixel transport: one contract, two wire variants.

mod parallel;
mod spi;
pub use parallel::{
    Generic16BitBus,
    Generic8BitBus,
    OutputBus,
    ParallelError,
    ParallelInterface,
    lemma_parallel_wire_format,
    pin_level,
    strobed_words,
    u16_bit,
    u8_bit,
    words_of_bytes,
};
pub use spi::{SpiError, SpiInterface, serial_bursts, lemma_serial_wire_format};

use vstd::prelude::*;

verus! {

/// One unit taken by a transport: either a command with its parameter bytes,
/// or a burst of raw data words.
pub enum Packet<W> {
    /// An instruction byte followed by its parameter bytes.
    Command {
        /// The instruction byte.
        instruction: u8,
        /// The parameter bytes.
        parameters: Seq<u8>,
    },
    /// Raw data words, typically pre-packed pixel data.
    Data {
        /// The words, in the order they are sent.
        words: Seq<W>,
    },
}

/// The packet for one command, given as instruction and parameter bytes.
pub open spec fn cmd_packet<W>(cmd: (u8, Seq<u8>)) -> Packet<W> {
    Packet::Command { instruction: cmd.0, parameters: cmd.1 }
}

/// The packets for a sequence of commands.
pub open spec fn cmds_to_packets<W>(cmds: Seq<(u8, Seq<u8>)>) -> Seq<Packet<W>> {
    cmds.map_values(|cmd: (u8, Seq<u8>)| cmd_packet::<W>(cmd))
}

/// The selector transitions a sequence of packets drives: low before each
/// instruction byte, high before its parameters; data packets leave the
/// selector untouched. Both wire variants drive the selector alike.
pub open spec fn selector_ops<W>(log: Seq<Packet<W>>) -> Seq<Option<bool>>
    decreases log.len(),
{
    if log.len() == 0 {
        Seq::empty()
    } else {
        selector_ops(log.drop_last()) + (match log.last() {
            Packet::Command { .. } => seq![Some(false), Some(true)],
            Packet::Data { .. } => Seq::<Option<bool>>::empty(),
        })
    }
}

/// Kind of physical connection to the display controller.
#[derive(Debug, Clone, Copy, PartialEq, Eq, Structural)]
#[non_exhaustive]
pub enum InterfaceKind {
    /// Serial interface with a data/command selector pin.
    Serial4Line,
    /// Parallel interface with 8 data pins.
    Parallel8Bit,
    /// Parallel interface with 16 data pins.
    Parallel16Bit,
}

/// Command and pixel interface.
///
/// `taken()` is the sequence of packets the transport has completed, oldest
/// first. A failed operation completes no packet, though bytes already
/// accepted by the wires stay sent; `inv()` is whatever well-formedness the
/// implementation maintains across calls.
pub trait Interface: Sized {
    /// The native word of the interface: `u8` for serial and 8-bit parallel
    /// buses, `u16` for 16-bit parallel buses.
    type Word: Copy;

    /// Error surfaced by a failed operation.
    type Error;

    /// Kind of physical connection.
    const KIND: InterfaceKind;

    /// Well-formedness maintained across calls.
    spec fn inv(&self) -> bool;

    /// Packets completed so far, oldest first.
    spec fn taken(&self) -> Seq<Packet<Self::Word>>;

    /// Sends a command with optional parameters, leaving the transport ready
    /// for data.
    fn send_command(&mut self, command: u8, args: &[u8]) -> (r: Result<(), Self::Error>)
        requires
            old(self).inv(),
        ensures
            final(self).inv(),
            r is Ok ==> final(self).taken() == old(self).taken().push(
                Packet::Command { instruction: command, parameters: args@ },
            ),
            r is Err ==> final(self).taken() == old(self).taken(),
    ;

    /// Sends a raw slice of data words. The command that begins a memory
    /// write must have been sent before.
    fn send_data_slice(&mut self, data: &[Self::Word]) -> (r: Result<(), Self::Error>)
        requires
            old(self).inv(),
        ensures
            final(self).inv(),
            r is Ok ==> final(self).taken() == old(self).taken().push(
                Packet::Data { words: data@ },
            ),
            r is Err ==> final(self).taken() == old(self).taken(),
    ;
}

} // verus!
