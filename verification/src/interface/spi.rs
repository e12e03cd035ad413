//! Serial transport: a clocked byte bus plus a data/command selector line.

use vstd::prelude::*;

use crate::hal::{OutputPin, SpiDevice};
use crate::interface::{selector_ops, Interface, InterfaceKind, Packet};

verus! {

/// Error of the serial transport, tagged by source.
#[derive(Clone, Copy, Debug)]
pub enum SpiError<SPI, DC> {
    /// Serial bus error.
    Spi(SPI),
    /// Data/command selector pin error.
    Dc(DC),
}

/// The bursts a sequence of packets puts on the serial bus: one burst for a
/// command's instruction byte, one for its parameter bytes, and one per data
/// slice.
pub open spec fn serial_bursts(log: Seq<Packet<u8>>) -> Seq<Seq<u8>>
    decreases log.len(),
{
    if log.len() == 0 {
        Seq::empty()
    } else {
        serial_bursts(log.drop_last()) + (match log.last() {
            Packet::Command { instruction, parameters } => seq![seq![instruction], parameters],
            Packet::Data { words } => seq![words],
        })
    }
}

/// Serial transport: drives the selector low, sends the instruction byte in
/// one burst, drives the selector high, sends the parameter bytes in one
/// burst; data slices are streamed unmodified in a single burst.
///
/// The inherent [`Self::send_command`] and [`Self::send_data_slice`] carry
/// the wire-level contract: a successful operation extends the bus and
/// selector histories by exactly its encoding and keeps the transport
/// healthy, so [`lemma_serial_wire_format`] stays applicable across any
/// succeeding sequence of operations. After a failure the wire state is
/// unspecified and the transport stops claiming anything about it.
pub struct SpiInterface<SPI, DC> {
    spi: SPI,
    dc: DC,
    log: Ghost<Seq<Packet<u8>>>,
    spi_base: Ghost<Seq<Seq<u8>>>,
    dc_base: Ghost<Seq<Option<bool>>>,
    poisoned: Ghost<bool>,
}

impl<SPI, DC> SpiInterface<SPI, DC> where SPI: SpiDevice, DC: OutputPin {
    /// The bursts the underlying bus has acknowledged.
    pub closed spec fn spi_writes(&self) -> Seq<Seq<u8>> {
        self.spi.writes()
    }

    /// The write attempts on the selector pin.
    pub closed spec fn dc_ops(&self) -> Seq<Option<bool>> {
        self.dc.ops()
    }

    /// The bus history at construction time.
    pub closed spec fn spi_base(&self) -> Seq<Seq<u8>> {
        self.spi_base@
    }

    /// The selector history at construction time.
    pub closed spec fn dc_base(&self) -> Seq<Option<bool>> {
        self.dc_base@
    }

    /// Whether some operation has failed since construction.
    pub closed spec fn poisoned(&self) -> bool {
        self.poisoned@
    }

    /// Create a serial transport from a bus and a selector pin.
    pub fn new(spi: SPI, dc: DC) -> (r: Self)
        ensures
            r.inv(),
            r.taken() == Seq::<Packet<u8>>::empty(),
            !r.poisoned(),
            r.spi_base() == spi.writes(),
            r.dc_base() == dc.ops(),
            r.spi_writes() == spi.writes(),
            r.dc_ops() == dc.ops(),
    {
        let r = SpiInterface {
            spi_base: Ghost(spi.writes()),
            dc_base: Ghost(dc.ops()),
            spi,
            dc,
            log: Ghost(Seq::empty()),
            poisoned: Ghost(false),
        };
        proof {
            assert(serial_bursts(r.taken()) =~= Seq::<Seq<u8>>::empty());
            assert(selector_ops(r.taken()) =~= Seq::<Option<bool>>::empty());
            assert(r.spi_writes() =~= r.spi_base() + serial_bursts(r.taken()));
            assert(r.dc_ops() =~= r.dc_base() + selector_ops(r.taken()));
        }
        r
    }

    /// Release the bus and the selector pin, deconstructing the transport.
    pub fn release(self) -> (r: (SPI, DC))
        ensures
            r.0.writes() == self.spi_writes(),
            r.1.ops() == self.dc_ops(),
    {
        (self.spi, self.dc)
    }

    /// Sends a command: selector low, the instruction byte in one burst,
    /// selector high, the parameter bytes in one burst. The selector is
    /// left high (data mode), so a following data slice needs no
    /// re-selection. Nothing is retried; the first failure aborts the
    /// remaining steps, and bursts already accepted by the bus stay sent.
    ///
    /// This inherent method carries the wire-level contract; the
    /// [`Interface`] impl delegates to it.
    pub fn send_command(&mut self, command: u8, args: &[u8]) -> (r: Result<
        (),
        SpiError<SPI::Error, DC::Error>,
    >)
        requires
            old(self).inv(),
        ensures
            final(self).inv(),
            final(self).spi_base() == old(self).spi_base(),
            final(self).dc_base() == old(self).dc_base(),
            r is Ok ==> final(self).taken() == old(self).taken().push(
                Packet::Command { instruction: command, parameters: args@ },
            ),
            r is Err ==> final(self).taken() == old(self).taken(),
            // a successful command keeps the transport healthy and puts
            // exactly two bursts on the bus, around the selector going low
            // then high
            r is Ok ==> final(self).poisoned() == old(self).poisoned() && final(self).spi_writes()
                == old(self).spi_writes() + seq![seq![command], args@] && final(self).dc_ops()
                == old(self).dc_ops() + seq![Some(false), Some(true)],
            // a selector fault carries the Dc tag: either the first
            // transition failed before anything reached the bus, or the
            // second failed after the instruction burst
            r matches Err(SpiError::Dc(_)) ==> (final(self).dc_ops() == old(self).dc_ops().push(
                None,
            ) && final(self).spi_writes() == old(self).spi_writes()) || (final(self).dc_ops()
                == old(self).dc_ops() + seq![Some(false), None] && final(self).spi_writes() == old(
                self,
            ).spi_writes().push(seq![command])),
            // a bus fault carries the Spi tag; the selector history shows
            // which of the two bursts failed
            r matches Err(SpiError::Spi(_)) ==> final(self).dc_ops() == old(self).dc_ops().push(
                Some(false),
            ) || final(self).dc_ops() == old(self).dc_ops() + seq![Some(false), Some(true)],
    {
        match self.dc.set_low() {
            Err(e) => {
                self.poisoned = Ghost(true);
                return Err(SpiError::Dc(e));
            },
            Ok(()) => {},
        }
        let command_burst = [command];
        match self.spi.write(&command_burst) {
            Err(e) => {
                self.poisoned = Ghost(true);
                return Err(SpiError::Spi(e));
            },
            Ok(()) => {},
        }
        match self.dc.set_high() {
            Err(e) => {
                self.poisoned = Ghost(true);
                proof {
                    assert(self.dc.ops() =~= old(self).dc.ops() + seq![Some(false), None]);
                    assert(command_burst@ =~= seq![command]);
                }
                return Err(SpiError::Dc(e));
            },
            Ok(()) => {},
        }
        match self.spi.write(args) {
            Err(e) => {
                self.poisoned = Ghost(true);
                proof {
                    assert(self.dc.ops() =~= old(self).dc.ops() + seq![Some(false), Some(true)]);
                }
                return Err(SpiError::Spi(e));
            },
            Ok(()) => {},
        }
        let packet = Ghost(Packet::<u8>::Command { instruction: command, parameters: args@ });
        self.log = Ghost(self.log@.push(packet@));
        proof {
            let prev = old(self).taken();
            assert(self.taken().drop_last() =~= prev);
            assert(command_burst@ =~= seq![command]);
            assert(self.spi.writes() =~= old(self).spi.writes() + seq![seq![command], args@]);
            assert(self.dc.ops() =~= old(self).dc.ops() + seq![Some(false), Some(true)]);
            if !self.poisoned@ {
                assert(serial_bursts(self.taken()) =~= serial_bursts(prev) + seq![
                    seq![command],
                    args@,
                ]);
                assert(selector_ops(self.taken()) =~= selector_ops(prev) + seq![
                    Some(false),
                    Some(true),
                ]);
                assert(self.spi_writes() =~= self.spi_base() + serial_bursts(self.taken()));
                assert(self.dc_ops() =~= self.dc_base() + selector_ops(self.taken()));
            }
        }
        Ok(())
    }

    /// Streams the caller's slice in a single burst, the selector untouched
    /// (it stays in data mode from the preceding command). Only the bus can
    /// fail here.
    ///
    /// This inherent method carries the wire-level contract; the
    /// [`Interface`] impl delegates to it.
    pub fn send_data_slice(&mut self, data: &[u8]) -> (r: Result<
        (),
        SpiError<SPI::Error, DC::Error>,
    >)
        requires
            old(self).inv(),
        ensures
            final(self).inv(),
            final(self).spi_base() == old(self).spi_base(),
            final(self).dc_base() == old(self).dc_base(),
            r is Ok ==> final(self).taken() == old(self).taken().push(
                Packet::Data { words: data@ },
            ),
            r is Err ==> final(self).taken() == old(self).taken(),
            // a successful data slice keeps the transport healthy and puts
            // exactly one burst, the caller's slice unmodified, on the bus
            r is Ok ==> final(self).poisoned() == old(self).poisoned() && final(self).spi_writes()
                == old(self).spi_writes().push(data@),
            // the selector is never touched
            final(self).dc_ops() == old(self).dc_ops(),
            // only the bus can fail
            r is Err ==> r matches Err(SpiError::Spi(_)),
    {
        match self.spi.write(data) {
            Err(e) => {
                self.poisoned = Ghost(true);
                return Err(SpiError::Spi(e));
            },
            Ok(()) => {},
        }
        let packet = Ghost(Packet::<u8>::Data { words: data@ });
        self.log = Ghost(self.log@.push(packet@));
        proof {
            let prev = old(self).taken();
            assert(self.taken().drop_last() =~= prev);
            if !self.poisoned@ {
                assert(serial_bursts(self.taken()) =~= serial_bursts(prev) + seq![data@]);
                assert(selector_ops(self.taken()) =~= selector_ops(prev));
                assert(self.spi_writes() =~= self.spi_base() + serial_bursts(self.taken()));
                assert(self.dc_ops() =~= self.dc_base() + selector_ops(self.taken()));
            }
        }
        Ok(())
    }
}

impl<SPI, DC> Interface for SpiInterface<SPI, DC> where SPI: SpiDevice, DC: OutputPin {
    type Word = u8;

    type Error = SpiError<SPI::Error, DC::Error>;

    const KIND: InterfaceKind = InterfaceKind::Serial4Line;

    open spec fn inv(&self) -> bool {
        !self.poisoned() ==> {
            &&& self.spi_writes() == self.spi_base() + serial_bursts(self.taken())
            &&& self.dc_ops() == self.dc_base() + selector_ops(self.taken())
        }
    }

    closed spec fn taken(&self) -> Seq<Packet<u8>> {
        self.log@
    }

    fn send_command(&mut self, command: u8, args: &[u8]) -> (r: Result<
        (),
        SpiError<SPI::Error, DC::Error>,
    >) {
        self.send_command(command, args)
    }

    fn send_data_slice(&mut self, data: &[u8]) -> (r: Result<
        (),
        SpiError<SPI::Error, DC::Error>,
    >) {
        self.send_data_slice(data)
    }
}

/// Law: the serial wire format. As long as no operation of a serial
/// transport has failed, the bursts on the bus are exactly the wire encoding
/// of the completed packets — per command, the instruction byte alone and
/// then the parameter bytes; per data slice, the slice itself — and the
/// selector was driven low before each instruction burst and high before its
/// parameter burst. The success clauses of [`SpiInterface::send_command`]
/// and [`SpiInterface::send_data_slice`] preserve `!poisoned()`, so this law
/// holds after any sequence of successful operations.
pub proof fn lemma_serial_wire_format<SPI, DC>(transport: &SpiInterface<SPI, DC>) where
    SPI: SpiDevice,
    DC: OutputPin,

    requires
        transport.inv(),
        !transport.poisoned(),
    ensures
        transport.spi_writes() == transport.spi_base() + serial_bursts(transport.taken()),
        transport.dc_ops() == transport.dc_base() + selector_ops(transport.taken()),
{
}

} // verus!
