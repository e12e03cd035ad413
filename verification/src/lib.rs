//! A verified driver core for dot-matrix TFT display controllers spoken to
//! over a byte-oriented command/data transport.
//!
//! The crate covers the transport abstraction (serial and parallel wire
//! variants sharing one contract), the orientation transform that maps a
//! logical rectangle onto the controller's native addressing registers, the
//! byte-packing framebuffer, the sleep/wake state machine and the
//! pin-diffing optimization of the parallel bus. Every transport operation
//! is specified by the packets it completes and the wire transitions it
//! drives.

pub mod dcs;
pub mod graphics;
pub mod hal;
pub mod interface;
pub mod mock;
pub mod models;
pub mod options;
pub mod raw_framebuf;

use vstd::prelude::*;

use crate::hal::{Delay, OutputPin};
use crate::interface::{cmds_to_packets, Interface, Packet};
use crate::models::Model;
use crate::options::{spec_mapped_offset, ModelOptions, Orientation, TearingEffect};

verus! {

/// Display driver: connects the orientation transform, the power state
/// machine and a controller model to a transport.
pub struct Display<DI, M, RST> where DI: Interface, M: Model, RST: OutputPin {
    di: DI,
    model: M,
    rst: Option<RST>,
    options: ModelOptions,
    sleeping: bool,
}

impl<DI, M, RST> Display<DI, M, RST> where DI: Interface, M: Model, RST: OutputPin {
    /// The packets the transport has completed.
    pub closed spec fn transcript(&self) -> Seq<Packet<DI::Word>> {
        self.di.taken()
    }

    /// The current options, including the orientation.
    pub closed spec fn spec_options(&self) -> ModelOptions {
        self.options
    }

    /// Whether the display has been put to sleep.
    pub closed spec fn spec_sleeping(&self) -> bool {
        self.sleeping
    }

    /// The transport is healthy and the visible window fits inside the
    /// controller's memory on both axes.
    pub closed spec fn wf(&self) -> bool {
        &&& self.di.inv()
        &&& self.options.display_size.0 + self.options.display_offset.0
            <= M::framebuffer_size_spec().0
        &&& self.options.display_size.1 + self.options.display_offset.1
            <= M::framebuffer_size_spec().1
    }

    /// The physical offset of the visible window under the current
    /// orientation.
    pub open spec fn spec_offset(&self) -> (int, int) {
        spec_mapped_offset(
            self.spec_options().orientation,
            M::framebuffer_size_spec(),
            self.spec_options().display_size,
            self.spec_options().display_offset,
        )
    }

    /// The translated end coordinates still fit the addressing registers.
    pub open spec fn window_fits(&self, ex: u16, ey: u16) -> bool {
        &&& ex + self.spec_offset().0 <= u16::MAX
        &&& ey + self.spec_offset().1 <= u16::MAX
    }

    /// The packets one raw transfer completes when it goes through: the
    /// address window commands at the transformed coordinates, the
    /// memory-write start, and one data packet.
    pub open spec fn spec_transfer_packets(
        &self,
        x: u16,
        y: u16,
        width: u16,
        height: u16,
        words: Seq<DI::Word>,
    ) -> Seq<Packet<DI::Word>> {
        cmds_to_packets::<DI::Word>(
            M::window_cmds(
                self.spec_options().orientation.rotation,
                (x + self.spec_offset().0) as u16,
                (y + self.spec_offset().1) as u16,
                (x + width - 1 + self.spec_offset().0) as u16,
                (y + height - 1 + self.spec_offset().1) as u16,
            ),
        ) + cmds_to_packets::<DI::Word>(M::memory_start_cmds()) + seq![
            Packet::<DI::Word>::Data { words },
        ]
    }

    /// Creates a driver over a transport, a controller model and an
    /// optional reset pin. The caller has brought the controller up, so the
    /// display starts awake.
    pub fn new(di: DI, model: M, rst: Option<RST>, options: ModelOptions) -> (r: Self)
        requires
            di.inv(),
            options.display_size.0 + options.display_offset.0 <= M::framebuffer_size_spec().0,
            options.display_size.1 + options.display_offset.1 <= M::framebuffer_size_spec().1,
        ensures
            r.wf(),
            r.transcript() == di.taken(),
            r.spec_options() == options,
            !r.spec_sleeping(),
    {
        Display { di, model, rst, options, sleeping: false }
    }

    /// Returns the currently set orientation.
    pub fn orientation(&self) -> (r: Orientation)
        ensures
            r == self.spec_options().orientation,
    {
        self.options.orientation
    }

    /// Sets the display orientation and applies it to the controller. The
    /// new orientation is stored even when the transport fails.
    pub fn set_orientation(&mut self, orientation: Orientation) -> (r: Result<(), DI::Error>)
        requires
            old(self).wf(),
        ensures
            final(self).wf(),
            final(self).spec_options() == (ModelOptions {
                orientation,
                ..old(self).spec_options()
            }),
            final(self).spec_sleeping() == old(self).spec_sleeping(),
            r is Ok ==> final(self).transcript() == old(self).transcript()
                + cmds_to_packets::<DI::Word>(
                M::options_cmds(final(self).spec_options()),
            ),
            r is Err ==> exists|k: int|
                0 <= k <= M::options_cmds(final(self).spec_options()).len() && final(self).transcript() == old(self).transcript() + cmds_to_packets::<DI::Word>(
                    #[trigger] M::options_cmds(final(self).spec_options()).take(k),
                ),
    {
        self.options.orientation = orientation;
        self.model.update_options(&mut self.di, &self.options)
    }

    /// Sends raw pixel data to the rectangle starting at `(x, y)`: sets the
    /// address window through the orientation transform, begins the memory
    /// write, and streams the whole slice in one burst.
    ///
    /// The slice must hold exactly the words the window takes in the
    /// controller's native format; nothing checks this, as on the wire.
    pub fn show_raw_data(
        &mut self,
        x: u16,
        y: u16,
        width: u16,
        height: u16,
        pixel_data: &[DI::Word],
    ) -> (r: Result<(), DI::Error>)
        requires
            old(self).wf(),
            width >= 1,
            height >= 1,
            x + width - 1 <= u16::MAX,
            y + height - 1 <= u16::MAX,
            old(self).window_fits((x + width - 1) as u16, (y + height - 1) as u16),
        ensures
            final(self).wf(),
            final(self).spec_options() == old(self).spec_options(),
            final(self).spec_sleeping() == old(self).spec_sleeping(),
            r is Ok ==> final(self).transcript() == old(self).transcript() + old(self).spec_transfer_packets(x, y, width, height, pixel_data@),
            // on failure the transcript grew by at most a prefix of the
            // transfer's packets: the first failing step's error is
            // returned, later steps are never attempted, and nothing is
            // retried
            r is Err ==> exists|k: int|
                0 <= k <= old(self).spec_transfer_packets(x, y, width, height, pixel_data@).len()
                    && final(self).transcript() == old(self).transcript() + #[trigger] old(self).spec_transfer_packets(x, y, width, height, pixel_data@).take(k),
    {
        let ex = x + (width - 1);
        let ey = y + (height - 1);
        let ghost full = old(self).spec_transfer_packets(x, y, width, height, pixel_data@);
        let ghost window = M::window_cmds(
            old(self).spec_options().orientation.rotation,
            (x + old(self).spec_offset().0) as u16,
            (y + old(self).spec_offset().1) as u16,
            (x + width - 1 + old(self).spec_offset().0) as u16,
            (y + height - 1 + old(self).spec_offset().1) as u16,
        );
        match self.set_address_window(x, y, ex, ey) {
            Err(e) => {
                proof {
                    let k = choose|k: int|
                        0 <= k <= window.len() && self.transcript() == old(self).transcript()
                            + cmds_to_packets::<DI::Word>(#[trigger] window.take(k));
                    assert(cmds_to_packets::<DI::Word>(window.take(k)) =~= cmds_to_packets::<
                        DI::Word,
                    >(window).take(k));
                    assert(full.take(k) =~= cmds_to_packets::<DI::Word>(window).take(k));
                    assert(self.transcript() == old(self).transcript() + full.take(k));
                }
                return Err(e);
            },
            Ok(()) => {},
        }
        match M::write_memory_start(&mut self.di) {
            Err(e) => {
                proof {
                    let k = choose|k: int|
                        0 <= k <= M::memory_start_cmds().len() && self.di.taken() == old(self).transcript() + cmds_to_packets::<DI::Word>(window) + cmds_to_packets::<
                            DI::Word,
                        >(#[trigger] M::memory_start_cmds().take(k));
                    let j = window.len() as int + k;
                    assert(cmds_to_packets::<DI::Word>(M::memory_start_cmds().take(k))
                        =~= cmds_to_packets::<DI::Word>(M::memory_start_cmds()).take(k));
                    assert(full.take(j) =~= cmds_to_packets::<DI::Word>(window)
                        + cmds_to_packets::<DI::Word>(M::memory_start_cmds()).take(k));
                    assert(self.transcript() == old(self).transcript() + full.take(j));
                }
                return Err(e);
            },
            Ok(()) => {},
        }
        match self.di.send_data_slice(pixel_data) {
            Err(e) => {
                proof {
                    let j = window.len() as int + M::memory_start_cmds().len() as int;
                    assert(full.take(j) =~= cmds_to_packets::<DI::Word>(window)
                        + cmds_to_packets::<DI::Word>(M::memory_start_cmds()));
                    assert(self.transcript() == old(self).transcript() + full.take(j));
                }
                return Err(e);
            },
            Ok(()) => {},
        }
        proof {
            assert(full.take(full.len() as int) =~= full);
        }
        Ok(())
    }

    /// Sets the address window: translates the logical rectangle by the
    /// physical offset of the visible window and programs the controller's
    /// addressing registers.
    fn set_address_window(&mut self, sx: u16, sy: u16, ex: u16, ey: u16) -> (r: Result<
        (),
        DI::Error,
    >)
        requires
            old(self).wf(),
            sx <= ex,
            sy <= ey,
            old(self).window_fits(ex, ey),
        ensures
            final(self).wf(),
            final(self).spec_options() == old(self).spec_options(),
            final(self).spec_sleeping() == old(self).spec_sleeping(),
            r is Ok ==> final(self).transcript() == old(self).transcript()
                + cmds_to_packets::<DI::Word>(
                M::window_cmds(
                    old(self).spec_options().orientation.rotation,
                    (sx + old(self).spec_offset().0) as u16,
                    (sy + old(self).spec_offset().1) as u16,
                    (ex + old(self).spec_offset().0) as u16,
                    (ey + old(self).spec_offset().1) as u16,
                ),
            ),
            // on failure at most a prefix of the window commands was sent
            r is Err ==> exists|k: int|
                0 <= k <= M::window_cmds(
                    old(self).spec_options().orientation.rotation,
                    (sx + old(self).spec_offset().0) as u16,
                    (sy + old(self).spec_offset().1) as u16,
                    (ex + old(self).spec_offset().0) as u16,
                    (ey + old(self).spec_offset().1) as u16,
                ).len() && final(self).transcript() == old(self).transcript()
                    + cmds_to_packets::<DI::Word>(
                    #[trigger] M::window_cmds(
                        old(self).spec_options().orientation.rotation,
                        (sx + old(self).spec_offset().0) as u16,
                        (sy + old(self).spec_offset().1) as u16,
                        (ex + old(self).spec_offset().0) as u16,
                        (ey + old(self).spec_offset().1) as u16,
                    ).take(k),
                ),
    {
        let offset = options::mapped_offset(
            self.options.orientation,
            M::framebuffer_size(),
            self.options.display_size,
            self.options.display_offset,
        );
        M::update_address_window(
            &mut self.di,
            self.options.orientation.rotation,
            sx + offset.0,
            sy + offset.1,
            ex + offset.0,
            ey + offset.1,
        )
    }

    /// Sets the vertical scroll region: the two fixed areas are not
    /// affected by scrolling. Scrolling is always relative to the default
    /// orientation.
    pub fn set_vertical_scroll_region(
        &mut self,
        top_fixed_area: u16,
        bottom_fixed_area: u16,
    ) -> (r: Result<(), DI::Error>)
        requires
            old(self).wf(),
        ensures
            final(self).wf(),
            final(self).spec_options() == old(self).spec_options(),
            final(self).spec_sleeping() == old(self).spec_sleeping(),
            r is Ok ==> final(self).transcript() == old(self).transcript()
                + cmds_to_packets::<DI::Word>(
                M::scroll_region_cmds(top_fixed_area, bottom_fixed_area),
            ),
            r is Err ==> exists|k: int|
                0 <= k <= M::scroll_region_cmds(top_fixed_area, bottom_fixed_area).len() && final(self).transcript() == old(self).transcript() + cmds_to_packets::<DI::Word>(
                    #[trigger] M::scroll_region_cmds(top_fixed_area, bottom_fixed_area).take(k),
                ),
    {
        M::set_vertical_scroll_region(&mut self.di, top_fixed_area, bottom_fixed_area)
    }

    /// Sets the vertical scroll offset, shifting the scroll region upwards
    /// by `offset` pixels.
    pub fn set_vertical_scroll_offset(&mut self, offset: u16) -> (r: Result<(), DI::Error>)
        requires
            old(self).wf(),
        ensures
            final(self).wf(),
            final(self).spec_options() == old(self).spec_options(),
            final(self).spec_sleeping() == old(self).spec_sleeping(),
            r is Ok ==> final(self).transcript() == old(self).transcript()
                + cmds_to_packets::<DI::Word>(M::scroll_offset_cmds(offset)),
            r is Err ==> exists|k: int|
                0 <= k <= M::scroll_offset_cmds(offset).len() && final(self).transcript() == old(self).transcript() + cmds_to_packets::<DI::Word>(
                    #[trigger] M::scroll_offset_cmds(offset).take(k),
                ),
    {
        M::set_vertical_scroll_offset(&mut self.di, offset)
    }

    /// Configures the tearing effect output.
    pub fn set_tearing_effect(&mut self, tearing_effect: TearingEffect) -> (r: Result<
        (),
        DI::Error,
    >)
        requires
            old(self).wf(),
        ensures
            final(self).wf(),
            final(self).spec_options() == old(self).spec_options(),
            final(self).spec_sleeping() == old(self).spec_sleeping(),
            r is Ok ==> final(self).transcript() == old(self).transcript()
                + cmds_to_packets::<DI::Word>(
                M::tearing_cmds(tearing_effect, old(self).spec_options()),
            ),
            r is Err ==> exists|k: int|
                0 <= k <= M::tearing_cmds(tearing_effect, old(self).spec_options()).len() && final(self).transcript() == old(self).transcript() + cmds_to_packets::<DI::Word>(
                    #[trigger] M::tearing_cmds(tearing_effect, old(self).spec_options()).take(k),
                ),
    {
        M::set_tearing_effect(&mut self.di, tearing_effect, &self.options)
    }

    /// Returns whether the display is currently set to sleep.
    pub fn is_sleeping(&self) -> (r: bool)
        ensures
            r == self.spec_sleeping(),
    {
        self.sleeping
    }

    /// Puts the display to sleep. The state changes only when the whole
    /// sleep sequence went through.
    pub fn sleep<D: Delay>(&mut self, delay: &mut D) -> (r: Result<(), DI::Error>)
        requires
            old(self).wf(),
        ensures
            final(self).wf(),
            final(self).spec_options() == old(self).spec_options(),
            r is Ok ==> final(self).spec_sleeping() && final(self).transcript() == old(self).transcript() + cmds_to_packets::<DI::Word>(M::sleep_cmds()) && final(delay).waits()
                == old(delay).waits() + M::sleep_waits(),
            r is Err ==> exists|k: int|
                0 <= k <= M::sleep_cmds().len() && final(self).transcript() == old(self).transcript() + cmds_to_packets::<DI::Word>(#[trigger] M::sleep_cmds().take(k)),
            r is Err ==> final(self).spec_sleeping() == old(self).spec_sleeping(),
    {
        match M::sleep(&mut self.di, delay) {
            Err(e) => Err(e),
            Ok(()) => {
                self.sleeping = true;
                Ok(())
            },
        }
    }

    /// Wakes the display after [`Self::sleep`]. The state changes only when
    /// the whole wake sequence went through.
    pub fn wake<D: Delay>(&mut self, delay: &mut D) -> (r: Result<(), DI::Error>)
        requires
            old(self).wf(),
        ensures
            final(self).wf(),
            final(self).spec_options() == old(self).spec_options(),
            r is Ok ==> !final(self).spec_sleeping() && final(self).transcript() == old(self).transcript() + cmds_to_packets::<DI::Word>(M::wake_cmds()) && final(delay).waits()
                == old(delay).waits() + M::wake_waits(),
            r is Err ==> exists|k: int|
                0 <= k <= M::wake_cmds().len() && final(self).transcript() == old(self).transcript() + cmds_to_packets::<DI::Word>(#[trigger] M::wake_cmds().take(k)),
            r is Err ==> final(self).spec_sleeping() == old(self).spec_sleeping(),
    {
        match M::wake(&mut self.di, delay) {
            Err(e) => Err(e),
            Ok(()) => {
                self.sleeping = false;
                Ok(())
            },
        }
    }

    /// Returns the transport for sending raw commands.
    ///
    /// Raw commands can configure controller state the rest of the driver
    /// does not track; the transcript still records whatever is sent.
    pub fn dcs(&mut self) -> (r: &mut DI)
        ensures
            (*r).taken() == old(self).transcript(),
            final(self).transcript() == (*final(r)).taken(),
            final(self).spec_options() == old(self).spec_options(),
            final(self).spec_sleeping() == old(self).spec_sleeping(),
            old(self).wf() ==> (*r).inv(),
            old(self).wf() && (*final(r)).inv() ==> final(self).wf(),
    {
        &mut self.di
    }

    /// Releases the transport, the model and the reset pin, deconstructing
    /// the driver.
    pub fn release(self) -> (r: (DI, M, Option<RST>))
        ensures
            r.0.taken() == self.transcript(),
            self.wf() ==> r.0.inv(),
    {
        (self.di, self.model, self.rst)
    }
}

} // verus!
