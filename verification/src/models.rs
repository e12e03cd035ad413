//! The controller capability interface: what a display controller model
//! must provide, and the generic runner for vendor initialization tables.

pub mod ili9225;

use vstd::prelude::*;

use crate::hal::Delay;
use crate::interface::{cmds_to_packets, Interface};
use crate::options::{ModelOptions, Rotation, TearingEffect};

verus! {

/// Error of a controller bring-up.
#[derive(Clone, Copy, Debug)]
pub enum ModelInitError<E> {
    /// The transport failed while the initialization commands were sent.
    Interface(E),
}

/// One step of a vendor initialization table: a command with its parameter
/// bytes, or a mandated settle time.
pub enum InitStep {
    /// An instruction byte and its parameter bytes.
    Command(u8, Vec<u8>),
    /// A wait, in microseconds.
    DelayUs(u32),
}

/// The mathematical form of one initialization step.
pub enum InitStepView {
    /// An instruction byte and its parameter bytes.
    Command(u8, Seq<u8>),
    /// A wait, in microseconds.
    DelayUs(u32),
}

/// The mathematical form of an initialization step.
pub open spec fn init_step_view(step: InitStep) -> InitStepView {
    match step {
        InitStep::Command(instruction, parameters) => InitStepView::Command(
            instruction,
            parameters@,
        ),
        InitStep::DelayUs(us) => InitStepView::DelayUs(us),
    }
}

/// The mathematical form of an initialization table.
pub open spec fn steps_view(steps: Seq<InitStep>) -> Seq<InitStepView> {
    steps.map_values(|step: InitStep| init_step_view(step))
}

/// The commands of an initialization table, in order.
pub open spec fn table_cmds(steps: Seq<InitStepView>) -> Seq<(u8, Seq<u8>)>
    decreases steps.len(),
{
    if steps.len() == 0 {
        Seq::empty()
    } else {
        table_cmds(steps.drop_last()) + (match steps.last() {
            InitStepView::Command(instruction, parameters) => seq![(instruction, parameters)],
            InitStepView::DelayUs(_) => Seq::<(u8, Seq<u8>)>::empty(),
        })
    }
}

/// The waits of an initialization table, in order, in microseconds.
pub open spec fn table_waits(steps: Seq<InitStepView>) -> Seq<u32>
    decreases steps.len(),
{
    if steps.len() == 0 {
        Seq::empty()
    } else {
        table_waits(steps.drop_last()) + (match steps.last() {
            InitStepView::Command(..) => Seq::<u32>::empty(),
            InitStepView::DelayUs(us) => seq![us],
        })
    }
}

/// Builds a two-parameter command step.
pub fn cmd2(instruction: u8, high: u8, low: u8) -> (step: InitStep)
    ensures
        init_step_view(step) == InitStepView::Command(instruction, seq![high, low]),
{
    let mut parameters = Vec::new();
    parameters.push(high);
    parameters.push(low);
    proof {
        assert(parameters@ =~= seq![high, low]);
    }
    InitStep::Command(instruction, parameters)
}

/// The commands of a table prefix are a prefix of the table's commands.
proof fn lemma_table_cmds_take(steps: Seq<InitStepView>, i: int)
    requires
        0 <= i <= steps.len(),
    ensures
        table_cmds(steps.take(i)).len() <= table_cmds(steps).len(),
        table_cmds(steps.take(i)) == table_cmds(steps).take(
            table_cmds(steps.take(i)).len() as int,
        ),
    decreases steps.len() - i,
{
    if i == steps.len() {
        assert(steps.take(i) =~= steps);
        assert(table_cmds(steps).take(table_cmds(steps).len() as int) =~= table_cmds(steps));
    } else {
        lemma_table_cmds_take(steps, i + 1);
        let cur = steps.take(i);
        let next = steps.take(i + 1);
        assert(next.drop_last() =~= cur);
        let len_next = table_cmds(next).len() as int;
        let len_cur = table_cmds(cur).len() as int;
        assert(table_cmds(cur) =~= table_cmds(next).take(len_cur));
        assert(table_cmds(steps).take(len_next).take(len_cur) =~= table_cmds(steps).take(
            len_cur,
        ));
    }
}

/// Runs an initialization table: sends each command through the transport,
/// performs each wait, and stops at the first transport error.
pub fn run_init_sequence<DI: Interface, D: Delay>(
    di: &mut DI,
    delay: &mut D,
    steps: &Vec<InitStep>,
) -> (r: Result<(), DI::Error>)
    requires
        old(di).inv(),
    ensures
        final(di).inv(),
        r is Ok ==> final(di).taken() == old(di).taken() + cmds_to_packets::<DI::Word>(
            table_cmds(steps_view(steps@)),
        ) && final(delay).waits() == old(delay).waits() + table_waits(steps_view(steps@)),
        r is Err ==> exists|k: int|
            0 <= k <= table_cmds(steps_view(steps@)).len() && final(di).taken() == old(di).taken()
                + cmds_to_packets::<DI::Word>(#[trigger] table_cmds(steps_view(steps@)).take(k)),
{
    let mut i: usize = 0;
    while i < steps.len()
        invariant
            old(di).inv(),
            di.inv(),
            i <= steps@.len(),
            di.taken() == old(di).taken() + cmds_to_packets::<DI::Word>(
                table_cmds(steps_view(steps@.take(i as int))),
            ),
            delay.waits() == old(delay).waits() + table_waits(steps_view(steps@.take(i as int))),
        decreases steps@.len() - i,
    {
        let ghost prefix = steps_view(steps@.take(i as int));
        let ghost next = steps_view(steps@.take(i + 1 as int));
        proof {
            assert(next.drop_last() =~= prefix);
            assert(next.last() == init_step_view(steps@[i as int]));
        }
        match &steps[i] {
            InitStep::Command(instruction, parameters) => {
                match di.send_command(*instruction, parameters.as_slice()) {
                    Err(e) => {
                        proof {
                            let full = steps_view(steps@);
                            lemma_table_cmds_take(full, i as int);
                            assert(full.take(i as int) =~= steps_view(steps@.take(i as int)));
                            assert(di.taken() =~= old(di).taken() + cmds_to_packets::<DI::Word>(
                                table_cmds(full).take(
                                    table_cmds(full.take(i as int)).len() as int,
                                ),
                            ));
                        }
                        return Err(e);
                    },
                    Ok(()) => {},
                }
                proof {
                    assert(table_cmds(next) =~= table_cmds(prefix).push(
                        (steps@[i as int]->Command_0, steps@[i as int]->Command_1@),
                    ));
                    assert(table_waits(next) =~= table_waits(prefix));
                    assert(di.taken() =~= old(di).taken() + cmds_to_packets::<DI::Word>(
                        table_cmds(next),
                    ));
                }
            },
            InitStep::DelayUs(us) => {
                delay.delay_us(*us);
                proof {
                    assert(table_cmds(next) =~= table_cmds(prefix));
                    assert(table_waits(next) =~= table_waits(prefix).push(
                        steps@[i as int]->DelayUs_0,
                    ));
                    assert(delay.waits() =~= old(delay).waits() + table_waits(next));
                }
            },
        }
        i += 1;
    }
    proof {
        assert(steps@.take(steps@.len() as int) =~= steps@);
    }
    Ok(())
}

/// A display controller model: its constants and the command sequences it
/// issues for each operation of the driver.
///
/// Each operation is specified by the commands it sends; the spec functions
/// name those sequences so that the driver's own contracts can state exactly
/// what reaches the transport.
pub trait Model: Sized {
    /// Native size of the controller's memory, in the default orientation.
    spec fn framebuffer_size_spec() -> (u16, u16);

    /// Duration of a reset pulse, in microseconds.
    spec fn reset_duration_spec() -> u32;

    /// Commands sent by a successful bring-up.
    spec fn init_cmds(options: ModelOptions) -> Seq<(u8, Seq<u8>)>;

    /// Waits performed by a successful bring-up, in microseconds.
    spec fn init_waits(options: ModelOptions) -> Seq<u32>;

    /// Commands that set the address window.
    spec fn window_cmds(rotation: Rotation, sx: u16, sy: u16, ex: u16, ey: u16) -> Seq<
        (u8, Seq<u8>),
    >;

    /// Commands that begin a memory write.
    spec fn memory_start_cmds() -> Seq<(u8, Seq<u8>)>;

    /// Commands that apply the model options.
    spec fn options_cmds(options: ModelOptions) -> Seq<(u8, Seq<u8>)>;

    /// Commands that configure the tearing effect output.
    spec fn tearing_cmds(tearing_effect: TearingEffect, options: ModelOptions) -> Seq<
        (u8, Seq<u8>),
    >;

    /// Commands that set the vertical scroll region.
    spec fn scroll_region_cmds(top_fixed_area: u16, bottom_fixed_area: u16) -> Seq<(u8, Seq<u8>)>;

    /// Commands that set the vertical scroll offset.
    spec fn scroll_offset_cmds(offset: u16) -> Seq<(u8, Seq<u8>)>;

    /// Commands of the sleep sequence.
    spec fn sleep_cmds() -> Seq<(u8, Seq<u8>)>;

    /// Waits of the sleep sequence, in microseconds.
    spec fn sleep_waits() -> Seq<u32>;

    /// Commands of the wake sequence.
    spec fn wake_cmds() -> Seq<(u8, Seq<u8>)>;

    /// Waits of the wake sequence, in microseconds.
    spec fn wake_waits() -> Seq<u32>;

    /// Native size of the controller's memory, in the default orientation.
    fn framebuffer_size() -> (r: (u16, u16))
        ensures
            r == Self::framebuffer_size_spec(),
    ;

    /// Duration of a reset pulse, in microseconds.
    fn reset_duration() -> (r: u32)
        ensures
            r == Self::reset_duration_spec(),
    ;

    /// Brings the controller up, sending the vendor initialization sequence
    /// with its mandated settle times.
    fn init<DI: Interface, D: Delay>(
        &mut self,
        di: &mut DI,
        delay: &mut D,
        options: &ModelOptions,
    ) -> (r: Result<(), ModelInitError<DI::Error>>)
        requires
            old(di).inv(),
        ensures
            final(di).inv(),
            r is Ok ==> final(di).taken() == old(di).taken() + cmds_to_packets::<DI::Word>(
                Self::init_cmds(*options),
            ) && final(delay).waits() == old(delay).waits() + Self::init_waits(*options),
            r is Err ==> exists|k: int|
                0 <= k <= Self::init_cmds(*options).len() && final(di).taken() == old(di).taken()
                    + cmds_to_packets::<DI::Word>(#[trigger] Self::init_cmds(*options).take(k)),
    ;

    /// Sets the address window for the following memory write.
    fn update_address_window<DI: Interface>(
        di: &mut DI,
        rotation: Rotation,
        sx: u16,
        sy: u16,
        ex: u16,
        ey: u16,
    ) -> (r: Result<(), DI::Error>)
        requires
            old(di).inv(),
        ensures
            final(di).inv(),
            r is Ok ==> final(di).taken() == old(di).taken() + cmds_to_packets::<DI::Word>(
                Self::window_cmds(rotation, sx, sy, ex, ey),
            ),
            r is Err ==> exists|k: int|
                0 <= k <= Self::window_cmds(rotation, sx, sy, ex, ey).len() && final(di).taken() == old(di).taken()
                    + cmds_to_packets::<DI::Word>(#[trigger] Self::window_cmds(rotation, sx, sy, ex, ey).take(k)),
    ;

    /// Begins a memory write.
    fn write_memory_start<DI: Interface>(di: &mut DI) -> (r: Result<(), DI::Error>)
        requires
            old(di).inv(),
        ensures
            final(di).inv(),
            r is Ok ==> final(di).taken() == old(di).taken() + cmds_to_packets::<DI::Word>(
                Self::memory_start_cmds(),
            ),
            r is Err ==> exists|k: int|
                0 <= k <= Self::memory_start_cmds().len() && final(di).taken() == old(di).taken()
                    + cmds_to_packets::<DI::Word>(#[trigger] Self::memory_start_cmds().take(k)),
    ;

    /// Applies the model options to the controller.
    fn update_options<DI: Interface>(&self, di: &mut DI, options: &ModelOptions) -> (r: Result<
        (),
        DI::Error,
    >)
        requires
            old(di).inv(),
        ensures
            final(di).inv(),
            r is Ok ==> final(di).taken() == old(di).taken() + cmds_to_packets::<DI::Word>(
                Self::options_cmds(*options),
            ),
            r is Err ==> exists|k: int|
                0 <= k <= Self::options_cmds(*options).len() && final(di).taken() == old(di).taken()
                    + cmds_to_packets::<DI::Word>(#[trigger] Self::options_cmds(*options).take(k)),
    ;

    /// Configures the tearing effect output.
    fn set_tearing_effect<DI: Interface>(
        di: &mut DI,
        tearing_effect: TearingEffect,
        options: &ModelOptions,
    ) -> (r: Result<(), DI::Error>)
        requires
            old(di).inv(),
        ensures
            final(di).inv(),
            r is Ok ==> final(di).taken() == old(di).taken() + cmds_to_packets::<DI::Word>(
                Self::tearing_cmds(tearing_effect, *options),
            ),
            r is Err ==> exists|k: int|
                0 <= k <= Self::tearing_cmds(tearing_effect, *options).len() && final(di).taken() == old(di).taken()
                    + cmds_to_packets::<DI::Word>(#[trigger] Self::tearing_cmds(tearing_effect, *options).take(k)),
    ;

    /// Sets the vertical scroll region.
    fn set_vertical_scroll_region<DI: Interface>(
        di: &mut DI,
        top_fixed_area: u16,
        bottom_fixed_area: u16,
    ) -> (r: Result<(), DI::Error>)
        requires
            old(di).inv(),
        ensures
            final(di).inv(),
            r is Ok ==> final(di).taken() == old(di).taken() + cmds_to_packets::<DI::Word>(
                Self::scroll_region_cmds(top_fixed_area, bottom_fixed_area),
            ),
            r is Err ==> exists|k: int|
                0 <= k <= Self::scroll_region_cmds(top_fixed_area, bottom_fixed_area).len() && final(di).taken() == old(di).taken()
                    + cmds_to_packets::<DI::Word>(#[trigger] Self::scroll_region_cmds(top_fixed_area, bottom_fixed_area).take(k)),
    ;

    /// Sets the vertical scroll offset.
    fn set_vertical_scroll_offset<DI: Interface>(di: &mut DI, offset: u16) -> (r: Result<
        (),
        DI::Error,
    >)
        requires
            old(di).inv(),
        ensures
            final(di).inv(),
            r is Ok ==> final(di).taken() == old(di).taken() + cmds_to_packets::<DI::Word>(
                Self::scroll_offset_cmds(offset),
            ),
            r is Err ==> exists|k: int|
                0 <= k <= Self::scroll_offset_cmds(offset).len() && final(di).taken() == old(di).taken()
                    + cmds_to_packets::<DI::Word>(#[trigger] Self::scroll_offset_cmds(offset).take(k)),
    ;

    /// Puts the controller to sleep.
    fn sleep<DI: Interface, D: Delay>(di: &mut DI, delay: &mut D) -> (r: Result<(), DI::Error>)
        requires
            old(di).inv(),
        ensures
            final(di).inv(),
            r is Ok ==> final(di).taken() == old(di).taken() + cmds_to_packets::<DI::Word>(
                Self::sleep_cmds(),
            ) && final(delay).waits() == old(delay).waits() + Self::sleep_waits(),
            r is Err ==> exists|k: int|
                0 <= k <= Self::sleep_cmds().len() && final(di).taken() == old(di).taken()
                    + cmds_to_packets::<DI::Word>(#[trigger] Self::sleep_cmds().take(k)),
    ;

    /// Wakes the controller from sleep.
    fn wake<DI: Interface, D: Delay>(di: &mut DI, delay: &mut D) -> (r: Result<(), DI::Error>)
        requires
            old(di).inv(),
        ensures
            final(di).inv(),
            r is Ok ==> final(di).taken() == old(di).taken() + cmds_to_packets::<DI::Word>(
                Self::wake_cmds(),
            ) && final(delay).waits() == old(delay).waits() + Self::wake_waits(),
            r is Err ==> exists|k: int|
                0 <= k <= Self::wake_cmds().len() && final(di).taken() == old(di).taken()
                    + cmds_to_packets::<DI::Word>(#[trigger] Self::wake_cmds().take(k)),
    ;
}

} // verus!
