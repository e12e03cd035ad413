//! The ILI9225 controller model, driving 16-bit 5-6-5 color.

use vstd::prelude::*;

use crate::hal::Delay;
use crate::interface::{cmds_to_packets, Interface};
use crate::models::{
    cmd2, run_init_sequence, steps_view, table_cmds, table_waits, InitStep, InitStepView, Model,
    ModelInitError,
};
use crate::options::{ColorInversion, ColorOrder, ModelOptions, Rotation, TearingEffect};

verus! {

/// ILI9225 display in 16-bit 5-6-5 color mode.
pub struct ILI9225Rgb565;

pub const ILI9225_POWER_CTRL1: u8 = 0x10;

pub const ILI9225_POWER_CTRL2: u8 = 0x11;

pub const ILI9225_POWER_CTRL3: u8 = 0x12;

pub const ILI9225_POWER_CTRL4: u8 = 0x13;

pub const ILI9225_POWER_CTRL5: u8 = 0x14;

pub const ILI9225_DRIVER_OUTPUT_CTRL: u8 = 0x01;

pub const ILI9225_LCD_AC_DRIVING_CTRL: u8 = 0x02;

pub const ILI9225_ENTRY_MODE: u8 = 0x03;

pub const ILI9225_DISP_CTRL1: u8 = 0x07;

pub const ILI9225_BLANK_PERIOD_CTRL1: u8 = 0x08;

pub const ILI9225_FRAME_CYCLE_CTRL: u8 = 0x0b;

pub const ILI9225_INTERFACE_CTRL: u8 = 0x0c;

pub const ILI9225_OSC_CTRL: u8 = 0x0f;

pub const ILI9225_VCI_RECYCLING: u8 = 0x15;

pub const ILI9225_RAM_ADDR_SET1: u8 = 0x20;

pub const ILI9225_RAM_ADDR_SET2: u8 = 0x21;

pub const ILI9225_GATE_SCAN_CTRL: u8 = 0x30;

pub const ILI9225_VERTICAL_SCROLL_CTRL1: u8 = 0x31;

pub const ILI9225_VERTICAL_SCROLL_CTRL2: u8 = 0x32;

pub const ILI9225_VERTICAL_SCROLL_CTRL3: u8 = 0x33;

pub const ILI9225_PARTIAL_DRIVING_POS1: u8 = 0x34;

pub const ILI9225_PARTIAL_DRIVING_POS2: u8 = 0x35;

pub const ILI9225_HORIZONTAL_WINDOW_ADDR1: u8 = 0x36;

pub const ILI9225_HORIZONTAL_WINDOW_ADDR2: u8 = 0x37;

pub const ILI9225_VERTICAL_WINDOW_ADDR1: u8 = 0x38;

pub const ILI9225_VERTICAL_WINDOW_ADDR2: u8 = 0x39;

pub const ILI9225_GAMMA_CTRL1: u8 = 0x50;

pub const ILI9225_GAMMA_CTRL2: u8 = 0x51;

pub const ILI9225_GAMMA_CTRL3: u8 = 0x52;

pub const ILI9225_GAMMA_CTRL4: u8 = 0x53;

pub const ILI9225_GAMMA_CTRL5: u8 = 0x54;

pub const ILI9225_GAMMA_CTRL6: u8 = 0x55;

pub const ILI9225_GAMMA_CTRL7: u8 = 0x56;

pub const ILI9225_GAMMA_CTRL8: u8 = 0x57;

pub const ILI9225_GAMMA_CTRL9: u8 = 0x58;

pub const ILI9225_GAMMA_CTRL10: u8 = 0x59;

pub const ILI9225_WRITE_MEMORY_START: u8 = 0x22;

/// The big-endian bytes of a 16-bit value.
pub open spec fn be2(v: u16) -> Seq<u8> {
    seq![(v >> 8) as u8, (v & 0xff) as u8]
}

/// Computes the big-endian bytes of a 16-bit value.
fn be_bytes(v: u16) -> (b: [u8; 2])
    ensures
        b@ == be2(v),
{
    proof {
        assert(v >> 8 < 256 && v & 0xff < 256) by (bit_vector);
    }
    let b = [(v >> 8) as u8, (v & 0xff) as u8];
    proof {
        assert(b@ =~= be2(v));
    }
    b
}

/// The high parameter byte of the driver output control command.
pub open spec fn driver_high_byte(options: ModelOptions) -> u8 {
    match options.orientation.rotation {
        Rotation::Deg0 => 0x01,
        Rotation::Deg90 => 0x00,
        Rotation::Deg180 => 0x02,
        Rotation::Deg270 => 0x03,
    }
}

/// The high parameter byte of the entry mode command.
pub open spec fn color_order_byte(options: ModelOptions) -> u8 {
    match options.color_order {
        ColorOrder::Rgb => 0x00,
        ColorOrder::Bgr => 0x10,
    }
}

/// The low parameter byte of the entry mode command.
pub open spec fn entry_low_byte(options: ModelOptions) -> u8 {
    match options.orientation.rotation {
        Rotation::Deg0 | Rotation::Deg180 => 0x38,
        Rotation::Deg90 | Rotation::Deg270 => 0x30,
    }
}

/// The low parameter byte of the display control command.
pub open spec fn spec_ctrl_low(options: ModelOptions) -> u8 {
    0b10011u8 | (match options.invert_colors {
        ColorInversion::Normal => 0u8,
        ColorInversion::Inverted => 0b100u8,
    })
}

/// Computes the low parameter byte of the display control command.
fn options2ctrl_low(options: &ModelOptions) -> (r: u8)
    ensures
        r == spec_ctrl_low(*options),
{
    0b10011 | (match options.invert_colors {
        ColorInversion::Normal => 0,
        ColorInversion::Inverted => 0b100,
    })
}

/// The two option-dependent commands: driver output control and entry mode.
pub open spec fn ili9225_options_cmds(options: ModelOptions) -> Seq<(u8, Seq<u8>)> {
    seq![
        (ILI9225_DRIVER_OUTPUT_CTRL, seq![driver_high_byte(options), 0x1c]),
        (ILI9225_ENTRY_MODE, seq![color_order_byte(options), entry_low_byte(options)]),
    ]
}

/// Sends the two option-dependent commands.
fn options_write_cmd<DI: Interface>(di: &mut DI, options: &ModelOptions) -> (r: Result<
    (),
    DI::Error,
>)
    requires
        old(di).inv(),
    ensures
        final(di).inv(),
        r is Ok ==> final(di).taken() == old(di).taken() + cmds_to_packets::<DI::Word>(
            ili9225_options_cmds(*options),
        ),
        r is Err ==> exists|k: int|
            0 <= k <= ili9225_options_cmds(*options).len() && final(di).taken() == old(di).taken()
                + cmds_to_packets::<DI::Word>(#[trigger] ili9225_options_cmds(*options).take(k)),
{
    let driver_high = match options.orientation.rotation {
        Rotation::Deg0 => 0x01,
        Rotation::Deg90 => 0x00,
        Rotation::Deg180 => 0x02,
        Rotation::Deg270 => 0x03,
    };
    match di.send_command(ILI9225_DRIVER_OUTPUT_CTRL, &[driver_high, 0x1c]) {
        Err(e) => {
            proof {
                assert(di.taken() =~= old(di).taken() + cmds_to_packets::<DI::Word>(
                    ili9225_options_cmds(*options).take(0),
                ));
            }
            return Err(e);
        },
        Ok(()) => {},
    }
    let color_order = match options.color_order {
        ColorOrder::Rgb => 0x00,
        ColorOrder::Bgr => 0x10,
    };
    let entry_low = if options.orientation.rotation.is_vertical() {
        0x38
    } else {
        0x30
    };
    match di.send_command(ILI9225_ENTRY_MODE, &[color_order, entry_low]) {
        Err(e) => {
            proof {
                assert(di.taken() =~= old(di).taken() + cmds_to_packets::<DI::Word>(
                    ili9225_options_cmds(*options).take(1),
                ));
            }
            return Err(e);
        },
        Ok(()) => {},
    }
    proof {
        assert(di.taken() =~= old(di).taken() + cmds_to_packets::<DI::Word>(
            ili9225_options_cmds(*options),
        ));
    }
    Ok(())
}

/// The vendor initialization table: power-up in stages, panel and timing
/// configuration, the option-dependent commands, the GRAM area, the gamma
/// curve, and the display-on sequence.
pub open spec fn ili9225_init_steps(options: ModelOptions) -> Seq<InitStepView> {
    seq![
        InitStepView::Command(ILI9225_POWER_CTRL1, seq![0x00, 0x00]),
        InitStepView::Command(ILI9225_POWER_CTRL2, seq![0x00, 0x00]),
        InitStepView::Command(ILI9225_POWER_CTRL3, seq![0x00, 0x00]),
        InitStepView::Command(ILI9225_POWER_CTRL4, seq![0x00, 0x00]),
        InitStepView::Command(ILI9225_POWER_CTRL5, seq![0x00, 0x00]),
        InitStepView::DelayUs(40000),
        InitStepView::Command(ILI9225_POWER_CTRL1, seq![0x00, 0x18]),
        InitStepView::Command(ILI9225_POWER_CTRL2, seq![0x61, 0x21]),
        InitStepView::Command(ILI9225_POWER_CTRL3, seq![0x00, 0x6f]),
        InitStepView::Command(ILI9225_POWER_CTRL4, seq![0x49, 0x5f]),
        InitStepView::Command(ILI9225_POWER_CTRL5, seq![0x08, 0x00]),
        InitStepView::DelayUs(10000),
        InitStepView::Command(ILI9225_POWER_CTRL2, seq![0x10, 0x3b]),
        InitStepView::DelayUs(30000),
        InitStepView::Command(ILI9225_LCD_AC_DRIVING_CTRL, seq![0x01, 0x00]),
        InitStepView::Command(ILI9225_DRIVER_OUTPUT_CTRL, seq![driver_high_byte(options), 0x1c]),
        InitStepView::Command(
            ILI9225_ENTRY_MODE,
            seq![color_order_byte(options), entry_low_byte(options)],
        ),
        InitStepView::Command(ILI9225_DISP_CTRL1, seq![0x00, 0x00]),
        InitStepView::Command(ILI9225_BLANK_PERIOD_CTRL1, seq![0x08, 0x08]),
        InitStepView::Command(ILI9225_FRAME_CYCLE_CTRL, seq![0x11, 0x00]),
        InitStepView::Command(ILI9225_INTERFACE_CTRL, seq![0x00, 0x00]),
        InitStepView::Command(ILI9225_OSC_CTRL, seq![0x0f, 0x01]),
        InitStepView::Command(ILI9225_VCI_RECYCLING, seq![0x00, 0x20]),
        InitStepView::Command(ILI9225_RAM_ADDR_SET1, seq![0x00, 0x00]),
        InitStepView::Command(ILI9225_RAM_ADDR_SET2, seq![0x00, 0x00]),
        InitStepView::Command(ILI9225_GATE_SCAN_CTRL, seq![0x00, 0x00]),
        InitStepView::Command(ILI9225_VERTICAL_SCROLL_CTRL1, seq![0x00, 0xdb]),
        InitStepView::Command(ILI9225_VERTICAL_SCROLL_CTRL2, seq![0x00, 0x00]),
        InitStepView::Command(ILI9225_VERTICAL_SCROLL_CTRL3, seq![0x00, 0x00]),
        InitStepView::Command(ILI9225_PARTIAL_DRIVING_POS1, seq![0x00, 0xdb]),
        InitStepView::Command(ILI9225_PARTIAL_DRIVING_POS2, seq![0x00, 0x00]),
        InitStepView::Command(ILI9225_HORIZONTAL_WINDOW_ADDR1, seq![0x00, 0xaf]),
        InitStepView::Command(ILI9225_HORIZONTAL_WINDOW_ADDR2, seq![0x00, 0x00]),
        InitStepView::Command(ILI9225_VERTICAL_WINDOW_ADDR1, seq![0x00, 0xdb]),
        InitStepView::Command(ILI9225_VERTICAL_WINDOW_ADDR2, seq![0x00, 0x00]),
        InitStepView::Command(ILI9225_GAMMA_CTRL1, seq![0x00, 0x00]),
        InitStepView::Command(ILI9225_GAMMA_CTRL2, seq![0x08, 0x08]),
        InitStepView::Command(ILI9225_GAMMA_CTRL3, seq![0x08, 0x0a]),
        InitStepView::Command(ILI9225_GAMMA_CTRL4, seq![0x00, 0x0a]),
        InitStepView::Command(ILI9225_GAMMA_CTRL5, seq![0x0a, 0x08]),
        InitStepView::Command(ILI9225_GAMMA_CTRL6, seq![0x08, 0x08]),
        InitStepView::Command(ILI9225_GAMMA_CTRL7, seq![0x00, 0x00]),
        InitStepView::Command(ILI9225_GAMMA_CTRL8, seq![0x0a, 0x00]),
        InitStepView::Command(ILI9225_GAMMA_CTRL9, seq![0x07, 0x10]),
        InitStepView::Command(ILI9225_GAMMA_CTRL10, seq![0x07, 0x10]),
        InitStepView::Command(ILI9225_DISP_CTRL1, seq![0x00, 0x12]),
        InitStepView::DelayUs(50000),
        InitStepView::Command(ILI9225_DISP_CTRL1, seq![0x10, spec_ctrl_low(options)]),
        InitStepView::DelayUs(50000),
    ]
}

/// Builds the vendor initialization table.
#[verifier::rlimit(60)]
#[verifier::spinoff_prover]
fn ili9225_init_table(options: &ModelOptions) -> (steps: Vec<InitStep>)
    ensures
        steps_view(steps@) == ili9225_init_steps(*options),
{
    let mut steps = Vec::new();
    steps.push(cmd2(ILI9225_POWER_CTRL1, 0x00, 0x00));
    steps.push(cmd2(ILI9225_POWER_CTRL2, 0x00, 0x00));
    steps.push(cmd2(ILI9225_POWER_CTRL3, 0x00, 0x00));
    steps.push(cmd2(ILI9225_POWER_CTRL4, 0x00, 0x00));
    steps.push(cmd2(ILI9225_POWER_CTRL5, 0x00, 0x00));
    steps.push(InitStep::DelayUs(40000));
    steps.push(cmd2(ILI9225_POWER_CTRL1, 0x00, 0x18));
    steps.push(cmd2(ILI9225_POWER_CTRL2, 0x61, 0x21));
    steps.push(cmd2(ILI9225_POWER_CTRL3, 0x00, 0x6f));
    steps.push(cmd2(ILI9225_POWER_CTRL4, 0x49, 0x5f));
    steps.push(cmd2(ILI9225_POWER_CTRL5, 0x08, 0x00));
    steps.push(InitStep::DelayUs(10000));
    steps.push(cmd2(ILI9225_POWER_CTRL2, 0x10, 0x3b));
    steps.push(InitStep::DelayUs(30000));
    steps.push(cmd2(ILI9225_LCD_AC_DRIVING_CTRL, 0x01, 0x00));
    let driver_high = match options.orientation.rotation {
        Rotation::Deg0 => 0x01,
        Rotation::Deg90 => 0x00,
        Rotation::Deg180 => 0x02,
        Rotation::Deg270 => 0x03,
    };
    steps.push(cmd2(ILI9225_DRIVER_OUTPUT_CTRL, driver_high, 0x1c));
    let color_order = match options.color_order {
        ColorOrder::Rgb => 0x00,
        ColorOrder::Bgr => 0x10,
    };
    let entry_low = if options.orientation.rotation.is_vertical() {
        0x38
    } else {
        0x30
    };
    steps.push(cmd2(ILI9225_ENTRY_MODE, color_order, entry_low));
    steps.push(cmd2(ILI9225_DISP_CTRL1, 0x00, 0x00));
    steps.push(cmd2(ILI9225_BLANK_PERIOD_CTRL1, 0x08, 0x08));
    steps.push(cmd2(ILI9225_FRAME_CYCLE_CTRL, 0x11, 0x00));
    steps.push(cmd2(ILI9225_INTERFACE_CTRL, 0x00, 0x00));
    steps.push(cmd2(ILI9225_OSC_CTRL, 0x0f, 0x01));
    steps.push(cmd2(ILI9225_VCI_RECYCLING, 0x00, 0x20));
    steps.push(cmd2(ILI9225_RAM_ADDR_SET1, 0x00, 0x00));
    steps.push(cmd2(ILI9225_RAM_ADDR_SET2, 0x00, 0x00));
    steps.push(cmd2(ILI9225_GATE_SCAN_CTRL, 0x00, 0x00));
    steps.push(cmd2(ILI9225_VERTICAL_SCROLL_CTRL1, 0x00, 0xdb));
    steps.push(cmd2(ILI9225_VERTICAL_SCROLL_CTRL2, 0x00, 0x00));
    steps.push(cmd2(ILI9225_VERTICAL_SCROLL_CTRL3, 0x00, 0x00));
    steps.push(cmd2(ILI9225_PARTIAL_DRIVING_POS1, 0x00, 0xdb));
    steps.push(cmd2(ILI9225_PARTIAL_DRIVING_POS2, 0x00, 0x00));
    steps.push(cmd2(ILI9225_HORIZONTAL_WINDOW_ADDR1, 0x00, 0xaf));
    steps.push(cmd2(ILI9225_HORIZONTAL_WINDOW_ADDR2, 0x00, 0x00));
    steps.push(cmd2(ILI9225_VERTICAL_WINDOW_ADDR1, 0x00, 0xdb));
    steps.push(cmd2(ILI9225_VERTICAL_WINDOW_ADDR2, 0x00, 0x00));
    steps.push(cmd2(ILI9225_GAMMA_CTRL1, 0x00, 0x00));
    steps.push(cmd2(ILI9225_GAMMA_CTRL2, 0x08, 0x08));
    steps.push(cmd2(ILI9225_GAMMA_CTRL3, 0x08, 0x0a));
    steps.push(cmd2(ILI9225_GAMMA_CTRL4, 0x00, 0x0a));
    steps.push(cmd2(ILI9225_GAMMA_CTRL5, 0x0a, 0x08));
    steps.push(cmd2(ILI9225_GAMMA_CTRL6, 0x08, 0x08));
    steps.push(cmd2(ILI9225_GAMMA_CTRL7, 0x00, 0x00));
    steps.push(cmd2(ILI9225_GAMMA_CTRL8, 0x0a, 0x00));
    steps.push(cmd2(ILI9225_GAMMA_CTRL9, 0x07, 0x10));
    steps.push(cmd2(ILI9225_GAMMA_CTRL10, 0x07, 0x10));
    steps.push(cmd2(ILI9225_DISP_CTRL1, 0x00, 0x12));
    steps.push(InitStep::DelayUs(50000));
    let low = options2ctrl_low(options);
    steps.push(cmd2(ILI9225_DISP_CTRL1, 0x10, low));
    steps.push(InitStep::DelayUs(50000));
    proof {
        assert(steps_view(steps@) =~= ili9225_init_steps(*options));
    }
    steps
}

impl Model for ILI9225Rgb565 {
    open spec fn framebuffer_size_spec() -> (u16, u16) {
        (176, 220)
    }

    open spec fn reset_duration_spec() -> u32 {
        1000
    }

    open spec fn init_cmds(options: ModelOptions) -> Seq<(u8, Seq<u8>)> {
        table_cmds(ili9225_init_steps(options))
    }

    open spec fn init_waits(options: ModelOptions) -> Seq<u32> {
        table_waits(ili9225_init_steps(options))
    }

    /// Window and cursor registers, with the axes exchanged for the
    /// quarter-turn rotations.
    open spec fn window_cmds(rotation: Rotation, sx: u16, sy: u16, ex: u16, ey: u16) -> Seq<
        (u8, Seq<u8>),
    > {
        match rotation {
            Rotation::Deg0 | Rotation::Deg180 => seq![
                (ILI9225_HORIZONTAL_WINDOW_ADDR2, be2(sx)),
                (ILI9225_HORIZONTAL_WINDOW_ADDR1, be2(ex)),
                (ILI9225_VERTICAL_WINDOW_ADDR2, be2(sy)),
                (ILI9225_VERTICAL_WINDOW_ADDR1, be2(ey)),
                (ILI9225_RAM_ADDR_SET1, be2(sx)),
                (ILI9225_RAM_ADDR_SET2, be2(sy)),
            ],
            Rotation::Deg90 | Rotation::Deg270 => seq![
                (ILI9225_VERTICAL_WINDOW_ADDR2, be2(sx)),
                (ILI9225_VERTICAL_WINDOW_ADDR1, be2(ex)),
                (ILI9225_HORIZONTAL_WINDOW_ADDR2, be2(sy)),
                (ILI9225_HORIZONTAL_WINDOW_ADDR1, be2(ey)),
                (ILI9225_RAM_ADDR_SET2, be2(sx)),
                (ILI9225_RAM_ADDR_SET1, be2(sy)),
            ],
        }
    }

    open spec fn memory_start_cmds() -> Seq<(u8, Seq<u8>)> {
        seq![(ILI9225_WRITE_MEMORY_START, Seq::<u8>::empty())]
    }

    open spec fn options_cmds(options: ModelOptions) -> Seq<(u8, Seq<u8>)> {
        ili9225_options_cmds(options)
    }

    open spec fn tearing_cmds(tearing_effect: TearingEffect, options: ModelOptions) -> Seq<
        (u8, Seq<u8>),
    > {
        seq![
            (
                ILI9225_DISP_CTRL1,
                seq![
                    match tearing_effect {
                        TearingEffect::Off => 0,
                        TearingEffect::Vertical => 0x10,
                        TearingEffect::HorizontalAndVertical => 0x10,
                    },
                    spec_ctrl_low(options),
                ],
            ),
        ]
    }

    open spec fn scroll_region_cmds(top_fixed_area: u16, bottom_fixed_area: u16) -> Seq<
        (u8, Seq<u8>),
    > {
        Seq::empty()
    }

    open spec fn scroll_offset_cmds(offset: u16) -> Seq<(u8, Seq<u8>)> {
        Seq::empty()
    }

    open spec fn sleep_cmds() -> Seq<(u8, Seq<u8>)> {
        seq![
            (ILI9225_DISP_CTRL1, seq![0x00u8, 0x00u8]),
            (ILI9225_POWER_CTRL2, seq![0x00u8, 0x07u8]),
            (ILI9225_POWER_CTRL1, seq![0x0au8, 0x01u8]),
        ]
    }

    open spec fn sleep_waits() -> Seq<u32> {
        seq![50000u32, 50000u32]
    }

    open spec fn wake_cmds() -> Seq<(u8, Seq<u8>)> {
        seq![
            (ILI9225_POWER_CTRL1, seq![0x0au8, 0x00u8]),
            (ILI9225_POWER_CTRL2, seq![0x10u8, 0x3bu8]),
            (ILI9225_DISP_CTRL1, seq![0x10u8, 0x17u8]),
        ]
    }

    open spec fn wake_waits() -> Seq<u32> {
        seq![50000u32]
    }

    fn framebuffer_size() -> (r: (u16, u16)) {
        (176, 220)
    }

    fn reset_duration() -> (r: u32) {
        1000
    }

    fn init<DI: Interface, D: Delay>(
        &mut self,
        di: &mut DI,
        delay: &mut D,
        options: &ModelOptions,
    ) -> (r: Result<(), ModelInitError<DI::Error>>) {
        let steps = ili9225_init_table(options);
        match run_init_sequence(di, delay, &steps) {
            Err(e) => {
                proof {
                    let k = choose|k: int|
                        0 <= k <= table_cmds(steps_view(steps@)).len() && di.taken() == old(
                            di,
                        ).taken() + cmds_to_packets::<DI::Word>(
                            #[trigger] table_cmds(steps_view(steps@)).take(k),
                        );
                    assert(di.taken() == old(di).taken() + cmds_to_packets::<DI::Word>(
                        Self::init_cmds(*options).take(k),
                    ));
                }
                Err(ModelInitError::Interface(e))
            },
            Ok(()) => Ok(()),
        }
    }

    fn update_address_window<DI: Interface>(
        di: &mut DI,
        rotation: Rotation,
        sx: u16,
        sy: u16,
        ex: u16,
        ey: u16,
    ) -> (r: Result<(), DI::Error>) {
        let sxb = be_bytes(sx);
        let syb = be_bytes(sy);
        let exb = be_bytes(ex);
        let eyb = be_bytes(ey);
        match rotation {
            Rotation::Deg0 | Rotation::Deg180 => {
                match di.send_command(ILI9225_HORIZONTAL_WINDOW_ADDR2, &sxb) {
                    Err(e) => {
                        proof {
                            assert(di.taken() =~= old(di).taken() + cmds_to_packets::<DI::Word>(
                                Self::window_cmds(rotation, sx, sy, ex, ey).take(0),
                            ));
                        }
                        return Err(e);
                    },
                    Ok(()) => {},
                }
                match di.send_command(ILI9225_HORIZONTAL_WINDOW_ADDR1, &exb) {
                    Err(e) => {
                        proof {
                            assert(di.taken() =~= old(di).taken() + cmds_to_packets::<DI::Word>(
                                Self::window_cmds(rotation, sx, sy, ex, ey).take(1),
                            ));
                        }
                        return Err(e);
                    },
                    Ok(()) => {},
                }
                match di.send_command(ILI9225_VERTICAL_WINDOW_ADDR2, &syb) {
                    Err(e) => {
                        proof {
                            assert(di.taken() =~= old(di).taken() + cmds_to_packets::<DI::Word>(
                                Self::window_cmds(rotation, sx, sy, ex, ey).take(2),
                            ));
                        }
                        return Err(e);
                    },
                    Ok(()) => {},
                }
                match di.send_command(ILI9225_VERTICAL_WINDOW_ADDR1, &eyb) {
                    Err(e) => {
                        proof {
                            assert(di.taken() =~= old(di).taken() + cmds_to_packets::<DI::Word>(
                                Self::window_cmds(rotation, sx, sy, ex, ey).take(3),
                            ));
                        }
                        return Err(e);
                    },
                    Ok(()) => {},
                }
                match di.send_command(ILI9225_RAM_ADDR_SET1, &sxb) {
                    Err(e) => {
                        proof {
                            assert(di.taken() =~= old(di).taken() + cmds_to_packets::<DI::Word>(
                                Self::window_cmds(rotation, sx, sy, ex, ey).take(4),
                            ));
                        }
                        return Err(e);
                    },
                    Ok(()) => {},
                }
                match di.send_command(ILI9225_RAM_ADDR_SET2, &syb) {
                    Err(e) => {
                        proof {
                            assert(di.taken() =~= old(di).taken() + cmds_to_packets::<DI::Word>(
                                Self::window_cmds(rotation, sx, sy, ex, ey).take(5),
                            ));
                        }
                        return Err(e);
                    },
                    Ok(()) => {},
                }
            },
            Rotation::Deg90 | Rotation::Deg270 => {
                match di.send_command(ILI9225_VERTICAL_WINDOW_ADDR2, &sxb) {
                    Err(e) => {
                        proof {
                            assert(di.taken() =~= old(di).taken() + cmds_to_packets::<DI::Word>(
                                Self::window_cmds(rotation, sx, sy, ex, ey).take(0),
                            ));
                        }
                        return Err(e);
                    },
                    Ok(()) => {},
                }
                match di.send_command(ILI9225_VERTICAL_WINDOW_ADDR1, &exb) {
                    Err(e) => {
                        proof {
                            assert(di.taken() =~= old(di).taken() + cmds_to_packets::<DI::Word>(
                                Self::window_cmds(rotation, sx, sy, ex, ey).take(1),
                            ));
                        }
                        return Err(e);
                    },
                    Ok(()) => {},
                }
                match di.send_command(ILI9225_HORIZONTAL_WINDOW_ADDR2, &syb) {
                    Err(e) => {
                        proof {
                            assert(di.taken() =~= old(di).taken() + cmds_to_packets::<DI::Word>(
                                Self::window_cmds(rotation, sx, sy, ex, ey).take(2),
                            ));
                        }
                        return Err(e);
                    },
                    Ok(()) => {},
                }
                match di.send_command(ILI9225_HORIZONTAL_WINDOW_ADDR1, &eyb) {
                    Err(e) => {
                        proof {
                            assert(di.taken() =~= old(di).taken() + cmds_to_packets::<DI::Word>(
                                Self::window_cmds(rotation, sx, sy, ex, ey).take(3),
                            ));
                        }
                        return Err(e);
                    },
                    Ok(()) => {},
                }
                match di.send_command(ILI9225_RAM_ADDR_SET2, &sxb) {
                    Err(e) => {
                        proof {
                            assert(di.taken() =~= old(di).taken() + cmds_to_packets::<DI::Word>(
                                Self::window_cmds(rotation, sx, sy, ex, ey).take(4),
                            ));
                        }
                        return Err(e);
                    },
                    Ok(()) => {},
                }
                match di.send_command(ILI9225_RAM_ADDR_SET1, &syb) {
                    Err(e) => {
                        proof {
                            assert(di.taken() =~= old(di).taken() + cmds_to_packets::<DI::Word>(
                                Self::window_cmds(rotation, sx, sy, ex, ey).take(5),
                            ));
                        }
                        return Err(e);
                    },
                    Ok(()) => {},
                }
            },
        }
        proof {
            assert(di.taken() =~= old(di).taken() + cmds_to_packets::<DI::Word>(
                Self::window_cmds(rotation, sx, sy, ex, ey),
            ));
        }
        Ok(())
    }

    fn write_memory_start<DI: Interface>(di: &mut DI) -> (r: Result<(), DI::Error>) {
        let no_params: [u8; 0] = [];
        match di.send_command(ILI9225_WRITE_MEMORY_START, &no_params) {
            Err(e) => {
                proof {
                    assert(di.taken() =~= old(di).taken() + cmds_to_packets::<DI::Word>(
                        Self::memory_start_cmds().take(0),
                    ));
                }
                return Err(e);
            },
            Ok(()) => {},
        }
        proof {
            assert(no_params@ =~= Seq::<u8>::empty());
            assert(di.taken() =~= old(di).taken() + cmds_to_packets::<DI::Word>(
                Self::memory_start_cmds(),
            ));
        }
        Ok(())
    }

    fn update_options<DI: Interface>(&self, di: &mut DI, options: &ModelOptions) -> (r: Result<
        (),
        DI::Error,
    >) {
        let r = options_write_cmd(di, options);
        proof {
            if r is Err {
                let k = choose|k: int|
                    0 <= k <= ili9225_options_cmds(*options).len() && di.taken() == old(di).taken()
                        + cmds_to_packets::<DI::Word>(
                        #[trigger] ili9225_options_cmds(*options).take(k),
                    );
                assert(di.taken() == old(di).taken() + cmds_to_packets::<DI::Word>(
                    Self::options_cmds(*options).take(k),
                ));
            }
        }
        r
    }

    fn set_tearing_effect<DI: Interface>(
        di: &mut DI,
        tearing_effect: TearingEffect,
        options: &ModelOptions,
    ) -> (r: Result<(), DI::Error>) {
        let low = options2ctrl_low(options);
        let high = match tearing_effect {
            TearingEffect::Off => 0,
            TearingEffect::Vertical => 0x10,
            TearingEffect::HorizontalAndVertical => 0x10,
        };
        match di.send_command(ILI9225_DISP_CTRL1, &[high, low]) {
            Err(e) => {
                proof {
                    assert(di.taken() =~= old(di).taken() + cmds_to_packets::<DI::Word>(
                        Self::tearing_cmds(tearing_effect, *options).take(0),
                    ));
                }
                return Err(e);
            },
            Ok(()) => {},
        }
        proof {
            assert(di.taken() =~= old(di).taken() + cmds_to_packets::<DI::Word>(
                Self::tearing_cmds(tearing_effect, *options),
            ));
        }
        Ok(())
    }

    fn set_vertical_scroll_region<DI: Interface>(
        di: &mut DI,
        top_fixed_area: u16,
        bottom_fixed_area: u16,
    ) -> (r: Result<(), DI::Error>) {
        proof {
            assert(cmds_to_packets::<DI::Word>(
                Self::scroll_region_cmds(top_fixed_area, bottom_fixed_area),
            ) =~= Seq::empty());
            assert(final(di).taken() =~= old(di).taken() + cmds_to_packets::<DI::Word>(
                Self::scroll_region_cmds(top_fixed_area, bottom_fixed_area),
            ));
        }
        Ok(())
    }

    fn set_vertical_scroll_offset<DI: Interface>(di: &mut DI, offset: u16) -> (r: Result<
        (),
        DI::Error,
    >) {
        proof {
            assert(cmds_to_packets::<DI::Word>(Self::scroll_offset_cmds(offset))
                =~= Seq::empty());
            assert(final(di).taken() =~= old(di).taken() + cmds_to_packets::<DI::Word>(
                Self::scroll_offset_cmds(offset),
            ));
        }
        Ok(())
    }

    fn sleep<DI: Interface, D: Delay>(di: &mut DI, delay: &mut D) -> (r: Result<(), DI::Error>) {
        match di.send_command(ILI9225_DISP_CTRL1, &[0x00, 0x00]) {
            Err(e) => {
                proof {
                    assert(di.taken() =~= old(di).taken() + cmds_to_packets::<DI::Word>(
                        Self::sleep_cmds().take(0),
                    ));
                }
                return Err(e);
            },
            Ok(()) => {},
        }
        delay.delay_us(50000);
        match di.send_command(ILI9225_POWER_CTRL2, &[0x00, 0x07]) {
            Err(e) => {
                proof {
                    assert(di.taken() =~= old(di).taken() + cmds_to_packets::<DI::Word>(
                        Self::sleep_cmds().take(1),
                    ));
                }
                return Err(e);
            },
            Ok(()) => {},
        }
        delay.delay_us(50000);
        match di.send_command(ILI9225_POWER_CTRL1, &[0x0a, 0x01]) {
            Err(e) => {
                proof {
                    assert(di.taken() =~= old(di).taken() + cmds_to_packets::<DI::Word>(
                        Self::sleep_cmds().take(2),
                    ));
                }
                return Err(e);
            },
            Ok(()) => {},
        }
        proof {
            assert(di.taken() =~= old(di).taken() + cmds_to_packets::<DI::Word>(
                Self::sleep_cmds(),
            ));
            assert(delay.waits() =~= old(delay).waits() + Self::sleep_waits());
        }
        Ok(())
    }

    fn wake<DI: Interface, D: Delay>(di: &mut DI, delay: &mut D) -> (r: Result<(), DI::Error>) {
        match di.send_command(ILI9225_POWER_CTRL1, &[0x0a, 0x00]) {
            Err(e) => {
                proof {
                    assert(di.taken() =~= old(di).taken() + cmds_to_packets::<DI::Word>(
                        Self::wake_cmds().take(0),
                    ));
                }
                return Err(e);
            },
            Ok(()) => {},
        }
        match di.send_command(ILI9225_POWER_CTRL2, &[0x10, 0x3b]) {
            Err(e) => {
                proof {
                    assert(di.taken() =~= old(di).taken() + cmds_to_packets::<DI::Word>(
                        Self::wake_cmds().take(1),
                    ));
                }
                return Err(e);
            },
            Ok(()) => {},
        }
        delay.delay_us(50000);
        match di.send_command(ILI9225_DISP_CTRL1, &[0x10, 0x17]) {
            Err(e) => {
                proof {
                    assert(di.taken() =~= old(di).taken() + cmds_to_packets::<DI::Word>(
                        Self::wake_cmds().take(2),
                    ));
                }
                return Err(e);
            },
            Ok(()) => {},
        }
        proof {
            assert(di.taken() =~= old(di).taken() + cmds_to_packets::<DI::Word>(Self::wake_cmds()));
            assert(delay.waits() =~= old(delay).waits() + Self::wake_waits());
        }
        Ok(())
    }
}

} // verus!
