//! Display configuration: orientation, color handling and the mapping from
//! logical coordinates to the controller's native memory addressing.

use vstd::prelude::*;

verus! {

/// Rotation of the displayed image relative to the default orientation.
#[derive(Clone, Copy, Debug, PartialEq, Eq, Structural)]
pub enum Rotation {
    /// No rotation.
    Deg0,
    /// Quarter turn.
    Deg90,
    /// Half turn.
    Deg180,
    /// Three quarter turn.
    Deg270,
}

impl Rotation {
    /// Returns whether the rotation keeps the default (vertical) axis order.
    pub fn is_vertical(self) -> (r: bool)
        ensures
            r == (self == Rotation::Deg0 || self == Rotation::Deg180),
    {
        match self {
            Rotation::Deg0 | Rotation::Deg180 => true,
            Rotation::Deg90 | Rotation::Deg270 => false,
        }
    }
}

/// Logical orientation of the display: a rotation plus an optional mirror.
#[derive(Clone, Copy, Debug, PartialEq, Eq, Structural)]
pub struct Orientation {
    /// Rotation applied to the image.
    pub rotation: Rotation,
    /// Whether the image is mirrored.
    pub mirrored: bool,
}

impl Default for Orientation {
    /// The default orientation: no rotation, not mirrored.
    fn default() -> (r: Self)
        ensures
            r == (Orientation { rotation: Rotation::Deg0, mirrored: false }),
    {
        Orientation { rotation: Rotation::Deg0, mirrored: false }
    }
}

/// Subpixel order of the controller.
#[derive(Clone, Copy, Debug, PartialEq, Eq, Structural)]
pub enum ColorOrder {
    /// Red, green, blue.
    Rgb,
    /// Blue, green, red.
    Bgr,
}

/// Color inversion setting of the controller.
#[derive(Clone, Copy, Debug, PartialEq, Eq, Structural)]
pub enum ColorInversion {
    /// Colors are displayed as written.
    Normal,
    /// Colors are displayed inverted.
    Inverted,
}

/// Tearing effect output configuration.
#[derive(Clone, Copy, Debug, PartialEq, Eq, Structural)]
pub enum TearingEffect {
    /// Tearing effect output disabled.
    Off,
    /// Vertical blanking information only.
    Vertical,
    /// Vertical and horizontal blanking information.
    HorizontalAndVertical,
}

/// How the controller's memory is walked for the current orientation:
/// derived from [`Orientation`], never stored.
#[derive(Clone, Copy, Debug, PartialEq, Eq, Structural)]
pub struct MemoryMapping {
    /// Rows and columns are exchanged.
    pub swap_rows_and_columns: bool,
    /// Rows are walked in reverse order.
    pub reverse_rows: bool,
    /// Columns are walked in reverse order.
    pub reverse_columns: bool,
}

/// The fixed lookup from the eight orientation combinations to a memory
/// mapping.
pub open spec fn mapping_of(orientation: Orientation) -> MemoryMapping {
    match (orientation.rotation, orientation.mirrored) {
        (Rotation::Deg0, false) => MemoryMapping {
            swap_rows_and_columns: false,
            reverse_rows: false,
            reverse_columns: false,
        },
        (Rotation::Deg0, true) => MemoryMapping {
            swap_rows_and_columns: false,
            reverse_rows: false,
            reverse_columns: true,
        },
        (Rotation::Deg90, false) => MemoryMapping {
            swap_rows_and_columns: true,
            reverse_rows: false,
            reverse_columns: true,
        },
        (Rotation::Deg90, true) => MemoryMapping {
            swap_rows_and_columns: true,
            reverse_rows: false,
            reverse_columns: false,
        },
        (Rotation::Deg180, false) => MemoryMapping {
            swap_rows_and_columns: false,
            reverse_rows: true,
            reverse_columns: true,
        },
        (Rotation::Deg180, true) => MemoryMapping {
            swap_rows_and_columns: false,
            reverse_rows: true,
            reverse_columns: false,
        },
        (Rotation::Deg270, false) => MemoryMapping {
            swap_rows_and_columns: true,
            reverse_rows: true,
            reverse_columns: false,
        },
        (Rotation::Deg270, true) => MemoryMapping {
            swap_rows_and_columns: true,
            reverse_rows: true,
            reverse_columns: true,
        },
    }
}

impl MemoryMapping {
    /// Computes the memory mapping for an orientation, exactly as
    /// [`mapping_of`] states it.
    pub fn from_orientation(orientation: Orientation) -> (r: MemoryMapping)
        ensures
            r == mapping_of(orientation),
    {
        match (orientation.rotation, orientation.mirrored) {
            (Rotation::Deg0, false) => MemoryMapping {
                swap_rows_and_columns: false,
                reverse_rows: false,
                reverse_columns: false,
            },
            (Rotation::Deg0, true) => MemoryMapping {
                swap_rows_and_columns: false,
                reverse_rows: false,
                reverse_columns: true,
            },
            (Rotation::Deg90, false) => MemoryMapping {
                swap_rows_and_columns: true,
                reverse_rows: false,
                reverse_columns: true,
            },
            (Rotation::Deg90, true) => MemoryMapping {
                swap_rows_and_columns: true,
                reverse_rows: false,
                reverse_columns: false,
            },
            (Rotation::Deg180, false) => MemoryMapping {
                swap_rows_and_columns: false,
                reverse_rows: true,
                reverse_columns: true,
            },
            (Rotation::Deg180, true) => MemoryMapping {
                swap_rows_and_columns: false,
                reverse_rows: true,
                reverse_columns: false,
            },
            (Rotation::Deg270, false) => MemoryMapping {
                swap_rows_and_columns: true,
                reverse_rows: true,
                reverse_columns: false,
            },
            (Rotation::Deg270, true) => MemoryMapping {
                swap_rows_and_columns: true,
                reverse_rows: true,
                reverse_columns: true,
            },
        }
    }
}

/// Options describing one display: orientation, color handling, and the
/// placement of the visible window inside the controller's memory.
#[derive(Clone, Copy, Debug)]
pub struct ModelOptions {
    /// Current orientation.
    pub orientation: Orientation,
    /// Subpixel order.
    pub color_order: ColorOrder,
    /// Color inversion.
    pub invert_colors: ColorInversion,
    /// Size of the visible window, in the default orientation.
    pub display_size: (u16, u16),
    /// Offset of the visible window inside the controller's memory, in the
    /// default orientation.
    pub display_offset: (u16, u16),
}

/// The physical offset of the visible window for an orientation: each
/// reversed axis flips the offset inside the framebuffer, and swapped axes
/// exchange the two components.
pub open spec fn spec_mapped_offset(
    orientation: Orientation,
    framebuffer_size: (u16, u16),
    display_size: (u16, u16),
    offset: (u16, u16),
) -> (int, int) {
    let mapping = mapping_of(orientation);
    let x = if mapping.reverse_columns {
        framebuffer_size.0 - (display_size.0 + offset.0)
    } else {
        offset.0 as int
    };
    let y = if mapping.reverse_rows {
        framebuffer_size.1 - (display_size.1 + offset.1)
    } else {
        offset.1 as int
    };
    if mapping.swap_rows_and_columns {
        (y, x)
    } else {
        (x, y)
    }
}

/// Computes the physical offset of the visible window, exactly as
/// [`spec_mapped_offset`] states it.
pub fn mapped_offset(
    orientation: Orientation,
    framebuffer_size: (u16, u16),
    display_size: (u16, u16),
    offset: (u16, u16),
) -> (r: (u16, u16))
    requires
        display_size.0 + offset.0 <= framebuffer_size.0,
        display_size.1 + offset.1 <= framebuffer_size.1,
    ensures
        (r.0 as int, r.1 as int) == spec_mapped_offset(
            orientation,
            framebuffer_size,
            display_size,
            offset,
        ),
{
    let mapping = MemoryMapping::from_orientation(orientation);
    let x: u16 = if mapping.reverse_columns {
        framebuffer_size.0 - (display_size.0 + offset.0)
    } else {
        offset.0
    };
    let y: u16 = if mapping.reverse_rows {
        framebuffer_size.1 - (display_size.1 + offset.1)
    } else {
        offset.1
    };
    if mapping.swap_rows_and_columns {
        (y, x)
    } else {
        (x, y)
    }
}

/// The reverse-axis rules alone (no swap), on both axes of an offset.
pub open spec fn spec_reversed_offset(
    mapping: MemoryMapping,
    framebuffer_size: (u16, u16),
    display_size: (u16, u16),
    offset: (int, int),
) -> (int, int) {
    let x = if mapping.reverse_columns {
        framebuffer_size.0 - (display_size.0 + offset.0)
    } else {
        offset.0
    };
    let y = if mapping.reverse_rows {
        framebuffer_size.1 - (display_size.1 + offset.1)
    } else {
        offset.1
    };
    (x, y)
}

/// Law: the reverse-axis rules are an involution. For any mapping, applying
/// the column and row reversal rules twice returns the original offset,
/// whenever the visible window fits inside the framebuffer.
pub proof fn lemma_reversed_offset_involution(
    mapping: MemoryMapping,
    framebuffer_size: (u16, u16),
    display_size: (u16, u16),
    offset: (u16, u16),
)
    requires
        display_size.0 + offset.0 <= framebuffer_size.0,
        display_size.1 + offset.1 <= framebuffer_size.1,
    ensures
        spec_reversed_offset(
            mapping,
            framebuffer_size,
            display_size,
            spec_reversed_offset(
                mapping,
                framebuffer_size,
                display_size,
                (offset.0 as int, offset.1 as int),
            ),
        ) == (offset.0 as int, offset.1 as int),
{
}

/// The swap rule: the two components of an offset exchanged.
pub open spec fn spec_swapped(offset: (int, int)) -> (int, int) {
    (offset.1, offset.0)
}

/// Law: exchanging the two offset components twice returns the original
/// offset.
pub proof fn lemma_swap_involution(offset: (int, int))
    ensures
        spec_swapped(spec_swapped(offset)) == offset,
{
}

/// The full transform is the reverse-axis rules followed, for swapped
/// mappings, by the component exchange: the two involution laws above speak
/// of exactly its stages.
pub proof fn lemma_mapped_offset_decomposition(
    orientation: Orientation,
    framebuffer_size: (u16, u16),
    display_size: (u16, u16),
    offset: (u16, u16),
)
    ensures
        spec_mapped_offset(orientation, framebuffer_size, display_size, offset) == (
        if mapping_of(orientation).swap_rows_and_columns {
            spec_swapped(
                spec_reversed_offset(
                    mapping_of(orientation),
                    framebuffer_size,
                    display_size,
                    (offset.0 as int, offset.1 as int),
                ),
            )
        } else {
            spec_reversed_offset(
                mapping_of(orientation),
                framebuffer_size,
                display_size,
                (offset.0 as int, offset.1 as int),
            )
        }),
{
}

} // verus!
