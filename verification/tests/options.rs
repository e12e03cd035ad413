use lcd_async::options::{mapped_offset, MemoryMapping, Orientation, Rotation};

fn orient(rotation: Rotation, mirrored: bool) -> Orientation {
    Orientation { rotation, mirrored }
}

#[test]
fn memory_mapping_lookup() {
    let expect = [
        (Rotation::Deg0, false, (false, false, false)),
        (Rotation::Deg0, true, (false, false, true)),
        (Rotation::Deg90, false, (true, false, true)),
        (Rotation::Deg90, true, (true, false, false)),
        (Rotation::Deg180, false, (false, true, true)),
        (Rotation::Deg180, true, (false, true, false)),
        (Rotation::Deg270, false, (true, true, false)),
        (Rotation::Deg270, true, (true, true, true)),
    ];
    for &(rotation, mirrored, (swap, rev_rows, rev_cols)) in expect.iter() {
        let mapping = MemoryMapping::from_orientation(orient(rotation, mirrored));
        assert_eq!(mapping.swap_rows_and_columns, swap);
        assert_eq!(mapping.reverse_rows, rev_rows);
        assert_eq!(mapping.reverse_columns, rev_cols);
    }
}

#[test]
fn mapped_offset_identity() {
    // No rotation, no mirror: the offset passes through untouched.
    let offset = mapped_offset(orient(Rotation::Deg0, false), (8, 8), (4, 4), (2, 2));
    assert_eq!(offset, (2, 2));
}

#[test]
fn mapped_offset_reverse_axes() {
    // A half turn reverses both axes: offset' = framebuffer - (size + offset).
    let fb = (8u16, 8u16);
    let disp = (4u16, 4u16);
    let off = (1u16, 1u16);
    let mapped = mapped_offset(orient(Rotation::Deg180, false), fb, disp, off);
    assert_eq!(mapped.0, fb.0 - (disp.0 + off.0));
    assert_eq!(mapped.1, fb.1 - (disp.1 + off.1));
    assert_eq!(mapped, (3, 3));
}

#[test]
fn mapped_offset_reverse_is_involution() {
    // Applying the reverse rule twice returns the original offset.
    let fb = 8u16;
    let disp = 4u16;
    let off = 1u16;
    let once = fb - (disp + off);
    let twice = fb - (disp + once);
    assert_eq!(twice, off);
}

#[test]
fn mapped_offset_swaps_axes() {
    // A quarter turn exchanges the two components after the column rule.
    let mapped = mapped_offset(orient(Rotation::Deg90, false), (8, 16), (4, 4), (1, 2));
    // reverse_columns: x' = 8 - (4 + 1) = 3; y stays 2; then swapped.
    assert_eq!(mapped, (2, 3));
}
