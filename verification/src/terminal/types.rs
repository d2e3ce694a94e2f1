//! Focus reports and descriptions of decoded image placements.

use vstd::prelude::*;

verus! {

/// Terminal focus change, reported to the child application when focus
/// reporting (DEC mode 1004) is enabled.
#[derive(Debug, Clone, Copy, PartialEq, Eq, Structural)]
pub enum FocusEvent {
    Gained,
    Lost,
}

/// `ESC [` and the final byte of a focus report.
pub open spec fn focus_bytes(event: FocusEvent) -> Seq<u8> {
    match event {
        FocusEvent::Gained => seq![0x1bu8, 0x5bu8, 0x49u8],
        FocusEvent::Lost => seq![0x1bu8, 0x5bu8, 0x4fu8],
    }
}

/// Encodes a focus event as the escape sequence sent to the child: CSI I on
/// gain, CSI O on loss.
pub fn encode_focus(event: FocusEvent) -> (r: Vec<u8>)
    ensures
        r@ == focus_bytes(event),
{
    match event {
        FocusEvent::Gained => vec![0x1b, 0x5b, 0x49],
        FocusEvent::Lost => vec![0x1b, 0x5b, 0x4f],
    }
}

#[derive(Debug, Clone, Copy, Hash, PartialEq, Eq, Structural)]
pub enum KittyImageFormat {
    Rgb,
    Rgba,
    Png,
}

#[derive(Debug, Clone, PartialEq, Eq)]
pub struct KittyImagePlacement {
    pub image_id: u32,
    pub placement_id: u32,
    pub z: i32,
    pub x_offset: u32,
    pub y_offset: u32,
    pub image_width: u32,
    pub image_height: u32,
    pub format: KittyImageFormat,
    pub data_len: usize,
    pub data_fingerprint: u64,
    pub data: Vec<u8>,
    pub render: KittyPlacementRenderInfo,
}

#[derive(Debug, Clone, Copy, PartialEq, Eq, Structural)]
pub struct KittyImageDescriptor {
    pub image_id: u32,
    pub placement_id: u32,
    pub image_width: u32,
    pub image_height: u32,
    pub format: KittyImageFormat,
    pub data_len: usize,
    pub data_fingerprint: u64,
}

#[derive(Debug, Clone, Copy, PartialEq, Eq, Structural)]
pub struct KittyPlacementRenderInfo {
    pub pixel_width: u32,
    pub pixel_height: u32,
    pub grid_cols: u32,
    pub grid_rows: u32,
    pub viewport_col: i32,
    pub viewport_row: i32,
    pub source_x: u32,
    pub source_y: u32,
    pub source_width: u32,
    pub source_height: u32,
}

/// A focus report is `ESC [ I` when focus was gained and `ESC [ O` when it was
/// lost.
pub proof fn focus_reports_differ_in_their_final(event: FocusEvent)
    ensures
        focus_bytes(event).len() == 3,
        focus_bytes(event)[0] == 27,
        focus_bytes(event)[1] as char == '[',
        focus_bytes(event)[2] as char == 'I' <==> event is Gained,
        focus_bytes(event)[2] as char == 'O' <==> event is Lost,
{
}

} // verus!
