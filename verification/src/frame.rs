//! The frame data model: one complete reconstructed screen snapshot, and the
//! mapping from frame bytes to character-sheet cells.

use vstd::prelude::*;

verus! {

/// Characters per screen line on the CBM 8032.
pub const CHARS_PER_LINE: usize = 80;

/// Number of character lines carrying data.
pub const DATA_LINES: usize = 25;

/// Number of bytes of character data in one full screen: 80 x 25.
pub const CBM_8032_FRAME_DATA_LEN: usize = 2000;

/// Columns in the character sheet used to draw a frame.
pub const CHAR_SHEET_COLS: u8 = 16;

/// Rows in the character sheet; the top half holds the graphics glyphs, the
/// bottom half the text glyphs.
pub const CHAR_SHEET_ROWS: u8 = 32;

/// The two display modes a frame can select.
///
/// The mode sub-buffer's first payload byte picks the mode: zero selects
/// graphics, any non-zero value selects text.
#[derive(Clone, Copy, Debug, PartialEq, Eq, Structural)]
pub enum Cbm8032FrameMode {
    Graphics,
    Text,
}

/// One complete reconstructed screen snapshot.
///
/// `data` holds one full screen of character bytes. Frames are produced only
/// by the synchronizer, which always fills `data` to the configured frame
/// length, and are never mutated afterwards.
#[derive(Debug, PartialEq, Eq)]
pub struct Cbm8032Frame {
    pub mode: Cbm8032FrameMode,
    pub data: Vec<u8>,
}

/// The display mode selected by a mode byte: zero means graphics, anything
/// else means text.
pub open spec fn spec_byte_to_mode(byte: u8) -> Cbm8032FrameMode {
    if byte == 0 {
        Cbm8032FrameMode::Graphics
    } else {
        Cbm8032FrameMode::Text
    }
}

/// Interpret the first payload byte of a mode sub-buffer as a display mode.
pub fn byte_to_mode(byte: u8) -> (mode: Cbm8032FrameMode)
    ensures
        mode == spec_byte_to_mode(byte),
{
    match byte {
        0 => Cbm8032FrameMode::Graphics,
        _ => Cbm8032FrameMode::Text,
    }
}

impl Cbm8032Frame {
    /// The byte drawn as an empty cell.
    pub const BLANK_BYTE: u8 = 32;

    /// Construct a new frame from the given mode and data.
    pub fn new(mode: Cbm8032FrameMode, data: Vec<u8>) -> (frame: Self)
        ensures
            frame.mode == mode,
            frame.data == data,
    {
        Cbm8032Frame { mode, data }
    }

    /// A frame of blank cells in graphics mode.
    pub fn blank_graphics() -> (frame: Self)
        ensures
            frame.mode == Cbm8032FrameMode::Graphics,
            frame.data@ == Seq::new(CBM_8032_FRAME_DATA_LEN as nat, |i: int| Self::BLANK_BYTE),
    {
        let data: Vec<u8> = vec![Self::BLANK_BYTE; CBM_8032_FRAME_DATA_LEN];
        Cbm8032Frame { mode: Cbm8032FrameMode::Graphics, data }
    }
}

/// The character-sheet row block where a mode's glyphs start: the graphics
/// glyphs fill the top half of the sheet, the text glyphs the bottom half.
pub open spec fn spec_mode_row_offset(mode: Cbm8032FrameMode) -> u8 {
    match mode {
        Cbm8032FrameMode::Graphics => 0,
        Cbm8032FrameMode::Text => CHAR_SHEET_ROWS / 2,
    }
}

/// Given a byte value from the serial data, return the column and row of its
/// glyph within the character sheet, starting from the top left.
pub fn byte_to_char_sheet_col_row(byte: u8, mode: &Cbm8032FrameMode) -> (col_row: [u8; 2])
    ensures
        col_row[0] == byte % CHAR_SHEET_COLS,
        col_row[1] == spec_mode_row_offset(*mode) + byte / (CHAR_SHEET_ROWS / 2),
{
    let row_offset: u8 = match mode {
        Cbm8032FrameMode::Graphics => 0,
        Cbm8032FrameMode::Text => CHAR_SHEET_ROWS / 2,
    };
    let col = byte % CHAR_SHEET_COLS;
    let row = row_offset + byte / (CHAR_SHEET_ROWS / 2);
    [col, row]
}

} // verus!
