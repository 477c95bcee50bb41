//! The pixels of the tray icon: a small loudspeaker, green while routing
//! and grey while not.

use vstd::prelude::*;

verus! {

/// The width and the height of the icon in pixels.
pub const ICON_SIZE: usize = 16;

/// Whether the pixel in column `x` of row `y` belongs to the loudspeaker:
/// its box, its cone, or one of the three waves in front of it.
pub open spec fn in_speaker(x: int, y: int) -> bool {
    ||| (2 <= x <= 6 && 4 <= y <= 11)
    ||| (6 <= x <= 10 && 2 <= y <= 13)
    ||| (10 <= x <= 13 && (y == 4 || y == 7 || y == 10))
}

/// The value of channel `c` (red, green, blue, alpha) of a pixel of the
/// loudspeaker.
pub open spec fn speaker_channel(enabled: bool, c: int) -> u8 {
    if c == 3 {
        255
    } else if !enabled {
        120
    } else if c == 0 {
        50
    } else if c == 1 {
        200
    } else {
        80
    }
}

/// Byte `i` of the icon in RGBA order, rows from the top: the colour of
/// the loudspeaker where it is, and transparent black elsewhere.
pub open spec fn icon_byte(enabled: bool, i: int) -> u8 {
    let pixel = i / 4;
    if in_speaker(pixel % 16, pixel / 16) {
        speaker_channel(enabled, i % 4)
    } else {
        0
    }
}

/// Paints the icon: 16 by 16 pixels of four bytes each.
pub fn speaker_icon_rgba(enabled: bool) -> (rgba: Vec<u8>)
    ensures
        rgba.len() == 1024,
        forall|i: int| 0 <= i < 1024 ==> #[trigger] rgba[i] == icon_byte(enabled, i),
{
    let mut rgba: Vec<u8> = Vec::new();
    let mut y: usize = 0;
    while y < ICON_SIZE
        invariant
            y <= 16,
            rgba.len() == 64 * y,
            forall|i: int| 0 <= i < rgba.len() ==> #[trigger] rgba[i] == icon_byte(enabled, i),
        decreases 16 - y,
    {
        let mut x: usize = 0;
        while x < ICON_SIZE
            invariant
                y < 16,
                x <= 16,
                rgba.len() == 64 * y + 4 * x,
                forall|i: int| 0 <= i < rgba.len() ==> #[trigger] rgba[i] == icon_byte(enabled, i),
            decreases 16 - x,
        {
            let speaker: bool = (x >= 2 && x <= 6 && y >= 4 && y <= 11) || (x >= 6 && x <= 10 && y
                >= 2 && y <= 13) || (x >= 10 && x <= 13 && (y == 4 || y == 7 || y == 10));
            let (r, g, b, a): (u8, u8, u8, u8) = if !speaker {
                (0, 0, 0, 0)
            } else if enabled {
                (50, 200, 80, 255)
            } else {
                (120, 120, 120, 255)
            };
            let ghost base: int = 64 * y + 4 * x;
            assert(base / 4 == 16 * y + x);
            assert((16 * y + x) % 16 == x && (16 * y + x) / 16 == y);
            assert((base + 1) / 4 == 16 * y + x && (base + 2) / 4 == 16 * y + x && (base + 3) / 4
                == 16 * y + x);
            assert(base % 4 == 0 && (base + 1) % 4 == 1 && (base + 2) % 4 == 2 && (base + 3) % 4
                == 3);
            rgba.push(r);
            rgba.push(g);
            rgba.push(b);
            rgba.push(a);
            x = x + 1;
        }
        y = y + 1;
    }
    rgba
}

} // verus!
