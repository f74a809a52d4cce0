//! Linking this device: how it ends, and how its QR code is drawn.

use vstd::prelude::*;
use crate::model::opt_view;

verus! {

/// Result of a device-linking flow.
#[derive(Debug, Clone, Copy, PartialEq, Eq, Structural)]
pub enum LinkResult {
    /// Device was linked successfully.
    Success,
    /// User cancelled the linking.
    Cancelled,
}

/// The linking URI in a line that the backend prints while linking: the
/// line without the whitespace around it, where that begins with
/// `tsdevice:` or `sgnl:`.
pub open spec fn linking_uri_in(line: Seq<char>) -> Option<Seq<char>> {
    let t = crate::text::trimmed(line);
    if crate::text::has_prefix(t, "tsdevice:"@) || crate::text::has_prefix(t, "sgnl:"@) {
        Some(t)
    } else {
        None
    }
}

/// The linking URI in a line of the backend's output, if the line is one.
pub fn linking_uri(line: &str) -> (r: Option<String>)
    ensures
        opt_view(r) == linking_uri_in(line@),
{
    let trimmed = crate::text::trim(line);
    if crate::text::starts_with(trimmed.as_str(), "tsdevice:") || crate::text::starts_with(
        trimmed.as_str(),
        "sgnl:",
    ) {
        Some(trimmed)
    } else {
        None
    }
}

/// One character cell of a drawn QR code: two modules, one above the
/// other.
#[derive(Debug, Clone, Copy, PartialEq, Eq, Structural)]
pub enum QrCell {
    /// Both modules are dark.
    Full,
    /// The upper module is dark.
    Upper,
    /// The lower module is dark.
    Lower,
    /// Both modules are light.
    Blank,
}

/// The number of light modules around a QR code.
pub const QUIET_ZONE: usize = 2;

/// Whether the module at a row and column of the drawing is dark: the
/// drawing is the code with a quiet zone of light modules around it.
pub open spec fn module_dark(dark: Seq<bool>, width: int, row: int, col: int) -> bool {
    let r = row - QUIET_ZONE;
    let c = col - QUIET_ZONE;
    0 <= r < width && 0 <= c < width && dark[r * width + c]
}

/// The cell for an upper and a lower module.
pub open spec fn cell_of(top: bool, bottom: bool) -> QrCell {
    if top && bottom {
        QrCell::Full
    } else if top {
        QrCell::Upper
    } else if bottom {
        QrCell::Lower
    } else {
        QrCell::Blank
    }
}

/// Whether the module at a row and column of the drawing is dark.
fn module_at(dark: &Vec<bool>, width: usize, row: usize, col: usize) -> (r: bool)
    requires
        width * width == dark@.len(),
        width <= 0x1000,
    ensures
        r == module_dark(dark@, width as int, row as int, col as int),
{
    if row < QUIET_ZONE || col < QUIET_ZONE {
        return false;
    }
    let r = row - QUIET_ZONE;
    let c = col - QUIET_ZONE;
    if r >= width || c >= width {
        return false;
    }
    proof {
        assert(r * width + c < width * width) by (nonlinear_arith)
            requires
                r < width,
                c < width,
        ;
        assert(r * width <= 0x1000 * 0x1000) by (nonlinear_arith)
            requires
                r < width,
                width <= 0x1000,
        ;
    }
    dark[r * width + c]
}

/// Convert a QR code matrix into rows of character cells.
///
/// `dark` holds the modules of a code of `width` by `width` modules, row by
/// row. The drawing has a quiet zone of two light modules on each side, and
/// each row of cells packs two rows of modules; below the last row of
/// modules, if their number is odd, the cells see light modules.
pub fn render_qr_lines(dark: &Vec<bool>, width: usize) -> (rows: Vec<Vec<QrCell>>)
    requires
        width * width == dark@.len(),
        width <= 0x1000,
    ensures
        rows@.len() == (width + 2 * QUIET_ZONE + 1) / 2,
        forall|y: int|
            0 <= y < rows@.len() ==> (#[trigger] rows@[y])@.len() == width + 2 * QUIET_ZONE,
        forall|y: int, x: int|
            0 <= y < rows@.len() && 0 <= x < width + 2 * QUIET_ZONE ==> (#[trigger] rows@[y]@[x])
                == cell_of(
                module_dark(dark@, width as int, 2 * y, x),
                2 * y + 1 < width + 2 * QUIET_ZONE && module_dark(
                    dark@,
                    width as int,
                    2 * y + 1,
                    x,
                ),
            ),
{
    let total = width + 2 * QUIET_ZONE;
    let mut rows: Vec<Vec<QrCell>> = Vec::new();
    let mut y: usize = 0;
    while y < total
        invariant
            total == width + 2 * QUIET_ZONE,
            width * width == dark@.len(),
            width <= 0x1000,
            y % 2 == 0,
            y <= total + 1,
            rows@.len() == y / 2,
            forall|k: int| 0 <= k < rows@.len() ==> (#[trigger] rows@[k])@.len() == total,
            forall|k: int, x: int|
                0 <= k < rows@.len() && 0 <= x < total ==> (#[trigger] rows@[k]@[x]) == cell_of(
                    module_dark(dark@, width as int, 2 * k, x),
                    2 * k + 1 < total && module_dark(dark@, width as int, 2 * k + 1, x),
                ),
        decreases total + 1 - y,
    {
        let mut cells: Vec<QrCell> = Vec::new();
        let mut x: usize = 0;
        while x < total
            invariant
                total == width + 2 * QUIET_ZONE,
                width * width == dark@.len(),
                width <= 0x1000,
                y < total,
                x <= total,
                cells@.len() == x,
                forall|j: int|
                    0 <= j < x ==> (#[trigger] cells@[j]) == cell_of(
                        module_dark(dark@, width as int, y as int, j),
                        y + 1 < total && module_dark(dark@, width as int, y + 1, j),
                    ),
            decreases total - x,
        {
            let top = module_at(dark, width, y, x);
            let bottom = if y + 1 < total {
                module_at(dark, width, y + 1, x)
            } else {
                false
            };
            let cell = if top && bottom {
                QrCell::Full
            } else if top {
                QrCell::Upper
            } else if bottom {
                QrCell::Lower
            } else {
                QrCell::Blank
            };
            cells.push(cell);
            x += 1;
        }
        rows.push(cells);
        y += 2;
    }
    rows
}

} // verus!
