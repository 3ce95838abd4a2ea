//! The tray icon's menu, where its summary popover opens, and when the global
//! hotkey is registered.
use vstd::prelude::*;
use crate::text::{chars_of, str_eq, trim, trim_chars};

verus! {

/// What a tray menu entry does.
#[derive(Clone, Copy, Debug, PartialEq, Eq, Structural)]
pub enum TrayAction {
    /// Toggle the space-summary popover.
    Summary,
    /// Show the main window.
    Open,
    /// Quit the application.
    Quit,
}

/// The tray menu: each entry's id and label, in order (a separator stands
/// between the first two entries and the last).
pub fn tray_menu() -> (r: Vec<(&'static str, &'static str)>)
    ensures
        r@.map_values(|e: (&str, &str)| (e.0@, e.1@)) == seq![
            ("summary"@, "Résumé de l'espace"@),
            ("open"@, "Ouvrir FreeYourDisk"@),
            ("quit"@, "Quitter"@),
        ],
{
    let mut r: Vec<(&'static str, &'static str)> = Vec::new();
    r.push(("summary", "Résumé de l'espace"));
    r.push(("open", "Ouvrir FreeYourDisk"));
    r.push(("quit", "Quitter"));
    assert(r@.map_values(|e: (&str, &str)| (e.0@, e.1@)) =~= seq![
        ("summary"@, "Résumé de l'espace"@),
        ("open"@, "Ouvrir FreeYourDisk"@),
        ("quit"@, "Quitter"@),
    ]);
    r
}

/// The action of the menu entry `id` (none for an unknown id).
pub fn tray_action(id: &str) -> (r: Option<TrayAction>)
    ensures
        r == if id@ == "summary"@ {
            Some(TrayAction::Summary)
        } else if id@ == "open"@ {
            Some(TrayAction::Open)
        } else if id@ == "quit"@ {
            Some(TrayAction::Quit)
        } else {
            None::<TrayAction>
        },
{
    if str_eq(id, "summary") {
        Some(TrayAction::Summary)
    } else if str_eq(id, "open") {
        Some(TrayAction::Open)
    } else if str_eq(id, "quit") {
        Some(TrayAction::Quit)
    } else {
        None
    }
}

/// Gap between the popover and the screen's edges.
pub const POPOVER_MARGIN: i32 = 12;

/// Room left for a taskbar or dock below the popover.
pub const POPOVER_TASKBAR: i32 = 56;

/// One coordinate of the popover: flush with the far edge of the monitor
/// (`origin + extent - size - gap`), but never closer than the margin to the
/// near edge.
pub open spec fn popover_coord(origin: int, extent: int, size: int, gap: int) -> int {
    let far = origin + extent - size - gap;
    let near = origin + 12;
    if far < near {
        near
    } else {
        far
    }
}

/// The arithmetic of one coordinate stays within `i32`.
pub open spec fn coord_fits(origin: i32, extent: u32, size: u32, gap: i32) -> bool {
    &&& extent <= i32::MAX
    &&& size <= i32::MAX
    &&& i32::MIN <= origin + extent <= i32::MAX
    &&& i32::MIN <= origin + extent - size <= i32::MAX
    &&& i32::MIN <= origin + extent - size - gap <= i32::MAX
    &&& origin + 12 <= i32::MAX
}

fn coord(origin: i32, extent: u32, size: u32, gap: i32) -> (r: i32)
    requires
        coord_fits(origin, extent, size, gap),
    ensures
        r == popover_coord(origin as int, extent as int, size as int, gap as int),
{
    let far = origin + extent as i32 - size as i32 - gap;
    let near = origin + POPOVER_MARGIN;
    if far < near {
        near
    } else {
        far
    }
}

/// Where the popover opens on a monitor at `origin` of size `monitor`: in the
/// bottom-right corner, `POPOVER_MARGIN` from the right edge and
/// `POPOVER_TASKBAR` above the bottom edge, but never past the top-left
/// margin. `window` is the popover's size when known (else 320 by 470).
pub fn popover_position(origin: (i32, i32), monitor: (u32, u32), window: Option<(u32, u32)>) -> (r: (i32, i32))
    requires
        ({
            let size = match window {
                Some(s) => s,
                None => (320u32, 470u32),
            };
            coord_fits(origin.0, monitor.0, size.0, 12) && coord_fits(origin.1, monitor.1, size.1, 56)
        }),
    ensures
        ({
            let size = match window {
                Some(s) => s,
                None => (320u32, 470u32),
            };
            r.0 == popover_coord(origin.0 as int, monitor.0 as int, size.0 as int, 12)
                && r.1 == popover_coord(origin.1 as int, monitor.1 as int, size.1 as int, 56)
        }),
{
    let size = match window {
        Some(s) => s,
        None => (320u32, 470u32),
    };
    (coord(origin.0, monitor.0, size.0, POPOVER_MARGIN), coord(origin.1, monitor.1, size.1, POPOVER_TASKBAR))
}

/// Whether a global hotkey is registered for `accelerator`: not when it is
/// blank (the hotkey is then only cleared).
pub fn registers_shortcut(accelerator: &str) -> (r: bool)
    ensures
        r == (trim(accelerator@).len() > 0),
{
    let c = chars_of(accelerator);
    let t = trim_chars(&c);
    t.len() > 0
}

} // verus!
