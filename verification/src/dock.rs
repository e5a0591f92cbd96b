//! The dockable panels of the application window.

use vstd::prelude::*;

verus! {

/// Every dockable panel in the application.
#[derive(Debug, Clone, Copy, PartialEq, Eq, Structural)]
pub enum Panel {
    /// Central 3D view (GPU-rendered).
    Viewport,
    /// World list with thumbnails.
    WorldBrowser,
    /// Top-down 2D map.
    OverviewMap,
    /// Details about the current selection.
    Properties,
    /// Export preset, format, and output options.
    ExportSettings,
    /// Human-readable application log.
    OutputLog,
    /// Debug visualisation settings.
    DebugSettings,
}

impl Panel {
    /// Every panel, for the View menu.
    pub const ALL: [Panel; 7] = [
        Panel::Viewport,
        Panel::WorldBrowser,
        Panel::OverviewMap,
        Panel::Properties,
        Panel::ExportSettings,
        Panel::OutputLog,
        Panel::DebugSettings,
    ];

    /// Tab title.
    pub fn title(self) -> (r: &'static str)
        ensures
            r@ == match self {
                Panel::Viewport => "Viewport"@,
                Panel::WorldBrowser => "World Browser"@,
                Panel::OverviewMap => "2D Overview"@,
                Panel::Properties => "Properties"@,
                Panel::ExportSettings => "Export Settings"@,
                Panel::OutputLog => "Output Log"@,
                Panel::DebugSettings => "Debug"@,
            },
    {
        match self {
            Panel::Viewport => "Viewport",
            Panel::WorldBrowser => "World Browser",
            Panel::OverviewMap => "2D Overview",
            Panel::Properties => "Properties",
            Panel::ExportSettings => "Export Settings",
            Panel::OutputLog => "Output Log",
            Panel::DebugSettings => "Debug",
        }
    }
}

} // verus!
