//! What each action does: the decisions of the event handler, as a step from the
//! application's state and an action to its next mode, a command for the image
//! viewer, and the gallery changed in place.

use vstd::prelude::*;
use crate::config::FitMode;
use crate::gallery::{Gallery, GalleryView};
use crate::input::{Action, Mode};

verus! {

/// What the image viewer is asked to do.
#[derive(Debug)]
pub enum ViewerCommand {
    /// Leave the viewer as it is.
    Nothing,
    NextImage,
    PrevImage,
    /// Open the image at this position of the viewer's list.
    OpenIndex(usize),
    ZoomIn,
    ZoomOut,
    ZoomActual,
    SetFitMode(FitMode),
    RotateCw,
    RotateCcw,
    FlipHorizontal,
    FlipVertical,
    /// Pan by this many pixels across and down.
    Pan(i32, i32),
    ToggleInfo,
    /// Take the gallery's paths as the viewer's list and open `path`.
    OpenFromGallery { list: Vec<String>, path: String },
}

/// The result of handling an action.
#[derive(Debug)]
pub struct ActionOutcome {
    /// The mode after the action.
    pub mode: Mode,
    /// What the image viewer is to do.
    pub viewer: ViewerCommand,
    /// Whether the slideshow is to be started or stopped.
    pub toggle_slideshow: bool,
    /// Whether the gallery, being empty, is to be filled from the directory of the
    /// image on view.
    pub scan_current_directory: bool,
    /// Whether the event was used.
    pub consumed: bool,
    /// Whether the application is to exit.
    pub exit: bool,
}

/// `out` sets the mode to `mode`, gives the viewer `cmd` and nothing else.
pub open spec fn only(out: ActionOutcome, mode: Mode, cmd: ViewerCommand) -> bool {
    &&& out.mode == mode
    &&& out.viewer == cmd
    &&& !out.toggle_slideshow
    &&& !out.scan_current_directory
    &&& out.consumed
    &&& !out.exit
}

/// The outcome of `action` in `mode`, with the slideshow running or not and `list_len`
/// images in the viewer's list; `g` is the gallery before and `ng` after.
pub open spec fn handled(
    action: Action,
    mode: Mode,
    slideshow_active: bool,
    list_len: nat,
    g: GalleryView,
    ng: GalleryView,
    out: ActionOutcome,
) -> bool {
    match action {
        Action::NextImage => only(out, mode, ViewerCommand::NextImage) && ng == g,
        Action::PrevImage => only(out, mode, ViewerCommand::PrevImage) && ng == g,
        Action::FirstImage => if mode == Mode::Gallery {
            only(out, mode, ViewerCommand::Nothing) && g.selected_first(ng)
        } else if list_len > 0 {
            only(out, mode, ViewerCommand::OpenIndex(0)) && ng == g
        } else {
            only(out, mode, ViewerCommand::Nothing) && ng == g
        },
        Action::LastImage => if mode == Mode::Gallery {
            only(out, mode, ViewerCommand::Nothing) && g.selected_last(ng)
        } else {
            only(out, mode, ViewerCommand::OpenIndex((if list_len > 0 { list_len - 1 } else { 0 }) as usize)) && ng == g
        },
        Action::ZoomIn => only(out, mode, ViewerCommand::ZoomIn) && ng == g,
        Action::ZoomOut => only(out, mode, ViewerCommand::ZoomOut) && ng == g,
        Action::ZoomActual => only(out, mode, ViewerCommand::ZoomActual) && ng == g,
        Action::FitToWindow => only(out, mode, ViewerCommand::SetFitMode(FitMode::Fit)) && ng == g,
        Action::FillWindow => only(out, mode, ViewerCommand::SetFitMode(FitMode::Fill)) && ng == g,
        Action::RotateCw => only(out, mode, ViewerCommand::RotateCw) && ng == g,
        Action::RotateCcw => only(out, mode, ViewerCommand::RotateCcw) && ng == g,
        Action::FlipHorizontal => only(out, mode, ViewerCommand::FlipHorizontal) && ng == g,
        Action::FlipVertical => only(out, mode, ViewerCommand::FlipVertical) && ng == g,
        Action::PanLeft => only(out, mode, ViewerCommand::Pan(-50i32, 0i32)) && ng == g,
        Action::PanRight => only(out, mode, ViewerCommand::Pan(50, 0)) && ng == g,
        Action::PanUp => only(out, mode, ViewerCommand::Pan(0i32, -50i32)) && ng == g,
        Action::PanDown => only(out, mode, ViewerCommand::Pan(0, 50)) && ng == g,
        Action::ToggleInfo => only(out, mode, ViewerCommand::ToggleInfo) && ng == g,
        Action::ToggleSlideshow => {
            &&& out.mode == mode
            &&& out.viewer == ViewerCommand::Nothing
            &&& out.toggle_slideshow
            &&& !out.scan_current_directory
            &&& out.consumed
            &&& !out.exit
            &&& ng == g
        },
        Action::SwitchToGallery => {
            &&& out.mode == Mode::Gallery
            &&& out.viewer == ViewerCommand::Nothing
            &&& !out.toggle_slideshow
            &&& out.scan_current_directory == (g.entries.len() == 0)
            &&& out.consumed
            &&& !out.exit
            &&& ng == g
        },
        Action::SwitchToViewer => only(out, Mode::Viewer, ViewerCommand::Nothing) && ng == g,
        Action::GalleryLeft => only(out, mode, ViewerCommand::Nothing) && g.moved_left(ng),
        Action::GalleryRight => only(out, mode, ViewerCommand::Nothing) && g.moved_right(ng),
        Action::GalleryUp => only(out, mode, ViewerCommand::Nothing) && g.moved_up(ng),
        Action::GalleryDown => only(out, mode, ViewerCommand::Nothing) && g.moved_down(ng),
        Action::GalleryOpen => {
            &&& ng == g
            &&& !out.toggle_slideshow
            &&& !out.scan_current_directory
            &&& out.consumed
            &&& !out.exit
            &&& match g.actual_index(g.selected as int) {
                None => out.mode == mode && out.viewer == ViewerCommand::Nothing,
                Some(idx) => {
                    &&& out.mode == Mode::Viewer
                    &&& out.viewer matches ViewerCommand::OpenFromGallery { list, path }
                    &&& path@ == g.entries[idx as int].path@
                    &&& list@.len() == g.entries.len()
                    &&& forall|i: int| 0 <= i < list@.len() ==> (#[trigger] list@[i])@ == g.entries[i].path@
                },
            }
        },
        Action::GalleryCycleSort => only(out, mode, ViewerCommand::Nothing)
            && g.resorted(ng, crate::gallery::next_sort_order(g.sort_order), g.sort_reverse),
        Action::GalleryToggleMark => only(out, mode, ViewerCommand::Nothing) && g.mark_toggled(ng),
        Action::Quit => {
            &&& out.mode == mode
            &&& out.viewer == ViewerCommand::Nothing
            &&& !out.toggle_slideshow
            &&& !out.scan_current_directory
            &&& out.consumed
            &&& out.exit
            &&& ng == g
        },
        Action::Escape => {
            &&& out.viewer == ViewerCommand::Nothing
            &&& out.toggle_slideshow == slideshow_active
            &&& out.mode == (if slideshow_active {
                mode
            } else if mode == Mode::Gallery {
                Mode::Viewer
            } else if mode == Mode::Viewer {
                Mode::Gallery
            } else {
                mode
            })
            &&& out.scan_current_directory == (!slideshow_active && mode == Mode::Viewer && g.entries.len() == 0)
            &&& out.consumed
            &&& !out.exit
            &&& ng == g
        },
        Action::NoAction => {
            &&& out.mode == mode
            &&& out.viewer == ViewerCommand::Nothing
            &&& !out.toggle_slideshow
            &&& !out.scan_current_directory
            &&& !out.consumed
            &&& !out.exit
            &&& ng == g
        },
    }
}

/// An outcome that sets the mode and gives the viewer a command.
fn outcome(mode: Mode, viewer: ViewerCommand) -> (out: ActionOutcome)
    ensures
        only(out, mode, viewer),
{
    ActionOutcome { mode, viewer, toggle_slideshow: false, scan_current_directory: false, consumed: true, exit: false }
}

/// Execute a semantic action: change the gallery in place and say what else is to happen.
pub fn handle_action(
    action: Action,
    mode: Mode,
    slideshow_active: bool,
    list_len: usize,
    gallery: &mut Gallery,
) -> (out: ActionOutcome)
    requires
        old(gallery)@.wf(),
        action == Action::GalleryDown ==> old(gallery)@.selected + old(gallery)@.columns <= usize::MAX,
    ensures
        final(gallery)@.wf(),
        handled(action, mode, slideshow_active, list_len as nat, old(gallery)@, final(gallery)@, out),
{
    match action {
        // -- Navigation --
        Action::NextImage => outcome(mode, ViewerCommand::NextImage),
        Action::PrevImage => outcome(mode, ViewerCommand::PrevImage),
        Action::FirstImage => {
            match mode {
                Mode::Gallery => {
                    gallery.select_first();
                    outcome(mode, ViewerCommand::Nothing)
                },
                _ => {
                    if list_len > 0 {
                        outcome(mode, ViewerCommand::OpenIndex(0))
                    } else {
                        outcome(mode, ViewerCommand::Nothing)
                    }
                },
            }
        },
        Action::LastImage => {
            match mode {
                Mode::Gallery => {
                    gallery.select_last();
                    outcome(mode, ViewerCommand::Nothing)
                },
                _ => {
                    let last = if list_len > 0 { list_len - 1 } else { 0 };
                    outcome(mode, ViewerCommand::OpenIndex(last))
                },
            }
        },
        // -- Zoom --
        Action::ZoomIn => outcome(mode, ViewerCommand::ZoomIn),
        Action::ZoomOut => outcome(mode, ViewerCommand::ZoomOut),
        Action::ZoomActual => outcome(mode, ViewerCommand::ZoomActual),
        Action::FitToWindow => outcome(mode, ViewerCommand::SetFitMode(FitMode::Fit)),
        Action::FillWindow => outcome(mode, ViewerCommand::SetFitMode(FitMode::Fill)),
        // -- Transform --
        Action::RotateCw => outcome(mode, ViewerCommand::RotateCw),
        Action::RotateCcw => outcome(mode, ViewerCommand::RotateCcw),
        Action::FlipHorizontal => outcome(mode, ViewerCommand::FlipHorizontal),
        Action::FlipVertical => outcome(mode, ViewerCommand::FlipVertical),
        // -- Pan --
        Action::PanLeft => outcome(mode, ViewerCommand::Pan(-50i32, 0i32)),
        Action::PanRight => outcome(mode, ViewerCommand::Pan(50, 0)),
        Action::PanUp => outcome(mode, ViewerCommand::Pan(0i32, -50i32)),
        Action::PanDown => outcome(mode, ViewerCommand::Pan(0, 50)),
        // -- View --
        Action::ToggleInfo => outcome(mode, ViewerCommand::ToggleInfo),
        Action::ToggleSlideshow => ActionOutcome {
            mode,
            viewer: ViewerCommand::Nothing,
            toggle_slideshow: true,
            scan_current_directory: false,
            consumed: true,
            exit: false,
        },
        Action::SwitchToGallery => ActionOutcome {
            mode: Mode::Gallery,
            viewer: ViewerCommand::Nothing,
            toggle_slideshow: false,
            scan_current_directory: gallery.is_empty(),
            consumed: true,
            exit: false,
        },
        Action::SwitchToViewer => outcome(Mode::Viewer, ViewerCommand::Nothing),
        // -- Gallery --
        Action::GalleryLeft => {
            gallery.move_left();
            outcome(mode, ViewerCommand::Nothing)
        },
        Action::GalleryRight => {
            gallery.move_right();
            outcome(mode, ViewerCommand::Nothing)
        },
        Action::GalleryUp => {
            gallery.move_up();
            outcome(mode, ViewerCommand::Nothing)
        },
        Action::GalleryDown => {
            gallery.move_down();
            outcome(mode, ViewerCommand::Nothing)
        },
        Action::GalleryOpen => {
            match gallery.selected_path() {
                Some(p) => {
                    let path = crate::config::owned(p);
                    let list = gallery.all_paths();
                    outcome(Mode::Viewer, ViewerCommand::OpenFromGallery { list, path })
                },
                None => outcome(mode, ViewerCommand::Nothing),
            }
        },
        Action::GalleryCycleSort => {
            gallery.cycle_sort();
            outcome(mode, ViewerCommand::Nothing)
        },
        Action::GalleryToggleMark => {
            gallery.toggle_mark();
            outcome(mode, ViewerCommand::Nothing)
        },
        // -- App --
        Action::Quit => ActionOutcome {
            mode,
            viewer: ViewerCommand::Nothing,
            toggle_slideshow: false,
            scan_current_directory: false,
            consumed: true,
            exit: true,
        },
        Action::Escape => {
            // In slideshow: stop slideshow
            if slideshow_active {
                ActionOutcome {
                    mode,
                    viewer: ViewerCommand::Nothing,
                    toggle_slideshow: true,
                    scan_current_directory: false,
                    consumed: true,
                    exit: false,
                }
            } else if mode == Mode::Gallery {
                outcome(Mode::Viewer, ViewerCommand::Nothing)
            } else if mode == Mode::Viewer {
                // Back to the gallery, filled from the image's directory if empty.
                ActionOutcome {
                    mode: Mode::Gallery,
                    viewer: ViewerCommand::Nothing,
                    toggle_slideshow: false,
                    scan_current_directory: gallery.is_empty(),
                    consumed: true,
                    exit: false,
                }
            } else {
                outcome(mode, ViewerCommand::Nothing)
            }
        },
        Action::NoAction => ActionOutcome {
            mode,
            viewer: ViewerCommand::Nothing,
            toggle_slideshow: false,
            scan_current_directory: false,
            consumed: false,
            exit: false,
        },
    }
}


/// Each image action reaches the viewer as the command of the same meaning, in any
/// mode and state, and leaves the mode and the gallery alone: next and previous image,
/// zooming in, out and to actual size, fitting and filling the window, turning
/// clockwise and counter-clockwise, flipping across and up-down, showing the info,
/// and panning by 50 pixels in the key's direction (left and up are negative).
pub proof fn law_actions_reach_viewer(
    action: Action,
    mode: Mode,
    slideshow_active: bool,
    list_len: nat,
    g: GalleryView,
    ng: GalleryView,
    out: ActionOutcome,
)
    requires
        handled(action, mode, slideshow_active, list_len, g, ng, out),
    ensures
        action == Action::NextImage ==> out.viewer == ViewerCommand::NextImage,
        action == Action::PrevImage ==> out.viewer == ViewerCommand::PrevImage,
        action == Action::ZoomIn ==> out.viewer == ViewerCommand::ZoomIn,
        action == Action::ZoomOut ==> out.viewer == ViewerCommand::ZoomOut,
        action == Action::ZoomActual ==> out.viewer == ViewerCommand::ZoomActual,
        action == Action::FitToWindow ==> out.viewer == ViewerCommand::SetFitMode(FitMode::Fit),
        action == Action::FillWindow ==> out.viewer == ViewerCommand::SetFitMode(FitMode::Fill),
        action == Action::RotateCw ==> out.viewer == ViewerCommand::RotateCw,
        action == Action::RotateCcw ==> out.viewer == ViewerCommand::RotateCcw,
        action == Action::FlipHorizontal ==> out.viewer == ViewerCommand::FlipHorizontal,
        action == Action::FlipVertical ==> out.viewer == ViewerCommand::FlipVertical,
        action == Action::ToggleInfo ==> out.viewer == ViewerCommand::ToggleInfo,
        action == Action::PanLeft ==> out.viewer == ViewerCommand::Pan(-50i32, 0i32),
        action == Action::PanRight ==> out.viewer == ViewerCommand::Pan(50, 0),
        action == Action::PanUp ==> out.viewer == ViewerCommand::Pan(0i32, -50i32),
        action == Action::PanDown ==> out.viewer == ViewerCommand::Pan(0, 50),
        (action == Action::NextImage || action == Action::PrevImage || action == Action::ZoomIn
            || action == Action::ZoomOut || action == Action::ZoomActual || action == Action::FitToWindow
            || action == Action::FillWindow || action == Action::RotateCw || action == Action::RotateCcw
            || action == Action::FlipHorizontal || action == Action::FlipVertical || action == Action::ToggleInfo
            || action == Action::PanLeft || action == Action::PanRight || action == Action::PanUp
            || action == Action::PanDown) ==> {
            &&& out.mode == mode
            &&& ng == g
            &&& out.consumed
            &&& !out.exit
            &&& !out.toggle_slideshow
            &&& !out.scan_current_directory
        },
        action == Action::Quit ==> out.exit && out.consumed && out.mode == mode && ng == g,
        action == Action::NoAction ==> !out.consumed && !out.exit && out.mode == mode && ng == g,
{
}

} // verus!
