//! Keybindings: which semantic action a key press means in each mode.

use vstd::prelude::*;

verus! {

/// Application modes that determine keybinding context.
#[derive(Clone, Copy, Debug, PartialEq, Eq, Structural)]
pub enum Mode {
    /// Viewing a single image.
    Viewer,
    /// Browsing the thumbnail gallery.
    Gallery,
    /// Slideshow is running (subset of viewer controls).
    Slideshow,
}

impl Default for Mode {
    fn default() -> (r: Self)
        ensures
            r == Mode::Viewer,
    {
        Mode::Viewer
    }
}

/// Semantic actions the application can perform.
#[derive(Clone, Copy, Debug, PartialEq, Eq, Structural)]
pub enum Action {
    // -- Navigation --
    NextImage,
    PrevImage,
    FirstImage,
    LastImage,
    // -- Zoom --
    ZoomIn,
    ZoomOut,
    ZoomActual,
    FitToWindow,
    FillWindow,
    // -- Transform --
    RotateCw,
    RotateCcw,
    FlipHorizontal,
    FlipVertical,
    // -- Pan (shift + arrows) --
    PanLeft,
    PanRight,
    PanUp,
    PanDown,
    // -- View --
    ToggleInfo,
    ToggleSlideshow,
    SwitchToGallery,
    SwitchToViewer,
    // -- Gallery navigation --
    GalleryLeft,
    GalleryRight,
    GalleryUp,
    GalleryDown,
    GalleryOpen,
    GalleryCycleSort,
    GalleryToggleMark,
    // -- App --
    Quit,
    Escape,
    /// No action mapped.
    NoAction,
}

/// A key on the keyboard.
#[derive(Clone, Copy, Debug, PartialEq, Eq, Structural)]
pub enum KeyCode {
    Char(char),
    Enter,
    Escape,
    Backspace,
    Delete,
    Tab,
    Up,
    Down,
    Left,
    Right,
    Home,
    End,
    PageUp,
    PageDown,
    F(u8),
    Space,
    CapsLock,
    NumLock,
    /// Key not mapped to any known code.
    Unknown,
}

/// Modifier keys held during a key press.
#[derive(Clone, Copy, Debug, PartialEq, Eq, Structural)]
pub struct Modifiers {
    pub shift: bool,
    pub ctrl: bool,
    pub alt: bool,
    pub meta: bool,
}

impl Default for Modifiers {
    fn default() -> (r: Self)
        ensures
            !r.shift && !r.ctrl && !r.alt && !r.meta,
    {
        Modifiers { shift: false, ctrl: false, alt: false, meta: false }
    }
}

/// The action of a key in the viewer (and slideshow).
pub open spec fn viewer_action(key: KeyCode, mods: Modifiers) -> Action {
    if mods.shift {
        match key {
            KeyCode::Char('h') | KeyCode::Char('H') => Action::FlipHorizontal,
            KeyCode::Left => Action::PanLeft,
            KeyCode::Right => Action::PanRight,
            KeyCode::Up => Action::PanUp,
            KeyCode::Down => Action::PanDown,
            _ => Action::NoAction,
        }
    } else {
        match key {
            KeyCode::Char('j') | KeyCode::Char('n') | KeyCode::Right => Action::NextImage,
            KeyCode::Char('k') | KeyCode::Char('p') | KeyCode::Left => Action::PrevImage,
            KeyCode::Char('+') | KeyCode::Char('=') => Action::ZoomIn,
            KeyCode::Char('-') => Action::ZoomOut,
            KeyCode::Char('0') => Action::ZoomActual,
            KeyCode::Char('f') => Action::FitToWindow,
            KeyCode::Char('F') => Action::FillWindow,
            KeyCode::Char('r') => Action::RotateCw,
            KeyCode::Char('R') => Action::RotateCcw,
            KeyCode::Char('h') => Action::FlipHorizontal,
            KeyCode::Char('H') => Action::FlipVertical,
            KeyCode::Char('i') => Action::ToggleInfo,
            KeyCode::Space => Action::ToggleSlideshow,
            KeyCode::Char('g') => Action::SwitchToGallery,
            KeyCode::Home => Action::FirstImage,
            KeyCode::End => Action::LastImage,
            KeyCode::Char('q') => Action::Quit,
            KeyCode::Escape => Action::Escape,
            _ => Action::NoAction,
        }
    }
}

/// The action of a key in the gallery.
pub open spec fn gallery_action(key: KeyCode, mods: Modifiers) -> Action {
    if mods.shift {
        match key {
            KeyCode::Char('G') => Action::LastImage,
            _ => Action::NoAction,
        }
    } else {
        match key {
            KeyCode::Char('h') | KeyCode::Left => Action::GalleryLeft,
            KeyCode::Char('l') | KeyCode::Right => Action::GalleryRight,
            KeyCode::Char('j') | KeyCode::Down => Action::GalleryDown,
            KeyCode::Char('k') | KeyCode::Up => Action::GalleryUp,
            KeyCode::Enter => Action::GalleryOpen,
            KeyCode::Char('s') => Action::GalleryCycleSort,
            KeyCode::Char('m') => Action::GalleryToggleMark,
            KeyCode::Char('g') => Action::FirstImage,
            KeyCode::Char('G') => Action::LastImage,
            KeyCode::Home => Action::FirstImage,
            KeyCode::End => Action::LastImage,
            KeyCode::Escape => Action::SwitchToViewer,
            KeyCode::Char('q') => Action::Quit,
            _ => Action::NoAction,
        }
    }
}

/// The action of a key in a mode: the slideshow uses the viewer's bindings.
pub open spec fn key_action(key: KeyCode, mods: Modifiers, mode: Mode) -> Action {
    match mode {
        Mode::Viewer | Mode::Slideshow => viewer_action(key, mods),
        Mode::Gallery => gallery_action(key, mods),
    }
}

/// Map a key event to a semantic action based on the current mode.
pub fn map_key(key: &KeyCode, mods: &Modifiers, mode: Mode) -> (r: Action)
    ensures
        r == key_action(*key, *mods, mode),
{
    match mode {
        Mode::Viewer | Mode::Slideshow => map_viewer_key(key, mods),
        Mode::Gallery => map_gallery_key(key, mods),
    }
}

/// Map a key press in viewer mode.
fn map_viewer_key(key: &KeyCode, mods: &Modifiers) -> (r: Action)
    ensures
        r == viewer_action(*key, *mods),
{
    if mods.shift {
        return match key {
            KeyCode::Char('h') | KeyCode::Char('H') => Action::FlipHorizontal,
            KeyCode::Left => Action::PanLeft,
            KeyCode::Right => Action::PanRight,
            KeyCode::Up => Action::PanUp,
            KeyCode::Down => Action::PanDown,
            _ => Action::NoAction,
        };
    }
    match key {
        // Navigation
        KeyCode::Char('j') | KeyCode::Char('n') | KeyCode::Right => Action::NextImage,
        KeyCode::Char('k') | KeyCode::Char('p') | KeyCode::Left => Action::PrevImage,
        // Zoom
        KeyCode::Char('+') | KeyCode::Char('=') => Action::ZoomIn,
        KeyCode::Char('-') => Action::ZoomOut,
        KeyCode::Char('0') => Action::ZoomActual,
        KeyCode::Char('f') => Action::FitToWindow,
        KeyCode::Char('F') => Action::FillWindow,
        // Transform
        KeyCode::Char('r') => Action::RotateCw,
        KeyCode::Char('R') => Action::RotateCcw,
        KeyCode::Char('h') => Action::FlipHorizontal,
        KeyCode::Char('H') => Action::FlipVertical,
        // View
        KeyCode::Char('i') => Action::ToggleInfo,
        KeyCode::Space => Action::ToggleSlideshow,
        KeyCode::Char('g') => Action::SwitchToGallery,
        // Navigation shortcuts
        KeyCode::Home => Action::FirstImage,
        KeyCode::End => Action::LastImage,
        // App
        KeyCode::Char('q') => Action::Quit,
        KeyCode::Escape => Action::Escape,
        _ => Action::NoAction,
    }
}

/// Map a key press in gallery mode.
fn map_gallery_key(key: &KeyCode, mods: &Modifiers) -> (r: Action)
    ensures
        r == gallery_action(*key, *mods),
{
    if mods.shift {
        return match key {
            KeyCode::Char('G') => Action::LastImage,
            _ => Action::NoAction,
        };
    }
    match key {
        // Grid navigation
        KeyCode::Char('h') | KeyCode::Left => Action::GalleryLeft,
        KeyCode::Char('l') | KeyCode::Right => Action::GalleryRight,
        KeyCode::Char('j') | KeyCode::Down => Action::GalleryDown,
        KeyCode::Char('k') | KeyCode::Up => Action::GalleryUp,
        // Open selected
        KeyCode::Enter => Action::GalleryOpen,
        // Sort
        KeyCode::Char('s') => Action::GalleryCycleSort,
        // Mark
        KeyCode::Char('m') => Action::GalleryToggleMark,
        // Jump
        KeyCode::Char('g') => Action::FirstImage,
        KeyCode::Char('G') => Action::LastImage,
        KeyCode::Home => Action::FirstImage,
        KeyCode::End => Action::LastImage,
        // Back to viewer
        KeyCode::Escape => Action::SwitchToViewer,
        KeyCode::Char('q') => Action::Quit,
        _ => Action::NoAction,
    }
}

/// In the viewer and the slideshow, with Shift up (other modifiers do not matter):
/// the Right arrow, `j` and `n` step to the next image and the Left arrow, `k` and `p`
/// to the previous one; `+` and `=` zoom in, `-` zooms out and `0` shows actual size;
/// `f` fits and `F` fills the window; `r` turns clockwise and `R` counter-clockwise;
/// `h` flips across and `H` up-down; Home and End go to the first and last image.
/// With Shift held, the arrows pan the image in their own direction.
pub proof fn law_viewer_bindings(mods: Modifiers, mode: Mode)
    requires
        mode != Mode::Gallery,
    ensures
        !mods.shift ==> {
            &&& key_action(KeyCode::Right, mods, mode) == Action::NextImage
            &&& key_action(KeyCode::Char('j'), mods, mode) == Action::NextImage
            &&& key_action(KeyCode::Char('n'), mods, mode) == Action::NextImage
            &&& key_action(KeyCode::Left, mods, mode) == Action::PrevImage
            &&& key_action(KeyCode::Char('k'), mods, mode) == Action::PrevImage
            &&& key_action(KeyCode::Char('p'), mods, mode) == Action::PrevImage
            &&& key_action(KeyCode::Char('+'), mods, mode) == Action::ZoomIn
            &&& key_action(KeyCode::Char('='), mods, mode) == Action::ZoomIn
            &&& key_action(KeyCode::Char('-'), mods, mode) == Action::ZoomOut
            &&& key_action(KeyCode::Char('0'), mods, mode) == Action::ZoomActual
            &&& key_action(KeyCode::Char('f'), mods, mode) == Action::FitToWindow
            &&& key_action(KeyCode::Char('F'), mods, mode) == Action::FillWindow
            &&& key_action(KeyCode::Char('r'), mods, mode) == Action::RotateCw
            &&& key_action(KeyCode::Char('R'), mods, mode) == Action::RotateCcw
            &&& key_action(KeyCode::Char('h'), mods, mode) == Action::FlipHorizontal
            &&& key_action(KeyCode::Char('H'), mods, mode) == Action::FlipVertical
            &&& key_action(KeyCode::Home, mods, mode) == Action::FirstImage
            &&& key_action(KeyCode::End, mods, mode) == Action::LastImage
            &&& key_action(KeyCode::Char('q'), mods, mode) == Action::Quit
        },
        mods.shift ==> {
            &&& key_action(KeyCode::Left, mods, mode) == Action::PanLeft
            &&& key_action(KeyCode::Right, mods, mode) == Action::PanRight
            &&& key_action(KeyCode::Up, mods, mode) == Action::PanUp
            &&& key_action(KeyCode::Down, mods, mode) == Action::PanDown
        },
{
}

/// In the gallery, with Shift up, the arrows and `h`/`l`/`k`/`j` move the selection
/// in their own direction, Enter opens it, `g`/Home and `G`/End jump to the first and
/// last entry, and Escape goes back to the viewer.
pub proof fn law_gallery_bindings(mods: Modifiers)
    ensures
        !mods.shift ==> {
            &&& key_action(KeyCode::Left, mods, Mode::Gallery) == Action::GalleryLeft
            &&& key_action(KeyCode::Char('h'), mods, Mode::Gallery) == Action::GalleryLeft
            &&& key_action(KeyCode::Right, mods, Mode::Gallery) == Action::GalleryRight
            &&& key_action(KeyCode::Char('l'), mods, Mode::Gallery) == Action::GalleryRight
            &&& key_action(KeyCode::Up, mods, Mode::Gallery) == Action::GalleryUp
            &&& key_action(KeyCode::Char('k'), mods, Mode::Gallery) == Action::GalleryUp
            &&& key_action(KeyCode::Down, mods, Mode::Gallery) == Action::GalleryDown
            &&& key_action(KeyCode::Char('j'), mods, Mode::Gallery) == Action::GalleryDown
            &&& key_action(KeyCode::Enter, mods, Mode::Gallery) == Action::GalleryOpen
            &&& key_action(KeyCode::Char('g'), mods, Mode::Gallery) == Action::FirstImage
            &&& key_action(KeyCode::Home, mods, Mode::Gallery) == Action::FirstImage
            &&& key_action(KeyCode::Char('G'), mods, Mode::Gallery) == Action::LastImage
            &&& key_action(KeyCode::End, mods, Mode::Gallery) == Action::LastImage
            &&& key_action(KeyCode::Escape, mods, Mode::Gallery) == Action::SwitchToViewer
        },
        mods.shift ==> key_action(KeyCode::Char('G'), mods, Mode::Gallery) == Action::LastImage,
{
}

/// A key means the same in the slideshow as in the viewer.
pub proof fn law_slideshow_uses_viewer_keys(key: KeyCode, mods: Modifiers)
    ensures
        key_action(key, mods, Mode::Slideshow) == key_action(key, mods, Mode::Viewer),
{
}

} // verus!
