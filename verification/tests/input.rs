use shashin::input::{map_key, Action, KeyCode, Mode, Modifiers};

fn no_mods() -> Modifiers {
    Modifiers::default()
}

fn shift() -> Modifiers {
    Modifiers { shift: true, ..Default::default() }
}

#[test]
fn viewer_navigation_keys() {
    assert_eq!(map_key(&KeyCode::Char('j'), &no_mods(), Mode::Viewer), Action::NextImage);
    assert_eq!(map_key(&KeyCode::Char('k'), &no_mods(), Mode::Viewer), Action::PrevImage);
    assert_eq!(map_key(&KeyCode::Char('n'), &no_mods(), Mode::Viewer), Action::NextImage);
    assert_eq!(map_key(&KeyCode::Char('p'), &no_mods(), Mode::Viewer), Action::PrevImage);
}

#[test]
fn viewer_zoom_keys() {
    assert_eq!(map_key(&KeyCode::Char('+'), &no_mods(), Mode::Viewer), Action::ZoomIn);
    assert_eq!(map_key(&KeyCode::Char('-'), &no_mods(), Mode::Viewer), Action::ZoomOut);
    assert_eq!(map_key(&KeyCode::Char('0'), &no_mods(), Mode::Viewer), Action::ZoomActual);
}

#[test]
fn viewer_fit_modes() {
    assert_eq!(map_key(&KeyCode::Char('f'), &no_mods(), Mode::Viewer), Action::FitToWindow);
    assert_eq!(map_key(&KeyCode::Char('F'), &no_mods(), Mode::Viewer), Action::FillWindow);
}

#[test]
fn viewer_transform_keys() {
    assert_eq!(map_key(&KeyCode::Char('r'), &no_mods(), Mode::Viewer), Action::RotateCw);
    assert_eq!(map_key(&KeyCode::Char('R'), &no_mods(), Mode::Viewer), Action::RotateCcw);
}

#[test]
fn viewer_toggle_keys() {
    assert_eq!(map_key(&KeyCode::Char('i'), &no_mods(), Mode::Viewer), Action::ToggleInfo);
    assert_eq!(map_key(&KeyCode::Space, &no_mods(), Mode::Viewer), Action::ToggleSlideshow);
    assert_eq!(map_key(&KeyCode::Char('g'), &no_mods(), Mode::Viewer), Action::SwitchToGallery);
}

#[test]
fn viewer_quit() {
    assert_eq!(map_key(&KeyCode::Char('q'), &no_mods(), Mode::Viewer), Action::Quit);
    assert_eq!(map_key(&KeyCode::Escape, &no_mods(), Mode::Viewer), Action::Escape);
}

#[test]
fn viewer_shift_flip() {
    assert_eq!(map_key(&KeyCode::Char('h'), &shift(), Mode::Viewer), Action::FlipHorizontal);
    assert_eq!(map_key(&KeyCode::Char('H'), &shift(), Mode::Viewer), Action::FlipHorizontal);
}

#[test]
fn gallery_navigation_keys() {
    assert_eq!(map_key(&KeyCode::Char('h'), &no_mods(), Mode::Gallery), Action::GalleryLeft);
    assert_eq!(map_key(&KeyCode::Char('j'), &no_mods(), Mode::Gallery), Action::GalleryDown);
    assert_eq!(map_key(&KeyCode::Char('k'), &no_mods(), Mode::Gallery), Action::GalleryUp);
    assert_eq!(map_key(&KeyCode::Char('l'), &no_mods(), Mode::Gallery), Action::GalleryRight);
}

#[test]
fn gallery_open() {
    assert_eq!(map_key(&KeyCode::Enter, &no_mods(), Mode::Gallery), Action::GalleryOpen);
}

#[test]
fn gallery_sort_and_mark() {
    assert_eq!(map_key(&KeyCode::Char('s'), &no_mods(), Mode::Gallery), Action::GalleryCycleSort);
    assert_eq!(map_key(&KeyCode::Char('m'), &no_mods(), Mode::Gallery), Action::GalleryToggleMark);
}

#[test]
fn unknown_keys_map_to_none() {
    assert_eq!(map_key(&KeyCode::F(12), &no_mods(), Mode::Viewer), Action::NoAction);
    assert_eq!(map_key(&KeyCode::Tab, &no_mods(), Mode::Gallery), Action::NoAction);
}

#[test]
fn shift_pans_and_slideshow_uses_viewer_keys() {
    assert_eq!(map_key(&KeyCode::Left, &shift(), Mode::Viewer), Action::PanLeft);
    assert_eq!(map_key(&KeyCode::Down, &shift(), Mode::Slideshow), Action::PanDown);
    assert_eq!(map_key(&KeyCode::Char('j'), &shift(), Mode::Viewer), Action::NoAction);
    assert_eq!(map_key(&KeyCode::Char('G'), &shift(), Mode::Gallery), Action::LastImage);
    assert_eq!(map_key(&KeyCode::Char('h'), &shift(), Mode::Gallery), Action::NoAction);
    for key in [KeyCode::Char('j'), KeyCode::Space, KeyCode::Home, KeyCode::Escape, KeyCode::Char('z')] {
        assert_eq!(map_key(&key, &no_mods(), Mode::Slideshow), map_key(&key, &no_mods(), Mode::Viewer));
    }
    assert_eq!(map_key(&KeyCode::Escape, &no_mods(), Mode::Gallery), Action::SwitchToViewer);
    assert_eq!(map_key(&KeyCode::End, &no_mods(), Mode::Viewer), Action::LastImage);
    assert_eq!(Mode::default(), Mode::Viewer);
}
