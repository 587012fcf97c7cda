use shashin::actions::{handle_action, ViewerCommand};
use shashin::config::{FitMode, GalleryConfig};
use shashin::gallery::{DirEntryInfo, Gallery};
use shashin::input::{Action, Mode};

fn gallery_of(n: usize) -> Gallery {
    let mut g = Gallery::new(&GalleryConfig { columns: 2, ..Default::default() });
    let files = (0..n)
        .map(|i| DirEntryInfo { path: format!("/p/i{i}.png"), is_file: true, size: 1, modified: 0 })
        .collect();
    g.scan_directory("/p", files);
    g
}

#[test]
fn quit_exits_and_none_is_ignored() {
    let mut g = gallery_of(0);
    let out = handle_action(Action::Quit, Mode::Viewer, false, 0, &mut g);
    assert!(out.exit && out.consumed);
    let out = handle_action(Action::NoAction, Mode::Viewer, false, 0, &mut g);
    assert!(!out.exit && !out.consumed);
}

#[test]
fn escape_stops_slideshow_then_switches_view() {
    let mut g = gallery_of(1);
    let out = handle_action(Action::Escape, Mode::Gallery, true, 0, &mut g);
    assert!(out.toggle_slideshow);
    assert_eq!(out.mode, Mode::Gallery);
    let out = handle_action(Action::Escape, Mode::Gallery, false, 0, &mut g);
    assert!(!out.toggle_slideshow);
    assert_eq!(out.mode, Mode::Viewer);
    let out = handle_action(Action::Escape, Mode::Viewer, false, 0, &mut g);
    assert_eq!(out.mode, Mode::Gallery);
    assert!(out.consumed && !out.exit && !out.scan_current_directory);
    let out = handle_action(Action::Escape, Mode::Viewer, true, 0, &mut g);
    assert_eq!(out.mode, Mode::Viewer);
    assert!(out.toggle_slideshow);
    let out = handle_action(Action::Escape, Mode::Slideshow, false, 0, &mut g);
    assert_eq!(out.mode, Mode::Slideshow);
    let mut empty = gallery_of(0);
    let out = handle_action(Action::Escape, Mode::Viewer, false, 0, &mut empty);
    assert_eq!(out.mode, Mode::Gallery);
    assert!(out.scan_current_directory);
}

#[test]
fn first_and_last_depend_on_mode() {
    let mut g = gallery_of(5);
    let out = handle_action(Action::LastImage, Mode::Gallery, false, 0, &mut g);
    assert!(matches!(out.viewer, ViewerCommand::Nothing));
    assert_eq!(g.selected_index(), 4);
    let out = handle_action(Action::FirstImage, Mode::Gallery, false, 0, &mut g);
    assert!(matches!(out.viewer, ViewerCommand::Nothing));
    assert_eq!(g.selected_index(), 0);
    let out = handle_action(Action::LastImage, Mode::Viewer, false, 7, &mut g);
    assert!(matches!(out.viewer, ViewerCommand::OpenIndex(6)));
    let out = handle_action(Action::LastImage, Mode::Viewer, false, 0, &mut g);
    assert!(matches!(out.viewer, ViewerCommand::OpenIndex(0)));
    let out = handle_action(Action::FirstImage, Mode::Viewer, false, 0, &mut g);
    assert!(matches!(out.viewer, ViewerCommand::Nothing));
    let out = handle_action(Action::FirstImage, Mode::Slideshow, false, 3, &mut g);
    assert!(matches!(out.viewer, ViewerCommand::OpenIndex(0)));
}

#[test]
fn gallery_actions_move_and_open() {
    let mut g = gallery_of(4);
    handle_action(Action::GalleryRight, Mode::Gallery, false, 0, &mut g);
    handle_action(Action::GalleryDown, Mode::Gallery, false, 0, &mut g);
    assert_eq!(g.selected_index(), 3);
    handle_action(Action::GalleryUp, Mode::Gallery, false, 0, &mut g);
    handle_action(Action::GalleryLeft, Mode::Gallery, false, 0, &mut g);
    assert_eq!(g.selected_index(), 0);
    handle_action(Action::GalleryToggleMark, Mode::Gallery, false, 0, &mut g);
    assert_eq!(g.marked_count(), 1);
    let out = handle_action(Action::GalleryOpen, Mode::Gallery, false, 0, &mut g);
    assert_eq!(out.mode, Mode::Viewer);
    match out.viewer {
        ViewerCommand::OpenFromGallery { list, path } => {
            assert_eq!(path, "/p/i0.png");
            assert_eq!(list.len(), 4);
            assert_eq!(list[3], "/p/i3.png");
        },
        other => panic!("unexpected {other:?}"),
    }
    handle_action(Action::GalleryCycleSort, Mode::Gallery, false, 0, &mut g);
    assert_eq!(g.sort_order(), shashin::config::SortOrder::Date);
    let mut empty = gallery_of(0);
    let out = handle_action(Action::GalleryOpen, Mode::Gallery, false, 0, &mut empty);
    assert_eq!(out.mode, Mode::Gallery);
    assert!(matches!(out.viewer, ViewerCommand::Nothing));
}

#[test]
fn viewer_commands_and_switches() {
    let mut g = gallery_of(0);
    let out = handle_action(Action::PanLeft, Mode::Viewer, false, 0, &mut g);
    assert!(matches!(out.viewer, ViewerCommand::Pan(-50, 0)));
    let out = handle_action(Action::PanDown, Mode::Viewer, false, 0, &mut g);
    assert!(matches!(out.viewer, ViewerCommand::Pan(0, 50)));
    let out = handle_action(Action::FillWindow, Mode::Viewer, false, 0, &mut g);
    assert!(matches!(out.viewer, ViewerCommand::SetFitMode(FitMode::Fill)));
    let out = handle_action(Action::SwitchToGallery, Mode::Viewer, false, 0, &mut g);
    assert_eq!(out.mode, Mode::Gallery);
    assert!(out.scan_current_directory);
    let mut full = gallery_of(2);
    let out = handle_action(Action::SwitchToGallery, Mode::Viewer, false, 0, &mut full);
    assert!(!out.scan_current_directory);
    let out = handle_action(Action::SwitchToViewer, Mode::Gallery, false, 0, &mut full);
    assert_eq!(out.mode, Mode::Viewer);
    let out = handle_action(Action::ToggleSlideshow, Mode::Viewer, false, 0, &mut full);
    assert!(out.toggle_slideshow);
}
