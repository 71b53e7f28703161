use game_engine::surface::SurfaceSize;

#[test]
fn zero_window_side_becomes_one_pixel() {
    assert_eq!(SurfaceSize::for_window(0, 0), SurfaceSize { width: 1, height: 1 });
    assert_eq!(SurfaceSize::for_window(800, 0), SurfaceSize { width: 800, height: 1 });
    assert_eq!(SurfaceSize::for_window(800, 600), SurfaceSize { width: 800, height: 600 });
}

#[test]
fn resize_takes_a_nonzero_size() {
    let mut s = SurfaceSize::for_window(800, 600);
    assert!(s.resize(1024, 768));
    assert_eq!(s, SurfaceSize { width: 1024, height: 768 });
}

#[test]
fn minimised_window_is_ignored() {
    let mut s = SurfaceSize::for_window(800, 600);
    assert!(!s.resize(0, 0));
    assert!(!s.resize(0, 768));
    assert!(!s.resize(1024, 0));
    assert_eq!(s, SurfaceSize { width: 800, height: 600 });
}

use game_engine::surface::{frame_action, FrameAction, SurfaceStatus};

#[test]
fn frame_recovery_for_each_status() {
    let act = |reconfigure, draw, report_error| FrameAction { reconfigure, draw, report_error };
    assert_eq!(frame_action(SurfaceStatus::Success), act(false, true, false));
    assert_eq!(frame_action(SurfaceStatus::Suboptimal), act(true, true, false));
    assert_eq!(frame_action(SurfaceStatus::Outdated), act(true, false, false));
    assert_eq!(frame_action(SurfaceStatus::Lost), act(true, false, false));
    assert_eq!(frame_action(SurfaceStatus::Occluded), act(false, false, false));
    assert_eq!(frame_action(SurfaceStatus::Timeout), act(false, false, false));
    assert_eq!(frame_action(SurfaceStatus::Validation), act(false, false, true));
}

use game_engine::surface::pick_format;

#[test]
fn first_srgb_format_is_preferred() {
    assert_eq!(pick_format(&vec![false, true, true]), 1);
    assert_eq!(pick_format(&vec![true, false]), 0);
    assert_eq!(pick_format(&vec![false, false, false, true]), 3);
}

#[test]
fn first_format_when_none_is_srgb() {
    assert_eq!(pick_format(&vec![false, false]), 0);
    assert_eq!(pick_format(&vec![false]), 0);
}
