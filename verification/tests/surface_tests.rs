use frame_stream::surface::{
    RecoveryAction, SurfaceError, SurfaceFormat, choose_format, negotiate_config,
    present_recovery, should_render,
};

fn fmt(code: u32, srgb: bool) -> SurfaceFormat {
    SurfaceFormat { code, srgb }
}

#[test]
fn first_srgb_format_is_preferred() {
    let formats = vec![fmt(0, false), fmt(1, true), fmt(2, true)];
    assert_eq!(choose_format(&formats), fmt(1, true));
}

#[test]
fn falls_back_to_first_format_without_srgb() {
    let formats = vec![fmt(7, false), fmt(8, false)];
    assert_eq!(choose_format(&formats), fmt(7, false));
}

#[test]
fn negotiated_config_takes_first_modes() {
    let formats = vec![fmt(0, false), fmt(3, true)];
    let c = negotiate_config(&formats, &vec![10, 11], &vec![20, 21], 800, 600);
    assert_eq!(c.format, fmt(3, true));
    assert_eq!((c.width, c.height), (800, 600));
    assert_eq!(c.present_mode, 10);
    assert_eq!(c.alpha_mode, 20);
}

#[test]
fn lost_and_outdated_surfaces_reconfigure() {
    assert_eq!(present_recovery(SurfaceError::Lost), RecoveryAction::Reconfigure);
    assert_eq!(present_recovery(SurfaceError::Outdated), RecoveryAction::Reconfigure);
}

#[test]
fn other_surface_errors_are_reported() {
    assert_eq!(present_recovery(SurfaceError::OutOfMemory), RecoveryAction::Report);
    assert_eq!(present_recovery(SurfaceError::Timeout), RecoveryAction::Report);
    assert_eq!(present_recovery(SurfaceError::Other), RecoveryAction::Report);
}

#[test]
fn minimized_or_zero_size_window_skips_the_tick() {
    assert!(should_render(false, 800, 600));
    assert!(!should_render(true, 800, 600));
    assert!(!should_render(false, 0, 600));
    assert!(!should_render(false, 800, 0));
}
