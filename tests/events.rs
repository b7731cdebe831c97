use fractal_view::controller::{zoom_factor, Action, Button, Controller, Event, Phase};
use fractal_view::fixed::ONE;
use fractal_view::view::{ViewState, INITIAL_CENTER_RE};

#[test]
fn new_controller_owes_first_frame() {
    let c = Controller::new(800, 600);
    assert!(c.pending_redraw);
    assert_eq!(c.phase, Phase::Idle);
    assert_eq!(c.view, ViewState::initial(800, 600));
}

#[test]
fn resize_updates_extent_and_redraws_once() {
    let mut c = Controller::new(800, 600);
    assert_eq!(c.handle(Event::FramePresented), Action::Nothing);
    assert!(!c.pending_redraw);
    let a = c.handle(Event::Resized { width: 1024, height: 768 });
    assert_eq!(a, Action::RebuildResources { width: 1024, height: 768 });
    assert_eq!(c.phase, Phase::AwaitingResize { width: 1024, height: 768 });
    assert_eq!(c.width, 800);
    assert_eq!(c.handle(Event::ResourcesReady), Action::Nothing);
    assert_eq!((c.width, c.height), (1024, 768));
    assert_eq!(c.view.extent_y, c.view.extent_x * 768 / 1024);
    assert_eq!(c.phase, Phase::Idle);
    assert!(c.pending_redraw);
    assert_eq!(c.handle(Event::FramePresented), Action::Nothing);
    assert!(!c.pending_redraw);
}

#[test]
fn resize_twice_equals_resize_once() {
    let mut once = Controller::new(800, 600);
    once.on_resize(1280, 720);
    let mut twice = Controller::new(800, 600);
    twice.on_resize(1280, 720);
    twice.on_resize(1280, 720);
    assert_eq!(once, twice);
    assert_eq!(once.view.extent_y, 7 * ONE / 2 * 720 / 1280);
}

#[test]
fn zero_sized_resize_is_ignored() {
    let mut c = Controller::new(800, 600);
    let before = c;
    assert_eq!(c.handle(Event::Resized { width: 0, height: 600 }), Action::Nothing);
    assert_eq!(c.handle(Event::Resized { width: 800, height: 0 }), Action::Nothing);
    assert_eq!(c, before);
}

#[test]
fn failed_rebuild_keeps_previous_size() {
    let mut c = Controller::new(800, 600);
    c.handle(Event::Resized { width: 1024, height: 768 });
    assert_eq!(c.handle(Event::ResourcesFailed), Action::ReportAllocationFailed);
    assert_eq!((c.width, c.height), (800, 600));
    assert_eq!(c.view, ViewState::initial(800, 600));
    assert_eq!(c.phase, Phase::Idle);
}

#[test]
fn pointer_move_does_not_redraw() {
    let mut c = Controller::new(800, 600);
    c.handle(Event::FramePresented);
    assert_eq!(c.handle(Event::PointerMoved { x: 10, y: 20 }), Action::Nothing);
    assert_eq!((c.pointer_x, c.pointer_y), (10, 20));
    assert!(!c.pending_redraw);
}

#[test]
fn left_click_at_center_zooms_in() {
    let mut c = Controller::new(700, 400);
    c.handle(Event::FramePresented);
    c.handle(Event::PointerMoved { x: 350, y: 200 });
    assert_eq!(c.handle(Event::ButtonPressed(Button::Left)), Action::Nothing);
    assert_eq!(c.view.center_re, INITIAL_CENTER_RE);
    assert_eq!(c.view.center_im, 0);
    assert_eq!((c.view.extent_x, c.view.extent_y), (7 * ONE / 4, ONE));
    assert!(c.pending_redraw);
}

#[test]
fn right_click_zooms_out_and_other_buttons_are_ignored() {
    let mut c = Controller::new(700, 400);
    c.handle(Event::PointerMoved { x: 350, y: 200 });
    c.handle(Event::FramePresented);
    let before = c;
    assert_eq!(c.handle(Event::ButtonPressed(Button::Middle)), Action::Nothing);
    assert_eq!(c.handle(Event::ButtonPressed(Button::Other(4))), Action::Nothing);
    assert_eq!(c, before);
    c.handle(Event::ButtonPressed(Button::Right));
    assert_eq!(c.view.extent_x, 7 * ONE);
    assert_eq!(zoom_factor(Button::Left), Some((1, 2)));
    assert_eq!(zoom_factor(Button::Right), Some((2, 1)));
    assert_eq!(zoom_factor(Button::Middle), None);
}

#[test]
fn pointer_outside_window_is_clamped() {
    let mut a = Controller::new(800, 600);
    a.handle(Event::PointerMoved { x: -50, y: 9000 });
    a.handle(Event::ButtonPressed(Button::Left));
    let mut b = Controller::new(800, 600);
    b.handle(Event::PointerMoved { x: 0, y: 600 });
    b.handle(Event::ButtonPressed(Button::Left));
    assert_eq!(a.view, b.view);
}

#[test]
fn clicks_at_precision_floor_report_and_change_nothing() {
    let mut c = Controller::new(700, 400);
    c.handle(Event::PointerMoved { x: 123, y: 321 });
    let mut reports = 0;
    for _ in 0..20 {
        let before = c;
        match c.handle(Event::ButtonPressed(Button::Left)) {
            Action::Nothing => assert!(c.view.extent_x < before.view.extent_x),
            Action::ReportPrecisionLimit => {
                assert_eq!(c, before);
                reports += 1;
            }
            other => panic!("unexpected action {:?}", other),
        }
    }
    assert_eq!(reports, 5);
}

#[test]
fn close_and_device_loss_shut_down() {
    let mut c = Controller::new(800, 600);
    assert_eq!(c.handle(Event::CloseRequested), Action::Shutdown);
    assert_eq!(c.phase, Phase::ExitRequested);
    assert!(!c.pending_redraw);
    let before = c;
    assert_eq!(c.handle(Event::ButtonPressed(Button::Left)), Action::Nothing);
    assert_eq!(c.handle(Event::Resized { width: 10, height: 10 }), Action::Nothing);
    assert_eq!(c, before);
    let mut d = Controller::new(800, 600);
    d.handle(Event::Resized { width: 640, height: 480 });
    assert_eq!(d.handle(Event::DeviceLost), Action::Shutdown);
    assert_eq!(d.phase, Phase::ExitRequested);
}

#[test]
fn surface_acquire_failure_keeps_redraw_pending() {
    let mut c = Controller::new(800, 600);
    assert_eq!(c.handle(Event::SurfaceAcquireFailed), Action::Nothing);
    assert!(c.pending_redraw);
}

#[test]
fn oversized_resize_is_reported_and_keeps_size() {
    let mut c = Controller::new(800, 600);
    let before = c;
    assert_eq!(c.handle(Event::Resized { width: 9000, height: 600 }), Action::ReportAllocationFailed);
    assert_eq!(c, before);
}
