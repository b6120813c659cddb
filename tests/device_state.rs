use rablet::{
    new_device_state, Button, ButtonState, DecodedFrame, DeviceID, DeviceInfo, Fraction,
    PartialUpdate, PenButtons, PenStatus,
};

fn info() -> DeviceInfo {
    DeviceInfo {
        id: DeviceID { vid: 1, pid: 2 },
        height: 1000,
        width: 2000,
        button_available: Vec::new(),
        wheel: false,
        packet_length: 12,
    }
}

fn sample(x: u32) -> PenStatus {
    PenStatus {
        position: (Fraction { num: x, den: 2000 }, Fraction { num: 7, den: 1000 }),
        tilt: Some((0, 0)),
        pressure: Some(10),
    }
}

fn pen(x: u32, tip: bool, primary: bool, secondary: bool) -> DecodedFrame {
    DecodedFrame::Pen(sample(x), PenButtons { tip, primary, secondary })
}

fn edges(events: &[PartialUpdate], b: Button) -> Vec<ButtonState> {
    events
        .iter()
        .filter_map(|e| match e {
            PartialUpdate::Button(x, s) if *x == b => Some(*s),
            _ => None,
        })
        .collect()
}

#[test]
fn fresh_state_holds_nothing() {
    let s = new_device_state(&info());
    assert_eq!(s.id(), DeviceID { vid: 1, pid: 2 });
    assert_eq!(s.pen_position(), (0, 0));
    assert!(!s.is_pressed(Button::PenTip));
}

#[test]
fn held_button_gives_one_press_then_one_release() {
    for b in [Button::PenTip, Button::PenPrimary, Button::PenSecondary] {
        let mut s = new_device_state(&info());
        let mut all = Vec::new();
        let frame = |down: bool| {
            pen(5, b == Button::PenTip && down, b == Button::PenPrimary && down, b == Button::PenSecondary && down)
        };
        for _ in 0..5 {
            all.extend(s.apply(&frame(true)));
        }
        assert_eq!(edges(&all, b), vec![ButtonState::Press]);
        assert!(s.is_pressed(b));
        for _ in 0..4 {
            all.extend(s.apply(&frame(false)));
        }
        assert_eq!(edges(&all, b), vec![ButtonState::Press, ButtonState::Release]);
        assert!(!s.is_pressed(b));
    }
}

#[test]
fn reapplied_pointer_frame_gives_only_its_sample() {
    let mut s = new_device_state(&info());
    let f = pen(3, true, false, true);
    let first = s.apply(&f);
    assert_eq!(
        first,
        vec![
            PartialUpdate::Pen(sample(3)),
            PartialUpdate::Button(Button::PenTip, ButtonState::Press),
            PartialUpdate::Button(Button::PenSecondary, ButtonState::Press),
        ]
    );
    let second = s.apply(&f);
    assert_eq!(second, vec![PartialUpdate::Pen(sample(3))]);
}

#[test]
fn reapplied_other_frames_give_nothing() {
    let mut s = new_device_state(&info());
    for f in [DecodedFrame::Wheel, DecodedFrame::TabletButtons] {
        assert!(s.apply(&f).is_empty());
        assert!(s.apply(&f).is_empty());
    }
}

#[test]
fn edges_come_in_tip_primary_secondary_order() {
    let mut s = new_device_state(&info());
    s.apply(&pen(0, false, true, false));
    let events = s.apply(&pen(9, true, false, true));
    assert_eq!(
        events,
        vec![
            PartialUpdate::Pen(sample(9)),
            PartialUpdate::Button(Button::PenTip, ButtonState::Press),
            PartialUpdate::Button(Button::PenPrimary, ButtonState::Release),
            PartialUpdate::Button(Button::PenSecondary, ButtonState::Press),
        ]
    );
    assert_eq!(s.pen_position(), (9, 7));
}

#[test]
fn update_button_only_reports_changes() {
    let mut s = new_device_state(&info());
    let mut events = Vec::new();
    s.update_button(Button::Tablet(3), false, &mut events);
    assert!(events.is_empty());
    s.update_button(Button::Tablet(3), true, &mut events);
    s.update_button(Button::Tablet(3), true, &mut events);
    assert_eq!(events, vec![PartialUpdate::Button(Button::Tablet(3), ButtonState::Press)]);
    assert!(s.is_pressed(Button::Tablet(3)));
    s.update_button(Button::Tablet(3), false, &mut events);
    assert_eq!(events.len(), 2);
    assert!(!s.is_pressed(Button::Tablet(3)));
}

#[test]
fn handle_packet_ignores_unknown_reports() {
    let d = info();
    let mut s = new_device_state(&d);
    let mut p = vec![0u8; 12];
    p[1] = 0x81;
    let events = s.handle_packet(&d, &p);
    assert_eq!(events.len(), 2);
    assert!(s.is_pressed(Button::PenTip));
    p[1] = 0x13;
    assert!(s.handle_packet(&d, &p).is_empty());
    assert!(s.is_pressed(Button::PenTip));
    p[1] = 0x80;
    let events = s.handle_packet(&d, &p);
    assert_eq!(events[1], PartialUpdate::Button(Button::PenTip, ButtonState::Release));
}

#[test]
fn button_state_from_bool_and_code() {
    assert_eq!(ButtonState::from(true), ButtonState::Press);
    assert_eq!(ButtonState::from(false), ButtonState::Release);
    assert_eq!(ButtonState::Press.code(), 1);
    assert_eq!(ButtonState::Release.code(), 0);
}
