//! A capture from its trigger to its end.

use capscr::capture::Rectangle;
use capscr::commands::pipeline::{
    Action, Event, FrozenFrame, Pipeline, Platform, PluginReply, Point, Request, Selection,
    Source,
};
use capscr::commands::{CaptureModeArg, PostActionArg};
use capscr::config::PostCaptureAction;

const WINDOWS: Platform = Platform { windows: true, wayland: false, gnome: false };

fn request(mode: CaptureModeArg, post: PostActionArg) -> Request {
    Request { mode, post, delay_override: None, delay: 0, show_cursor: false }
}

fn idle() -> Event {
    Event::Triggered { selecting: false, busy: false, hub_visible: false }
}

#[test]
fn a_trigger_while_selecting_cancels() {
    let r = request(CaptureModeArg::Region, PostActionArg::SaveFile);
    let mut p = Pipeline::new(r, WINDOWS, None);
    let a = p.advance(Event::Triggered { selecting: true, busy: false, hub_visible: false });
    assert_eq!(a, Action::CancelSelection);
}

#[test]
fn a_trigger_while_busy_is_ignored() {
    let r = request(CaptureModeArg::Region, PostActionArg::SaveFile);
    let mut p = Pipeline::new(r, WINDOWS, None);
    let a = p.advance(Event::Triggered { selecting: false, busy: true, hub_visible: false });
    assert_eq!(a, Action::Stop { failed: false });
    assert!(!p.gate);
}

#[test]
fn a_region_goes_all_the_way() {
    let r = request(CaptureModeArg::Region, PostActionArg::SaveFile);
    let mut p = Pipeline::new(r, WINDOWS, None);
    let mut a = p.advance(idle());
    assert!(p.gate);
    let rect = Rectangle::new(10, 20, 30, 40);
    let frame = FrozenFrame { width: 200, height: 100, origin: Point { x: 0, y: 0 } };
    let mut seen = Vec::new();
    for _ in 0..20 {
        seen.push(a);
        let event = match a {
            Action::Freeze { .. } => Event::Froze { frame: Some(frame), pointer: false },
            Action::Select => Event::Selected { selection: Selection::Region { rect } },
            Action::Wait { .. } | Action::HideHub { .. } => Event::Waited,
            Action::Grab { .. } => Event::Grabbed { place: None, hdr: false },
            Action::Paint { .. } => Event::Painted,
            Action::AskPlugins { .. } => Event::Answered { reply: PluginReply::Continue },
            Action::Act { .. } | Action::Edit { .. } | Action::ReadText => Event::Finished,
            Action::Locate { .. } => Event::Located { bounds: None },
            _ => break,
        };
        a = p.advance(event);
    }
    assert!(matches!(a, Action::Stop { failed: false }), "{seen:?}");
    assert!(!p.gate);
    assert_eq!(p.last_region, Some(rect));
    assert!(seen.iter().any(|a| matches!(
        a,
        Action::Act { action: PostCaptureAction::SaveToFile, .. }
    )));
    // the part of the frozen frame lies where the region is
    let grabbed = seen.iter().find_map(|a| match a {
        Action::Grab { source } => Some(*source),
        _ => None,
    });
    if let Some(Source::Frozen { crop }) = grabbed {
        assert_eq!((crop.x, crop.y, crop.width, crop.height), (10, 20, 30, 40));
    }
}

#[test]
fn a_cancelled_selection_stops() {
    let r = request(CaptureModeArg::Region, PostActionArg::SaveFile);
    let mut p = Pipeline::new(r, WINDOWS, None);
    let mut a = p.advance(idle());
    let frame = FrozenFrame { width: 200, height: 100, origin: Point { x: 0, y: 0 } };
    for _ in 0..10 {
        let event = match a {
            Action::Freeze { .. } => Event::Froze { frame: Some(frame), pointer: false },
            Action::Select => Event::Selected { selection: Selection::Cancelled },
            Action::Wait { .. } | Action::HideHub { .. } => Event::Waited,
            _ => break,
        };
        a = p.advance(event);
    }
    assert_eq!(a, Action::Stop { failed: false });
    assert!(!p.gate);
}

#[test]
fn a_handed_over_window_is_grabbed_but_on_windows() {
    let at = Point { x: 7, y: 9 };
    for (windows, wayland) in [(true, false), (false, true), (false, false)] {
        let r = request(CaptureModeArg::Region, PostActionArg::SaveFile);
        let mut p = Pipeline::new(r, Platform { windows, wayland, gnome: false }, None);
        let mut a = p.advance(idle());
        for _ in 0..10 {
            let event = match a {
                Action::Freeze { .. } => Event::Froze { frame: None, pointer: false },
                Action::Select => Event::Selected { selection: Selection::WaylandWindow { at } },
                Action::Wait { .. } | Action::HideHub { .. } => Event::Waited,
                _ => break,
            };
            a = p.advance(event);
        }
        if windows {
            assert_eq!(a, Action::Stop { failed: false });
        } else {
            assert_eq!(a, Action::Grab { source: Source::WaylandWindow });
        }
    }
}

#[test]
fn the_last_region_is_not_selected_again() {
    let r = request(CaptureModeArg::RegionLast, PostActionArg::SaveFile);
    let rect = Rectangle::new(1, 2, 3, 4);
    let mut p = Pipeline::new(r, WINDOWS, Some(rect));
    let mut a = p.advance(idle());
    for _ in 0..10 {
        assert_ne!(a, Action::Select);
        let event = match a {
            Action::Wait { .. } | Action::HideHub { .. } => Event::Waited,
            Action::Freeze { .. } => Event::Froze { frame: None, pointer: false },
            _ => break,
        };
        a = p.advance(event);
    }
    assert!(matches!(a, Action::Grab { .. }), "{a:?}");
}

#[test]
fn a_failure_opens_the_gate() {
    let r = request(CaptureModeArg::Fullscreen, PostActionArg::SaveFile);
    let mut p = Pipeline::new(r, WINDOWS, None);
    p.advance(idle());
    assert!(p.gate);
    let a = p.advance(Event::Failed);
    assert_eq!(a, Action::Stop { failed: true });
    assert!(!p.gate);
}
