use sanzu::session::{after_session, FramePlan, RunnerAction, StallCounter};
use sanzu::session::{
    check_frame, check_version, even, frames_per_second, select_transport,
    should_change_resolution, take_resolution_requests, SessionError, Transport,
};
use sanzu::utils::ServerEvent;

#[test]
fn transports() {
    assert_eq!(select_transport(false, false, false), Ok(Transport::Tcp));
    assert_eq!(select_transport(true, false, false), Ok(Transport::Vsock));
    assert_eq!(select_transport(false, true, false), Ok(Transport::Stdio));
    assert_eq!(select_transport(false, false, true), Ok(Transport::UnixSocket));
    assert_eq!(select_transport(true, true, false), Err(SessionError::TransportArguments));
    assert_eq!(select_transport(true, true, true), Err(SessionError::TransportArguments));
}

#[test]
fn versions() {
    assert_eq!(check_version("0.1.4", "0.1.4"), Ok(()));
    assert_eq!(check_version("0.1.4", "0.1.3"), Err(SessionError::VersionMismatch));
}

#[test]
fn even_sizes() {
    assert_eq!(even(1921), 1920);
    assert_eq!(even(1080), 1080);
    assert_eq!(even(0), 0);
    assert_eq!(even(u32::MAX), u32::MAX - 1);
}

#[test]
fn the_last_resolution_request_wins() {
    let events = vec![ServerEvent::ResolutionChange(801, 601), ServerEvent::ResolutionChange(1025, 769)];
    assert_eq!(take_resolution_requests(events, None), Some((1024, 768)));
    assert_eq!(take_resolution_requests(vec![], Some((640, 480))), Some((640, 480)));
    assert_eq!(take_resolution_requests(vec![], None), None);
}

#[test]
fn resolution_change_decision() {
    assert!(should_change_resolution((1024, 768), None, false));
    assert!(should_change_resolution((1024, 768), Some((800, 600)), false));
    assert!(!should_change_resolution((1024, 768), Some((1024, 768)), false));
    assert!(!should_change_resolution((0, 768), None, false));
    assert!(!should_change_resolution((1024, 0), None, false));
    assert!(!should_change_resolution((1024, 768), None, true));
}

#[test]
fn frames_from_server() {
    assert_eq!(check_frame(1920, 1080, None), Ok((1920, 1080, None)));
    assert_eq!(check_frame(1920, 1080, Some(7680)), Ok((1920, 1080, Some(7680))));
    assert_eq!(check_frame(9000, 10, None), Err(SessionError::ImageTooBig(9000, 10)));
    assert_eq!(check_frame(10, 10, Some(40000)), Err(SessionError::BytesPerLineTooBig(40000)));
    assert_eq!(check_frame(9000, 10, Some(40000)), Err(SessionError::ImageTooBig(9000, 10)));
}

#[test]
fn fps() {
    assert_eq!(frames_per_second(0), None);
    assert_eq!(frames_per_second(16_666), Some(60));
    assert_eq!(frames_per_second(2_000_000), Some(0));
}

#[test]
fn stall_counter_plans() {
    let mut c = StallCounter::new();
    assert_eq!(c.plan(2, false, false, false), FramePlan::Encode { raw: false, with_data: true });
    c.after_poll(false);
    c.after_poll(false);
    assert_eq!(c.frozen(), 2);
    assert_eq!(c.plan(2, false, true, false), FramePlan::Encode { raw: true, with_data: true });
    assert_eq!(c.plan(2, false, true, true), FramePlan::Encode { raw: true, with_data: false });
    assert_eq!(c.plan(2, true, true, true), FramePlan::EmptyRaw);
    c.after_poll(false);
    assert_eq!(c.plan(2, false, false, false), FramePlan::Skip);
    assert_eq!(c.plan(2, true, false, false), FramePlan::Skip);
    c.after_poll(true);
    assert_eq!(c.frozen(), 0);
    c.after_poll(false);
    c.reset();
    assert_eq!(c.frozen(), 0);
}

#[test]
fn server_keeps_listening_or_stops() {
    assert_eq!(after_session(true), RunnerAction::ServeAgain);
    assert_eq!(after_session(false), RunnerAction::Stop);
}
