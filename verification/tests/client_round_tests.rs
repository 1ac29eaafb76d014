use sanzu::areas::{AreaUpdate, ClientArea};
use sanzu::client_round::{ClientAction, ClientSession, ServerMessage};
use sanzu::notifications::Notification;
use sanzu::session::SessionError;

fn update(id: u32, x: i32) -> AreaUpdate {
    AreaUpdate { id, x, y: 0, width: 10, height: 20, mapped: true, is_app: false, name: String::new() }
}

#[test]
fn last_frame_is_shown_and_actions_kept_in_order() {
    let mut session = ClientSession::new(800, 600);
    let msgs = vec![
        ServerMessage::ImgEncoded { data: vec![1], width: 800, height: 600 },
        ServerMessage::Clipboard("copied".to_string()),
        ServerMessage::SoundEncoded(vec![vec![9, 9], vec![8]]),
        ServerMessage::AreaUpdt(update(3, -4)),
        ServerMessage::Stats("fps 30".to_string()),
        ServerMessage::Cursor { data: vec![0; 16], width: 2, height: 2, xhot: 1, yhot: 1 },
        ServerMessage::Cursor { data: vec![], width: 100_000, height: 2, xhot: 1, yhot: 1 },
        ServerMessage::Notifications(vec![]),
        ServerMessage::Notifications(vec![Notification::Title("t".to_string())]),
        ServerMessage::ImgEncoded { data: vec![2], width: 1024, height: 768 },
        ServerMessage::Empty,
    ];
    let out = session.receive(msgs);
    assert!(out.error.is_none());
    assert_eq!(out.image, Some((vec![2], 1024, 768)));
    assert_eq!(out.areas, vec![ClientArea { id: 3, size: (10, 20), position: (-4, 0), mapped: true }]);
    assert_eq!(session.stats, "fps 30");
    assert_eq!(out.actions.len(), 4);
    assert!(matches!(&out.actions[0], ClientAction::SetClipboard(c) if c == "copied"));
    assert!(matches!(&out.actions[1], ClientAction::PlaySound(p) if p.len() == 2));
    assert!(matches!(&out.actions[2], ClientAction::SetCursor { width: 2, height: 2, xhot: 1, yhot: 1, .. }));
    assert!(matches!(&out.actions[3], ClientAction::Notify(n) if n.len() == 1));
    assert!(session.frame_size(1024, 768));
    assert!(!session.frame_size(1024, 768));
}

#[test]
fn raw_frame_line_length_stands() {
    let mut session = ClientSession::new(4, 4);
    let out = session.receive(vec![ServerMessage::ImgRaw { data: vec![0; 64], width: 4, height: 4, bytes_per_line: 16 }]);
    assert!(out.error.is_none());
    assert_eq!(session.bytes_per_line, Some(16));
    let out = session.receive(vec![ServerMessage::ImgEncoded { data: vec![], width: 4, height: 4 }]);
    assert!(out.error.is_none());
    assert_eq!(session.bytes_per_line, Some(16));
}

#[test]
fn too_large_frame_ends_the_session() {
    let mut session = ClientSession::new(800, 600);
    let msgs = vec![
        ServerMessage::Clipboard("before".to_string()),
        ServerMessage::ImgEncoded { data: vec![], width: 100_000, height: 10 },
        ServerMessage::Clipboard("after".to_string()),
        ServerMessage::Stats("ignored".to_string()),
    ];
    let out = session.receive(msgs);
    assert_eq!(out.error, Some(SessionError::ImageTooBig(100_000, 10)));
    assert_eq!(out.actions.len(), 1);
    assert_eq!(session.stats, "");
}

#[test]
fn too_long_lines_end_the_session() {
    let mut session = ClientSession::new(800, 600);
    let out = session.receive(vec![ServerMessage::ImgRaw { data: vec![], width: 10, height: 10, bytes_per_line: 1_000_000 }]);
    assert_eq!(out.error, Some(SessionError::BytesPerLineTooBig(1_000_000)));
}
