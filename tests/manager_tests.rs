use openterm_rdp::frame::RdpConnectionInfo;
use openterm_rdp::input::InputEvent;
use openterm_rdp::manager::RdpManager;
use openterm_rdp::session::{RdpError, RdpClient, ReadErrorKind};
use openterm_rdp::ssh::AuthMethod;
use openterm_rdp::terminal::{SessionInfo, SessionType};

fn info() -> RdpConnectionInfo {
    RdpConnectionInfo { host: "h".to_string(), port: 1, username: "u".to_string(), domain: None }
}

#[test]
fn closed_session_is_not_found() {
    let mut m: RdpManager<u32> = RdpManager::new();
    let id = "a".to_string();
    m.create_session(id.clone(), RdpClient::new(info(), 800, 600), 7);
    assert!(m.send_input(&id, InputEvent::MouseMove { x: 1, y: 1 }).is_ok());
    assert!(m.is_live(&id));
    assert_eq!(m.close_session(&id), Some(7));
    assert_eq!(m.send_input(&id, InputEvent::MouseMove { x: 1, y: 1 }), Err(RdpError::SessionNotFound));
    assert!(!m.is_live(&id));
    assert_eq!(m.get_dimensions(&id), Err(RdpError::SessionNotFound));
    assert_eq!(m.close_session(&id), None);
}

#[test]
fn sessions_are_independent() {
    let mut m: RdpManager<u32> = RdpManager::new();
    let a = "a".to_string();
    let b = "b".to_string();
    m.create_session(a.clone(), RdpClient::new(info(), 10, 20), 1);
    m.create_session(b.clone(), RdpClient::new(info(), 30, 40), 2);
    m.close_session(&a);
    assert_eq!(m.get_dimensions(&b), Ok((30, 40)));
    assert_eq!(m.transport(&b), Some(&2));
    assert_eq!(m.transport(&a), None);
}

#[test]
fn registering_again_replaces() {
    let mut m: RdpManager<u32> = RdpManager::new();
    let a = "a".to_string();
    m.create_session(a.clone(), RdpClient::new(info(), 10, 20), 1);
    m.create_session(a.clone(), RdpClient::new(info(), 50, 60), 2);
    assert_eq!(m.get_dimensions(&a), Ok((50, 60)));
    assert_eq!(m.close_session(&a), Some(2));
    assert_eq!(m.transport(&a), None);
}

#[test]
fn disconnected_session_stops_its_loop_and_refuses_input() {
    let mut m: RdpManager<()> = RdpManager::new();
    let a = "a".to_string();
    m.create_session(a.clone(), RdpClient::new(info(), 10, 20), ());
    assert!(matches!(
        m.read_failed(&a, ReadErrorKind::UnexpectedEof, String::new()),
        Err(RdpError::ConnectionClosed)
    ));
    assert!(!m.is_live(&a));
    assert_eq!(m.send_input(&a, InputEvent::Keyboard { scancode: 1, down: true }), Err(RdpError::NotConnected));
    m.disconnect(&a);
    assert_eq!(m.get_dimensions(&a), Ok((10, 20)));
}

#[test]
fn unknown_session_errors() {
    let mut m: RdpManager<()> = RdpManager::new();
    let z = "z".to_string();
    assert!(matches!(m.read_failed(&z, ReadErrorKind::Other, String::new()), Err(RdpError::SessionNotFound)));
    assert!(m.handle_outputs(&z, Vec::new(), &openterm_rdp::framebuffer::FrameBuffer::new(1, 1)).is_err());
}

#[test]
fn auth_method_constructors() {
    assert!(matches!(AuthMethod::password("pw".to_string()), AuthMethod::Password { password } if password == "pw"));
    assert!(matches!(
        AuthMethod::public_key("/k".to_string(), None),
        AuthMethod::PublicKey { private_key_path, passphrase: None } if private_key_path == "/k"
    ));
    assert!(matches!(AuthMethod::agent(), AuthMethod::Agent));
    let s = SessionInfo { id: "1".to_string(), session_type: SessionType::Local, title: "t".to_string() };
    assert!(matches!(s.session_type, SessionType::Local));
}
