//! Tests of the device-state cache and the per-device poll.

use helvar_cgi::dali_state::{DeviceState, RouterState};
use helvar_cgi::helvar_client::Router;
use helvar_cgi::helvar_error::HelvarError;
use helvar_cgi::poller::{next_position, DevicePoll, PollPhase};

#[test]
fn test_cache_get_unwritten_is_none() {
    let rs = RouterState::new();
    assert!(rs.get_device(1, 1).is_none());
    assert!(rs.get_device(3, 64).is_none());
    assert!(rs.get_subnet(2).is_none());
    assert!(rs.get_device(0, 0).is_none());
}

#[test]
fn test_cache_returns_last_write() {
    let mut rs = RouterState::new();
    let mut d = DeviceState::new();
    d.address = 5;
    d.device_type = 0x0101;
    d.intensity = 50;
    d.description = "lamp".to_string();
    rs.update_device(2, 5, d);
    let got = rs.get_device(2, 5).unwrap();
    assert_eq!(got.address, 5);
    assert_eq!(got.device_type, 0x0101);
    assert_eq!(got.intensity, 50);
    assert_eq!(got.description, "lamp");
    // Overwriting the slot returns the newer value.
    let mut d2 = DeviceState::new();
    d2.address = 5;
    d2.intensity = 80;
    rs.update_device(2, 5, d2);
    assert_eq!(rs.get_device(2, 5).unwrap().intensity, 80);
    // Other slots are untouched.
    assert!(rs.get_device(2, 6).is_none());
    assert!(rs.get_device(1, 5).is_none());
    assert_eq!(rs.get_subnet(2).unwrap().index, 2);
}

#[test]
fn test_set_device_intensity() {
    let mut rs = RouterState::new();
    let mut d = DeviceState::new();
    d.intensity = 10;
    rs.update_device(1, 2, d);
    rs.set_device_intensity(1, 2, 200);
    assert_eq!(rs.get_device(1, 2).unwrap().intensity, 200);
    // Setting an uncached device does nothing.
    rs.set_device_intensity(1, 3, 99);
    assert!(rs.get_device(1, 3).is_none());
    rs.set_device_intensity(9, 1, 99);
    assert!(rs.get_device(9, 1).is_none());
}

#[test]
fn test_poll_no_such_device_keeps_cache() {
    let mut rs = RouterState::new();
    let mut d = DeviceState::new();
    d.intensity = 33;
    d.description = "kept".to_string();
    rs.update_device(1, 4, d);
    let mut poll = DevicePoll::start(rs.get_device(1, 4), 1, 4, 0);
    poll.on_reply(Err(HelvarError::NoSuchDevice));
    assert!(matches!(poll.phase, PollPhase::Skip));
    assert!(poll.apply(&mut rs).is_ok());
    let kept = rs.get_device(1, 4).unwrap();
    assert_eq!(kept.intensity, 33);
    assert_eq!(kept.description, "kept");
}

#[test]
fn test_poll_error_does_not_stop_sweep() {
    let mut rs = RouterState::new();
    let mut poll = DevicePoll::start(None, 1, 1, 2);
    poll.on_reply(Err(HelvarError::Timeout));
    assert!(matches!(poll.phase, PollPhase::Failed));
    let res = poll.apply(&mut rs);
    match res {
        Err(w) => {
            assert!(matches!(w.source(), HelvarError::Timeout));
            assert_eq!(w.message().as_str(), "Failed to query device type: Timeout");
        },
        Ok(()) => panic!("a failed poll reports its error"),
    }
    assert!(rs.get_device(1, 1).is_none());
    // The sweep advances regardless of the failure, and the next device is
    // polled normally.
    let (s, a) = next_position(1, 1, 1, 2);
    assert_eq!((s, a), (1, 2));
    let mut p2 = DevicePoll::start(None, s, a, 2);
    p2.on_reply(Ok(b"5".to_vec()));
    assert!(matches!(p2.phase, PollPhase::Commit));
    assert!(p2.apply(&mut rs).is_ok());
    assert_eq!(rs.get_device(1, 2).unwrap().device_type, 5);
}

#[test]
fn test_poll_full_pass_for_load() {
    let mut rs = RouterState::new();
    let router = Router::new([1, 2, 3, 4]);
    let mut p = DevicePoll::start(None, 1, 3, 0);
    let cmd = p.next_command(&router).unwrap();
    assert_eq!(cmd.as_slice(), &b"?V:3,C:104,@1.2.3.4.1.3#"[..]);
    p.on_reply(Ok(b"257".to_vec()));
    assert!(matches!(p.phase, PollPhase::AwaitLevel));
    let cmd2 = p.next_command(&router).unwrap();
    assert_eq!(cmd2.as_slice(), &b"?V:3,C:152,@1.2.3.4.1.3#"[..]);
    p.on_reply(Ok(b"300".to_vec()));
    assert!(matches!(p.phase, PollPhase::AwaitDescription));
    let cmd3 = p.next_command(&router).unwrap();
    assert_eq!(cmd3.as_slice(), &b"?V:3,C:106,@1.2.3.4.1.3#"[..]);
    p.on_reply(Ok("Desk lamp".as_bytes().to_vec()));
    assert!(matches!(p.phase, PollPhase::Commit));
    assert!(p.next_command(&router).is_none());
    assert!(p.apply(&mut rs).is_ok());
    let d = rs.get_device(1, 3).unwrap();
    assert_eq!(d.address, 3);
    assert_eq!(d.device_type, 257);
    assert_eq!(d.intensity, 255);
    assert_eq!(d.description, "Desk lamp");
}

#[test]
fn test_poll_skips_level_for_non_load() {
    let mut p = DevicePoll::start(None, 1, 1, 0);
    p.on_reply(Ok(b"1540".to_vec()));
    assert!(matches!(p.phase, PollPhase::AwaitDescription));
    let mut p2 = DevicePoll::start(None, 1, 1, 2);
    p2.on_reply(Ok(b"1540".to_vec()));
    assert!(matches!(p2.phase, PollPhase::Commit));
}

#[test]
fn test_poll_bad_reply_fails_with_context() {
    let mut rs = RouterState::new();
    let mut p = DevicePoll::start(None, 1, 1, 0);
    p.on_reply(Ok(b"xyz".to_vec()));
    assert!(matches!(p.phase, PollPhase::Failed));
    match p.apply(&mut rs) {
        Err(w) => assert_eq!(
            w.message().as_str(),
            "Failed to query device type: Failed to parse reply"
        ),
        Ok(()) => panic!("a bad reply fails the poll"),
    }
}

#[test]
fn test_next_position_order() {
    assert_eq!(next_position(1, 1, 1, 2), (1, 2));
    assert_eq!(next_position(1, 63, 1, 2), (1, 64));
    assert_eq!(next_position(1, 64, 1, 2), (2, 1));
    assert_eq!(next_position(2, 64, 1, 2), (1, 1));
}
