use multicast_dns::handles::{CreateError, Handles, TeardownStep};
use multicast_dns::text::{c_text, decode_c_text, decode_text};

#[test]
fn creation_failures() {
    assert_eq!(Handles::create(0, 2).err(), Some(CreateError::EventLoop));
    assert_eq!(Handles::create(0, 0).err(), Some(CreateError::EventLoop));
    assert_eq!(Handles::create(1, 0).err(), Some(CreateError::Client));
    assert!(Handles::create(1, 2).is_ok());
}

#[test]
fn stop_without_browser_is_a_no_op() {
    let mut h = Handles::create(1, 2).ok().unwrap();
    assert_eq!(h.stop_browser(), None);
    assert_eq!(h.browser(), None);
    assert_eq!(h.teardown(), vec![
        TeardownStep::StopLoop,
        TeardownStep::JoinThread,
        TeardownStep::FreeClient(2),
        TeardownStep::FreePoll(1),
    ]);
}

#[test]
fn stop_releases_the_active_browser() {
    let mut h = Handles::create(1, 2).ok().unwrap();
    assert_eq!(h.browser_started(8), None);
    assert_eq!(h.stop_browser(), Some(8));
    assert_eq!(h.browser(), None);
    assert_eq!(h.stop_browser(), None);
}

#[test]
fn new_browser_replaces_the_previous() {
    let mut h = Handles::create(1, 2).ok().unwrap();
    assert_eq!(h.browser_started(8), None);
    assert_eq!(h.browser_started(9), Some(8));
    assert_eq!(h.browser(), Some(9));
    assert_eq!(h.browser_started(9), None);
    assert_eq!(h.browser_started(0), None);
    assert_eq!(h.browser(), Some(9));
}

#[test]
fn resolvers_are_held_once() {
    let mut h = Handles::create(1, 2).ok().unwrap();
    h.resolver_started(0);
    assert!(!h.holds_resolver(0));
    h.resolver_started(4);
    h.resolver_started(4);
    assert!(h.resolver_finished(4));
    assert!(!h.resolver_finished(4));
    assert!(!h.holds_resolver(4));
}

#[test]
fn teardown_frees_derived_handles_first() {
    let mut h = Handles::create(10, 20).ok().unwrap();
    h.resolver_started(31);
    h.resolver_started(32);
    h.browser_started(40);
    assert_eq!(h.teardown(), vec![
        TeardownStep::StopLoop,
        TeardownStep::JoinThread,
        TeardownStep::FreeResolver(31),
        TeardownStep::FreeResolver(32),
        TeardownStep::FreeBrowser(40),
        TeardownStep::FreeClient(20),
        TeardownStep::FreePoll(10),
    ]);
}

#[test]
fn text_decoding() {
    assert_eq!(decode_text(b"local"), Some("local".to_string()));
    assert_eq!(decode_text(&[0xe2, 0x82, 0xac]), Some("\u{20ac}".to_string()));
    assert_eq!(decode_text(&[0xe2, 0x82]), None);
    assert_eq!(decode_text(b""), Some(String::new()));
    assert_eq!(c_text(b"ab\0cd"), b"ab".to_vec());
    assert_eq!(c_text(b"\0"), Vec::<u8>::new());
    assert_eq!(c_text(b"abc"), b"abc".to_vec());
    assert_eq!(decode_c_text(b"192.168.1.5\0\0\0"), Some("192.168.1.5".to_string()));
    assert_eq!(decode_c_text(&[0xff, 0]), None);
    assert_eq!(decode_c_text(&[b'a', 0, 0xff]), Some("a".to_string()));
}
