use usbip_core::containers::beef::Beef;
use usbip_core::containers::buffer::Buffer;
use usbip_core::containers::iterators::BitShiftLeft;
use usbip_core::containers::singleton::{
    terminate, try_init, Error, TerminateOutcome, ERROR, INITIALIZED, INITIALIZING, TERMINATING,
    UNINITIALIZED,
};

#[test]
fn singleton_init_runs_once() {
    let r = try_init::<u32, String, _>(UNINITIALIZED, || Ok(7));
    assert!(!r.wait);
    assert_eq!(r.store, Some(INITIALIZED));
    assert_eq!(r.result.unwrap(), 7);
    let r = try_init::<u32, String, _>(INITIALIZED, || panic!("init must not run"));
    assert!(matches!(r.result, Err(Error::AlreadyInit)));
    assert_eq!(r.store, None);
    let r = try_init::<u32, String, _>(INITIALIZING, || panic!("init must not run"));
    assert!(r.wait);
    assert!(matches!(r.result, Err(Error::AlreadyInit)));
}

#[test]
fn singleton_init_failure_sticks() {
    let r = try_init::<u32, String, _>(UNINITIALIZED, || Err("no".to_string()));
    assert_eq!(r.store, Some(ERROR));
    assert!(matches!(r.result, Err(Error::UserSpecified(ref e)) if e == "no"));
    let r = try_init::<u32, String, _>(ERROR, || Ok(1));
    assert!(matches!(r.result, Err(Error::AlreadyFailed)));
}

#[test]
fn singleton_terminate() {
    let mut ran = false;
    assert_eq!(terminate(INITIALIZED, || ran = true), TerminateOutcome::Terminated);
    assert!(ran);
    assert_eq!(terminate(TERMINATING, || panic!("must not run")), TerminateOutcome::Wait);
    assert_eq!(terminate(UNINITIALIZED, || panic!("must not run")), TerminateOutcome::Nothing);
}

#[test]
fn beef_strings() {
    let local = String::from("local");
    let b = Beef::Borrowed(local.as_str());
    assert_eq!(b.as_str(), "local");
    let s = b.into_static();
    assert!(matches!(s, Beef::Owned(_)));
    assert_eq!(s.as_str(), "local");
    let st = Beef::Static("fixed").into_static();
    assert!(matches!(st, Beef::Static("fixed")));
    assert_eq!(st.duplicate().as_str(), "fixed");
}

#[test]
fn buffers() {
    let b = Buffer::<4>::try_from_bytes(b"ab").unwrap();
    assert_eq!(b.as_slice(), &[b'a', b'b', 0, 0]);
    let e = Buffer::<2>::try_from_bytes(b"abc").unwrap_err();
    assert_eq!(e.struct_size(), 2);
    assert_eq!(e.attempted_size(), 3);
    assert_eq!(Buffer::<3>::new().as_slice(), &[0, 0, 0]);
    assert_eq!(Buffer::from_array([1u8, 2]).as_slice(), &[1, 2]);
}

#[test]
fn bit_shift_sizes() {
    let mut it = BitShiftLeft::new(1, 1108);
    assert_eq!(it.next(), Some(1108));
    assert_eq!(it.next(), Some(2216));
    assert_eq!(it.next(), Some(4432));
    let mut wide = BitShiftLeft::new(usize::BITS, 1);
    assert_eq!(wide.next(), None);
}
