use std::sync::atomic::Ordering;

use qqbot::atomic::{AtomicBool, AtomicUsize};
use qqbot::config::AppConfig;
use qqbot::crypto::{EncryptSession, IEncryptMethod};
use qqbot::lazy::UnsafeLazy;
use qqbot::task::{executor_threads, YieldFuture};

#[test]
fn atomic_bool_exchanges_only_from_the_current_value() {
    let mut a = AtomicBool::new(false);
    assert_eq!(a.compare_exchange(true, false, Ordering::SeqCst, Ordering::SeqCst), Err(false));
    assert_eq!(a.compare_exchange(false, true, Ordering::SeqCst, Ordering::SeqCst), Ok(false));
    assert!(a.load(Ordering::Relaxed));
    assert!(a.swap(false, Ordering::Relaxed));
    assert!(!a.store(true, Ordering::Relaxed));
    assert!(a.load(Ordering::Relaxed));
}

#[test]
fn atomic_usize_arithmetic() {
    let mut a = AtomicUsize::new(5);
    assert_eq!(a.fetch_add(3, Ordering::Relaxed), 5);
    assert_eq!(a.fetch_sub(2, Ordering::Relaxed), 8);
    assert_eq!(a.fetch_or(8, Ordering::Relaxed), 6);
    assert_eq!(a.fetch_and(12, Ordering::Relaxed), 14);
    *a.get_mut() += 1;
    assert_eq!(a.load(Ordering::Relaxed), 13);
}

#[test]
fn lazy_runs_its_function_once() {
    let mut l = UnsafeLazy::new(|| vec![1, 2, 3]);
    assert_eq!(l.force(), &vec![1, 2, 3]);
    assert_eq!(l.force(), &vec![1, 2, 3]);
}

#[test]
fn session_packet_carries_the_ticket_first() {
    let s = EncryptSession::new(&[9, 8, 7]);
    assert_eq!(s.id(), 69);
    assert_eq!(s.frame_encrypted(&[0xee], &[1, 2]), vec![0, 3, 9, 8, 7, 1, 2]);
    let long = EncryptSession::new(&vec![5u8; 300]);
    assert_eq!(&long.frame_encrypted(&[], &[])[..2], &[1, 44]);
}

#[test]
fn yield_future_is_pending_once() {
    let mut y = YieldFuture::new();
    assert!(!y.poll_ready());
    assert!(y.poll_ready());
    assert!(y.poll_ready());
}

#[test]
fn default_config_values() {
    let c = AppConfig::default();
    let m = c.mqtt.unwrap();
    assert_eq!(m.url, "mqtt://192.168.1.1:1883");
    assert_eq!(m.receive_topic, "qq/received");
    assert_eq!(m.send_topic, "qq/send");
    assert_eq!(c.qq.uin, 10000);
    assert_eq!(c.qq.password, "PASSWORD");
    assert_eq!(c.wifi.ssid, "SSID");
    assert_eq!(c.time.time_host, "192.168.1.1:7000");
}

#[test]
fn executor_threads_follow_the_setting() {
    assert_eq!(executor_threads(None), 1);
    assert_eq!(executor_threads(Some("4")), 4);
    assert_eq!(executor_threads(Some("+3")), 3);
    assert_eq!(executor_threads(Some("-2")), -2);
    assert_eq!(executor_threads(Some("four")), 1);
    assert_eq!(executor_threads(Some("")), 1);
}

#[test]
fn main_loop_pauses_longer_every_eighth_poll() {
    let mut count = 0usize;
    let mut pauses = Vec::new();
    for _ in 0..10 {
        let (next, ms) = qqbot::task::poll_pause(count);
        count = next;
        pauses.push(ms);
    }
    assert_eq!(pauses, vec![50, 50, 50, 50, 50, 50, 50, 500, 50, 50]);
}

#[test]
fn timer_waits_for_what_remains() {
    assert_eq!(qqbot::task::timer_remaining(100, 30), Some(70));
    assert_eq!(qqbot::task::timer_remaining(100, 100), None);
    assert_eq!(qqbot::task::timer_remaining(100, 130), None);
}
