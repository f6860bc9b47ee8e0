use qqbot::reconnect::{AutoReconnect, ReconnectAction, ReconnectEvent};
use qqbot::reconnect::{first_login_action, FirstLoginAction, FirstLoginReply};
use bytes::Bytes;
use qqbot::error::RQError;
use qqbot::reconnect::{
    password_login_step, ConnectDecision, Credential, LoginMethod, LoginReply, LoginStep,
    Password, ReconnectCounter, Token,
};

fn password() -> Password {
    Password { uin: 10001, password: "pw".to_string() }
}

#[test]
fn token_is_tried_before_password() {
    let both = Credential::Both(Token(Bytes::from_static(b"t")), password());
    assert_eq!(both.first_login(), LoginMethod::Token);
    assert_eq!(both.login_after_failure(LoginMethod::Token), Some(LoginMethod::Password));
    assert_eq!(both.login_after_failure(LoginMethod::Password), None);
    let token = Credential::Token(Token(Bytes::from_static(b"t")));
    assert_eq!(token.first_login(), LoginMethod::Token);
    assert_eq!(token.login_after_failure(LoginMethod::Token), None);
    let pw = Credential::Password(password());
    assert_eq!(pw.first_login(), LoginMethod::Password);
    assert_eq!(pw.login_after_failure(LoginMethod::Password), None);
}

#[test]
fn password_login_follows_the_device_lock() {
    assert!(matches!(password_login_step(LoginReply::Success, false), LoginStep::Done));
    assert!(matches!(password_login_step(LoginReply::DeviceLocked, false), LoginStep::DeviceLockLogin));
    assert!(matches!(password_login_step(LoginReply::Success, true), LoginStep::Done));
    match password_login_step(LoginReply::DeviceLocked, true) {
        LoginStep::Failed(RQError::Other(m)) => assert_eq!(m, "failed to login"),
        _ => panic!("a second device lock was accepted"),
    }
    match password_login_step(LoginReply::Other, false) {
        LoginStep::Failed(RQError::Other(m)) => assert_eq!(m, "failed to login"),
        _ => panic!("a captcha was accepted"),
    }
}

#[test]
fn gives_up_after_max_failures_in_a_row() {
    let mut c = ReconnectCounter::new(2);
    assert_eq!(c.on_connect(false), ConnectDecision::Retry);
    assert_eq!(c.on_connect(false), ConnectDecision::Retry);
    assert_eq!(c.on_connect(false), ConnectDecision::GiveUp);
}

#[test]
fn a_connection_resets_the_count() {
    let mut c = ReconnectCounter::new(1);
    assert_eq!(c.on_connect(false), ConnectDecision::Retry);
    assert_eq!(c.on_connect(true), ConnectDecision::Start);
    assert_eq!(c.on_connect(false), ConnectDecision::Retry);
    assert_eq!(c.on_connect(false), ConnectDecision::GiveUp);
}

#[test]
fn zero_failures_allowed_gives_up_at_once() {
    let mut c = ReconnectCounter::new(0);
    assert_eq!(c.on_connect(false), ConnectDecision::GiveUp);
}

#[test]
fn first_login_answers() {
    assert_eq!(first_login_action(FirstLoginReply::Success), FirstLoginAction::Done);
    assert_eq!(first_login_action(FirstLoginReply::DeviceLocked), FirstLoginAction::ExitToVerify);
    assert_eq!(first_login_action(FirstLoginReply::DeviceLockLogin), FirstLoginAction::DeviceLockLogin);
    assert_eq!(first_login_action(FirstLoginReply::AccountFrozen), FirstLoginAction::Repeat);
    assert_eq!(first_login_action(FirstLoginReply::TooManySmsRequest), FirstLoginAction::Repeat);
    assert_eq!(first_login_action(FirstLoginReply::Other), FirstLoginAction::Repeat);
}

#[test]
fn reconnect_loop_stops_waits_connects_and_ends_on_failed_login() {
    let mut l = AutoReconnect::new(1);
    assert_eq!(l.step(ReconnectEvent::Dropped), ReconnectAction::StopAndWait);
    assert_eq!(l.step(ReconnectEvent::Waited), ReconnectAction::Connect);
    assert_eq!(l.step(ReconnectEvent::Connected(false)), ReconnectAction::StopAndWait);
    assert_eq!(l.step(ReconnectEvent::Waited), ReconnectAction::Connect);
    assert_eq!(l.step(ReconnectEvent::Connected(true)), ReconnectAction::StartAndLogin);
    assert_eq!(l.step(ReconnectEvent::LoggedIn(true)), ReconnectAction::AfterLoginAndServe);
    assert_eq!(l.step(ReconnectEvent::SessionEnded), ReconnectAction::StopAndWait);
    assert_eq!(l.step(ReconnectEvent::Waited), ReconnectAction::Connect);
    assert_eq!(l.step(ReconnectEvent::Connected(true)), ReconnectAction::StartAndLogin);
    assert_eq!(l.step(ReconnectEvent::LoggedIn(false)), ReconnectAction::Finish);
}

#[test]
fn reconnect_loop_gives_up_after_max_failed_connections() {
    let mut l = AutoReconnect::new(1);
    l.step(ReconnectEvent::Dropped);
    l.step(ReconnectEvent::Waited);
    assert_eq!(l.step(ReconnectEvent::Connected(false)), ReconnectAction::StopAndWait);
    l.step(ReconnectEvent::Waited);
    assert_eq!(l.step(ReconnectEvent::Connected(false)), ReconnectAction::Finish);
}
