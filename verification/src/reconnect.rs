//! Logging in again after the connection drops: the credentials, the order
//! in which they are tried, and when to stop reconnecting.
use vstd::prelude::*;
use bytes::Bytes;
use crate::error::RQError;

verus! {

/// The connector that opens a TCP connection to the client's server.
pub struct DefaultConnector;

/// A session token from an earlier login.
pub struct Token(pub Bytes);

/// An account number and its password.
pub struct Password {
    pub uin: i64,
    pub password: String,
}

/// What a client can log in again with.
pub enum Credential {
    Token(Token),
    Password(Password),
    Both(Token, Password),
}

/// A way of logging in.
#[derive(Debug, Clone, Copy, PartialEq, Eq, Structural)]
pub enum LoginMethod {
    Token,
    Password,
}

impl Credential {
    /// The method tried first: the token, when there is one.
    pub open spec fn first_method(&self) -> LoginMethod {
        match self {
            Credential::Password(_) => LoginMethod::Password,
            _ => LoginMethod::Token,
        }
    }

    /// The method tried after `failed` failed: the password after the
    /// token, when there are both; else none.
    pub open spec fn method_after(&self, failed: LoginMethod) -> Option<LoginMethod> {
        match self {
            Credential::Both(_, _) => if failed == LoginMethod::Token {
                Some(LoginMethod::Password)
            } else {
                None
            },
            _ => None,
        }
    }

    /// The method to try first.
    pub fn first_login(&self) -> (r: LoginMethod)
        ensures
            r == self.first_method(),
    {
        match self {
            Credential::Password(_) => LoginMethod::Password,
            _ => LoginMethod::Token,
        }
    }

    /// The method to try after `failed` failed, if any.
    pub fn login_after_failure(&self, failed: LoginMethod) -> (r: Option<LoginMethod>)
        ensures
            r == self.method_after(failed),
    {
        match self {
            Credential::Both(_, _) => match failed {
                LoginMethod::Token => Some(LoginMethod::Password),
                LoginMethod::Password => None,
            },
            _ => None,
        }
    }
}

/// Every credential is tried with at most two methods, the second only
/// where the first was the token and a password is there too.
pub proof fn law_at_most_two_attempts(c: Credential)
    ensures
        c.method_after(c.first_method()) matches Some(m) ==> m == LoginMethod::Password
            && c.first_method() == LoginMethod::Token && c is Both,
        c.method_after(c.first_method()) matches Some(m) ==> c.method_after(m) is None,
{
}

/// The server's answer to a password login.
#[derive(Debug, Clone, Copy, PartialEq, Eq, Structural)]
pub enum LoginReply {
    /// Logged in.
    Success,
    /// The device is locked: a device-lock login is asked for.
    DeviceLocked,
    /// Any other answer: a captcha, an SMS code, an error.
    Other,
}

/// Where a password login stands after a reply.
#[derive(Debug)]
pub enum LoginStep {
    /// Logged in.
    Done,
    /// Send the device-lock login and take its reply.
    DeviceLockLogin,
    /// The login failed.
    Failed(RQError),
}

/// Why a login fails.
pub open spec fn login_failed_message() -> Seq<char> {
    "failed to login"@
}

/// Where a password login stands after `reply`; `after_device_lock` tells
/// whether it answers the device-lock login.
pub fn password_login_step(reply: LoginReply, after_device_lock: bool) -> (r: LoginStep)
    ensures
        reply == LoginReply::Success ==> r is Done,
        reply == LoginReply::DeviceLocked && !after_device_lock ==> r is DeviceLockLogin,
        reply == LoginReply::Other || (reply == LoginReply::DeviceLocked && after_device_lock)
            ==> (r matches LoginStep::Failed(RQError::Other(m)) && m@ == login_failed_message()),
{
    match reply {
        LoginReply::Success => LoginStep::Done,
        LoginReply::DeviceLocked => if after_device_lock {
            LoginStep::Failed(RQError::Other(String::from_str("failed to login")))
        } else {
            LoginStep::DeviceLockLogin
        },
        LoginReply::Other => LoginStep::Failed(RQError::Other(String::from_str("failed to login"))),
    }
}

/// The server's answer to the bot's first password login.
#[derive(Debug, Clone, Copy, PartialEq, Eq, Structural)]
pub enum FirstLoginReply {
    /// Logged in.
    Success,
    /// The device must be verified through a link before logging in.
    DeviceLocked,
    /// A device-lock login is asked for.
    DeviceLockLogin,
    /// The account is frozen.
    AccountFrozen,
    /// Too many SMS codes were asked for.
    TooManySmsRequest,
    /// Any other answer.
    Other,
}

/// What the bot does with the answer to its first login.
#[derive(Debug, Clone, Copy, PartialEq, Eq, Structural)]
pub enum FirstLoginAction {
    /// Logged in: go on to register the client.
    Done,
    /// Stop the program: the device is verified through the link, then the
    /// program is started again.
    ExitToVerify,
    /// Send the device-lock login and take its answer.
    DeviceLockLogin,
    /// Report the answer and look at it again.
    Repeat,
}

/// What the bot does with the answer `reply` to its first login.
pub open spec fn first_login_action_of(reply: FirstLoginReply) -> FirstLoginAction {
    match reply {
        FirstLoginReply::Success => FirstLoginAction::Done,
        FirstLoginReply::DeviceLocked => FirstLoginAction::ExitToVerify,
        FirstLoginReply::DeviceLockLogin => FirstLoginAction::DeviceLockLogin,
        _ => FirstLoginAction::Repeat,
    }
}

/// What the bot does with the answer to its first login.
pub fn first_login_action(reply: FirstLoginReply) -> (r: FirstLoginAction)
    ensures
        r == first_login_action_of(reply),
{
    match reply {
        FirstLoginReply::Success => FirstLoginAction::Done,
        FirstLoginReply::DeviceLocked => FirstLoginAction::ExitToVerify,
        FirstLoginReply::DeviceLockLogin => FirstLoginAction::DeviceLockLogin,
        _ => FirstLoginAction::Repeat,
    }
}

/// What to do after a connection attempt.
#[derive(Debug, Clone, Copy, PartialEq, Eq, Structural)]
pub enum ConnectDecision {
    /// Connected: start the client and log in again.
    Start,
    /// Failed: wait and try again.
    Retry,
    /// Failed once more than allowed in a row: stop reconnecting.
    GiveUp,
}

/// The decision after an attempt, and the count of failures in a row
/// after it.
pub open spec fn on_connect_of(count: nat, max: nat, connected: bool) -> (ConnectDecision, nat) {
    if connected {
        (ConnectDecision::Start, 0)
    } else if count + 1 > max {
        (ConnectDecision::GiveUp, count + 1)
    } else {
        (ConnectDecision::Retry, count + 1)
    }
}

/// Counts the failed connection attempts in a row.
pub struct ReconnectCounter {
    count: usize,
    max: usize,
}

impl ReconnectCounter {
    /// Failures so far, in a row.
    pub closed spec fn count(&self) -> nat {
        self.count as nat
    }

    /// Failures allowed in a row.
    pub closed spec fn max(&self) -> nat {
        self.max as nat
    }

    /// A counter that allows `max` failures in a row.
    pub fn new(max: usize) -> (r: Self)
        ensures
            r.count() == 0,
            r.max() == max,
    {
        ReconnectCounter { count: 0, max }
    }

    /// Takes the outcome of a connection attempt: a success clears the
    /// count, a failure adds one, and one more failure than allowed stops.
    pub fn on_connect(&mut self, connected: bool) -> (r: ConnectDecision)
        ensures
            final(self).max() == old(self).max(),
            r == on_connect_of(old(self).count(), old(self).max(), connected).0,
            r != ConnectDecision::GiveUp ==> final(self).count() == on_connect_of(
                old(self).count(),
                old(self).max(),
                connected,
            ).1,
            r == ConnectDecision::GiveUp ==> final(self).count() == old(self).count(),
    {
        if connected {
            self.count = 0;
            ConnectDecision::Start
        } else if self.count >= self.max {
            ConnectDecision::GiveUp
        } else {
            self.count = self.count + 1;
            ConnectDecision::Retry
        }
    }
}

/// What happened in the reconnect loop.
#[derive(Debug, Clone, Copy, PartialEq, Eq, Structural)]
pub enum ReconnectEvent {
    /// The connection dropped: reconnecting begins.
    Dropped,
    /// The client was stopped and the interval has passed.
    Waited,
    /// A connection attempt ended; whether it connected.
    Connected(bool),
    /// The login again on the new connection ended; whether it succeeded.
    LoggedIn(bool),
    /// The connection served after the login has ended.
    SessionEnded,
}

/// What the reconnect loop does next.
#[derive(Debug, Clone, Copy, PartialEq, Eq, Structural)]
pub enum ReconnectAction {
    /// Stop the client and wait the interval.
    StopAndWait,
    /// Try to connect.
    Connect,
    /// Start the client on the connection and log in again.
    StartAndLogin,
    /// Run what follows a login, then serve until the connection ends.
    AfterLoginAndServe,
    /// Stop reconnecting.
    Finish,
}

/// The loop's next action after `e`, and the count of failed connections
/// in a row after it: every attempt follows a stop and a wait; a failed
/// connection is retried until one more than `max` fail in a row; a failed
/// login ends the loop; a served connection that ends starts it again.
pub open spec fn reconnect_step_of(count: nat, max: nat, e: ReconnectEvent) -> (ReconnectAction, nat) {
    match e {
        ReconnectEvent::Dropped => (ReconnectAction::StopAndWait, count),
        ReconnectEvent::Waited => (ReconnectAction::Connect, count),
        ReconnectEvent::Connected(ok) => {
            let (d, c) = on_connect_of(count, max, ok);
            (
                match d {
                    ConnectDecision::Start => ReconnectAction::StartAndLogin,
                    ConnectDecision::Retry => ReconnectAction::StopAndWait,
                    ConnectDecision::GiveUp => ReconnectAction::Finish,
                },
                c,
            )
        },
        ReconnectEvent::LoggedIn(ok) => if ok {
            (ReconnectAction::AfterLoginAndServe, count)
        } else {
            (ReconnectAction::Finish, count)
        },
        ReconnectEvent::SessionEnded => (ReconnectAction::StopAndWait, count),
    }
}

/// The decisions of the loop that reconnects and logs in again after the
/// connection drops; the caller does the work that each action names and
/// hands back what came of it.
pub struct AutoReconnect {
    counter: ReconnectCounter,
}

impl AutoReconnect {
    /// Failed connections in a row so far.
    pub closed spec fn count(&self) -> nat {
        self.counter.count()
    }

    /// Failed connections allowed in a row.
    pub closed spec fn max(&self) -> nat {
        self.counter.max()
    }

    /// A loop that allows `max` failed connections in a row.
    pub fn new(max: usize) -> (r: Self)
        ensures
            r.count() == 0,
            r.max() == max,
    {
        AutoReconnect { counter: ReconnectCounter::new(max) }
    }

    /// Takes what happened and says what to do next.
    pub fn step(&mut self, e: ReconnectEvent) -> (r: ReconnectAction)
        ensures
            final(self).max() == old(self).max(),
            r == reconnect_step_of(old(self).count(), old(self).max(), e).0,
            r != ReconnectAction::Finish ==> final(self).count() == reconnect_step_of(
                old(self).count(),
                old(self).max(),
                e,
            ).1,
            r == ReconnectAction::Finish ==> final(self).count() == old(self).count(),
    {
        match e {
            ReconnectEvent::Dropped => ReconnectAction::StopAndWait,
            ReconnectEvent::Waited => ReconnectAction::Connect,
            ReconnectEvent::Connected(ok) => match self.counter.on_connect(ok) {
                ConnectDecision::Start => ReconnectAction::StartAndLogin,
                ConnectDecision::Retry => ReconnectAction::StopAndWait,
                ConnectDecision::GiveUp => ReconnectAction::Finish,
            },
            ReconnectEvent::LoggedIn(ok) => if ok {
                ReconnectAction::AfterLoginAndServe
            } else {
                ReconnectAction::Finish
            },
            ReconnectEvent::SessionEnded => ReconnectAction::StopAndWait,
        }
    }
}

/// Each connection attempt follows a stop and a wait: the only event after
/// which the loop connects is the end of a wait, and every event that leads
/// toward a new attempt leads first to a stop and a wait.
pub proof fn law_attempts_follow_stop_and_wait(count: nat, max: nat, e: ReconnectEvent)
    ensures
        reconnect_step_of(count, max, e).0 == ReconnectAction::Connect <==> e == ReconnectEvent::Waited,
        e == ReconnectEvent::Dropped || e == ReconnectEvent::SessionEnded
            || e == ReconnectEvent::Connected(false) ==> reconnect_step_of(count, max, e).0
            == ReconnectAction::StopAndWait || reconnect_step_of(count, max, e).0
            == ReconnectAction::Finish,
{
}

/// A failed login after a good connection ends the loop; a good one leads
/// to serving the connection, after which the loop starts again.
pub proof fn law_failed_login_ends_loop(count: nat, max: nat)
    ensures
        reconnect_step_of(count, max, ReconnectEvent::LoggedIn(false)).0 == ReconnectAction::Finish,
        reconnect_step_of(count, max, ReconnectEvent::LoggedIn(true)).0
            == ReconnectAction::AfterLoginAndServe,
        reconnect_step_of(count, max, ReconnectEvent::SessionEnded).0
            == ReconnectAction::StopAndWait,
        reconnect_step_of(count, max, ReconnectEvent::Connected(true)) == (
            ReconnectAction::StartAndLogin,
            0nat,
        ),
{
}

/// The decisions taken on `k` failed attempts in a row, from a count of
/// `count`, stopping at the first that gives up.
pub open spec fn decisions_on_failures(count: nat, max: nat, k: nat) -> Seq<ConnectDecision>
    decreases k,
{
    if k == 0 {
        Seq::empty()
    } else {
        let (d, c) = on_connect_of(count, max, false);
        if d == ConnectDecision::GiveUp {
            seq![d]
        } else {
            seq![d] + decisions_on_failures(c, max, (k - 1) as nat)
        }
    }
}

/// From a fresh count, `max` failures in a row are each retried, and the
/// next one gives up.
pub proof fn law_gives_up_after_max_failures(max: nat)
    ensures
        decisions_on_failures(0, max, max + 1) == Seq::new(max, |i: int| ConnectDecision::Retry).push(
            ConnectDecision::GiveUp,
        ),
{
    lemma_failures_from(0, max);
}

proof fn lemma_failures_from(count: nat, max: nat)
    requires
        count <= max,
    ensures
        decisions_on_failures(count, max, (max - count + 1) as nat) == Seq::new(
            (max - count) as nat,
            |i: int| ConnectDecision::Retry,
        ).push(ConnectDecision::GiveUp),
    decreases max - count,
{
    let k = (max - count + 1) as nat;
    if count == max {
        assert(decisions_on_failures(count, max, k) =~= seq![ConnectDecision::GiveUp]);
        assert(Seq::new(0, |i: int| ConnectDecision::Retry).push(ConnectDecision::GiveUp)
            =~= seq![ConnectDecision::GiveUp]);
    } else {
        lemma_failures_from(count + 1, max);
        assert(decisions_on_failures(count, max, k) =~= seq![ConnectDecision::Retry]
            + decisions_on_failures(count + 1, max, (k - 1) as nat));
        assert(Seq::new((max - count) as nat, |i: int| ConnectDecision::Retry).push(
            ConnectDecision::GiveUp,
        ) =~= seq![ConnectDecision::Retry] + Seq::new(
            (max - count - 1) as nat,
            |i: int| ConnectDecision::Retry,
        ).push(ConnectDecision::GiveUp));
    }
}

/// A successful connection clears the count, so that `max` further failures
/// are allowed again.
pub proof fn law_success_resets_count(count: nat, max: nat)
    ensures
        on_connect_of(count, max, true) == (ConnectDecision::Start, 0nat),
{
}

} // verus!
