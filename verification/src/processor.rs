//! Where an incoming packet goes: to the request that awaits its answer, to
//! the task that waits for its command, or to the processor of its command.
use vstd::prelude::*;
use vstd::string::StringSliceAdditionalSpecFns;
use crate::codec::{Builder, CodecState, FrameFormat, LengthDelimitedCodec};
use crate::framed::{Framed, ReadFlags};
use crate::text::bytes_eq;

verus! {

/// The processor for a pushed packet, by its command name.
#[derive(Debug, Clone, Copy, PartialEq, Eq, Structural)]
pub enum PacketRoute {
    /// `OnlinePush.PbPushGroupMsg`: a part of a group message.
    GroupMessage,
    /// `ConfigPushSvc.PushReq`: a configuration push, to be answered.
    ConfigPush,
    /// `RegPrxySvc.PushParam`: the other clients online.
    PushParam,
    /// `MessageSvc.PushNotify`: a notice that messages wait to be fetched.
    PushNotify,
    /// `OnlinePush.ReqPush`: pushed messages, to be acknowledged.
    OnlinePushReq,
    /// `OnlinePush.PbPushTransMsg`: a pushed group event.
    PushTrans,
    /// `OnlinePush.PbC2CMsgSync`: a message sent from another device.
    C2CSync,
    /// A command that needs no processing.
    Ignored,
    /// A command with no processor.
    Unhandled,
}

/// The route of a pushed packet whose command name has the bytes `name`.
pub open spec fn route_of(name: Seq<u8>) -> PacketRoute {
    if name == "OnlinePush.PbPushGroupMsg".spec_bytes() {
        PacketRoute::GroupMessage
    } else if name == "ConfigPushSvc.PushReq".spec_bytes() {
        PacketRoute::ConfigPush
    } else if name == "RegPrxySvc.PushParam".spec_bytes() {
        PacketRoute::PushParam
    } else if name == "MessageSvc.PushNotify".spec_bytes() {
        PacketRoute::PushNotify
    } else if name == "OnlinePush.ReqPush".spec_bytes() {
        PacketRoute::OnlinePushReq
    } else if name == "OnlinePush.PbPushTransMsg".spec_bytes() {
        PacketRoute::PushTrans
    } else if name == "OnlinePush.PbC2CMsgSync".spec_bytes() {
        PacketRoute::C2CSync
    } else if name == "RegPrxySvc.GetMsgV2".spec_bytes() || name
        == "RegPrxySvc.PbGetMsg".spec_bytes() || name == "RegPrxySvc.NoticeEnd".spec_bytes()
        || name == "MessageSvc.PushReaded".spec_bytes() {
        PacketRoute::Ignored
    } else {
        PacketRoute::Unhandled
    }
}

/// The processor for a pushed packet with the command name `name`.
pub fn route_packet(name: &str) -> (r: PacketRoute)
    ensures
        r == route_of(name.spec_bytes()),
{
    let b = name.as_bytes();
    if bytes_eq(b, "OnlinePush.PbPushGroupMsg".as_bytes()) {
        PacketRoute::GroupMessage
    } else if bytes_eq(b, "ConfigPushSvc.PushReq".as_bytes()) {
        PacketRoute::ConfigPush
    } else if bytes_eq(b, "RegPrxySvc.PushParam".as_bytes()) {
        PacketRoute::PushParam
    } else if bytes_eq(b, "MessageSvc.PushNotify".as_bytes()) {
        PacketRoute::PushNotify
    } else if bytes_eq(b, "OnlinePush.ReqPush".as_bytes()) {
        PacketRoute::OnlinePushReq
    } else if bytes_eq(b, "OnlinePush.PbPushTransMsg".as_bytes()) {
        PacketRoute::PushTrans
    } else if bytes_eq(b, "OnlinePush.PbC2CMsgSync".as_bytes()) {
        PacketRoute::C2CSync
    } else if bytes_eq(b, "RegPrxySvc.GetMsgV2".as_bytes()) || bytes_eq(
        b,
        "RegPrxySvc.PbGetMsg".as_bytes(),
    ) || bytes_eq(b, "RegPrxySvc.NoticeEnd".as_bytes()) || bytes_eq(
        b,
        "MessageSvc.PushReaded".as_bytes(),
    ) {
        PacketRoute::Ignored
    } else {
        PacketRoute::Unhandled
    }
}

/// Who receives an incoming packet.
#[derive(Debug, Clone, Copy, PartialEq, Eq, Structural)]
pub enum Dispatch {
    /// The request that was sent with the packet's sequence number.
    Promise,
    /// The task waiting for the packet's command.
    Waiter,
    /// The processor of its command.
    Process(PacketRoute),
}

/// Who receives a packet with the command name `name`: an awaited answer
/// first, then a waiter for the command, else its processor.
pub open spec fn dispatch_of(has_promise: bool, has_waiter: bool, name: Seq<u8>) -> Dispatch {
    if has_promise {
        Dispatch::Promise
    } else if has_waiter {
        Dispatch::Waiter
    } else {
        Dispatch::Process(route_of(name))
    }
}

/// Who receives an incoming packet, given whether a request awaits its
/// sequence number and whether a task waits for its command.
pub fn dispatch(has_promise: bool, has_waiter: bool, name: &str) -> (r: Dispatch)
    ensures
        r == dispatch_of(has_promise, has_waiter, name.spec_bytes()),
{
    if has_promise {
        Dispatch::Promise
    } else if has_waiter {
        Dispatch::Waiter
    } else {
        Dispatch::Process(route_packet(name))
    }
}

/// A packet that answers a sent request goes to that request, whatever
/// waits for its command and whatever its command is; a packet that answers
/// none goes to a waiter for its command when there is one; only a packet
/// that neither answers nor is awaited reaches a processor.
pub proof fn law_dispatch_order(has_promise: bool, has_waiter: bool, name: Seq<u8>)
    ensures
        has_promise ==> dispatch_of(has_promise, has_waiter, name) == Dispatch::Promise,
        !has_promise && has_waiter ==> dispatch_of(has_promise, has_waiter, name)
            == Dispatch::Waiter,
        dispatch_of(has_promise, has_waiter, name) is Process <==> !has_promise && !has_waiter,
{
}

/// The address of the server the client connects to: its IPv4 octets and
/// its port.
pub fn server_address() -> (r: ([u8; 4], u16))
    ensures
        r.0@ == seq![42u8, 81u8, 176u8, 211u8],
        r.1 == 443,
{
    ([42, 81, 176, 211], 443)
}

/// The wire format of the client's connection: a four-byte big-endian
/// length that counts itself, so that the payload is four bytes shorter.
pub open spec fn client_format() -> FrameFormat {
    FrameFormat { length_field_len: 4, length_adjustment: -4isize, ..Builder::default_format() }
}

/// The client's connection `stream`, framed in the client's wire format.
pub fn client_framed<T>(stream: T) -> (r: Framed<T, LengthDelimitedCodec>)
    ensures
        r.io() == stream,
        r.codec_spec()@ == (CodecState { format: client_format(), pending: None }),
        r.read_side().flags() == (ReadFlags { eof: false, is_readable: false, has_errored: false }),
        r.read_side().contents() == Seq::<u8>::empty(),
        r.write_side().contents() == Seq::<u8>::empty(),
{
    let mut b = LengthDelimitedCodec::builder();
    b.length_field_length(4).length_adjustment(-4);
    b.new_framed(stream)
}

/// What happened while the client's connection is served.
#[derive(Debug, Clone, Copy, PartialEq, Eq, Structural)]
pub enum NetEvent {
    /// A frame came in; whether it read as a packet.
    Frame(bool),
    /// The read side ended or failed.
    ReadEnded,
    /// A packet was waiting to go out; whether it was sent.
    Sent(bool),
    /// The queue of outgoing packets had nothing or failed.
    NothingToSend,
    /// The client asked to disconnect.
    Disconnect,
}

/// Whether the connection is served on after `e`: it stops on a frame that
/// is not a packet, the end of the read side, a failed send and a request
/// to disconnect.
pub open spec fn net_continues_of(e: NetEvent) -> bool {
    match e {
        NetEvent::Frame(ok) => ok,
        NetEvent::ReadEnded => false,
        NetEvent::Sent(ok) => ok,
        NetEvent::NothingToSend => true,
        NetEvent::Disconnect => false,
    }
}

/// Whether the connection is served on after `e`.
pub fn net_continues(e: NetEvent) -> (r: bool)
    ensures
        r == net_continues_of(e),
{
    match e {
        NetEvent::Frame(ok) => ok,
        NetEvent::ReadEnded => false,
        NetEvent::Sent(ok) => ok,
        NetEvent::NothingToSend => true,
        NetEvent::Disconnect => false,
    }
}

/// A highway server's address as a configuration push lists it: the IPv4
/// address as one number, and the port.
#[derive(Debug, Clone, Copy)]
pub struct HighwayAddr {
    pub ip: Option<u32>,
    pub port: Option<u32>,
}

/// A group of highway addresses for one kind of service.
#[derive(Debug, Clone)]
pub struct HighwayAddrGroup {
    pub service_type: Option<u32>,
    pub addrs: Vec<HighwayAddr>,
}

/// An address kept for uploads: the IPv4 number (zero when absent) and the
/// port's low sixteen bits (zero when absent).
pub open spec fn highway_entry(a: HighwayAddr) -> (u32, u16) {
    (
        match a.ip {
            Some(ip) => ip,
            None => 0,
        },
        match a.port {
            Some(p) => p as u16,
            None => 0,
        },
    )
}

/// The group's service type, zero when absent.
pub open spec fn service_type_of(g: HighwayAddrGroup) -> u32 {
    match g.service_type {
        Some(t) => t,
        None => 0,
    }
}

/// The addresses kept from `groups`: those of the groups of service type
/// 10, in order.
pub open spec fn highway_addrs_of(groups: Seq<HighwayAddrGroup>) -> Seq<(u32, u16)>
    decreases groups.len(),
{
    if groups.len() == 0 {
        Seq::empty()
    } else {
        let g = groups.last();
        highway_addrs_of(groups.drop_last()) + if service_type_of(g) == 10 {
            g.addrs@.map_values(|a: HighwayAddr| highway_entry(a))
        } else {
            Seq::empty()
        }
    }
}

/// The addresses that a configuration push's file-storage answer offers for
/// uploads: those of the groups of service type 10, in order.
pub fn highway_addrs(groups: &Vec<HighwayAddrGroup>) -> (r: Vec<(u32, u16)>)
    ensures
        r@ == highway_addrs_of(groups@),
{
    let mut out: Vec<(u32, u16)> = Vec::new();
    let mut i: usize = 0;
    while i < groups.len()
        invariant
            i <= groups@.len(),
            out@ == highway_addrs_of(groups@.take(i as int)),
        decreases groups@.len() - i,
    {
        let g = &groups[i];
        let st: u32 = match g.service_type {
            Some(t) => t,
            None => 0,
        };
        let ghost before = out@;
        if st == 10 {
            let mut j: usize = 0;
            while j < g.addrs.len()
                invariant
                    j <= g.addrs@.len(),
                    out@ == before + g.addrs@.take(j as int).map_values(
                        |a: HighwayAddr| highway_entry(a),
                    ),
                decreases g.addrs@.len() - j,
            {
                let a = g.addrs[j];
                let ip: u32 = match a.ip {
                    Some(v) => v,
                    None => 0,
                };
                let port: u16 = match a.port {
                    Some(p) => p as u16,
                    None => 0,
                };
                out.push((ip, port));
                proof {
                    assert(g.addrs@.take(j + 1).map_values(|a: HighwayAddr| highway_entry(a))
                        =~= g.addrs@.take(j as int).map_values(|a: HighwayAddr| highway_entry(a)).push(
                        highway_entry(g.addrs@[j as int]),
                    ));
                }
                j = j + 1;
            }
            proof {
                assert(g.addrs@.take(j as int) =~= g.addrs@);
            }
        }
        proof {
            assert(groups@.take(i + 1).drop_last() =~= groups@.take(i as int));
            assert(groups@.take(i + 1).last() == groups@[i as int]);
            if st != 10 {
                assert(out@ =~= highway_addrs_of(groups@.take(i as int)) + Seq::<(u32, u16)>::empty());
            }
        }
        i = i + 1;
    }
    proof {
        assert(groups@.take(i as int) =~= groups@);
    }
    out
}

} // verus!
