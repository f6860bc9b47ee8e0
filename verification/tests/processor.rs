use qqbot::processor::{highway_addrs, HighwayAddr, HighwayAddrGroup};
use qqbot::processor::{
    dispatch, net_continues, route_packet, server_address, Dispatch, NetEvent, PacketRoute,
};

#[test]
fn packets_are_routed_by_command_name() {
    assert_eq!(route_packet("OnlinePush.PbPushGroupMsg"), PacketRoute::GroupMessage);
    assert_eq!(route_packet("ConfigPushSvc.PushReq"), PacketRoute::ConfigPush);
    assert_eq!(route_packet("RegPrxySvc.PushParam"), PacketRoute::PushParam);
    assert_eq!(route_packet("MessageSvc.PushNotify"), PacketRoute::PushNotify);
    assert_eq!(route_packet("OnlinePush.ReqPush"), PacketRoute::OnlinePushReq);
    assert_eq!(route_packet("OnlinePush.PbPushTransMsg"), PacketRoute::PushTrans);
    assert_eq!(route_packet("OnlinePush.PbC2CMsgSync"), PacketRoute::C2CSync);
    assert_eq!(route_packet("RegPrxySvc.GetMsgV2"), PacketRoute::Ignored);
    assert_eq!(route_packet("RegPrxySvc.PbGetMsg"), PacketRoute::Ignored);
    assert_eq!(route_packet("RegPrxySvc.NoticeEnd"), PacketRoute::Ignored);
    assert_eq!(route_packet("MessageSvc.PushReaded"), PacketRoute::Ignored);
    assert_eq!(route_packet("Heartbeat.Alive"), PacketRoute::Unhandled);
    assert_eq!(route_packet("onlinepush.reqpush"), PacketRoute::Unhandled);
}

#[test]
fn answers_and_waiters_come_first() {
    assert_eq!(dispatch(true, true, "OnlinePush.ReqPush"), Dispatch::Promise);
    assert_eq!(dispatch(false, true, "OnlinePush.ReqPush"), Dispatch::Waiter);
    assert_eq!(
        dispatch(false, false, "OnlinePush.ReqPush"),
        Dispatch::Process(PacketRoute::OnlinePushReq)
    );
}

#[test]
fn server_address_is_fixed() {
    assert_eq!(server_address(), ([42, 81, 176, 211], 443));
}

#[test]
fn connection_stops_on_bad_frames_and_disconnects() {
    assert!(net_continues(NetEvent::Frame(true)));
    assert!(!net_continues(NetEvent::Frame(false)));
    assert!(!net_continues(NetEvent::ReadEnded));
    assert!(net_continues(NetEvent::Sent(true)));
    assert!(!net_continues(NetEvent::Sent(false)));
    assert!(net_continues(NetEvent::NothingToSend));
    assert!(!net_continues(NetEvent::Disconnect));
}

#[test]
fn highway_addresses_of_service_ten_are_kept_in_order() {
    let groups = vec![
        HighwayAddrGroup {
            service_type: Some(10),
            addrs: vec![
                HighwayAddr { ip: Some(0x0100007f), port: Some(8080) },
                HighwayAddr { ip: None, port: Some(0x1_0050) },
            ],
        },
        HighwayAddrGroup { service_type: Some(11), addrs: vec![HighwayAddr { ip: Some(9), port: Some(9) }] },
        HighwayAddrGroup { service_type: None, addrs: vec![HighwayAddr { ip: Some(8), port: None }] },
        HighwayAddrGroup { service_type: Some(10), addrs: vec![HighwayAddr { ip: Some(7), port: None }] },
    ];
    assert_eq!(highway_addrs(&groups), vec![(0x0100007f, 8080), (0, 0x50), (7, 0)]);
}
