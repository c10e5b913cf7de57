use quick_socket::error::predeclared::QuickSocketError;
use quick_socket::socket_instance::{
    Channel, ChannelClient, ChannelCreatePreferences, PeerAddr, StreamId, Transport,
};

type Handler = u32;

fn prefs() -> ChannelCreatePreferences {
    ChannelCreatePreferences { delete_client_when_closed: false, concurrent: false }
}

fn channel(transport: Transport) -> Channel<Handler> {
    Channel::new(transport, "channel-1".to_string(), 4100, prefs())
}

fn v4(port: u16) -> PeerAddr {
    PeerAddr::V4 { ip: 0x7f000001, port }
}

fn client(uid: &str, port: u16) -> ChannelClient {
    ChannelClient { uid: uid.to_string(), addr: v4(port), stream: Some(StreamId(port as u64)) }
}

fn uids(channel: &Channel<Handler>) -> Vec<String> {
    channel.registered_client().iter().map(|c| c.uid.clone()).collect()
}

#[test]
fn a_new_channel_is_empty_and_running() {
    let channel = channel(Transport::Stream);
    assert!(channel.registered_client().is_empty());
    assert_eq!(channel.channel_id(), "channel-1");
    assert_eq!(channel.port(), 4100);
    assert_eq!(channel.pref(), prefs());
    assert_eq!(channel.transport(), Transport::Stream);
    assert!(!channel.is_destroyed());
    assert!(channel.is_event_listener_on());
    assert!(channel.handler("hello").is_none());
}

#[test]
fn register_client_appends_in_order() {
    let mut channel = channel(Transport::Stream);
    assert_eq!(channel.register_client(client("a", 1)), Ok(()));
    assert_eq!(channel.register_client(client("b", 2)), Ok(()));
    assert_eq!(channel.register_client(client("c", 3)), Ok(()));
    assert_eq!(uids(&channel), vec!["a", "b", "c"]);
    assert_eq!(channel.registered_client()[1], client("b", 2));
}

#[test]
fn register_client_refuses_a_known_uid() {
    let mut channel = channel(Transport::Stream);
    channel.register_client(client("a", 1)).unwrap();
    assert_eq!(
        channel.register_client(client("a", 2)),
        Err(QuickSocketError::ClientAlreadyExists)
    );
    assert_eq!(uids(&channel), vec!["a"]);
    assert_eq!(channel.registered_client()[0], client("a", 1));
}

#[test]
fn register_client_refuses_a_known_address() {
    let mut channel = channel(Transport::Stream);
    channel.register_client(client("a", 1)).unwrap();
    channel.register_client(client("b", 2)).unwrap();
    assert_eq!(
        channel.register_client(client("c", 2)),
        Err(QuickSocketError::ClientAlreadyExists)
    );
    assert_eq!(uids(&channel), vec!["a", "b"]);
}

#[test]
fn addresses_differ_by_any_field() {
    let mut channel = channel(Transport::Datagram);
    let base = PeerAddr::V6 { ip: 1, port: 9, flowinfo: 0, scope_id: 0 };
    let others = [
        PeerAddr::V6 { ip: 2, port: 9, flowinfo: 0, scope_id: 0 },
        PeerAddr::V6 { ip: 1, port: 10, flowinfo: 0, scope_id: 0 },
        PeerAddr::V6 { ip: 1, port: 9, flowinfo: 1, scope_id: 0 },
        PeerAddr::V6 { ip: 1, port: 9, flowinfo: 0, scope_id: 1 },
        PeerAddr::V4 { ip: 1, port: 9 },
    ];
    channel.register_client(ChannelClient { uid: "0".to_string(), addr: base, stream: None }).unwrap();
    for (i, addr) in others.iter().enumerate() {
        let uid = format!("n{}", i);
        assert_eq!(channel.register_client(ChannelClient { uid, addr: *addr, stream: None }), Ok(()));
    }
    assert_eq!(channel.registered_client().len(), 6);
    assert_eq!(
        channel.register_client(ChannelClient { uid: "z".to_string(), addr: base, stream: None }),
        Err(QuickSocketError::ClientAlreadyExists)
    );
    assert_eq!(base.port(), 9);
    assert_eq!(v4(77).port(), 77);
}

#[test]
fn no_two_registered_clients_share_a_uid_or_an_address() {
    let mut channel = channel(Transport::Stream);
    let candidates = [
        client("a", 1),
        client("b", 2),
        client("a", 3),
        client("c", 2),
        client("c", 3),
        client("b", 1),
        client("d", 4),
    ];
    for candidate in candidates.iter() {
        let _ = channel.register_client(candidate.clone());
    }
    channel.disconnect_certain(vec![client("b", 0)]).unwrap();
    let _ = channel.register_client(client("e", 2));
    let clients = channel.registered_client();
    assert_eq!(uids(&channel), vec!["a", "c", "d", "e"]);
    for i in 0..clients.len() {
        for j in (i + 1)..clients.len() {
            assert_ne!(clients[i].uid, clients[j].uid);
            assert_ne!(clients[i].addr, clients[j].addr);
        }
    }
}

#[test]
fn reconnect_replaces_the_whole_record() {
    let mut channel = channel(Transport::Stream);
    channel.register_client(client("a", 1)).unwrap();
    channel.register_client(client("b", 2)).unwrap();
    channel.register_client(client("c", 3)).unwrap();
    let newcomer = ChannelClient { uid: "b2".to_string(), addr: v4(20), stream: Some(StreamId(99)) };
    assert_eq!(channel.reconnect_client_by_uid("b".to_string(), newcomer.clone()), Ok(()));
    let clients = channel.registered_client();
    assert_eq!(clients.len(), 3);
    assert_eq!(clients[0], client("a", 1));
    assert_eq!(clients[1], newcomer);
    assert_eq!(clients[2], client("c", 3));
}

#[test]
fn reconnect_of_an_unknown_uid_fails_and_changes_nothing() {
    let mut channel = channel(Transport::Stream);
    channel.register_client(client("a", 1)).unwrap();
    assert_eq!(
        channel.reconnect_client_by_uid("zz".to_string(), client("zz", 9)),
        Err(QuickSocketError::ClientNotRegistered)
    );
    assert_eq!(channel.registered_client().len(), 1);
    assert_eq!(channel.registered_client()[0], client("a", 1));
    let mut empty = self::channel(Transport::Datagram);
    assert_eq!(
        empty.reconnect_client_by_uid(String::new(), client("", 9)),
        Err(QuickSocketError::ClientNotRegistered)
    );
    assert!(empty.registered_client().is_empty());
}

#[test]
fn reconnect_can_put_a_second_record_under_one_uid() {
    let mut channel = channel(Transport::Stream);
    channel.register_client(client("a", 1)).unwrap();
    channel.register_client(client("b", 2)).unwrap();
    assert_eq!(channel.reconnect_client_by_uid("a".to_string(), client("b", 9)), Ok(()));
    assert_eq!(uids(&channel), vec!["b", "b"]);
    assert_eq!(channel.reconnect_client_by_uid("b".to_string(), client("x", 7)), Ok(()));
    assert_eq!(uids(&channel), vec!["x", "b"]);
    assert_eq!(channel.registered_client()[1], client("b", 2));
}

#[test]
fn disconnect_certain_removes_by_uid_and_keeps_the_order() {
    let mut channel = channel(Transport::Stream);
    for (uid, port) in [("a", 1), ("b", 2), ("c", 3), ("d", 4), ("e", 5)] {
        channel.register_client(client(uid, port)).unwrap();
    }
    let leaving = vec![client("d", 100), client("b", 200), client("nobody", 3)];
    assert!(channel.disconnect_certain(leaving).is_ok());
    assert_eq!(uids(&channel), vec!["a", "c", "e"]);
    assert_eq!(channel.registered_client()[1], client("c", 3));
}

#[test]
fn disconnect_certain_of_nobody_changes_nothing() {
    let mut channel = channel(Transport::Stream);
    channel.register_client(client("a", 1)).unwrap();
    assert!(channel.disconnect_certain(Vec::new()).is_ok());
    assert_eq!(uids(&channel), vec!["a"]);
    let mut empty = self::channel(Transport::Stream);
    assert!(empty.disconnect_certain(vec![client("a", 1)]).is_ok());
    assert!(empty.registered_client().is_empty());
}

#[test]
fn disconnect_all_empties_the_registry() {
    let mut channel = channel(Transport::Datagram);
    channel.register_client(client("a", 1)).unwrap();
    channel.register_client(client("b", 2)).unwrap();
    assert!(channel.disconnect_all().is_ok());
    assert!(channel.registered_client().is_empty());
    assert_eq!(channel.registered_client().capacity(), 0);
    assert_eq!(channel.register_client(client("a", 1)), Ok(()));
    assert_eq!(channel.port(), 4100);
    assert!(!channel.is_destroyed());
}

#[test]
fn destroy_channel_flips_both_flags_for_good() {
    let mut channel = channel(Transport::Stream);
    channel.register_client(client("a", 1)).unwrap();
    channel.register_event_handler("hello".to_string(), 1).unwrap();
    assert_eq!(channel.destroy_channel(), Ok(()));
    assert!(channel.is_destroyed());
    assert!(!channel.is_event_listener_on());
    assert_eq!(uids(&channel), vec!["a"]);
    assert_eq!(channel.handler("hello"), Some(&1));
    channel.register_client(client("b", 2)).unwrap();
    channel.disconnect_all().unwrap();
    channel.register_event_handler("other".to_string(), 2).unwrap();
    assert_eq!(channel.destroy_channel(), Ok(()));
    assert!(channel.is_destroyed());
    assert!(!channel.is_event_listener_on());
}

#[test]
fn register_event_handler_installs_once() {
    let mut channel = channel(Transport::Stream);
    assert_eq!(channel.register_event_handler("hello".to_string(), 1), Ok(()));
    assert_eq!(
        channel.register_event_handler("hello".to_string(), 2),
        Err(QuickSocketError::EventAlreadyExists)
    );
    assert_eq!(channel.handler("hello"), Some(&1));
    assert_eq!(channel.register_event_handler("world".to_string(), 3), Ok(()));
    assert_eq!(channel.handler("hello"), Some(&1));
    assert_eq!(channel.handler("world"), Some(&3));
    assert_eq!(channel.handler("Hello"), None);
    assert_eq!(channel.handler(""), None);
}

#[test]
fn the_blank_name_is_a_name_like_any_other() {
    let mut channel = channel(Transport::Datagram);
    assert_eq!(channel.register_event_handler(String::new(), 5), Ok(()));
    assert_eq!(channel.handler(""), Some(&5));
    assert_eq!(
        channel.register_event_handler(String::new(), 6),
        Err(QuickSocketError::EventAlreadyExists)
    );
    assert_eq!(channel.handler(""), Some(&5));
}

#[test]
fn a_fresh_client_gets_a_uid_of_its_own() {
    let one = ChannelClient::new(v4(1), Some(StreamId(1)));
    let two = ChannelClient::new(v4(1), None);
    assert_eq!(one.uid.len(), 36);
    assert_eq!(two.uid.len(), 36);
    assert_ne!(one.uid, two.uid);
    assert_eq!(one.addr, v4(1));
    assert_eq!(one.stream, Some(StreamId(1)));
    assert_eq!(two.stream, None);
    assert_eq!(one.uid.matches('-').count(), 4);
}

#[test]
fn an_ephemeral_client_is_blank() {
    let sender = ChannelClient::ephemeral(v4(5353));
    assert_eq!(sender.uid, "");
    assert_eq!(sender.stream, None);
    assert_eq!(sender.addr, v4(5353));
    assert_eq!(sender.clone(), sender);
}
