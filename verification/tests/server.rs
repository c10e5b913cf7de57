use quick_socket::error::predeclared::QuickSocketError;
use quick_socket::socket_instance::{
    Channel, ChannelClient, ChannelCreatePreferences, PeerAddr, PortRange, Properties,
    QuickSocketInstance, TcpUdp, Transport,
};
use std::cell::RefCell;

type Handler = u8;

fn prefs(delete_client_when_closed: bool, concurrent: bool) -> ChannelCreatePreferences {
    ChannelCreatePreferences { delete_client_when_closed, concurrent }
}

fn untouched(channel: Channel<Handler>) -> Channel<Handler> {
    channel
}

#[test]
fn a_new_server_has_no_channels_and_the_default_range() {
    let server: QuickSocketInstance<Handler> = QuickSocketInstance::new();
    assert_eq!(server.channel_count(Transport::Stream), 0);
    assert_eq!(server.channel_count(Transport::Datagram), 0);
    assert_eq!(
        server.properties(),
        Properties { port_range: PortRange { start: 20000, end: 65535 } }
    );
    assert!(server.channel(Transport::Stream, "anything").is_none());
}

#[test]
fn tcp_udp_holds_one_of_each() {
    let pair = TcpUdp { tcp: 1_u8, udp: "two" };
    assert_eq!(pair.tcp, 1);
    assert_eq!(pair.udp, "two");
    let copy = pair.clone();
    assert_eq!(copy.tcp, 1);
    assert_eq!(copy.udp, "two");
}

#[test]
fn create_tcp_channel_publishes_a_running_stream_channel() {
    let mut server: QuickSocketInstance<Handler> = QuickSocketInstance::new();
    let handle = server.create_tcp_channel(Some(40123), untouched, prefs(true, false)).unwrap();
    assert_eq!(handle.port, 40123);
    assert!(handle.listening);
    assert_eq!(handle.channel_id.len(), 36);
    assert_eq!(server.channel_count(Transport::Stream), 1);
    assert_eq!(server.channel_count(Transport::Datagram), 0);
    let channel = server.channel(Transport::Stream, &handle.channel_id).unwrap();
    assert_eq!(channel.channel_id(), &handle.channel_id);
    assert_eq!(channel.transport(), Transport::Stream);
    assert_eq!(channel.port(), 40123);
    assert_eq!(channel.pref(), prefs(true, false));
    assert!(channel.registered_client().is_empty());
    assert!(!channel.is_destroyed());
    assert!(channel.is_event_listener_on());
    assert!(server.channel(Transport::Datagram, &handle.channel_id).is_none());
}

#[test]
fn create_udp_channel_publishes_a_running_datagram_channel() {
    let mut server: QuickSocketInstance<Handler> = QuickSocketInstance::new();
    let handle = server.create_udp_channel(Some(40124), untouched, prefs(false, true)).unwrap();
    assert_eq!(handle.port, 40124);
    assert!(handle.listening);
    assert_eq!(server.channel_count(Transport::Datagram), 1);
    assert_eq!(server.channel_count(Transport::Stream), 0);
    let channel = server.channel(Transport::Datagram, &handle.channel_id).unwrap();
    assert_eq!(channel.transport(), Transport::Datagram);
    assert_eq!(channel.pref(), prefs(false, true));
}

#[test]
fn a_failed_bind_is_a_channel_initialize_failure() {
    let mut server: QuickSocketInstance<Handler> = QuickSocketInstance::new();
    let called = RefCell::new(false);
    let outcome = server.create_tcp_channel(
        None,
        |channel| {
            *called.borrow_mut() = true;
            channel
        },
        prefs(false, false),
    );
    assert_eq!(outcome, Err(QuickSocketError::ChannelInitializeFail));
    assert_eq!(
        server.create_udp_channel(None, untouched, prefs(false, false)),
        Err(QuickSocketError::ChannelInitializeFail)
    );
    assert!(!*called.borrow());
    assert_eq!(server.channel_count(Transport::Stream), 0);
    assert_eq!(server.channel_count(Transport::Datagram), 0);
}

#[test]
fn the_setter_works_on_the_channel_before_it_is_published() {
    let mut server: QuickSocketInstance<Handler> = QuickSocketInstance::new();
    let calls = RefCell::new(0);
    let handle = server
        .create_tcp_channel(
            Some(1),
            |mut channel: Channel<Handler>| {
                *calls.borrow_mut() += 1;
                assert!(channel.registered_client().is_empty());
                assert!(channel.handler("hello").is_none());
                channel.register_event_handler("hello".to_string(), 7).unwrap();
                channel
            },
            prefs(false, false),
        )
        .unwrap();
    assert_eq!(*calls.borrow(), 1);
    let channel = server.channel(Transport::Stream, &handle.channel_id).unwrap();
    assert_eq!(channel.handler("hello"), Some(&7));
}

#[test]
fn a_channel_that_the_setter_switched_off_gets_no_worker() {
    let mut server: QuickSocketInstance<Handler> = QuickSocketInstance::new();
    let handle = server
        .create_udp_channel(
            Some(2),
            |mut channel: Channel<Handler>| {
                channel.destroy_channel().unwrap();
                channel
            },
            prefs(false, false),
        )
        .unwrap();
    assert!(!handle.listening);
    assert!(server.channel(Transport::Datagram, &handle.channel_id).unwrap().is_destroyed());
}

#[test]
fn every_channel_gets_an_id_of_its_own() {
    let mut server: QuickSocketInstance<Handler> = QuickSocketInstance::new();
    let mut ids = Vec::new();
    for port in 0..10 {
        ids.push(server.create_tcp_channel(Some(port), untouched, prefs(false, false)).unwrap().channel_id);
        ids.push(server.create_udp_channel(Some(port), untouched, prefs(false, false)).unwrap().channel_id);
    }
    for i in 0..ids.len() {
        for j in (i + 1)..ids.len() {
            assert_ne!(ids[i], ids[j]);
        }
    }
    assert_eq!(server.channel_count(Transport::Stream), 10);
    assert_eq!(server.channel_count(Transport::Datagram), 10);
}

#[test]
fn open_channel_enters_the_channel_under_the_given_id() {
    let mut server: QuickSocketInstance<Handler> = QuickSocketInstance::new();
    let first = server
        .open_channel(Transport::Stream, "id-1".to_string(), 10, untouched, prefs(false, false))
        .unwrap();
    let second = server
        .open_channel(Transport::Stream, "id-2".to_string(), 11, untouched, prefs(false, false))
        .unwrap();
    assert_eq!(first.channel_id, "id-1");
    assert_eq!((first.port, first.listening), (10, true));
    assert_eq!(second.channel_id, "id-2");
    assert_eq!(server.channel_count(Transport::Stream), 2);
    assert_eq!(server.channel(Transport::Stream, "id-2").unwrap().port(), 11);
    assert_eq!(server.channel(Transport::Stream, "id-2").unwrap().channel_id(), "id-2");
    assert!(server.channel(Transport::Stream, "id-3").is_none());
}

#[test]
fn an_id_that_is_taken_is_refused_and_the_older_channel_stays() {
    let mut server: QuickSocketInstance<Handler> = QuickSocketInstance::new();
    server
        .open_channel(Transport::Stream, "id-1".to_string(), 10, untouched, prefs(false, false))
        .unwrap();
    server
        .open_channel(Transport::Datagram, "id-2".to_string(), 11, untouched, prefs(false, false))
        .unwrap();
    let called = RefCell::new(false);
    for (transport, id) in [
        (Transport::Stream, "id-1"),
        (Transport::Datagram, "id-1"),
        (Transport::Stream, "id-2"),
        (Transport::Datagram, "id-2"),
    ] {
        let outcome = server.open_channel(
            transport,
            id.to_string(),
            99,
            |channel| {
                *called.borrow_mut() = true;
                channel
            },
            prefs(true, true),
        );
        assert_eq!(outcome, Err(QuickSocketError::ChannelInitializeFail));
    }
    assert!(!*called.borrow());
    assert_eq!(server.channel_count(Transport::Stream), 1);
    assert_eq!(server.channel_count(Transport::Datagram), 1);
    let kept = server.channel(Transport::Stream, "id-1").unwrap();
    assert_eq!(kept.port(), 10);
    assert_eq!(kept.pref(), prefs(false, false));
    assert_eq!(server.channel(Transport::Datagram, "id-2").unwrap().port(), 11);
}

#[test]
fn a_setter_that_hands_back_another_channel_is_refused() {
    let mut server: QuickSocketInstance<Handler> = QuickSocketInstance::new();
    let other_id = |_: Channel<Handler>| {
        Channel::new(Transport::Stream, "other".to_string(), 10, prefs(false, false))
    };
    let other_transport = |_: Channel<Handler>| {
        Channel::new(Transport::Datagram, "id-1".to_string(), 10, prefs(false, false))
    };
    let other_port = |_: Channel<Handler>| {
        Channel::new(Transport::Stream, "id-1".to_string(), 11, prefs(false, false))
    };
    let same = |_: Channel<Handler>| {
        Channel::new(Transport::Stream, "id-1".to_string(), 10, prefs(true, true))
    };
    let refusal = Err(QuickSocketError::ChannelInitializeFail);
    let pref = prefs(false, false);
    assert_eq!(server.open_channel(Transport::Stream, "id-1".to_string(), 10, other_id, pref), refusal);
    assert_eq!(
        server.open_channel(Transport::Stream, "id-1".to_string(), 10, other_transport, pref),
        refusal
    );
    assert_eq!(server.open_channel(Transport::Stream, "id-1".to_string(), 10, other_port, pref), refusal);
    assert_eq!(server.channel_count(Transport::Stream), 0);
    assert_eq!(server.channel_count(Transport::Datagram), 0);
    let handle = server.open_channel(Transport::Stream, "id-1".to_string(), 10, same, pref).unwrap();
    assert_eq!(handle.channel_id, "id-1");
    assert_eq!(server.channel(Transport::Stream, "id-1").unwrap().pref(), prefs(true, true));
}

#[test]
fn channels_stand_in_the_order_of_their_creation() {
    let mut server: QuickSocketInstance<Handler> = QuickSocketInstance::new();
    for (id, port) in [("c", 3), ("a", 1), ("b", 2)] {
        server
            .open_channel(Transport::Datagram, id.to_string(), port, untouched, prefs(false, false))
            .unwrap();
    }
    assert_eq!(server.channel_count(Transport::Datagram), 3);
    for (id, port) in [("c", 3), ("a", 1), ("b", 2)] {
        assert_eq!(server.channel(Transport::Datagram, id).unwrap().port(), port);
    }
}

#[test]
fn channel_mut_works_on_the_channel_in_the_table() {
    let mut server: QuickSocketInstance<Handler> = QuickSocketInstance::new();
    server
        .open_channel(Transport::Datagram, "d".to_string(), 5, untouched, prefs(false, false))
        .unwrap();
    let client = ChannelClient::ephemeral(PeerAddr::V4 { ip: 1, port: 2 });
    {
        let channel = server.channel_mut(Transport::Datagram, "d").unwrap();
        channel.register_client(client.clone()).unwrap();
        channel.register_event_handler("e".to_string(), 3).unwrap();
    }
    assert!(server.channel_mut(Transport::Stream, "d").is_none());
    assert!(server.channel_mut(Transport::Datagram, "x").is_none());
    let channel = server.channel(Transport::Datagram, "d").unwrap();
    assert_eq!(channel.registered_client(), &vec![client]);
    assert_eq!(channel.handler("e"), Some(&3));
}

#[test]
fn destroy_channel_flips_the_flags_and_keeps_the_entry() {
    let mut server: QuickSocketInstance<Handler> = QuickSocketInstance::new();
    let one = server.create_tcp_channel(Some(1), untouched, prefs(false, false)).unwrap();
    let two = server.create_tcp_channel(Some(2), untouched, prefs(false, false)).unwrap();
    let three = server.create_udp_channel(Some(3), untouched, prefs(false, false)).unwrap();
    server.destroy_channel(&two.channel_id);
    assert_eq!(server.channel_count(Transport::Stream), 2);
    assert_eq!(server.channel_count(Transport::Datagram), 1);
    let destroyed = server.channel(Transport::Stream, &two.channel_id).unwrap();
    assert!(destroyed.is_destroyed());
    assert!(!destroyed.is_event_listener_on());
    assert_eq!(destroyed.port(), 2);
    assert!(!server.channel(Transport::Stream, &one.channel_id).unwrap().is_destroyed());
    assert!(!server.channel(Transport::Datagram, &three.channel_id).unwrap().is_destroyed());
    server.destroy_channel(&three.channel_id);
    assert!(server.channel(Transport::Datagram, &three.channel_id).unwrap().is_destroyed());
    server.destroy_channel(&two.channel_id);
    assert!(server.channel(Transport::Stream, &two.channel_id).unwrap().is_destroyed());
}

#[test]
fn destroying_an_unknown_channel_changes_nothing() {
    let mut server: QuickSocketInstance<Handler> = QuickSocketInstance::new();
    let one = server.create_tcp_channel(Some(1), untouched, prefs(false, false)).unwrap();
    server.destroy_channel("no-such-channel");
    server.destroy_channel("");
    assert!(!server.channel(Transport::Stream, &one.channel_id).unwrap().is_destroyed());
    assert_eq!(server.channel_count(Transport::Stream), 1);
}

#[test]
fn destroy_channel_finds_the_channel_in_either_table() {
    let mut server: QuickSocketInstance<Handler> = QuickSocketInstance::new();
    server
        .open_channel(Transport::Stream, "s".to_string(), 1, untouched, prefs(false, false))
        .unwrap();
    server
        .open_channel(Transport::Datagram, "d".to_string(), 2, untouched, prefs(false, false))
        .unwrap();
    server.destroy_channel("d");
    assert!(!server.channel(Transport::Stream, "s").unwrap().is_destroyed());
    assert!(server.channel(Transport::Datagram, "d").unwrap().is_destroyed());
    server.destroy_channel("s");
    assert!(server.channel(Transport::Stream, "s").unwrap().is_destroyed());
}

#[test]
fn the_scan_returns_the_first_vacant_port() {
    let server: QuickSocketInstance<Handler> = QuickSocketInstance::new();
    let asked = RefCell::new(Vec::new());
    let found = server.get_vacant_port(|port| {
        asked.borrow_mut().push(port);
        port < 20003
    });
    assert_eq!(found, Some(20003));
    assert_eq!(*asked.borrow(), vec![20000, 20001, 20002, 20003]);
}

#[test]
fn the_scan_starts_at_the_start_of_the_range() {
    let server: QuickSocketInstance<Handler> = QuickSocketInstance::new();
    assert_eq!(server.get_vacant_port(|_| false), Some(20000));
    assert_eq!(server.get_vacant_port(|port| port != 20000), Some(20000));
}

#[test]
fn the_scan_reaches_the_last_port_of_the_range() {
    let server: QuickSocketInstance<Handler> = QuickSocketInstance::new();
    assert_eq!(server.get_vacant_port(|port| port != 65535), Some(65535));
}

#[test]
fn the_scan_finds_nothing_where_every_port_is_taken() {
    let server: QuickSocketInstance<Handler> = QuickSocketInstance::new();
    let asked = RefCell::new(0_u32);
    let found = server.get_vacant_port(|_| {
        *asked.borrow_mut() += 1;
        true
    });
    assert_eq!(found, None);
    assert_eq!(*asked.borrow(), 65535 - 20000 + 1);
}

#[test]
fn the_scan_skips_taken_ports_below_a_vacant_one() {
    let server: QuickSocketInstance<Handler> = QuickSocketInstance::new();
    let taken = [20000_u16, 20001, 20002, 20004];
    assert_eq!(server.get_vacant_port(|port| taken.contains(&port)), Some(20003));
}

#[test]
fn a_server_can_scan_a_range_of_its_own() {
    let range = PortRange { start: 8000, end: 8002 };
    let server: QuickSocketInstance<Handler> = QuickSocketInstance::with_port_range(range);
    assert_eq!(server.properties(), Properties { port_range: range });
    assert_eq!(server.channel_count(Transport::Stream), 0);
    assert_eq!(server.get_vacant_port(|port| port == 8000), Some(8001));
    assert_eq!(server.get_vacant_port(|port| port <= 8001), Some(8002));
    assert_eq!(server.get_vacant_port(|port| port <= 8002), None);
}

#[test]
fn a_range_of_one_port_is_scanned() {
    let range = PortRange { start: 65535, end: 65535 };
    let server: QuickSocketInstance<Handler> = QuickSocketInstance::with_port_range(range);
    assert_eq!(server.get_vacant_port(|_| false), Some(65535));
    assert_eq!(server.get_vacant_port(|_| true), None);
    let low = PortRange { start: 0, end: 0 };
    let server: QuickSocketInstance<Handler> = QuickSocketInstance::with_port_range(low);
    assert_eq!(server.get_vacant_port(|_| false), Some(0));
}

#[test]
fn an_empty_range_is_not_scanned() {
    let range = PortRange { start: 9000, end: 8999 };
    let server: QuickSocketInstance<Handler> = QuickSocketInstance::with_port_range(range);
    let asked = RefCell::new(0_u32);
    let found = server.get_vacant_port(|_| {
        *asked.borrow_mut() += 1;
        false
    });
    assert_eq!(found, None);
    assert_eq!(*asked.borrow(), 0);
}

#[test]
fn an_exhausted_scan_is_a_vacant_port_search_failure() {
    let range = PortRange { start: 100, end: 110 };
    let server: QuickSocketInstance<Handler> = QuickSocketInstance::with_port_range(range);
    assert_eq!(server.find_vacant_port(|_| true), Err(QuickSocketError::VacantPortSearchFail));
    assert_eq!(server.find_vacant_port(|port| port != 107), Ok(107));
    assert_eq!(server.find_vacant_port(|_| false), Ok(100));
}
