use pepe::date_from_str;
use pepe::i32_string;
use pepe::u64_string;
use pepe::Actions;
use pepe::BroadcastHub;
use pepe::Category;
use pepe::Message;
use pepe::Pagination;
use pepe::PepeArgs;
use pepe::SessionState;
use pepe::SrSession;
use pepe::SrTrafficMessageServer;

fn mmsg(id: i32) -> Message {
    Message {
        id,
        createddate: date_from_str("/Date(1682481845657+0200)/").unwrap(),
        exactlocation: String::from("Road E4"),
        description: String::from("Accident"),
        title: String::from("Traffic"),
        latitude: String::from("59.1"),
        longitude: String::from("17.9"),
        category: 0,
        subcategory: String::from("Vagtrafik"),
    }
}

#[test]
fn bind_address_joins_address_and_port() {
    let args = PepeArgs::default();
    assert_eq!(args.bind_address(), "0.0.0.0:8080");
    let args = PepeArgs {
        port: 9000,
        address: String::from("127.0.0.1"),
        polling_interval: 5,
        channel_capacity: 16,
    };
    assert_eq!(args.bind_address(), "127.0.0.1:9000");
}

#[test]
fn log_configuration_lines() {
    let args = PepeArgs::default();
    let lines = args.log_configuration();
    assert_eq!(lines.len(), 3);
    assert_eq!(lines[0], "Starting server on port 0.0.0.0:8080");
    assert_eq!(lines[1], "Channel capacity set to 32");
    assert_eq!(lines[2], "Swedish Radio API polling interval 10");
}

#[test]
fn pagination_last_page_and_next() {
    let middle = Pagination {
        page: 1,
        size: 10,
        totalhits: 25,
        totalpages: 3,
    };
    assert!(!middle.is_last_page());
    assert_eq!(middle.next(), Some(2));
    let last = Pagination {
        page: 3,
        size: 10,
        totalhits: 25,
        totalpages: 3,
    };
    assert!(last.is_last_page());
    assert_eq!(last.next(), None);
}

#[test]
fn category_codes_roundtrip() {
    let all = [
        (Category::Vagtrafik, 0),
        (Category::Kollektivtrafik, 1),
        (Category::PlaneradStorning, 2),
        (Category::Ovrigt, 3),
    ];
    for (category, code) in all {
        assert_eq!(category.code(), code);
        assert_eq!(Category::from_code(code), Some(category));
    }
    assert_eq!(Category::from_code(4), None);
    assert_eq!(Category::from_code(-1), None);
}

#[test]
fn number_rendering() {
    assert_eq!(u64_string(0), "0");
    assert_eq!(u64_string(907), "907");
    assert_eq!(u64_string(u64::MAX), "18446744073709551615");
    assert_eq!(i32_string(0), "0");
    assert_eq!(i32_string(-45), "-45");
    assert_eq!(i32_string(i32::MIN), "-2147483648");
}

#[test]
fn render_lines_all_fields() {
    let text = mmsg(7).render_lines();
    assert_eq!(
        text,
        "id: 7\n\
         Created Date: 2023-04-26 06:04:05.657 CEST\n\
         Exact location: Road E4\n\
         Title: Traffic\n\
         Description: Accident\n\
         Latitude: 59.1\n\
         Longitude: 17.9\n\
         category: 0\n\
         subcategory: Vagtrafik\n"
    );
}

#[test]
fn session_echo_and_call() {
    let session = SrSession::new(40000);
    assert_eq!(session.id(), 40000);
    assert_eq!(session.state(), SessionState::Connected);
    assert_eq!(session.on_text(String::from("ping")), "ping");
    let call = Actions::SendMessage { msg: mmsg(7) };
    assert_eq!(session.on_call(&call), mmsg(7).render_lines());
}

#[test]
fn session_forwarding_lifecycle() {
    let mut hub = BroadcastHub::new(4);
    let mut session = SrSession::new(40001);
    assert!(session.start_forwarding(&mut hub));
    assert_eq!(session.state(), SessionState::Forwarding);

    hub.publish(&mmsg(8));
    let text = session.forward_step(&mut hub).unwrap();
    assert_eq!(text, mmsg(8).render_lines());
    assert!(session.forward_step(&mut hub).is_none());

    session.close(&mut hub);
    assert_eq!(session.state(), SessionState::Closed);
    assert_eq!(hub.subscriber_count(), 0);
}

#[test]
fn registry_connect_and_disconnect_are_isolated() {
    let mut hub = BroadcastHub::new(4);
    let mut server = SrTrafficMessageServer::new();
    assert!(server.on_connect(&mut hub, 5));
    assert!(!server.on_connect(&mut hub, 5));
    assert!(server.on_connect(&mut hub, 6));
    assert_eq!(server.session_count(), 2);

    hub.publish(&mmsg(1));
    assert!(server.on_disconnect(&mut hub, 5));
    hub.publish(&mmsg(2));

    // The closed session's buffer is gone; the other session missed nothing.
    assert_eq!(hub.buffered_len(5), None);
    assert_eq!(hub.receive(6).unwrap().id, 1);
    assert_eq!(hub.receive(6).unwrap().id, 2);
    assert_eq!(server.session_count(), 1);
    assert!(!server.on_disconnect(&mut hub, 5));
}
