use pepe::BroadcastHub;
use pepe::Message;
use pepe::Pagination;
use pepe::PollState;
use pepe::Sr;
use pepe::SrError;
use pepe::SrPollOptions;
use pepe::SrPoller;
use pepe::Timestamp;

fn pmsg(id: i32) -> Message {
    Message {
        id,
        createddate: Timestamp {
            millis: 0,
            rendered: String::from("1970-01-01 01:00:00 CET"),
        },
        exactlocation: String::from("Road E4"),
        description: String::from("Roadwork"),
        title: String::from("Traffic"),
        latitude: String::from("59.1"),
        longitude: String::from("17.9"),
        category: 2,
        subcategory: String::from("PlaneradStorning"),
    }
}

fn ppage(ids: &[i32]) -> Sr {
    Sr {
        copyright: String::from("Copyright Sveriges Radio"),
        pagination: Pagination {
            page: 1,
            size: ids.len() as u32,
            totalhits: ids.len() as u32,
            totalpages: 1,
        },
        messages: ids.iter().map(|&i| pmsg(i)).collect(),
    }
}

#[test]
fn bootstrap_is_silent() {
    let mut hub = BroadcastHub::new(8);
    assert!(hub.subscribe(1));
    let mut poller = SrPoller::new(SrPollOptions::new(10));
    assert_eq!(poller.state, PollState::Bootstrapping);

    let published = poller.poll_step(&mut hub, Ok(ppage(&[1, 2, 3])));

    assert_eq!(published, 0);
    assert!(hub.receive(1).is_none());
    assert_eq!(poller.state, PollState::Steady);
    assert_eq!(poller.store.len(), 3);
    assert!(poller.store.is_known(2));
}

#[test]
fn steady_publishes_only_novel_in_order() {
    let mut hub = BroadcastHub::new(8);
    assert!(hub.subscribe(1));
    let mut poller = SrPoller::new(SrPollOptions::new(10));
    let _ = poller.poll_step(&mut hub, Ok(ppage(&[1, 2])));

    let published = poller.poll_step(&mut hub, Ok(ppage(&[1, 3, 2, 4])));

    assert_eq!(published, 2);
    assert_eq!(hub.receive(1).unwrap().id, 3);
    assert_eq!(hub.receive(1).unwrap().id, 4);
    assert!(hub.receive(1).is_none());
    assert_eq!(poller.last_message_id, 4);
    assert_eq!(poller.store.len(), 4);
}

#[test]
fn fetch_failure_skips_the_cycle() {
    let mut hub = BroadcastHub::new(8);
    assert!(hub.subscribe(1));
    let mut poller = SrPoller::new(SrPollOptions::new(10));

    // A failed bootstrap keeps the poller bootstrapping.
    let published = poller.poll_step(&mut hub, Err(SrError::ParseError));
    assert_eq!(published, 0);
    assert_eq!(poller.state, PollState::Bootstrapping);
    assert_eq!(poller.store.len(), 0);

    let _ = poller.poll_step(&mut hub, Ok(ppage(&[1])));

    // A failed steady cycle publishes nothing and changes nothing.
    let failure = SrError::CommunicationError {
        message: String::from("timeout"),
    };
    let published = poller.poll_step(&mut hub, Err(failure));
    assert_eq!(published, 0);
    assert!(hub.receive(1).is_none());
    assert_eq!(poller.store.len(), 1);

    // The loop goes on: the next successful cycle works as ever.
    let published = poller.poll_step(&mut hub, Ok(ppage(&[1, 2])));
    assert_eq!(published, 1);
    assert_eq!(hub.receive(1).unwrap().id, 2);
}

#[test]
fn id_never_republished_across_cycles() {
    let mut hub = BroadcastHub::new(8);
    assert!(hub.subscribe(1));
    let mut poller = SrPoller::new(SrPollOptions::new(10));
    let _ = poller.poll_step(&mut hub, Ok(ppage(&[])));

    assert_eq!(poller.poll_step(&mut hub, Ok(ppage(&[5]))), 1);
    assert_eq!(poller.poll_step(&mut hub, Ok(ppage(&[5, 6]))), 1);
    assert_eq!(poller.poll_step(&mut hub, Ok(ppage(&[5, 6]))), 0);

    assert_eq!(hub.receive(1).unwrap().id, 5);
    assert_eq!(hub.receive(1).unwrap().id, 6);
    assert!(hub.receive(1).is_none());
}

#[test]
fn options_keep_the_interval() {
    let options = SrPollOptions::new(10);
    assert_eq!(options.sleep_duration(), 10);
}
