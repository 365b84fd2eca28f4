use upnp_media_server::advertisement::Advertisement;
use upnp_media_server::notification::{
    ssdp_group, Action, Destination, Event, NotificationSubType, Schedule, ANNOUNCEMENT_INTERVAL,
};

const ID: u128 = 0x550e8400_e29b_41d4_a716_446655440000;

fn sent(schedule: &Schedule) -> (Advertisement, NotificationSubType) {
    match schedule.action(ID, "host", 8080) {
        Action::Send { to, notify } => {
            assert_eq!(to, Destination { address: (239, 255, 255, 250), port: 1900 });
            assert_eq!(notify.hostname, "host");
            assert_eq!(notify.port, 8080);
            (notify.advertisement, notify.notification_sub_type)
        }
        other => panic!("{other:?}"),
    }
}

fn take_leave(schedule: Schedule) {
    let mut schedule = schedule.step(Event::Shutdown);
    for advertisement in Advertisement::all(ID) {
        assert_eq!(sent(&schedule), (advertisement, NotificationSubType::ByeBye));
        schedule = schedule.step(Event::Done);
    }
    assert!(matches!(schedule.action(ID, "host", 8080), Action::Stop));
    assert!(matches!(schedule.step(Event::Done).action(ID, "host", 8080), Action::Stop));
}

#[test]
fn the_group_is_that_of_ssdp() {
    assert_eq!(ssdp_group(), Destination { address: (239, 255, 255, 250), port: 1900 });
}

#[test]
fn sub_types_are_written() {
    assert_eq!(NotificationSubType::Alive.as_str(), "ssdp:alive");
    assert_eq!(NotificationSubType::ByeBye.as_str(), "ssdp:byebye");
}

#[test]
fn rounds_announce_all_and_start_over() {
    let mut schedule = Schedule::start();
    for _ in 0..3 {
        for advertisement in Advertisement::all(ID) {
            assert_eq!(sent(&schedule), (advertisement, NotificationSubType::Alive));
            schedule = schedule.step(Event::Done);
        }
        assert!(matches!(schedule.action(ID, "host", 8080), Action::Sleep { seconds: 1800 }));
        assert_eq!(ANNOUNCEMENT_INTERVAL, 1800);
        schedule = schedule.step(Event::Done);
    }
}

#[test]
fn shutdown_at_any_time_takes_leave_of_all() {
    for done in 0..8 {
        let mut schedule = Schedule::start();
        for _ in 0..done {
            schedule = schedule.step(Event::Done);
        }
        take_leave(schedule);
    }
}

#[test]
fn leave_is_not_interrupted() {
    let mut schedule = Schedule::start().step(Event::Shutdown).step(Event::Done);
    schedule = schedule.step(Event::Shutdown);
    assert_eq!(sent(&schedule), (Advertisement::Uuid { id: ID }, NotificationSubType::ByeBye));
}
