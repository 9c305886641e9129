use cluelessh::channels::{ChannelKind, ChannelNumber, ChannelUpdate, ChannelUpdateKind};
use cluelessh::session::{
    auth_options, route_update, KeyExchangeDispatch, Presented, PresentedChannels, Route, RouteError,
};

fn update(n: u32, kind: ChannelUpdateKind) -> ChannelUpdate {
    ChannelUpdate { number: ChannelNumber(n), kind }
}

#[test]
fn peer_opened_channel_becomes_new_channel() {
    let mut t = PresentedChannels::new();
    assert_eq!(
        route_update(&mut t, &update(0, ChannelUpdateKind::Open(ChannelKind::Session))),
        Ok(Route::NewChannel)
    );
    assert_eq!(t.get(0), Some(Presented::Ready));
    assert_eq!(route_update(&mut t, &update(0, ChannelUpdateKind::Eof)), Ok(Route::Forward));
    assert_eq!(
        route_update(&mut t, &update(0, ChannelUpdateKind::Open(ChannelKind::Session))),
        Err(RouteError::OpenedTwice(0))
    );
}

#[test]
fn our_open_completes_or_fails() {
    let mut t = PresentedChannels::new();
    t.insert(3, Presented::Pending);
    assert_eq!(
        route_update(&mut t, &update(3, ChannelUpdateKind::Data { data: vec![1] })),
        Err(RouteError::NotReady(3))
    );
    assert_eq!(
        route_update(&mut t, &update(3, ChannelUpdateKind::Open(ChannelKind::Session))),
        Ok(Route::OpenDone)
    );
    t.insert(4, Presented::Pending);
    assert_eq!(
        route_update(
            &mut t,
            &update(4, ChannelUpdateKind::OpenFailed { code: 2, message: "no".to_string() })
        ),
        Ok(Route::OpenFailed)
    );
    assert_eq!(t.get(4), None);
    assert_eq!(t.get(3), Some(Presented::Ready));
}

#[test]
fn updates_on_unknown_channels_are_errors() {
    let mut t = PresentedChannels::new();
    assert_eq!(
        route_update(&mut t, &update(9, ChannelUpdateKind::Closed)),
        Err(RouteError::UnknownChannel(9))
    );
    assert_eq!(
        route_update(
            &mut t,
            &update(9, ChannelUpdateKind::OpenFailed { code: 1, message: String::new() })
        ),
        Err(RouteError::UnknownChannel(9))
    );
    t.insert(9, Presented::Ready);
    assert_eq!(
        route_update(
            &mut t,
            &update(9, ChannelUpdateKind::OpenFailed { code: 1, message: String::new() })
        ),
        Err(RouteError::OpenedTwice(9))
    );
}

#[test]
fn key_exchange_starts_once() {
    let mut d = KeyExchangeDispatch::new();
    assert!(!d.should_start(false));
    assert!(d.should_start(true));
    assert!(!d.should_start(true));
}

#[test]
fn authentication_options() {
    assert_eq!(auth_options(true, false, false), Some((true, false)));
    assert_eq!(auth_options(false, true, true), Some((false, true)));
    assert_eq!(auth_options(false, false, false), None);
    assert_eq!(auth_options(true, true, false), None);
}
