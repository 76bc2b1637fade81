use elfo_core::addr::Addr;
use elfo_core::envelope::Envelope;
use elfo_core::message::AnyMessage;
use elfo_core::message::LocalTypeId;
use elfo_core::message::Message;
use elfo_core::message::Request;
use elfo_core::messages::AnyConfig;
use elfo_core::messages::ConfigRejected;
use elfo_core::messages::ConfigUpdated;
use elfo_core::messages::UpdateConfig;
use elfo_core::messages::ValidateConfig;
use elfo_core::registry::MessageIndex;
use smallbox::SmallBox;
use std::any::Any;

#[test]
fn index_finds_every_registered_tag() {
    let ltids = vec![10, 20, 30, 40];
    let index = MessageIndex::build(&ltids);
    assert_eq!(index.find(10), Some(0));
    assert_eq!(index.find(20), Some(1));
    assert_eq!(index.find(30), Some(2));
    assert_eq!(index.find(40), Some(3));
    assert_eq!(index.lookup(30), 2);
}

#[test]
fn index_finds_no_unregistered_tag() {
    let ltids = vec![10, 20];
    let index = MessageIndex::build(&ltids);
    assert_eq!(index.find(0), None);
    assert_eq!(index.find(15), None);
    assert_eq!(index.find(u32::MAX), None);

    let empty = MessageIndex::build(&Vec::new());
    assert_eq!(empty.find(10), None);
}

#[test]
fn later_registration_wins() {
    let ltids = vec![7, 8, 7, 9, 8];
    let index = MessageIndex::build(&ltids);
    assert_eq!(index.find(7), Some(2));
    assert_eq!(index.find(8), Some(4));
    assert_eq!(index.find(9), Some(3));
    assert_eq!(index.lookup(7), 2);
}

#[test]
fn system_messages_have_distinct_tags() {
    let ltids = vec![
        ValidateConfig::_LTID,
        UpdateConfig::_LTID,
        ConfigRejected::_LTID,
        ConfigUpdated::_LTID,
    ];
    let index = MessageIndex::build(&ltids);
    for (place, ltid) in ltids.iter().enumerate() {
        assert_eq!(index.find(*ltid), Some(place));
    }
}

#[test]
fn config_messages_carry_their_fields() {
    let validate = ValidateConfig::new(AnyConfig::new("a = 1".to_string()));
    assert_eq!(validate.config.raw(), "a = 1");
    let update = UpdateConfig::new(AnyConfig::new("b = 2".to_string()));
    assert_eq!(update.config.raw(), "b = 2");
    let rejected = ConfigRejected::from("no such field".to_string());
    assert_eq!(rejected.reason, "no such field");
    let _updated = ConfigUpdated::new();
}

#[test]
fn addresses_keep_their_bits() {
    let addr = Addr::from_bits(42);
    assert_eq!(addr.into_bits(), 42);
    assert!(!addr.is_null());
    assert!(Addr::null().is_null());
    assert_eq!(Addr::null().into_bits(), u64::MAX);
    assert_eq!(Addr::from_bits(42), addr);
    assert!(Addr::from_bits(43) != addr);
}

#[test]
fn envelope_keeps_tag_and_payload() {
    let boxed: Box<dyn Any + Send> = Box::new(String::from("payload"));
    let envelope = Envelope::new(77, AnyMessage(SmallBox::from_box(boxed)));
    assert_eq!(envelope.ltid(), 77);
    {
        let message: &(dyn Any + Send) = &*envelope.message().0;
        assert_eq!(message.downcast_ref::<String>().unwrap(), "payload");
    }
    let message = envelope.into_message();
    let inner: &(dyn Any + Send) = &*message.0;
    assert_eq!(inner.downcast_ref::<String>().unwrap(), "payload");
}

struct Ping;

struct Pong;

impl Message for Ping {
    const _LTID: LocalTypeId = 1000;
}

impl Message for Pong {
    const _LTID: LocalTypeId = 1001;
}

impl Request for Ping {
    type Response = Pong;
}

fn response_tag<R: Request>() -> LocalTypeId {
    <R::Response as Message>::_LTID
}

#[test]
fn requests_name_their_responses() {
    assert_eq!(Ping::_LTID, 1000);
    assert_eq!(response_tag::<Ping>(), 1001);

    let index = MessageIndex::build(&vec![Ping::_LTID, Pong::_LTID]);
    assert_eq!(index.lookup(response_tag::<Ping>()), 1);
}
