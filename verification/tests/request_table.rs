use std::any::Any;

use elfo_core::addr::Addr;
use elfo_core::envelope::Envelope;
use elfo_core::message::AnyMessage;
use elfo_core::request_table::storage::Data;
use elfo_core::request_table::storage::RequestId;
use elfo_core::request_table::token::ResponseToken;
use elfo_core::request_table::RequestTable;
use elfo_core::request_table::WaitPoll;
use smallbox::SmallBox;

#[derive(Debug, PartialEq)]
struct Num(u32);

const NUM_LTID: u32 = 100;

fn envelope(num: Num) -> Envelope {
    let boxed: Box<dyn Any + Send> = Box::new(num);
    Envelope::new(NUM_LTID, AnyMessage(SmallBox::from_box(boxed)))
}

fn num_of(envelope: &Envelope) -> u32 {
    let message: &(dyn Any + Send) = &*envelope.message().0;
    message.downcast_ref::<Num>().expect("a Num").0
}

fn wait(table: &mut RequestTable, request_id: RequestId) -> (Vec<Option<Envelope>>, bool) {
    match table.poll_wait(request_id) {
        WaitPoll::Ready { data, reset } => (data.into_vec(), reset),
        WaitPoll::Pending => panic!("the request still expects responses"),
    }
}

fn is_pending(table: &mut RequestTable, request_id: RequestId) -> bool {
    matches!(table.poll_wait(request_id), WaitPoll::Pending)
}

#[test]
fn one_request_one_response() {
    let addr = Addr::from_bits(1);
    let mut table = RequestTable::new(addr);

    for _ in 0..3 {
        let token = table.new_request();
        let request_id = token.request_id();

        table.respond(token, envelope(Num(42)));

        let data = match table.poll_wait(request_id) {
            WaitPoll::Ready { data, .. } => data,
            WaitPoll::Pending => panic!("the request still expects responses"),
        };
        let mut data = data;

        assert_eq!(data.len(), 1);
        assert_eq!(num_of(&data.pop().unwrap().unwrap()), 42);
    }
}

#[test]
fn one_request_many_response() {
    let addr = Addr::from_bits(1);
    let mut table = RequestTable::new(addr);
    let token = table.new_request();
    let request_id = token.request_id();

    let n = 5;
    let mut tokens = Vec::new();
    for i in 1..n {
        let token = table.clone_token(&token).unwrap();
        tokens.push((i, token));
    }

    table.respond(token, envelope(Num(0)));
    for (i, token) in tokens {
        table.respond(token, envelope(Num(i)));
    }

    let (data, _) = wait(&mut table, request_id);
    assert_eq!(data.len(), n as usize);

    for (i, envelope) in data.into_iter().enumerate() {
        assert_eq!(num_of(&envelope.unwrap()), i as u32);
    }
}

#[test]
fn single_response_is_returned() {
    let mut table = RequestTable::new(Addr::from_bits(7));
    let token = table.new_request();
    let request_id = token.request_id();
    assert_eq!(table.len(), 1);
    assert_eq!(table.remainder(request_id), Some(1));

    let wake = table.respond(token, envelope(Num(9)));
    assert!(wake);
    assert_eq!(table.remainder(request_id), Some(0));

    let (data, reset) = wait(&mut table, request_id);
    assert!(reset);
    assert_eq!(data.len(), 1);
    assert_eq!(num_of(data[0].as_ref().unwrap()), 9);
    assert_eq!(table.len(), 0);
    assert_eq!(table.remainder(request_id), None);
}

#[test]
fn five_responses_are_a_permutation() {
    let mut table = RequestTable::new(Addr::from_bits(1));
    let first = table.new_request();
    let request_id = first.request_id();
    let mut tokens = vec![first];
    for _ in 0..4 {
        let token = table.clone_token(&tokens[0]).unwrap();
        tokens.push(token);
    }
    assert_eq!(table.remainder(request_id), Some(5));

    // Respond in an order that is not the order of cloning.
    let payloads = [3u32, 1, 5, 2, 4];
    let mut wakes = Vec::new();
    for payload in payloads {
        let token = tokens.pop().unwrap();
        wakes.push(table.respond(token, envelope(Num(payload))));
    }
    assert_eq!(wakes, vec![false, false, false, false, true]);

    let (data, _) = wait(&mut table, request_id);
    let got: Vec<u32> = data.iter().map(|e| num_of(e.as_ref().unwrap())).collect();
    assert_eq!(got, vec![3, 1, 5, 2, 4]);
    let mut sorted = got.clone();
    sorted.sort();
    assert_eq!(sorted, vec![1, 2, 3, 4, 5]);
}

#[test]
fn released_token_gives_absent_response() {
    let mut table = RequestTable::new(Addr::from_bits(1));
    let token = table.new_request();
    let request_id = token.request_id();

    let wake = table.release(token);
    assert!(wake);

    let (data, _) = wait(&mut table, request_id);
    assert_eq!(data.len(), 1);
    assert!(data[0].is_none());
}

#[test]
fn released_tokens_interleave_with_responses() {
    let mut table = RequestTable::new(Addr::from_bits(1));
    let first = table.new_request();
    let request_id = first.request_id();
    let second = table.clone_token(&first).unwrap();
    let third = table.clone_token(&first).unwrap();
    let fourth = table.clone_token(&first).unwrap();

    assert!(!table.release(second));
    assert!(!table.respond(first, envelope(Num(10))));
    assert!(is_pending(&mut table, request_id));
    assert!(!table.release(fourth.into_typed::<Num>()));
    assert!(table.respond(third, envelope(Num(20))));

    let (data, _) = wait(&mut table, request_id);
    assert_eq!(data.len(), 4);
    assert!(data[0].is_none());
    assert_eq!(num_of(data[1].as_ref().unwrap()), 10);
    assert!(data[2].is_none());
    assert_eq!(num_of(data[3].as_ref().unwrap()), 20);
    assert_eq!(data.iter().filter(|e| e.is_none()).count(), 2);
}

#[test]
fn wait_is_pending_until_the_last_response() {
    let mut table = RequestTable::new(Addr::from_bits(1));
    let first = table.new_request();
    let request_id = first.request_id();
    let second = table.clone_token(&first).unwrap();

    assert!(is_pending(&mut table, request_id));
    table.respond(first, envelope(Num(1)));
    assert!(is_pending(&mut table, request_id));
    assert_eq!(table.len(), 1);
    table.respond(second, envelope(Num(2)));
    assert!(!is_pending(&mut table, request_id));
    assert_eq!(table.len(), 0);
}

#[test]
fn clone_after_removal_is_refused() {
    let mut table = RequestTable::new(Addr::from_bits(1));
    let token = table.new_request();
    let request_id = token.request_id();
    let late = ResponseToken::new(token.sender(), request_id);

    table.respond(token, envelope(Num(1)));
    let _ = wait(&mut table, request_id);

    assert!(table.clone_token(&late).is_none());
    assert_eq!(table.len(), 0);
}

#[test]
fn signal_is_reset_only_when_nothing_is_resolved() {
    let mut table = RequestTable::new(Addr::from_bits(1));
    let a = table.new_request();
    let b = table.new_request();
    let c = table.new_request();
    let (id_a, id_b, id_c) = (a.request_id(), b.request_id(), c.request_id());
    assert!(id_a != id_b && id_b != id_c && id_a != id_c);

    assert!(table.respond(a, envelope(Num(1))));
    assert!(table.respond(b, envelope(Num(2))));

    // `b` is resolved and not taken yet: the signal stays.
    let (_, reset) = wait(&mut table, id_a);
    assert!(!reset);
    // Only `c` is left, and it is pending.
    let (_, reset) = wait(&mut table, id_b);
    assert!(reset);

    assert!(is_pending(&mut table, id_c));
    assert!(table.release(c));
    let (data, reset) = wait(&mut table, id_c);
    assert!(reset);
    assert_eq!(data.len(), 1);
}

#[test]
fn ids_of_requests_are_fresh_and_not_null() {
    let mut table = RequestTable::new(Addr::from_bits(1));
    let mut seen = Vec::new();
    for _ in 0..50 {
        let token = table.new_request();
        let id = token.request_id();
        assert!(!id.is_null());
        assert!(!token.is_forgotten());
        assert!(id != RequestId::null());
        assert!(!seen.contains(&id.to_bits()));
        seen.push(id.to_bits());
        table.release(token);
        let _ = wait(&mut table, id);
    }
}

#[test]
fn null_id_is_null() {
    let id = RequestId::null();
    assert!(id.is_null());
    assert_eq!(id.to_bits(), 0x1_ffff_ffff);
}

#[test]
fn forgotten_token_does_nothing() {
    let mut table = RequestTable::new(Addr::from_bits(1));
    let token = table.new_request();
    let request_id = token.request_id();

    let forgotten: ResponseToken<Num> = ResponseToken::forgotten();
    assert!(forgotten.is_forgotten());
    assert!(forgotten.sender().is_null());
    assert!(!table.release(forgotten));
    assert_eq!(table.remainder(request_id), Some(1));

    let mut token = token;
    token.forget();
    assert!(token.is_forgotten());
    assert!(!table.release(token));
    assert_eq!(table.remainder(request_id), Some(1));
}

#[test]
fn conversions_keep_the_obligation() {
    let mut table = RequestTable::new(Addr::from_bits(5));
    let token = table.new_request();
    let request_id = token.request_id();

    let typed: ResponseToken<Num> = token.into_typed();
    assert_eq!(typed.request_id(), request_id);
    assert_eq!(typed.sender(), Addr::from_bits(5));
    assert!(!typed.is_forgotten());

    let untyped = typed.into_untyped();
    assert_eq!(untyped.request_id(), request_id);
    assert_eq!(untyped.sender(), Addr::from_bits(5));
    assert_eq!(table.remainder(request_id), Some(1));

    assert!(table.respond(untyped, envelope(Num(8))));
    let (data, _) = wait(&mut table, request_id);
    assert_eq!(num_of(data[0].as_ref().unwrap()), 8);
}

#[test]
fn resolve_counts_down() {
    let addr = Addr::from_bits(3);
    let mut table = RequestTable::new(addr);
    assert_eq!(table.owner(), addr);
    let token = table.new_request();
    let request_id = token.request_id();
    let _second = table.clone_token(&token).unwrap();
    let _third = table.clone_token(&token).unwrap();
    assert_eq!(table.remainder(request_id), Some(3));

    assert!(!table.resolve(addr, request_id, None));
    assert_eq!(table.remainder(request_id), Some(2));
    assert!(!table.resolve(addr, request_id, Some(envelope(Num(1)))));
    assert_eq!(table.remainder(request_id), Some(1));
    assert!(table.resolve(addr, request_id, None));
    assert_eq!(table.remainder(request_id), Some(0));
}

#[test]
fn data_is_a_sequence() {
    let mut data = Data::new();
    assert_eq!(data.len(), 0);
    assert!(data.pop().is_none());

    data.push(Some(envelope(Num(1))));
    data.push(None);
    data.push(Some(envelope(Num(3))));
    assert_eq!(data.len(), 3);

    assert_eq!(num_of(&data.pop().unwrap().unwrap()), 3);
    assert_eq!(data.len(), 2);

    let items = data.into_vec();
    assert_eq!(items.len(), 2);
    assert_eq!(num_of(items[0].as_ref().unwrap()), 1);
    assert!(items[1].is_none());
}

#[test]
fn requests_do_not_disturb_each_other() {
    let mut table = RequestTable::new(Addr::from_bits(1));
    let a = table.new_request();
    let b = table.new_request();
    let (id_a, id_b) = (a.request_id(), b.request_id());
    let a2 = table.clone_token(&a).unwrap();

    assert_eq!(table.remainder(id_a), Some(2));
    assert_eq!(table.remainder(id_b), Some(1));

    table.respond(b, envelope(Num(7)));
    assert_eq!(table.remainder(id_a), Some(2));
    table.respond(a, envelope(Num(1)));
    table.respond(a2, envelope(Num(2)));

    let (data_b, _) = wait(&mut table, id_b);
    let (data_a, _) = wait(&mut table, id_a);
    assert_eq!(data_b.len(), 1);
    assert_eq!(num_of(data_b[0].as_ref().unwrap()), 7);
    assert_eq!(data_a.len(), 2);
    assert_eq!(num_of(data_a[0].as_ref().unwrap()), 1);
    assert_eq!(num_of(data_a[1].as_ref().unwrap()), 2);
}

#[test]
fn clone_of_resolved_request_is_refused() {
    let mut table = RequestTable::new(Addr::from_bits(1));
    let token = table.new_request();
    let request_id = token.request_id();
    let late = ResponseToken::new(token.sender(), request_id);

    assert!(table.respond(token, envelope(Num(1))));
    // The request is resolved and still in the table.
    assert_eq!(table.remainder(request_id), Some(0));

    assert!(table.clone_token(&late).is_none());
    assert_eq!(table.remainder(request_id), Some(0));
    assert_eq!(table.len(), 1);

    let (data, reset) = wait(&mut table, request_id);
    assert!(reset);
    assert_eq!(data.len(), 1);
    assert_eq!(num_of(data[0].as_ref().unwrap()), 1);
}

#[test]
fn clone_of_pending_request_counts_up() {
    let mut table = RequestTable::new(Addr::from_bits(1));
    let token = table.new_request();
    let request_id = token.request_id();

    let second = table.clone_token(&token).unwrap();
    assert_eq!(table.remainder(request_id), Some(2));
    assert_eq!(second.request_id(), request_id);
    assert_eq!(second.sender(), token.sender());

    assert!(!table.respond(token, envelope(Num(1))));
    // One response is still expected: a clone is still taken.
    let third = table.clone_token(&second).unwrap();
    assert_eq!(table.remainder(request_id), Some(2));
    assert!(!table.release(second));
    assert!(table.release(third));
    assert!(table.clone_token(&ResponseToken::new(Addr::from_bits(1), request_id)).is_none());
}
