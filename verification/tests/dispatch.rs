use titanpl::dispatch::{
    candidate, dispatch, round_robin, select_worker, settle, Dispatch, Offer, Step,
};

#[test]
fn candidates_go_round_the_pool() {
    assert_eq!(candidate(0, 0, 4), 0);
    assert_eq!(candidate(2, 1, 4), 3);
    assert_eq!(candidate(2, 2, 4), 0);
    assert_eq!(candidate(3, 3, 4), 2);
    assert_eq!(candidate(0, 0, 1), 0);
    for start in 0..5 {
        let mut asked: Vec<usize> = (0..5).map(|k| candidate(start, k, 5)).collect();
        assert_eq!(asked[0], start);
        asked.sort();
        assert_eq!(asked, vec![0, 1, 2, 3, 4]);
    }
}

#[test]
fn requests_start_at_workers_in_turn() {
    assert_eq!(round_robin(0, 3), 0);
    assert_eq!(round_robin(4, 3), 1);
    assert_eq!(round_robin(usize::MAX, 2), 1);
    assert_eq!(round_robin(7, 1), 0);
}

#[test]
fn the_first_worker_with_room_is_selected() {
    assert_eq!(select_worker(&vec![false, false, false], 1), Some(1));
    assert_eq!(select_worker(&vec![false, true, false], 1), Some(2));
    assert_eq!(select_worker(&vec![false, true, true], 1), Some(0));
    assert_eq!(select_worker(&vec![true, true, true], 1), None);
    assert_eq!(select_worker(&vec![true], 0), None);
}

#[test]
fn work_stealing_under_load() {
    let capacity = 4;
    let (first_tx, first_rx) = crossbeam::channel::bounded::<usize>(capacity);
    let (second_tx, second_rx) = crossbeam::channel::bounded::<usize>(capacity);
    let senders = vec![first_tx, second_tx];
    let mut sent = 0;
    for request in 0..2 * capacity {
        match dispatch(&senders, 0, request) {
            Dispatch::Accepted { worker, asked } => {
                assert_eq!(worker, if request < capacity { 0 } else { 1 });
                assert_eq!(asked, worker + 1);
                sent += 1;
            }
            _ => panic!("request {request} was not taken"),
        }
    }
    assert_eq!(first_rx.len(), capacity);
    assert_eq!(second_rx.len(), capacity);
    match dispatch(&senders, 1, 100) {
        Dispatch::AllFull { message } => assert_eq!(message, 100),
        _ => panic!("a full pool took a request"),
    }
    assert_eq!(second_rx.recv().unwrap(), capacity);
    match dispatch(&senders, 0, 101) {
        Dispatch::Accepted { worker, asked } => {
            assert_eq!(worker, 1);
            assert_eq!(asked, 2);
            sent += 1;
        }
        _ => panic!("a worker with room did not take the request"),
    }
    let mut received: Vec<usize> = first_rx.try_iter().chain(second_rx.try_iter()).collect();
    received.push(capacity);
    received.sort();
    let mut expected: Vec<usize> = (0..2 * capacity).collect();
    expected.push(101);
    assert_eq!(received.len(), sent);
    assert_eq!(received, expected);
}

#[test]
fn a_disconnected_worker_hands_the_request_back() {
    let (tx, rx) = crossbeam::channel::bounded::<String>(1);
    drop(rx);
    match dispatch(&vec![tx], 0, "request".to_string()) {
        Dispatch::Disconnected { worker, asked, message } => {
            assert_eq!(worker, 0);
            assert_eq!(asked, 1);
            assert_eq!(message, "request");
        }
        _ => panic!("a disconnected worker took a request"),
    }
}

#[test]
fn an_answer_ends_the_dispatch_or_hands_the_message_on() {
    match settle::<u32>(Offer::Accepted, 2, 3) {
        Step::Done(Dispatch::Accepted { worker, asked }) => {
            assert_eq!(worker, 2);
            assert_eq!(asked, 3);
        },
        _ => panic!("a queue that took the message ends the dispatch"),
    }
    match settle(Offer::Disconnected(7u32), 1, 1) {
        Step::Done(Dispatch::Disconnected { worker, asked, message }) => {
            assert_eq!(worker, 1);
            assert_eq!(asked, 1);
            assert_eq!(message, 7);
        },
        _ => panic!("a queue that is no longer read ends the dispatch"),
    }
    match settle(Offer::Full(9u32), 0, 1) {
        Step::Next(message) => assert_eq!(message, 9),
        _ => panic!("a full queue hands the message on"),
    }
}
