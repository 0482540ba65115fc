use exercise_server::exchange::{
    bytes_equal, reassemble, Action, Exchange, Reassembly, CHUNK_SIZE, RECEIVE_LIMIT,
};
use exercise_server::tasks::Task;

fn sum_task() -> Task {
    Task::SUM { numbers: [2, 3, 5], result: 10 }
}

fn asked(action: Action) -> Vec<Vec<u8>> {
    match action {
        Action::Ask(packets) => packets,
        Action::Finish(_) => panic!("the round is over"),
    }
}

fn finished(action: Action) -> Option<Vec<u8>> {
    match action {
        Action::Ask(_) => panic!("the round is open"),
        Action::Finish(flag) => flag,
    }
}

#[test]
fn sum_is_sent_as_three_datagrams_and_passed() {
    let tasks = vec![sum_task()];
    let mut exchange = Exchange::new();
    let packets = asked(exchange.next_action(&tasks, 1, 777));
    assert_eq!(packets, vec![b"2\n".to_vec(), b"3\n".to_vec(), b"5\n".to_vec()]);
    assert!(exchange.record(&tasks, &b"10".to_vec()));
    assert_eq!(exchange.passed, 1);
    assert!(!exchange.stopped);
    assert_eq!(finished(exchange.next_action(&tasks, 1, 777)), Some(b"777\n".to_vec()));
}

#[test]
fn wrong_answer_stops_the_round() {
    let tasks = vec![sum_task(), Task::concat_task(String::from("12"))];
    let mut exchange = Exchange::new();
    asked(exchange.next_action(&tasks, 2, 777));
    assert!(!exchange.record(&tasks, &b"11".to_vec()));
    assert_eq!(exchange.passed, 0);
    assert!(exchange.stopped);
    assert_eq!(finished(exchange.next_action(&tasks, 2, 777)), None);
}

#[test]
fn two_of_three_passed_gives_no_flag() {
    let tasks = vec![
        sum_task(),
        Task::root_task(17, 2),
        Task::deletion_task(String::from("1213"), '1'),
    ];
    let mut exchange = Exchange::new();
    assert_eq!(asked(exchange.next_action(&tasks, 3, 5)).len(), 3);
    assert!(exchange.record(&tasks, &b"10".to_vec()));
    assert_eq!(asked(exchange.next_action(&tasks, 3, 5)), vec![b"17\n".to_vec()]);
    assert!(exchange.record(&tasks, &b"4".to_vec()));
    assert_eq!(asked(exchange.next_action(&tasks, 3, 5)), vec![b"1213\n".to_vec()]);
    assert!(!exchange.record(&tasks, &b"32".to_vec()));
    assert_eq!(exchange.passed, 2);
    assert_eq!(finished(exchange.next_action(&tasks, 3, 5)), None);
}

#[test]
fn three_of_three_passed_gives_the_flag() {
    let tasks = vec![
        Task::gcd_task(vec![12, 18]),
        Task::concat_task(String::from("90")),
        Task::deletion_task(String::from("1213"), '1'),
    ];
    let mut exchange = Exchange::new();
    assert_eq!(
        asked(exchange.next_action(&tasks, 3, 4242)),
        vec![b"12\n".to_vec(), b"18\n".to_vec()]
    );
    assert!(exchange.record(&tasks, &b"6".to_vec()));
    assert_eq!(asked(exchange.next_action(&tasks, 3, 4242)), vec![b"90\n".to_vec()]);
    assert!(exchange.record(&tasks, &b"9090".to_vec()));
    asked(exchange.next_action(&tasks, 3, 4242));
    assert!(exchange.record(&tasks, &b"23".to_vec()));
    assert_eq!(exchange.passed, 3);
    assert_eq!(finished(exchange.next_action(&tasks, 3, 4242)), Some(b"4242\n".to_vec()));
}

#[test]
fn flag_is_owed_when_more_passed_than_required() {
    let tasks = vec![sum_task()];
    let mut exchange = Exchange::new();
    assert!(exchange.record(&tasks, &b"10".to_vec()));
    assert_eq!(finished(exchange.next_action(&tasks, 0, 1)), Some(b"1\n".to_vec()));
    assert_eq!(finished(exchange.next_action(&tasks, 2, 1)), None);
}

#[test]
fn answer_after_the_round_changes_nothing() {
    let tasks = vec![sum_task()];
    let mut exchange = Exchange::new();
    assert!(!exchange.record(&tasks, &b"9".to_vec()));
    assert!(!exchange.record(&tasks, &b"10".to_vec()));
    assert_eq!(exchange, Exchange { passed: 0, stopped: true });
    let mut done = Exchange { passed: 1, stopped: false };
    assert!(!done.record(&tasks, &b"10".to_vec()));
    assert_eq!(done, Exchange { passed: 1, stopped: false });
}

#[test]
fn answers_are_compared_byte_for_byte() {
    let task = sum_task();
    assert!(task.accepts(&b"10".to_vec()));
    assert!(!task.accepts(&b"10\n".to_vec()));
    assert!(!task.accepts(&b" 10".to_vec()));
    assert!(!task.accepts(&b"010".to_vec()));
    assert!(!task.accepts(&b"".to_vec()));
    assert_eq!(task.expected_text(), "10");
    assert_eq!(Task::concat_task(String::from("12")).expected_text(), "1212");
}

#[test]
fn bytes_equal_compares_content() {
    assert!(bytes_equal(&vec![], &vec![]));
    assert!(bytes_equal(&vec![1, 2], &vec![1, 2]));
    assert!(!bytes_equal(&vec![1, 2], &vec![1, 3]));
    assert!(!bytes_equal(&vec![1, 2], &vec![1]));
}

#[test]
fn short_datagram_ends_the_answer() {
    assert_eq!(reassemble(&vec![b"10\n".to_vec()]), Some(b"10".to_vec()));
    assert_eq!(reassemble(&vec![vec![]]), Some(vec![]));
    assert_eq!(reassemble(&vec![b"\n".to_vec()]), Some(vec![]));
    assert_eq!(reassemble(&vec![b"10\n".to_vec(), b"99\n".to_vec()]), Some(b"10".to_vec()));
}

#[test]
fn full_datagram_is_followed_by_another() {
    let full = vec![b'7'; CHUNK_SIZE];
    assert_eq!(reassemble(&vec![full.clone()]), None);
    let mut expected = full.clone();
    expected.extend_from_slice(b"12");
    assert_eq!(reassemble(&vec![full, b"12\n".to_vec()]), Some(expected));
}

#[test]
fn only_full_datagrams_end_in_an_empty_answer() {
    let full = vec![b'1'; CHUNK_SIZE];
    for count in 0..11 {
        assert_eq!(reassemble(&vec![full.clone(); count]), None);
    }
    assert_eq!(reassemble(&vec![full.clone(); 11]), Some(vec![]));
    assert_eq!(reassemble(&vec![full.clone(); 30]), Some(vec![]));
}

#[test]
fn answer_at_the_limit_is_still_taken() {
    let full = vec![b'1'; CHUNK_SIZE];
    let mut chunks = vec![full; 10];
    chunks.push(b"2\n".to_vec());
    let answer = reassemble(&chunks).unwrap();
    assert_eq!(answer.len(), RECEIVE_LIMIT + 1);
    assert_eq!(answer[RECEIVE_LIMIT], b'2');
}

#[test]
fn reassembly_step_by_step() {
    let mut gathered = Reassembly::new();
    assert!(!gathered.overflowed());
    assert!(!gathered.absorb(&vec![b'4'; CHUNK_SIZE]));
    assert!(gathered.absorb(b"2\n"));
    assert_eq!(gathered.buffer.len(), CHUNK_SIZE + 2);
    let message = gathered.into_message();
    assert_eq!(message.len(), CHUNK_SIZE + 1);
    assert_eq!(message[CHUNK_SIZE], b'2');
}
