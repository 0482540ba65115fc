use exercise_server::config::{Config, Data};
use exercise_server::handshake::{flag_matches, strip_line, Phase, Session};
use exercise_server::tasks::Task;
use exercise_server::TASKS_AMOUNT;

#[test]
fn strip_line_takes_the_last_character() {
    assert_eq!(strip_line("123\n"), "123");
    assert_eq!(strip_line("123"), "12");
    assert_eq!(strip_line("\n"), "");
    assert_eq!(strip_line(""), "");
    assert_eq!(strip_line("127.0.0.1:9000\n"), "127.0.0.1:9000");
}

#[test]
fn flag_is_compared_in_decimal() {
    assert!(flag_matches("123\n", 123));
    assert!(!flag_matches("124\n", 123));
    assert!(!flag_matches("123", 123));
    assert!(!flag_matches("0123\n", 123));
    assert!(!flag_matches("", 0));
    assert!(flag_matches("0\n", 0));
}

#[test]
fn right_secret_and_address_are_accepted() {
    let mut session = Session::new();
    assert_eq!(session.phase, Phase::AwaitingFlag);
    assert_eq!(session.advance("555\n", 555, false), Phase::AwaitingEndpoint);
    assert_eq!(session.advance("127.0.0.1:9000\n", 555, true), Phase::Accepted);
    assert_eq!(session.phase, Phase::Accepted);
}

#[test]
fn wrong_secret_is_rejected() {
    let mut session = Session::new();
    assert_eq!(session.advance("556\n", 555, true), Phase::Rejected);
    assert_eq!(session.phase, Phase::Rejected);
}

#[test]
fn malformed_address_is_rejected() {
    let mut session = Session::new();
    assert_eq!(session.advance("555\n", 555, false), Phase::AwaitingEndpoint);
    assert_eq!(session.advance("somewhere\n", 555, false), Phase::Rejected);
}

#[test]
fn finished_handshake_stays_as_it_is() {
    let mut accepted = Session { phase: Phase::Accepted };
    assert_eq!(accepted.advance("1\n", 2, false), Phase::Accepted);
    let mut rejected = Session { phase: Phase::Rejected };
    assert_eq!(rejected.advance("2\n", 2, true), Phase::Rejected);
}

#[test]
fn complete_configuration_holds_the_batch_of_its_seed() {
    let data = Data::new(String::from("127.0.0.1:7000"), String::from("127.0.0.1:7001"), 31, 1, 2);
    assert!(data.tasks.is_none());
    let config = Config::complete(data).unwrap();
    let held = config.data();
    assert_eq!(held.tcp_address, "127.0.0.1:7000");
    assert_eq!(held.udp_address, "127.0.0.1:7001");
    assert_eq!((held.seed, held.init_flag, held.final_flag), (31, 1, 2));
    assert_eq!(held.get_tasks().len(), TASKS_AMOUNT as usize);
    assert_eq!(
        format!("{:?}", held.get_tasks()),
        format!("{:?}", Task::gen_tasks(31).unwrap())
    );
}
