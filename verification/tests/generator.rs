use exercise_server::tasks::{admit_kind, generate, generate_within, GenerateError, Task};
use exercise_server::{NUM_MAX, NUM_MIN, TASKS_AMOUNT};

fn euclid(a: u64, b: u64) -> u64 {
    if b == 0 {
        a
    } else {
        euclid(b, a % b)
    }
}

fn kind_of(task: &Task) -> u8 {
    match task {
        Task::GCD { .. } => 0,
        Task::SUM { .. } => 1,
        Task::XK { .. } => 2,
        Task::StringDeletion { .. } => 3,
        Task::StringConcat { .. } => 4,
    }
}

fn in_range(n: u64) -> bool {
    NUM_MIN <= n && n < NUM_MAX
}

fn check_task(task: &Task) {
    match task {
        Task::GCD { numbers, result } => {
            assert!(2 <= numbers.len() && numbers.len() <= 5);
            let mut acc = 0u64;
            for n in numbers {
                assert!(in_range(*n));
                acc = euclid(acc, *n);
            }
            assert_eq!(*result, acc);
        }
        Task::SUM { numbers, result } => {
            for n in numbers {
                assert!(in_range(*n));
            }
            assert_eq!(*result, numbers[0] + numbers[1] + numbers[2]);
        }
        Task::XK { x, power, result } => {
            assert!(in_range(*x));
            assert!(1 <= *power && *power <= 5);
            let k = *result as u128;
            let p = *power as u32;
            assert!(k >= 1);
            assert!(k.pow(p) <= *x as u128);
            assert!((k + 1).pow(p) > *x as u128);
        }
        Task::StringDeletion { target, del, result } => {
            let n: u64 = target.parse().unwrap();
            assert!(in_range(n));
            assert_eq!(n.to_string(), *target);
            assert!(target.contains(*del));
            assert!(!result.contains(*del));
            let kept: String = target.chars().filter(|c| c != del).collect();
            assert_eq!(*result, kept);
        }
        Task::StringConcat { target, result } => {
            let n: u64 = target.parse().unwrap();
            assert!(in_range(n));
            assert_eq!(result.len(), 2 * target.len());
            assert_eq!(result.len() % 2, 0);
            assert_eq!(*result, format!("{}{}", target, target));
        }
    }
}

#[test]
fn same_seed_gives_same_batch() {
    for seed in [0u64, 1, 42, 1234567, u64::MAX] {
        for count in 0u8..=5 {
            let first = generate(seed, count).unwrap();
            let second = generate(seed, count).unwrap();
            assert_eq!(format!("{:?}", first), format!("{:?}", second));
        }
    }
}

#[test]
fn batch_has_the_count_asked_for() {
    for count in 0u8..=5 {
        let batch = generate(7, count).unwrap();
        assert_eq!(batch.len(), count as usize);
    }
}

#[test]
fn no_kind_occurs_twice() {
    for seed in 0u64..40 {
        let batch = generate(seed, 5).unwrap();
        let mut kinds: Vec<u8> = batch.iter().map(kind_of).collect();
        kinds.sort();
        assert_eq!(kinds, vec![0, 1, 2, 3, 4]);
    }
}

#[test]
fn every_exercise_is_consistent() {
    for seed in 0u64..40 {
        for task in generate(seed, 5).unwrap() {
            check_task(&task);
        }
    }
}

#[test]
fn more_than_five_is_refused() {
    for count in 6u8..=255 {
        assert_eq!(generate(3, count).err(), Some(GenerateError::TooManyKinds));
    }
}

#[test]
fn too_small_a_budget_is_exhausted() {
    for seed in 0u64..10 {
        assert_eq!(generate_within(seed, 1, 0).err(), Some(GenerateError::Exhausted));
        assert_eq!(generate_within(seed, 5, 4).err(), Some(GenerateError::Exhausted));
        assert_eq!(generate_within(seed, 3, 2).err(), Some(GenerateError::Exhausted));
        assert!(generate_within(seed, 0, 0).unwrap().is_empty());
        assert_eq!(generate_within(seed, 1, 1).unwrap().len(), 1);
    }
}

#[test]
fn budget_that_suffices_changes_nothing() {
    for seed in 0u64..10 {
        let run = generate(seed, 5).unwrap();
        let wide = generate_within(seed, 5, 1000000).unwrap();
        assert_eq!(format!("{:?}", run), format!("{:?}", wide));
    }
}

#[test]
fn too_many_kinds_comes_before_the_budget() {
    assert_eq!(generate_within(1, 6, 0).err(), Some(GenerateError::TooManyKinds));
}

#[test]
fn empty_batch_for_count_zero() {
    assert!(generate(99, 0).unwrap().is_empty());
}

#[test]
fn seeds_give_different_operands() {
    let mut sums = Vec::new();
    for seed in 0u64..20 {
        for task in generate(seed, 5).unwrap() {
            if let Task::SUM { numbers, .. } = task {
                sums.push(numbers);
            }
        }
    }
    assert_eq!(sums.len(), 20);
    assert!(sums.iter().any(|n| *n != sums[0]));
    assert!(sums.iter().any(|n| n[0] != NUM_MIN));
    assert!(sums.iter().any(|n| n[0] != n[1]));
}

#[test]
fn order_of_kinds_varies_with_the_seed() {
    let mut firsts = Vec::new();
    for seed in 0u64..60 {
        let batch = generate(seed, 1).unwrap();
        firsts.push(kind_of(&batch[0]));
    }
    assert!(firsts.iter().any(|k| *k != firsts[0]));
    assert!(firsts.iter().all(|k| *k < 5));
}

#[test]
fn shorter_batch_starts_like_longer_choice() {
    for seed in 0u64..20 {
        let three: Vec<u8> = generate(seed, 3).unwrap().iter().map(kind_of).collect();
        let five: Vec<u8> = generate(seed, 5).unwrap().iter().map(kind_of).collect();
        assert_eq!(three[..], five[..3]);
    }
}

#[test]
fn gen_tasks_draws_the_batch_of_a_run() {
    let batch = Task::gen_tasks(2024).unwrap();
    assert_eq!(batch.len(), TASKS_AMOUNT as usize);
    assert_eq!(
        format!("{:?}", batch),
        format!("{:?}", generate(2024, TASKS_AMOUNT).unwrap())
    );
    for task in &batch {
        check_task(task);
    }
}

#[test]
fn admit_kind_keeps_kinds_distinct() {
    let mut chosen: Vec<u8> = Vec::new();
    assert!(admit_kind(&mut chosen, 3));
    assert!(admit_kind(&mut chosen, 1));
    assert!(!admit_kind(&mut chosen, 3));
    assert_eq!(chosen, vec![3, 1]);
}

#[test]
fn gcd_task_folds_in_order() {
    match Task::gcd_task(vec![12, 18, 30]) {
        Task::GCD { numbers, result } => {
            assert_eq!(numbers, vec![12, 18, 30]);
            assert_eq!(result, 6);
        }
        other => panic!("{:?}", other),
    }
}

#[test]
fn sum_task_adds() {
    match Task::sum_task([2, 3, 5]) {
        Task::SUM { numbers, result } => {
            assert_eq!(numbers, [2, 3, 5]);
            assert_eq!(result, 10);
        }
        other => panic!("{:?}", other),
    }
}

#[test]
fn root_task_finds_the_root() {
    match Task::root_task(1000000000, 3) {
        Task::XK { x, power, result } => {
            assert_eq!((x, power, result), (1000000000, 3, 1000));
        }
        other => panic!("{:?}", other),
    }
}

#[test]
fn deletion_task_removes_every_occurrence() {
    match Task::deletion_task(String::from("1213141516"), '1') {
        Task::StringDeletion { target, del, result } => {
            assert_eq!(target, "1213141516");
            assert_eq!(del, '1');
            assert_eq!(result, "23456");
        }
        other => panic!("{:?}", other),
    }
}

#[test]
fn concat_task_doubles() {
    match Task::concat_task(String::from("1234567890")) {
        Task::StringConcat { target, result } => {
            assert_eq!(target, "1234567890");
            assert_eq!(result, "12345678901234567890");
        }
        other => panic!("{:?}", other),
    }
}

#[test]
fn descriptions_name_their_parameters() {
    assert_eq!(
        Task::gcd_task(vec![4, 6]).describe(),
        "[GCD] W 2 kolejnych liniach odbierz 2 liczb naturalnych. Policz ich największy wspólny dzielnik i wynik odeślij."
    );
    assert_eq!(
        Task::sum_task([1, 2, 3]).describe(),
        "[SUM] W 3 kolejnych liniach odbierz 3 liczby naturalnych. Policz sumę tych liczb i odeślij."
    );
    assert_eq!(
        Task::root_task(100, 4).describe(),
        "[XK] Odbierz liczbę naturalną x, Oblicz największą liczbę naturalną k, taką, że k podniesione do potęgi 4 jest nie większe niż wartość x. Odeślij wartość k."
    );
    assert_eq!(
        Task::deletion_task(String::from("121"), '2').describe(),
        "[SD] Odbierz napis. Usuń z niego wszystkie wystąpienia 2 i odeślij wynik."
    );
    assert_eq!(
        Task::concat_task(String::from("12")).describe(),
        "[SC] Odbierz jedną linijkę tekstu. Skonkatenuj tekst 2 razy z samym sobą i odeślij wynik."
    );
}
