//! Exercises, and the drawing of a batch of them from a seed.

use crate::numeric::{
    gcd_fold, largest_root, largest_root_of, lemma_root_bracket, pow, running_gcd,
};
use crate::random::{
    char_draw, choose_char, draw_small, draw_wide, generator_state, seed_generator, seeded_state,
    small_draw, wide_draw,
};
use crate::text::{
    concat_twice, decimal, decimal_text, delete_char, doubled, lemma_deletion, lemma_doubled,
    without_char,
};
use crate::{KINDS, NUM_MAX, NUM_MIN, TASKS_AMOUNT};
use rand_pcg::Lcg128Xsl64;
use vstd::prelude::*;

verus! {

/// Index of the divisor exercise among the kinds.
pub const KIND_GCD: u8 = 0;

/// Index of the sum exercise.
pub const KIND_SUM: u8 = 1;

/// Index of the root exercise.
pub const KIND_XK: u8 = 2;

/// Index of the deletion exercise.
pub const KIND_DELETION: u8 = 3;

/// Index of the concatenation exercise.
pub const KIND_CONCAT: u8 = 4;

/// How many kind indices are drawn at most while a batch is chosen.
pub const DRAW_BUDGET: u64 = 0xffff_ffff_ffff_ffff;

/// One exercise: what the client is given, and the answer expected of it.
#[derive(Clone, Debug)]
#[allow(inconsistent_fields)]
pub enum Task {
    GCD { numbers: Vec<u64>, result: u64 },
    SUM { numbers: [u64; 3], result: u64 },
    XK { x: u64, power: u8, result: u64 },
    StringDeletion { target: String, del: char, result: String },
    StringConcat { target: String, result: String },
}

/// An exercise as a mathematical value.
#[allow(inconsistent_fields)]
pub enum TaskView {
    GCD { numbers: Seq<u64>, result: u64 },
    SUM { numbers: Seq<u64>, result: u64 },
    XK { x: u64, power: u8, result: u64 },
    StringDeletion { target: Seq<char>, del: char, result: Seq<char> },
    StringConcat { target: Seq<char>, result: Seq<char> },
}

/// Why no batch was drawn.
#[derive(Clone, Copy, Debug, PartialEq, Eq, Structural)]
pub enum GenerateError {
    /// More exercises were asked for than there are kinds.
    TooManyKinds,
    /// The draw budget ran out before enough distinct kinds had come up.
    Exhausted,
}

/// Whether a number lies in the range of the operands.
pub open spec fn in_range(n: u64) -> bool {
    NUM_MIN <= n < NUM_MAX
}

/// Whether a text is the decimal form of an operand.
pub open spec fn operand_text(text: Seq<char>) -> bool {
    exists|n: u64| in_range(n) && text == decimal_text(n as nat)
}

impl TaskView {
    /// The index of the exercise's kind.
    pub open spec fn kind(self) -> u8 {
        match self {
            TaskView::GCD { .. } => KIND_GCD,
            TaskView::SUM { .. } => KIND_SUM,
            TaskView::XK { .. } => KIND_XK,
            TaskView::StringDeletion { .. } => KIND_DELETION,
            TaskView::StringConcat { .. } => KIND_CONCAT,
        }
    }

    /// The expected answer is the right one for what is given.
    pub open spec fn consistent(self) -> bool {
        match self {
            TaskView::GCD { numbers, result } => result as nat == gcd_fold(numbers),
            TaskView::SUM { numbers, result } => numbers.len() == 3 && result as int == numbers[0]
                + numbers[1] + numbers[2],
            TaskView::XK { x, power, result } => power >= 1 && result as nat == largest_root_of(
                x as nat,
                power as nat,
            ),
            TaskView::StringDeletion { target, del, result } => result == without_char(
                target,
                del,
            ),
            TaskView::StringConcat { target, result } => result == doubled(target),
        }
    }

    /// The operands are such as a batch holds them: in range, and as many as
    /// the kind allows.
    pub open spec fn in_bounds(self) -> bool {
        match self {
            TaskView::GCD { numbers, .. } => 2 <= numbers.len() <= 5 && forall|i: int|
                0 <= i < numbers.len() ==> in_range(#[trigger] numbers[i]),
            TaskView::SUM { numbers, .. } => numbers.len() == 3 && forall|i: int|
                0 <= i < numbers.len() ==> in_range(#[trigger] numbers[i]),
            TaskView::XK { x, power, .. } => in_range(x) && 1 <= power <= 5,
            TaskView::StringDeletion { target, del, .. } => operand_text(target)
                && target.contains(del),
            TaskView::StringConcat { target, .. } => operand_text(target),
        }
    }

    /// The texts that the client is sent, in order.
    pub open spec fn givens(self) -> Seq<Seq<char>> {
        match self {
            TaskView::GCD { numbers, .. } => Seq::new(
                numbers.len(),
                |i: int| decimal_text(numbers[i] as nat),
            ),
            TaskView::SUM { numbers, .. } => Seq::new(
                numbers.len(),
                |i: int| decimal_text(numbers[i] as nat),
            ),
            TaskView::XK { x, .. } => seq![decimal_text(x as nat)],
            TaskView::StringDeletion { target, .. } => seq![target],
            TaskView::StringConcat { target, .. } => seq![target],
        }
    }

    /// The text that the client has to answer with.
    pub open spec fn expected(self) -> Seq<char> {
        match self {
            TaskView::GCD { result, .. } => decimal_text(result as nat),
            TaskView::SUM { result, .. } => decimal_text(result as nat),
            TaskView::XK { result, .. } => decimal_text(result as nat),
            TaskView::StringDeletion { result, .. } => result,
            TaskView::StringConcat { result, .. } => result,
        }
    }
}

impl View for Task {
    type V = TaskView;

    open spec fn view(&self) -> TaskView {
        match *self {
            Task::GCD { numbers, result } => TaskView::GCD { numbers: numbers@, result },
            Task::SUM { numbers, result } => TaskView::SUM { numbers: numbers@, result },
            Task::XK { x, power, result } => TaskView::XK { x, power, result },
            Task::StringDeletion { target, del, result } => TaskView::StringDeletion {
                target: target@,
                del,
                result: result@,
            },
            Task::StringConcat { target, result } => TaskView::StringConcat {
                target: target@,
                result: result@,
            },
        }
    }
}

/// A batch as a sequence of mathematical values.
pub open spec fn batch_view(tasks: Seq<Task>) -> Seq<TaskView> {
    Seq::new(tasks.len(), |i: int| tasks[i]@)
}

/// The first `n` operands that a generator in `state` gives, and what it
/// holds after them.
pub open spec fn draw_numbers(state: (nat, nat), n: nat) -> (Seq<u64>, (nat, nat))
    decreases n,
{
    if n == 0 {
        (Seq::empty(), state)
    } else {
        let before = draw_numbers(state, (n - 1) as nat);
        let next = wide_draw(before.1, NUM_MIN, NUM_MAX);
        (before.0.push(next.0), next.1)
    }
}

/// The divisor exercise on given numbers.
pub open spec fn gcd_view(numbers: Seq<u64>) -> TaskView {
    TaskView::GCD { numbers, result: gcd_fold(numbers) as u64 }
}

/// The sum exercise on given numbers.
pub open spec fn sum_view(numbers: Seq<u64>) -> TaskView {
    TaskView::SUM { numbers, result: (numbers[0] + numbers[1] + numbers[2]) as u64 }
}

/// The root exercise on a given number and exponent.
pub open spec fn root_view(x: u64, power: u8) -> TaskView {
    TaskView::XK { x, power, result: largest_root_of(x as nat, power as nat) as u64 }
}

/// The deletion exercise on a given text and character.
pub open spec fn deletion_view(target: Seq<char>, del: char) -> TaskView {
    TaskView::StringDeletion { target, del, result: without_char(target, del) }
}

/// The concatenation exercise on a given text.
pub open spec fn concat_view(target: Seq<char>) -> TaskView {
    TaskView::StringConcat { target, result: doubled(target) }
}

/// The exercise of one kind that a generator in `state` gives, and what the
/// generator holds afterwards. The draws come in a fixed order: for the
/// divisor, how many numbers and then the numbers; for the root, the number
/// and then the exponent; for the deletion, the number and then the character.
pub open spec fn build_task(kind: u8, state: (nat, nat)) -> (TaskView, (nat, nat)) {
    if kind == KIND_GCD {
        let amount = small_draw(state, 2, 6);
        let drawn = draw_numbers(amount.1, amount.0 as nat);
        (gcd_view(drawn.0), drawn.1)
    } else if kind == KIND_SUM {
        let drawn = draw_numbers(state, 3);
        (sum_view(drawn.0), drawn.1)
    } else if kind == KIND_XK {
        let x = wide_draw(state, NUM_MIN, NUM_MAX);
        let power = small_draw(x.1, 1, 6);
        (root_view(x.0, power.0), power.1)
    } else if kind == KIND_DELETION {
        let n = wide_draw(state, NUM_MIN, NUM_MAX);
        let target = decimal_text(n.0 as nat);
        let del = char_draw(n.1, target);
        (deletion_view(target, del.0), del.1)
    } else {
        let n = wide_draw(state, NUM_MIN, NUM_MAX);
        (concat_view(decimal_text(n.0 as nat)), n.1)
    }
}

/// The kinds chosen by a generator in `state`: indices are drawn from the
/// kinds until `count` distinct ones have come up, one that came up before
/// being passed over. `None` when `budget` draws do not suffice.
pub open spec fn pick_kinds(state: (nat, nat), chosen: Seq<u8>, count: nat, budget: nat) -> Option<
    (Seq<u8>, (nat, nat)),
>
    decreases budget,
{
    if chosen.len() >= count {
        Some((chosen, state))
    } else if budget == 0 {
        None
    } else {
        let drawn = small_draw(state, 0, KINDS);
        if chosen.contains(drawn.0) {
            pick_kinds(drawn.1, chosen, count, (budget - 1) as nat)
        } else {
            pick_kinds(drawn.1, chosen.push(drawn.0), count, (budget - 1) as nat)
        }
    }
}

/// The exercises of the given kinds, each drawn after the one before it, and
/// what the generator holds at the end.
pub open spec fn build_batch(kinds: Seq<u8>, state: (nat, nat)) -> (Seq<TaskView>, (nat, nat))
    decreases kinds.len(),
{
    if kinds.len() == 0 {
        (Seq::empty(), state)
    } else {
        let before = build_batch(kinds.drop_last(), state);
        let next = build_task(kinds.last(), before.1);
        (before.0.push(next.0), next.1)
    }
}

/// The batch that a seed and a count give: the kinds are chosen first, then
/// the exercises are drawn in the order of the choice.
pub open spec fn batch_within(seed: u64, count: u8, budget: u64) -> Option<Seq<TaskView>> {
    match pick_kinds(seeded_state(seed), Seq::empty(), count as nat, budget as nat) {
        Some((kinds, state)) => Some(build_batch(kinds, state).0),
        None => None,
    }
}

/// The batch of a seed and a count under the budget that a run draws with.
pub open spec fn batch_of(seed: u64, count: u8) -> Option<Seq<TaskView>> {
    batch_within(seed, count, DRAW_BUDGET)
}

/// What drawing `count` exercises from `seed` returns: a refusal when there
/// are not so many kinds, else the batch of the seed and the count, or the
/// news that the draw budget ran out.
pub open spec fn is_outcome(
    seed: u64,
    count: u8,
    budget: u64,
    r: Result<Vec<Task>, GenerateError>,
) -> bool {
    if count > KINDS {
        r matches Err(e) && e == GenerateError::TooManyKinds
    } else {
        match batch_within(seed, count, budget) {
            Some(batch) => r matches Ok(tasks) && batch_view(tasks@) == batch,
            None => r matches Err(e) && e == GenerateError::Exhausted,
        }
    }
}

/// Drawing is deterministic: two drawings with the same seed, the same count
/// and the same budget both succeed or both fail, with the same error or with
/// batches that agree in every kind, operand and expected answer, in the same
/// order.
pub proof fn lemma_generate_deterministic(
    seed: u64,
    count: u8,
    budget: u64,
    first: Result<Vec<Task>, GenerateError>,
    second: Result<Vec<Task>, GenerateError>,
)
    requires
        is_outcome(seed, count, budget, first),
        is_outcome(seed, count, budget, second),
    ensures
        first is Ok <==> second is Ok,
        first is Ok && second is Ok ==> batch_view(first->Ok_0@) == batch_view(second->Ok_0@),
        first is Err && second is Err ==> first->Err_0 == second->Err_0,
{
}

/// The root that a batch expects lies in its bracket: its power does not
/// exceed the number, and the power of its successor does.
pub proof fn lemma_batch_root(task: TaskView)
    requires
        task.consistent(),
        task.in_bounds(),
    ensures
        task matches TaskView::XK { x, power, result } ==> result >= 1 && pow(
            result as nat,
            power as nat,
        ) <= x < pow(result as nat + 1, power as nat),
{
    if let TaskView::XK { x, power, result } = task {
        lemma_root_bracket(x as nat, power as nat);
    }
}

/// The answer to a deletion exercise holds the deleted character nowhere,
/// and is what the other characters of the target make up, in their order.
pub proof fn lemma_batch_deletion(task: TaskView)
    requires
        task.consistent(),
    ensures
        task matches TaskView::StringDeletion { target, del, result } ==> !result.contains(del)
            && result == without_char(target, del) && result.len() <= target.len(),
{
    if let TaskView::StringDeletion { target, del, result } = task {
        lemma_deletion(target, del);
    }
}

/// The answer to a concatenation exercise is the target written twice: its
/// length is even, twice that of the target.
pub proof fn lemma_batch_concat(task: TaskView)
    requires
        task.consistent(),
    ensures
        task matches TaskView::StringConcat { target, result } ==> result == target + target
            && result.len() == 2 * target.len() && result.len() % 2 == 0,
{
    if let TaskView::StringConcat { target, result } = task {
        lemma_doubled(target);
    }
}

/// No value occurs twice.
pub open spec fn distinct(kinds: Seq<u8>) -> bool {
    forall|i: int, j: int| 0 <= i < j < kinds.len() ==> kinds[i] != kinds[j]
}

/// Adds a kind to those chosen unless it is among them, and says whether it
/// was added.
pub fn admit_kind(chosen: &mut Vec<u8>, id: u8) -> (fresh: bool)
    ensures
        fresh == !old(chosen)@.contains(id),
        fresh ==> final(chosen)@ == old(chosen)@.push(id),
        !fresh ==> final(chosen)@ == old(chosen)@,
{
    let mut i: usize = 0;
    while i < chosen.len()
        invariant
            i <= chosen.len(),
            chosen@ == old(chosen)@,
            forall|j: int| 0 <= j < i ==> chosen@[j] != id,
        decreases chosen.len() - i,
    {
        if chosen[i] == id {
            return false;
        }
        i += 1;
    }
    chosen.push(id);
    true
}

/// Draws kind indices until `count` distinct ones are chosen, `limit` of them
/// at most.
pub(crate) fn pick(rng: &mut Lcg128Xsl64, count: u8, limit: u64) -> (r: Option<Vec<u8>>)
    requires
        count <= KINDS,
    ensures
        match pick_kinds(
            generator_state(*old(rng)),
            Seq::empty(),
            count as nat,
            limit as nat,
        ) {
            Some((kinds, state)) => r matches Some(v) && v@ == kinds && generator_state(
                *final(rng),
            ) == state,
            None => r is None,
        },
        r matches Some(v) ==> v@.len() == count && distinct(v@) && forall|i: int|
            0 <= i < v@.len() ==> v@[i] < KINDS,
{
    let mut chosen: Vec<u8> = Vec::new();
    let mut budget: u64 = limit;
    while chosen.len() < count as usize
        invariant
            pick_kinds(generator_state(*old(rng)), Seq::empty(), count as nat, limit as nat)
                == pick_kinds(generator_state(*rng), chosen@, count as nat, budget as nat),
            chosen@.len() <= count,
            distinct(chosen@),
            forall|i: int| 0 <= i < chosen@.len() ==> chosen@[i] < KINDS,
        decreases budget,
    {
        if budget == 0 {
            return None;
        }
        budget -= 1;
        let id = draw_small(rng, 0, KINDS);
        admit_kind(&mut chosen, id);
    }
    Some(chosen)
}

impl Task {
    /// The divisor exercise on the given numbers.
    pub fn gcd_task(numbers: Vec<u64>) -> (task: Task)
        ensures
            task@ == gcd_view(numbers@),
            task@.consistent(),
    {
        let result = running_gcd(&numbers);
        Task::GCD { numbers, result }
    }

    /// The sum exercise on the given numbers.
    pub fn sum_task(numbers: [u64; 3]) -> (task: Task)
        requires
            numbers[0] + numbers[1] + numbers[2] <= u64::MAX,
        ensures
            task@ == sum_view(numbers@),
            task@.consistent(),
    {
        let result = numbers[0] + numbers[1] + numbers[2];
        Task::SUM { numbers, result }
    }

    /// The root exercise on the given number and exponent.
    pub fn root_task(x: u64, power: u8) -> (task: Task)
        requires
            power >= 1,
        ensures
            task@ == root_view(x, power),
            task@.consistent(),
    {
        let result = largest_root(x, power);
        Task::XK { x, power, result }
    }

    /// The deletion exercise on the given text and character.
    pub fn deletion_task(target: String, del: char) -> (task: Task)
        ensures
            task@ == deletion_view(target@, del),
            task@.consistent(),
    {
        let result = delete_char(target.as_str(), del);
        Task::StringDeletion { target, del, result }
    }

    /// The concatenation exercise on the given text.
    pub fn concat_task(target: String) -> (task: Task)
        ensures
            task@ == concat_view(target@),
            task@.consistent(),
    {
        let result = concat_twice(target.as_str());
        Task::StringConcat { target, result }
    }
}

/// Draws `amount` operands.
pub(crate) fn draw_operands(rng: &mut Lcg128Xsl64, amount: u8) -> (numbers: Vec<u64>)
    ensures
        (numbers@, generator_state(*final(rng))) == draw_numbers(
            generator_state(*old(rng)),
            amount as nat,
        ),
        numbers@.len() == amount,
        forall|i: int| 0 <= i < numbers@.len() ==> in_range(#[trigger] numbers@[i]),
{
    let mut numbers: Vec<u64> = Vec::new();
    let mut i: u8 = 0;
    while i < amount
        invariant
            i <= amount,
            numbers@.len() == i,
            (numbers@, generator_state(*rng)) == draw_numbers(
                generator_state(*old(rng)),
                i as nat,
            ),
            forall|j: int| 0 <= j < numbers@.len() ==> in_range(#[trigger] numbers@[j]),
        decreases amount - i,
    {
        let number = draw_wide(rng, NUM_MIN, NUM_MAX);
        numbers.push(number);
        i += 1;
    }
    numbers
}

/// Draws the exercise of one kind.
pub(crate) fn build(kind: u8, rng: &mut Lcg128Xsl64) -> (task: Task)
    requires
        kind < KINDS,
    ensures
        (task@, generator_state(*final(rng))) == build_task(kind, generator_state(*old(rng))),
        task@.kind() == kind,
        task@.consistent(),
        task@.in_bounds(),
{
    if kind == KIND_GCD {
        let amount = draw_small(rng, 2, 6);
        let numbers = draw_operands(rng, amount);
        Task::gcd_task(numbers)
    } else if kind == KIND_SUM {
        let drawn = draw_operands(rng, 3);
        assert(in_range(drawn@[0]) && in_range(drawn@[1]) && in_range(drawn@[2]));
        let numbers: [u64; 3] = [drawn[0], drawn[1], drawn[2]];
        assert(numbers@ =~= drawn@);
        Task::sum_task(numbers)
    } else if kind == KIND_XK {
        let x = draw_wide(rng, NUM_MIN, NUM_MAX);
        let power = draw_small(rng, 1, 6);
        Task::root_task(x, power)
    } else if kind == KIND_DELETION {
        let n = draw_wide(rng, NUM_MIN, NUM_MAX);
        let target = decimal(n);
        let choice = choose_char(rng, target.as_str());
        let del = match choice {
            Some(c) => c,
            None => '0',
        };
        assert(in_range(n));
        Task::deletion_task(target, del)
    } else {
        let n = draw_wide(rng, NUM_MIN, NUM_MAX);
        let target = decimal(n);
        assert(in_range(n));
        Task::concat_task(target)
    }
}

/// Draws a batch of `count` exercises from a seed, with at most `budget`
/// draws of a kind index.
///
/// The same seed, count and budget give the same batch: it is `batch_within`,
/// a function of the three. No kind occurs twice in it, every operand is in
/// range and every expected answer is the right one. More exercises than
/// there are kinds are refused.
pub fn generate_within(seed: u64, count: u8, budget: u64) -> (r: Result<Vec<Task>, GenerateError>)
    ensures
        is_outcome(seed, count, budget, r),
        r matches Ok(tasks) ==> tasks@.len() == count && forall|i: int|
            0 <= i < tasks@.len() ==> (#[trigger] tasks@[i])@.consistent()
                && tasks@[i]@.in_bounds(),
        r matches Ok(tasks) ==> forall|i: int, j: int|
            0 <= i < j < tasks@.len() ==> tasks@[i]@.kind() != tasks@[j]@.kind(),
{
    if count > KINDS {
        return Err(GenerateError::TooManyKinds);
    }
    let mut rng = seed_generator(seed);
    let kinds = match pick(&mut rng, count, budget) {
        Some(kinds) => kinds,
        None => {
            return Err(GenerateError::Exhausted);
        },
    };
    let ghost start = generator_state(rng);
    let mut tasks: Vec<Task> = Vec::new();
    let mut i: usize = 0;
    while i < kinds.len()
        invariant
            i <= kinds.len(),
            tasks@.len() == i,
            forall|j: int| 0 <= j < kinds@.len() ==> kinds@[j] < KINDS,
            (batch_view(tasks@), generator_state(rng)) == build_batch(kinds@.take(i as int), start),
            forall|j: int|
                0 <= j < i ==> (#[trigger] tasks@[j])@.kind() == kinds@[j]
                    && tasks@[j]@.consistent() && tasks@[j]@.in_bounds(),
        decreases kinds.len() - i,
    {
        let ghost before = batch_view(tasks@);
        let task = build(kinds[i], &mut rng);
        tasks.push(task);
        proof {
            assert(kinds@.take(i + 1).drop_last() =~= kinds@.take(i as int));
            assert(batch_view(tasks@) =~= before.push(task@));
        }
        i += 1;
    }
    proof {
        assert(kinds@.take(i as int) =~= kinds@);
    }
    Ok(tasks)
}

/// Draws a batch of `count` exercises from a seed, with the budget of a run,
/// which no run will ever use up.
pub fn generate(seed: u64, count: u8) -> (r: Result<Vec<Task>, GenerateError>)
    ensures
        is_outcome(seed, count, DRAW_BUDGET, r),
        r matches Ok(tasks) ==> tasks@.len() == count && forall|i: int|
            0 <= i < tasks@.len() ==> (#[trigger] tasks@[i])@.consistent()
                && tasks@[i]@.in_bounds(),
        r matches Ok(tasks) ==> forall|i: int, j: int|
            0 <= i < j < tasks@.len() ==> tasks@[i]@.kind() != tasks@[j]@.kind(),
{
    generate_within(seed, count, DRAW_BUDGET)
}

impl Task {
    /// Draws the batch of a run from its seed.
    pub fn gen_tasks(seed: u64) -> (r: Result<Vec<Task>, GenerateError>)
        ensures
            is_outcome(seed, TASKS_AMOUNT, DRAW_BUDGET, r),
            r matches Ok(tasks) ==> tasks@.len() == TASKS_AMOUNT && forall|i: int|
                0 <= i < tasks@.len() ==> (#[trigger] tasks@[i])@.consistent()
                    && tasks@[i]@.in_bounds(),
            r matches Ok(tasks) ==> forall|i: int, j: int|
                0 <= i < j < tasks@.len() ==> tasks@[i]@.kind() != tasks@[j]@.kind(),
    {
        generate(seed, TASKS_AMOUNT)
    }
}

} // verus!
