//! What carrying out a plan comes to: the commands that are run, in order, for
//! every way in which they may end.

use vstd::prelude::*;
use crate::plan::{stays_inside, Action, ProgressView, Reply, Step};
use crate::ssh::CommandOutput;

verus! {

/// What commands give back: for every command what it prints, and the code with
/// which it ends.
pub type Answers = spec_fn(Seq<char>) -> CommandOutput<Seq<char>>;

/// The code with which a command ends is zero.
pub open spec fn succeeds(answers: Answers, command: Seq<char>) -> bool {
    answers(command).code == 0
}

/// The command that is run next, if one is.
pub open spec fn next_command(p: ProgressView) -> Seq<Seq<char>> {
    match p.action() {
        Action::Run { command, .. } => seq![command],
        _ => Seq::empty(),
    }
}

/// The state after the next action.
pub open spec fn answered(p: ProgressView, answers: Answers) -> ProgressView {
    match p.action() {
        Action::Run { command, .. } => p.advance(Reply::Output(answers(command))),
        _ => p.advance(Reply::Done),
    }
}

/// The state after `n` actions.
pub open spec fn reached(p: ProgressView, answers: Answers, n: nat) -> ProgressView
    decreases n,
{
    if n == 0 {
        p
    } else {
        reached(answered(p, answers), answers, (n - 1) as nat)
    }
}

/// The commands that are run in `n` actions.
pub open spec fn ran(p: ProgressView, answers: Answers, n: nat) -> Seq<Seq<char>>
    decreases n,
{
    if n == 0 {
        Seq::empty()
    } else {
        next_command(p) + ran(answered(p, answers), answers, (n - 1) as nat)
    }
}

/// Whether a plan can be carried out in no more actions than it has steps: no
/// step skips beyond its end, and none waits for a token.
pub open spec fn is_direct(plan: Seq<Step<Seq<char>>>) -> bool {
    &&& stays_inside(plan)
    &&& forall|i: int| 0 <= i < plan.len() ==> !(#[trigger] plan[i] is AwaitToken)
}

/// Whether this plan is about to be carried out from its beginning.
pub open spec fn begins(p: ProgressView, plan: Seq<Step<Seq<char>>>) -> bool {
    p.steps == plan && p.at == 0 && p.failure is None
}

/// The commands that carrying out the rest of a plan runs, in order.
#[verifier::opaque]
pub open spec fn commands(p: ProgressView, answers: Answers) -> Seq<Seq<char>> {
    ran(p, answers, (p.steps.len() - p.at) as nat)
}

/// The state in which carrying out the rest of a plan ends.
#[verifier::opaque]
pub open spec fn end(p: ProgressView, answers: Answers) -> ProgressView {
    reached(p, answers, (p.steps.len() - p.at) as nat)
}

/// Whether carrying out the rest of a plan ends well.
pub open spec fn ends_well(p: ProgressView, answers: Answers) -> bool {
    end(p, answers).failure is None
}

/// Once a plan is over, nothing more happens.
proof fn lemma_over(p: ProgressView, answers: Answers, n: nat)
    requires
        p.over(),
    ensures
        ran(p, answers, n) == Seq::<Seq<char>>::empty(),
        reached(p, answers, n) == p,
    decreases n,
{
    if n > 0 {
        lemma_over(p, answers, (n - 1) as nat);
    }
}

/// An action moves a plan on, or fails it.
proof fn lemma_action_counts(p: ProgressView, answers: Answers)
    requires
        is_direct(p.steps),
        0 <= p.at,
        !p.over(),
    ensures
        answered(p, answers).steps == p.steps,
        answered(p, answers).failure is Some || p.at < answered(p, answers).at <= p.steps.len(),
{
    assert(p.at + 1 + crate::plan::skip_of(p.steps[p.at]) <= p.steps.len());
}

/// More actions than steps change nothing.
proof fn lemma_enough(p: ProgressView, answers: Answers, n: nat)
    requires
        is_direct(p.steps),
        0 <= p.at <= p.steps.len(),
        n >= p.steps.len() - p.at,
    ensures
        ran(p, answers, n) == commands(p, answers),
        reached(p, answers, n) == end(p, answers),
    decreases n,
{
    reveal(commands);
    reveal(end);
    if p.over() {
        lemma_over(p, answers, n);
        lemma_over(p, answers, (p.steps.len() - p.at) as nat);
    } else {
        let q = answered(p, answers);
        lemma_action_counts(p, answers);
        if q.failure is Some {
            lemma_over(q, answers, (n - 1) as nat);
            lemma_over(q, answers, (p.steps.len() - p.at - 1) as nat);
        } else {
            lemma_enough(q, answers, (n - 1) as nat);
            lemma_enough(q, answers, (p.steps.len() - p.at - 1) as nat);
        }
    }
}

/// A plan is carried out action by action.
pub proof fn lemma_next(p: ProgressView, answers: Answers)
    requires
        is_direct(p.steps),
        0 <= p.at,
        !p.over(),
    ensures
        commands(p, answers) == next_command(p) + commands(answered(p, answers), answers),
        end(p, answers) == end(answered(p, answers), answers),
{
    let q = answered(p, answers);
    lemma_action_counts(p, answers);
    reveal(commands);
    reveal(end);
    if q.failure is Some {
        lemma_over(q, answers, (p.steps.len() - p.at - 1) as nat);
        lemma_over(q, answers, (q.steps.len() - q.at) as nat);
    } else {
        lemma_enough(q, answers, (p.steps.len() - p.at - 1) as nat);
    }
}

/// A plan that is over runs no commands.
pub proof fn lemma_no_more(p: ProgressView, answers: Answers)
    requires
        p.over(),
    ensures
        commands(p, answers) == Seq::<Seq<char>>::empty(),
        end(p, answers) == p,
{
    reveal(commands);
    reveal(end);
    lemma_over(p, answers, (p.steps.len() - p.at) as nat);
}

/// The same state at another place of the plan.
pub open spec fn at(p: ProgressView, k: int) -> ProgressView {
    ProgressView { at: k, ..p }
}

/// Whether the step at `k` is to be carried out next.
pub open spec fn stands_at(p: ProgressView, k: int) -> bool {
    is_direct(p.steps) && 0 <= k < p.steps.len() && p.failure is None
}

/// Printing runs no command.
pub proof fn lemma_quiet(p: ProgressView, k: int, answers: Answers)
    requires
        stands_at(p, k),
        match p.steps[k] {
            Step::Say(_) => true,
            Step::Announce(_) => true,
            Step::Sleep(_) => true,
            Step::Report { .. } => true,
            _ => false,
        },
    ensures
        commands(at(p, k), answers) == commands(at(p, k + 1), answers),
        end(at(p, k), answers) == end(at(p, k + 1), answers),
{
    lemma_next(at(p, k), answers);
    assert(answered(at(p, k), answers) == at(p, k + 1));
    let rest = commands(at(p, k + 1), answers);
    assert(Seq::<Seq<char>>::empty() + rest =~= rest);
}

/// A jump runs no command.
pub proof fn lemma_jump(p: ProgressView, k: int, answers: Answers)
    requires
        stands_at(p, k),
        p.steps[k] is Jump,
    ensures
        ({
            let to = k + 1 + p.steps[k]->Jump_0;
            &&& commands(at(p, k), answers) == commands(at(p, to), answers)
            &&& end(at(p, k), answers) == end(at(p, to), answers)
        }),
{
    let to = k + 1 + p.steps[k]->Jump_0;
    lemma_next(at(p, k), answers);
    assert(answered(at(p, k), answers) == at(p, to));
    let rest = commands(at(p, to), answers);
    assert(Seq::<Seq<char>>::empty() + rest =~= rest);
}

/// A command that must succeed is run, and the plan goes on if it does.
pub proof fn lemma_must(p: ProgressView, k: int, command: Seq<char>, answers: Answers)
    requires
        stands_at(p, k),
        match p.steps[k] {
            Step::Exec(c) => c == command,
            Step::Upload { content, remote } => crate::ssh::upload_text(content, remote) == command,
            Step::Check { command: c, .. } => c == command,
            Step::Fetch { command: c, .. } => c == command,
            _ => false,
        },
    ensures
        succeeds(answers, command) ==> {
            &&& commands(at(p, k), answers) == seq![command] + commands(at(p, k + 1), answers)
            &&& end(at(p, k), answers) == end(at(p, k + 1), answers)
        },
        !succeeds(answers, command) ==> {
            &&& commands(at(p, k), answers) == seq![command]
            &&& end(at(p, k), answers).failure is Some
        },
{
    lemma_next(at(p, k), answers);
    let q = answered(at(p, k), answers);
    if succeeds(answers, command) {
        assert(q == at(p, k + 1));
    } else {
        assert(q.failure is Some);
        lemma_no_more(q, answers);
        assert(seq![command] + Seq::<Seq<char>>::empty() =~= seq![command]);
    }
}

/// A command that may fail is run, and the plan goes on in any case.
pub proof fn lemma_may(p: ProgressView, k: int, command: Seq<char>, answers: Answers)
    requires
        stands_at(p, k),
        p.steps[k] == Step::Attempt(command),
    ensures
        commands(at(p, k), answers) == seq![command] + commands(at(p, k + 1), answers),
        end(at(p, k), answers) == end(at(p, k + 1), answers),
{
    lemma_next(at(p, k), answers);
    assert(answered(at(p, k), answers) == at(p, k + 1));
}

/// A probe is run, and its answer decides whether the steps behind it are.
pub proof fn lemma_probe(p: ProgressView, k: int, command: Seq<char>, answers: Answers)
    requires
        stands_at(p, k),
        p.steps[k] is Probe,
        p.steps[k]->Probe_command == command,
    ensures
        ({
            let step = p.steps[k];
            let to = if succeeds(answers, command) == step->wanted {
                k + 1
            } else {
                k + 1 + step->Probe_skip
            };
            &&& commands(at(p, k), answers) == seq![command] + commands(at(p, to), answers)
            &&& end(at(p, k), answers) == end(at(p, to), answers)
        }),
{
    let step = p.steps[k];
    let to = if succeeds(answers, command) == step->wanted {
        k + 1
    } else {
        k + 1 + step->Probe_skip
    };
    lemma_next(at(p, k), answers);
    assert(answered(at(p, k), answers) == at(p, to));
}

/// The same state in another plan, at this place.
pub open spec fn within(p: ProgressView, plan: Seq<Step<Seq<char>>>, k: int) -> ProgressView {
    ProgressView { steps: plan, at: k, ..p }
}

/// Two direct plans are direct one after the other.
pub proof fn lemma_direct_both(a: Seq<Step<Seq<char>>>, b: Seq<Step<Seq<char>>>)
    requires
        is_direct(a),
        is_direct(b),
    ensures
        is_direct(a + b),
{
    assert forall|i: int| 0 <= i < (a + b).len() implies i + 1 + crate::plan::skip_of(
        #[trigger] (a + b)[i],
    ) <= (a + b).len() && !((a + b)[i] is AwaitToken) by {
        if i < a.len() {
            assert((a + b)[i] == a[i]);
        } else {
            assert((a + b)[i] == b[i - a.len()]);
        }
    }
}

/// What happens in the first of two plans that follow one another.
proof fn lemma_front(
    p: ProgressView,
    a: Seq<Step<Seq<char>>>,
    b: Seq<Step<Seq<char>>>,
    answers: Answers,
)
    requires
        is_direct(a),
        is_direct(b),
        p.steps == a,
        0 <= p.at <= a.len(),
        p.failure is None,
    ensures
        ({
            let whole = within(p, a + b, p.at);
            let last = end(p, answers);
            let rest = within(last, a + b, a.len() as int);
            &&& ends_well(p, answers) ==> {
                &&& commands(whole, answers) == commands(p, answers) + commands(rest, answers)
                &&& end(whole, answers) == end(rest, answers)
            }
            &&& !ends_well(p, answers) ==> {
                &&& commands(whole, answers) == commands(p, answers)
                &&& !ends_well(whole, answers)
            }
        }),
    decreases a.len() - p.at,
{
    let whole = within(p, a + b, p.at);
    lemma_direct_both(a, b);
    if p.at == a.len() {
        lemma_no_more(p, answers);
        let rest = commands(whole, answers);
        assert(Seq::<Seq<char>>::empty() + rest =~= rest);
    } else {
        assert((a + b)[p.at] == a[p.at]);
        let q = answered(p, answers);
        let next = answered(whole, answers);
        assert(next == within(q, a + b, q.at));
        assert(next_command(whole) == next_command(p));
        lemma_next(p, answers);
        lemma_next(whole, answers);
        lemma_action_counts(p, answers);
        if q.failure is Some {
            lemma_no_more(q, answers);
            lemma_no_more(next, answers);
        } else {
            lemma_front(q, a, b, answers);
            let first = next_command(p);
            let rest = commands(within(end(q, answers), a + b, a.len() as int), answers);
            assert(first + (commands(q, answers) + rest) =~= (first + commands(q, answers)) + rest);
        }
    }
}

/// What happens in the second of two plans that follow one another.
proof fn lemma_back(
    p: ProgressView,
    a: Seq<Step<Seq<char>>>,
    b: Seq<Step<Seq<char>>>,
    answers: Answers,
)
    requires
        is_direct(a),
        is_direct(b),
        p.steps == b,
        0 <= p.at <= b.len(),
        p.failure is None,
    ensures
        ({
            let whole = within(p, a + b, a.len() + p.at);
            let last = end(p, answers);
            &&& commands(whole, answers) == commands(p, answers)
            &&& end(whole, answers) == within(last, a + b, a.len() + last.at)
        }),
    decreases b.len() - p.at,
{
    let whole = within(p, a + b, a.len() + p.at);
    lemma_direct_both(a, b);
    if p.at == b.len() {
        lemma_no_more(p, answers);
        lemma_no_more(whole, answers);
    } else {
        assert((a + b)[a.len() + p.at] == b[p.at]);
        let q = answered(p, answers);
        let next = answered(whole, answers);
        assert(next == within(q, a + b, a.len() + q.at));
        assert(next_command(whole) == next_command(p));
        lemma_next(p, answers);
        lemma_next(whole, answers);
        lemma_action_counts(p, answers);
        if q.failure is Some {
            lemma_no_more(q, answers);
            lemma_no_more(next, answers);
        } else {
            lemma_back(q, a, b, answers);
        }
    }
}

/// Plans that follow one another are carried out one after the other: the second
/// begins in the state in which the first has ended, and only if that ended well.
pub proof fn lemma_both(
    p: ProgressView,
    a: Seq<Step<Seq<char>>>,
    b: Seq<Step<Seq<char>>>,
    answers: Answers,
)
    requires
        is_direct(a),
        is_direct(b),
        begins(p, a + b),
    ensures
        ({
            let first = within(p, a, 0);
            let second = within(end(first, answers), b, 0);
            &&& ends_well(first, answers) ==> {
                &&& commands(p, answers) == commands(first, answers) + commands(second, answers)
                &&& ends_well(p, answers) == ends_well(second, answers)
                &&& end(p, answers).unhealthy == end(second, answers).unhealthy
                &&& end(p, answers).node == end(second, answers).node
            }
            &&& !ends_well(first, answers) ==> {
                &&& commands(p, answers) == commands(first, answers)
                &&& !ends_well(p, answers)
            }
        }),
{
    let first = within(p, a, 0);
    lemma_front(first, a, b, answers);
    assert(within(first, a + b, 0) == p);
    if ends_well(first, answers) {
        let second = within(end(first, answers), b, 0);
        lemma_back(second, a, b, answers);
        assert(within(second, a + b, a.len() as int) == within(
            end(first, answers),
            a + b,
            a.len() as int,
        ));
    }
}

/// The commands of a list from the `i`th on, up to and with the first that fails.
pub open spec fn as_far(list: Seq<Seq<char>>, answers: Answers, i: int) -> Seq<Seq<char>>
    decreases list.len() - i,
{
    if i >= list.len() {
        Seq::empty()
    } else if !succeeds(answers, list[i]) {
        seq![list[i]]
    } else {
        seq![list[i]] + as_far(list, answers, i + 1)
    }
}

/// Whether all commands of a list succeed.
pub open spec fn all_succeed(list: Seq<Seq<char>>, answers: Answers) -> bool {
    forall|i: int| 0 <= i < list.len() ==> succeeds(answers, #[trigger] list[i])
}

/// Whether carrying out the rest of a plan runs this list of commands, each only
/// if the one before it succeeded, and ends well exactly if all do, with nothing
/// new on the watched commands.
pub open spec fn runs(p: ProgressView, answers: Answers, list: Seq<Seq<char>>) -> bool {
    &&& commands(p, answers) == as_far(list, answers, 0)
    &&& ends_well(p, answers) == all_succeed(list, answers)
    &&& ends_well(p, answers) ==> end(p, answers).unhealthy == p.unhealthy
}

/// Whether carrying out a plan runs exactly these commands and ends well, wherever
/// it begins, as long as no watched command has failed before.
pub open spec fn does(
    plan: Seq<Step<Seq<char>>>,
    answers: Answers,
    list: Seq<Seq<char>>,
) -> bool {
    &&& is_direct(plan)
    &&& forall|p: ProgressView|
        #[trigger] begins(p, plan) && !p.unhealthy ==> {
            &&& commands(p, answers) == list
            &&& ends_well(p, answers)
            &&& !end(p, answers).unhealthy
        }
}

/// A plan without steps runs nothing.
pub proof fn lemma_does_nothing(answers: Answers)
    ensures
        does(Seq::empty(), answers, Seq::empty()),
{
    assert forall|p: ProgressView|
        #[trigger] begins(p, Seq::empty()) && !p.unhealthy implies {
        &&& commands(p, answers) == Seq::<Seq<char>>::empty()
        &&& ends_well(p, answers)
        &&& !end(p, answers).unhealthy
    } by {
        lemma_no_more(p, answers);
    }
}

/// Plans that follow one another run the commands of the one and then those of the
/// other.
pub proof fn lemma_does_both(
    a: Seq<Step<Seq<char>>>,
    b: Seq<Step<Seq<char>>>,
    answers: Answers,
    first: Seq<Seq<char>>,
    second: Seq<Seq<char>>,
)
    requires
        does(a, answers, first),
        does(b, answers, second),
    ensures
        does(a + b, answers, first + second),
{
    lemma_direct_both(a, b);
    assert forall|p: ProgressView| #[trigger] begins(p, a + b) && !p.unhealthy implies {
        &&& commands(p, answers) == first + second
        &&& ends_well(p, answers)
        &&& !end(p, answers).unhealthy
    } by {
        lemma_both(p, a, b, answers);
        let one = within(p, a, 0);
        assert(begins(one, a));
        let two = within(end(one, answers), b, 0);
        assert(begins(two, b));
    }
}

} // verus!
