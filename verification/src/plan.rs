//! Plans: lists of steps that are carried out one after another on the nodes of
//! a cluster.
//!
//! A [`Progress`] holds a plan and the place in it that has been reached. Its
//! [`Progress::action`] says what is to be done next. What came of it is handed
//! to [`Progress::advance`], which moves on, or fails.

use vstd::prelude::*;
use crate::process::{streams, streams_text};
use crate::ssh::{error_text, judged, settle, upload_command, upload_text, CommandOutput, Judge};
use crate::text::{
    chars_of, contains, find_from, lemma_contains_part, second_piece, starts_with, text_in, texts,
    trim, trim_range, trimmed,
};

verus! {

/// A step of a plan. Commands run on the node that was last connected to.
#[derive(Debug)]
pub enum Step<S> {
    /// Print a line.
    Say(S),
    /// Print a line that marks the end of the work.
    Announce(S),
    /// Wait for this many seconds.
    Sleep(u64),
    /// Try out the node with this number, and go on with it.
    Connect { node: usize, user: S, host: S },
    /// Run a command that must succeed.
    Exec(S),
    /// Run a command that may fail, or not start at all.
    Attempt(S),
    /// Write a file.
    Upload { content: S, remote: S },
    /// Run a command, and skip the steps that follow unless its success is as
    /// wanted.
    Probe { command: S, wanted: bool, skip: usize },
    /// Skip the steps that follow.
    Jump(usize),
    /// Run a command and keep what it prints.
    Capture(S),
    /// Print what was kept in this place.
    Report { heading: S, slot: usize },
    /// Run a command and remember if it fails.
    Watch(S),
    /// Skip the steps that follow unless a watched command failed.
    SkipIfHealthy(usize),
    /// Run a command; if it fails, fail with this text and, behind it, what the
    /// command printed.
    Check { command: S, message: S },
    /// Run a command; if it fails, fail with this text and what it printed.
    Fetch { command: S, message: S },
    /// Run a command again and again until it prints a token.
    AwaitToken(S),
    /// Fail with this text and what the watched commands that failed printed.
    Abort(S),
}

impl View for Step<String> {
    type V = Step<Seq<char>>;

    open spec fn view(&self) -> Step<Seq<char>> {
        match self {
            Step::Say(s) => Step::Say(s@),
            Step::Announce(s) => Step::Announce(s@),
            Step::Sleep(n) => Step::Sleep(*n),
            Step::Connect { node, user, host } => Step::Connect {
                node: *node,
                user: user@,
                host: host@,
            },
            Step::Exec(s) => Step::Exec(s@),
            Step::Attempt(s) => Step::Attempt(s@),
            Step::Upload { content, remote } => Step::Upload { content: content@, remote: remote@ },
            Step::Probe { command, wanted, skip } => Step::Probe {
                command: command@,
                wanted: *wanted,
                skip: *skip,
            },
            Step::Jump(n) => Step::Jump(*n),
            Step::Capture(s) => Step::Capture(s@),
            Step::Report { heading, slot } => Step::Report { heading: heading@, slot: *slot },
            Step::Watch(s) => Step::Watch(s@),
            Step::SkipIfHealthy(n) => Step::SkipIfHealthy(*n),
            Step::Check { command, message } => Step::Check {
                command: command@,
                message: message@,
            },
            Step::Fetch { command, message } => Step::Fetch {
                command: command@,
                message: message@,
            },
            Step::AwaitToken(s) => Step::AwaitToken(s@),
            Step::Abort(s) => Step::Abort(s@),
        }
    }
}

/// A plan, seen as what its steps say.
pub open spec fn plan_of(steps: Seq<Step<String>>) -> Seq<Step<Seq<char>>> {
    steps.map_values(|s: Step<String>| s@)
}

/// The step that prints `s`.
pub fn say(s: &str) -> (r: Step<String>)
    ensures
        r@ == Step::<Seq<char>>::Say(s@),
{
    Step::Say(s.to_string())
}

/// Adds the steps in `more` to the end of a plan.
pub fn extend(p: &mut Vec<Step<String>>, more: Vec<Step<String>>)
    ensures
        plan_of(final(p)@) == plan_of(old(p)@) + plan_of(more@),
{
    let ghost added = more@;
    let mut more = more;
    p.append(&mut more);
    assert(plan_of(p@) =~= plan_of(old(p)@) + plan_of(added));
}

/// Adds a step to the end of a plan.
pub fn append_step(p: &mut Vec<Step<String>>, step: Step<String>)
    ensures
        plan_of(final(p)@) == plan_of(old(p)@) + seq![step@],
{
    p.push(step);
    assert(plan_of(p@) =~= plan_of(old(p)@) + seq![step@]);
}

/// A plan that begins by printing `s`.
pub fn start_with(s: &str) -> (r: Vec<Step<String>>)
    ensures
        plan_of(r@) == seq![Step::<Seq<char>>::Say(s@)],
{
    let mut p: Vec<Step<String>> = Vec::new();
    p.push(say(s));
    assert(plan_of(p@) =~= seq![Step::<Seq<char>>::Say(s@)]);
    p
}

/// What is to be done next.
#[derive(Debug)]
pub enum Action<S> {
    /// Print a line.
    Say(S),
    /// Print a line that marks the end of the work.
    Announce(S),
    /// Wait for this many seconds.
    Sleep(u64),
    /// Run a command on the node with this number.
    Run { node: usize, command: S },
    /// Nothing, but go on.
    Pass,
    /// Nothing: the plan has been carried out.
    Finished,
    /// Nothing: the plan has failed.
    Failed(S),
}

impl View for Action<String> {
    type V = Action<Seq<char>>;

    open spec fn view(&self) -> Action<Seq<char>> {
        match self {
            Action::Say(s) => Action::Say(s@),
            Action::Announce(s) => Action::Announce(s@),
            Action::Sleep(n) => Action::Sleep(*n),
            Action::Run { node, command } => Action::Run { node: *node, command: command@ },
            Action::Pass => Action::Pass,
            Action::Finished => Action::Finished,
            Action::Failed(s) => Action::Failed(s@),
        }
    }
}

/// What came of an action.
#[derive(Debug)]
pub enum Reply<S> {
    /// It was done. This answers every action but a command.
    Done,
    /// The command ended.
    Output(CommandOutput<S>),
    /// The command could not be started.
    NotStarted(S),
}

impl View for Reply<String> {
    type V = Reply<Seq<char>>;

    open spec fn view(&self) -> Reply<Seq<char>> {
        match self {
            Reply::Done => Reply::Done,
            Reply::Output(o) => Reply::Output(o@),
            Reply::NotStarted(s) => Reply::NotStarted(s@),
        }
    }
}

/// What stands in a token file between its first part and the token.
pub const TOKEN_MARK: &'static str = "::server:";

/// How often a token is asked for.
pub const TOKEN_ATTEMPTS: u32 = 30;

/// How many seconds pass before a token is asked for.
pub const TOKEN_PAUSE: u64 = 2;

/// The token in what a token file holds, if it holds anything: what follows the
/// mark, or all of it where there is no mark.
pub open spec fn token_in(stdout: Seq<char>) -> Option<Seq<char>> {
    let all = trimmed(stdout);
    if all.len() == 0 {
        None
    } else {
        match second_piece(all, TOKEN_MARK@) {
            Some(value) => Some(trimmed(value)),
            None => Some(all),
        }
    }
}

/// The token in what a token file holds.
pub fn extract_token(stdout: &str) -> (r: Option<String>)
    ensures
        match r {
            Some(t) => token_in(stdout@) == Some(t@),
            None => token_in(stdout@) is None,
        },
{
    let all = trim(stdout);
    if all.as_str().is_empty() {
        return None;
    }
    let v = chars_of(all.as_str());
    let mark = chars_of(TOKEN_MARK);
    proof {
        crate::text::lemma_find(v@, mark@, 0);
    }
    match find_from(&v, &mark, 0) {
        None => Some(all),
        Some(i) => {
            assert(i + mark@.len() <= v@.len() == v.len());
            let start: usize = i + mark.len();
            proof {
                crate::text::lemma_find(v@, mark@, start as int);
            }
            let end: usize = match find_from(&v, &mark, start) {
                None => v.len(),
                Some(j) => j,
            };
            assert(v@.skip(start as int) == v@.subrange(start as int, v@.len() as int));
            Some(trim_range(&v, start, end))
        },
    }
}

/// Where in the asking for a token the work stands.
#[derive(Debug, Clone, Copy, PartialEq, Eq, Structural)]
pub enum Polling {
    /// Before the pause.
    Pause,
    /// After the pause.
    Ask,
    /// After the first answer without a token.
    Notice,
}

/// A plan and the place in it that has been reached.
#[derive(Debug)]
pub struct Progress {
    steps: Vec<Step<String>>,
    at: usize,
    node: usize,
    unhealthy: bool,
    trouble: String,
    captured: Vec<String>,
    attempt: u32,
    polling: Polling,
    token: Option<String>,
    failure: Option<String>,
}

/// What a [`Progress`] holds.
pub struct ProgressView {
    /// The plan.
    pub steps: Seq<Step<Seq<char>>>,
    /// The number of the step that comes next.
    pub at: int,
    /// The number of the node that commands run on.
    pub node: usize,
    /// Whether a watched command failed.
    pub unhealthy: bool,
    /// What the watched commands that failed have printed.
    pub trouble: Seq<char>,
    /// What was kept.
    pub captured: Seq<Seq<char>>,
    /// How often a token was asked for in vain.
    pub attempt: u32,
    /// Where in the asking the work stands.
    pub polling: Polling,
    /// The token, once there is one.
    pub token: Option<Seq<char>>,
    /// Why the plan failed, if it did.
    pub failure: Option<Seq<char>>,
}

impl View for Progress {
    type V = ProgressView;

    closed spec fn view(&self) -> ProgressView {
        ProgressView {
            steps: plan_of(self.steps@),
            at: self.at as int,
            node: self.node,
            unhealthy: self.unhealthy,
            trouble: self.trouble@,
            captured: texts(self.captured@),
            attempt: self.attempt,
            polling: self.polling,
            token: text_in(self.token),
            failure: text_in(self.failure),
        }
    }
}

/// How many steps a step may skip.
pub open spec fn skip_of(step: Step<Seq<char>>) -> nat {
    match step {
        Step::Probe { skip, .. } => skip as nat,
        Step::Jump(n) => n as nat,
        Step::SkipIfHealthy(n) => n as nat,
        _ => 0,
    }
}

/// Whether no step skips beyond the end of the plan.
pub open spec fn stays_inside(plan: Seq<Step<Seq<char>>>) -> bool {
    forall|i: int| 0 <= i < plan.len() ==> i + 1 + skip_of(#[trigger] plan[i]) <= plan.len()
}

/// Whether no step skips a connection.
pub open spec fn skips_no_connection(plan: Seq<Step<Seq<char>>>) -> bool {
    forall|i: int, j: int|
        #![trigger plan[i], plan[j]]
        0 <= i < j < plan.len() && j <= i + skip_of(plan[i]) ==> !(plan[j] is Connect)
}

/// Whether the step at `i` skips the one at `j` as long as no watched command has
/// failed.
pub open spec fn shields(plan: Seq<Step<Seq<char>>>, i: int, j: int) -> bool {
    plan[i] is SkipIfHealthy && i < j <= i + skip_of(plan[i])
}

/// Whether a plan is given up only where a watched command has failed: each step
/// that gives up is skipped otherwise, and no skip leads between the two.
pub open spec fn shields_aborts(plan: Seq<Step<Seq<char>>>) -> bool {
    &&& forall|j: int|
        0 <= j < plan.len() && #[trigger] plan[j] is Abort ==> exists|i: int|
            0 <= i < j && #[trigger] shields(plan, i, j)
    &&& forall|k: int, i: int|
        #![trigger plan[k], plan[i]]
        0 <= k < i < plan.len() && plan[i] is SkipIfHealthy ==> k + 1 + skip_of(plan[k]) <= i
}

/// The line that is printed when there is no token yet.
pub const TOKEN_NOTICE: &'static str = "    waiting for RKE2 to generate node-token...";

/// Why the work fails when there is no token in the end.
pub const TOKEN_TIMEOUT: &'static str = "Timed out waiting for RKE2 node-token on first server";

/// What is added to the reason when a token cannot be asked for.
pub const TOKEN_CONTEXT: &'static str = "Failed to read node-token: ";

impl ProgressView {
    /// The state in which a plan begins.
    pub open spec fn start(steps: Seq<Step<Seq<char>>>) -> ProgressView {
        ProgressView {
            steps,
            at: 0,
            node: 0,
            unhealthy: false,
            trouble: Seq::empty(),
            captured: Seq::empty(),
            attempt: 0,
            polling: Polling::Pause,
            token: None,
            failure: None,
        }
    }

    /// Whether the state is one that a plan can reach.
    pub open spec fn valid(self) -> bool {
        &&& stays_inside(self.steps)
        &&& 0 <= self.at <= self.steps.len()
        &&& self.attempt < TOKEN_ATTEMPTS
        &&& self.over() || self.steps[self.at] is AwaitToken || (self.attempt == 0 && self.polling
            == Polling::Pause)
    }

    /// Whether there is nothing left to do.
    pub open spec fn over(self) -> bool {
        self.failure is Some || self.at >= self.steps.len()
    }

    /// What is to be done next.
    pub open spec fn action(self) -> Action<Seq<char>> {
        if self.failure is Some {
            Action::Failed(self.failure->0)
        } else if self.at >= self.steps.len() {
            Action::Finished
        } else {
            match self.steps[self.at] {
                Step::Say(s) => Action::Say(s),
                Step::Announce(s) => Action::Announce(s),
                Step::Sleep(n) => Action::Sleep(n),
                Step::Connect { node, .. } => Action::Run {
                    node,
                    command: crate::ssh::CONNECT_COMMAND@,
                },
                Step::Exec(command) => Action::Run { node: self.node, command },
                Step::Attempt(command) => Action::Run { node: self.node, command },
                Step::Upload { content, remote } => Action::Run {
                    node: self.node,
                    command: upload_text(content, remote),
                },
                Step::Probe { command, .. } => Action::Run { node: self.node, command },
                Step::Jump(_) => Action::Pass,
                Step::Capture(command) => Action::Run { node: self.node, command },
                Step::Report { heading, slot } => Action::Say(
                    heading + if slot < self.captured.len() {
                        self.captured[slot as int]
                    } else {
                        Seq::empty()
                    },
                ),
                Step::Watch(command) => Action::Run { node: self.node, command },
                Step::SkipIfHealthy(_) => Action::Pass,
                Step::Check { command, .. } => Action::Run { node: self.node, command },
                Step::Fetch { command, .. } => Action::Run { node: self.node, command },
                Step::AwaitToken(command) => match self.polling {
                    Polling::Pause => Action::Sleep(TOKEN_PAUSE),
                    Polling::Ask => Action::Run { node: self.node, command },
                    Polling::Notice => Action::Say(TOKEN_NOTICE@),
                },
                Step::Abort(_) => Action::Pass,
            }
        }
    }

    /// The state after this step and `n` more.
    pub open spec fn past(self, n: int) -> ProgressView {
        ProgressView { at: self.at + 1 + n, ..self }
    }

    /// The state after a failure.
    pub open spec fn failed(self, message: Seq<char>) -> ProgressView {
        ProgressView { failure: Some(message), ..self }
    }

    /// The state after a command whose outcome is judged.
    pub open spec fn past_if(
        self,
        judge: Judge<Seq<char>>,
        output: CommandOutput<Seq<char>>,
    ) -> ProgressView {
        match judged(judge, output) {
            Ok(_) => self.past(0),
            Err(e) => self.failed(error_text(e)),
        }
    }

    /// The state after an answer without a token.
    pub open spec fn without_token(self) -> ProgressView {
        if self.attempt + 1 == TOKEN_ATTEMPTS {
            self.failed(TOKEN_TIMEOUT@)
        } else {
            ProgressView {
                attempt: (self.attempt + 1) as u32,
                polling: if self.attempt == 0 {
                    Polling::Notice
                } else {
                    Polling::Pause
                },
                ..self
            }
        }
    }

    /// The state after the command of this step has ended.
    pub open spec fn after_output(self, output: CommandOutput<Seq<char>>) -> ProgressView {
        match self.steps[self.at] {
            Step::Connect { node, user, host } => {
                let fresh = ProgressView {
                    node,
                    unhealthy: false,
                    trouble: Seq::empty(),
                    captured: Seq::empty(),
                    ..self.past(0)
                };
                match judged(Judge::Connected { user, host }, output) {
                    Ok(_) => fresh,
                    Err(e) => self.failed(error_text(e)),
                }
            },
            Step::Exec(_) => self.past_if(Judge::Success, output),
            Step::Attempt(_) => self.past(0),
            Step::Upload { remote, .. } => self.past_if(Judge::Uploaded { remote }, output),
            Step::Probe { wanted, skip, .. } => if (output.code == 0) == wanted {
                self.past(0)
            } else {
                self.past(skip as int)
            },
            Step::Capture(_) => ProgressView {
                captured: self.captured.push(output.stdout),
                ..self.past(0)
            },
            Step::Watch(_) => ProgressView {
                unhealthy: self.unhealthy || output.code != 0,
                trouble: if output.code == 0 {
                    self.trouble
                } else {
                    self.trouble + streams_text(output.stdout, output.stderr)
                },
                ..self.past(0)
            },
            Step::Check { message, .. } => if output.code == 0 {
                self.past(0)
            } else {
                self.failed(message + streams_text(output.stdout, output.stderr))
            },
            Step::Fetch { message, .. } => if output.code == 0 {
                self.past(0)
            } else {
                self.failed(message + output.stdout + " / "@ + output.stderr)
            },
            Step::AwaitToken(_) => if output.code != 0 {
                self.without_token()
            } else {
                match token_in(output.stdout) {
                    None => self.without_token(),
                    Some(t) => ProgressView {
                        token: Some(t),
                        attempt: 0,
                        polling: Polling::Pause,
                        ..self.past(0)
                    },
                }
            },
            _ => self,
        }
    }

    /// The state after an action that is no command.
    pub open spec fn after_done(self) -> ProgressView {
        match self.steps[self.at] {
            Step::Jump(n) => self.past(n as int),
            Step::SkipIfHealthy(n) => if self.unhealthy {
                self.past(0)
            } else {
                self.past(n as int)
            },
            Step::Abort(message) => self.failed(message + self.trouble),
            Step::AwaitToken(_) => ProgressView {
                polling: if self.polling == Polling::Pause {
                    Polling::Ask
                } else {
                    Polling::Pause
                },
                ..self
            },
            _ => self.past(0),
        }
    }

    /// The state after a reply. A reply that does not fit the action changes
    /// nothing.
    pub open spec fn advance(self, reply: Reply<Seq<char>>) -> ProgressView {
        if self.over() {
            self
        } else if self.action() is Run {
            match reply {
                Reply::Done => self,
                Reply::Output(output) => self.after_output(output),
                Reply::NotStarted(reason) => match self.steps[self.at] {
                    Step::Attempt(_) => self.past(0),
                    Step::AwaitToken(_) => self.failed(TOKEN_CONTEXT@ + reason),
                    _ => self.failed(reason),
                },
            }
        } else {
            match reply {
                Reply::Done => self.after_done(),
                _ => self,
            }
        }
    }

    /// Whether a reply fits the action.
    pub open spec fn fits(self, reply: Reply<Seq<char>>) -> bool {
        (self.action() is Run) == !(reply is Done)
    }
}

impl Progress {
    /// The beginning of a plan.
    pub fn new(steps: Vec<Step<String>>) -> (r: Progress)
        requires
            stays_inside(plan_of(steps@)),
        ensures
            r@ == ProgressView::start(plan_of(steps@)),
            r@.valid(),
    {
        let captured: Vec<String> = Vec::new();
        assert(texts(captured@) == Seq::<Seq<char>>::empty());
        assert(steps.len() == steps@.len());
        Progress {
            steps,
            at: 0,
            node: 0,
            unhealthy: false,
            trouble: String::new(),
            captured,
            attempt: 0,
            polling: Polling::Pause,
            token: None,
            failure: None,
        }
    }

    /// What is to be done next.
    pub fn action(&self) -> (r: Action<String>)
        ensures
            r@ == self@.action(),
    {
        match &self.failure {
            Some(message) => {
                return Action::Failed(message.clone());
            },
            None => {},
        }
        if self.at >= self.steps.len() {
            return Action::Finished;
        }
        assert(self@.steps[self.at as int] == self.steps@[self.at as int]@);
        match &self.steps[self.at] {
            Step::Say(s) => Action::Say(s.clone()),
            Step::Announce(s) => Action::Announce(s.clone()),
            Step::Sleep(n) => Action::Sleep(*n),
            Step::Connect { node, .. } => Action::Run {
                node: *node,
                command: crate::ssh::CONNECT_COMMAND.to_string(),
            },
            Step::Exec(s) => self.run(s),
            Step::Attempt(s) => self.run(s),
            Step::Upload { content, remote } => Action::Run {
                node: self.node,
                command: upload_command(content.as_str(), remote.as_str()),
            },
            Step::Probe { command, .. } => self.run(command),
            Step::Jump(_) => Action::Pass,
            Step::Capture(s) => self.run(s),
            Step::Report { heading, slot } => {
                let mut line = heading.clone();
                if *slot < self.captured.len() {
                    assert(self@.captured[*slot as int] == self.captured@[*slot as int]@);
                    line.append(self.captured[*slot].as_str());
                } else {
                    assert(heading@ + Seq::<char>::empty() == heading@);
                }
                Action::Say(line)
            },
            Step::Watch(s) => self.run(s),
            Step::SkipIfHealthy(_) => Action::Pass,
            Step::Check { command, .. } => self.run(command),
            Step::Fetch { command, .. } => self.run(command),
            Step::AwaitToken(s) => match self.polling {
                Polling::Pause => Action::Sleep(TOKEN_PAUSE),
                Polling::Ask => self.run(s),
                Polling::Notice => Action::Say(TOKEN_NOTICE.to_string()),
            },
            Step::Abort(_) => Action::Pass,
        }
    }

    fn run(&self, command: &String) -> (r: Action<String>)
        ensures
            r@ == (Action::Run { node: self.node, command: command@ }),
    {
        Action::Run { node: self.node, command: command.clone() }
    }

    /// The token, once there is one.
    pub fn token(&self) -> (r: Option<String>)
        ensures
            text_in(r) == self@.token,
    {
        match &self.token {
            Some(t) => Some(t.clone()),
            None => None,
        }
    }

    /// Takes in what came of the action.
    pub fn advance(&mut self, reply: Reply<String>)
        requires
            old(self)@.valid(),
        ensures
            final(self)@ == old(self)@.advance(reply@),
            final(self)@.valid(),
    {
        let is_run = match self.action() {
            Action::Finished | Action::Failed(_) => {
                return;
            },
            Action::Run { .. } => true,
            _ => false,
        };
        assert(self@.steps[self.at as int] == self.steps@[self.at as int]@);
        assert(self.at < self.steps.len());
        match reply {
            Reply::Done => {
                if !is_run {
                    self.take_done();
                }
            },
            Reply::Output(output) => {
                if is_run {
                    self.take_output(output);
                }
            },
            Reply::NotStarted(reason) => {
                if is_run {
                    match &self.steps[self.at] {
                        Step::Attempt(_) => {
                            self.at = self.at + 1;
                        },
                        Step::AwaitToken(_) => {
                            let mut message = TOKEN_CONTEXT.to_string();
                            message.append(reason.as_str());
                            self.failure = Some(message);
                        },
                        _ => {
                            self.failure = Some(reason);
                        },
                    }
                }
            },
        }
    }

    fn take_done(&mut self)
        requires
            old(self)@.valid(),
            !old(self)@.over(),
            !(old(self)@.action() is Run),
        ensures
            final(self)@ == old(self)@.after_done(),
            final(self)@.valid(),
    {
        assert(self@.steps[self.at as int] == self.steps@[self.at as int]@);
        assert(self.at < self.steps.len());
        match &self.steps[self.at] {
            Step::Jump(n) => {
                self.at = self.at + 1 + *n;
            },
            Step::SkipIfHealthy(n) => {
                self.at = self.at + 1 + if self.unhealthy {
                    0
                } else {
                    *n
                };
            },
            Step::Abort(message) => {
                let mut text = message.clone();
                text.append(self.trouble.as_str());
                self.failure = Some(text);
            },
            Step::AwaitToken(_) => {
                self.polling =
                match self.polling {
                    Polling::Pause => Polling::Ask,
                    _ => Polling::Pause,
                };
            },
            _ => {
                self.at = self.at + 1;
            },
        }
    }

    fn settle_step(&mut self, judge: Judge<String>, output: CommandOutput<String>)
        requires
            old(self)@.valid(),
            !old(self)@.over(),
            !(old(self)@.steps[old(self)@.at] is AwaitToken),
        ensures
            final(self)@ == old(self)@.past_if(judge@, output@),
            final(self)@.valid(),
    {
        assert(self.at < self.steps.len());
        match settle(judge, output) {
            Ok(_) => {
                self.at = self.at + 1;
            },
            Err(e) => {
                self.failure = Some(e.message());
            },
        }
    }

    fn no_token(&mut self)
        requires
            old(self)@.valid(),
            !old(self)@.over(),
            old(self)@.steps[old(self)@.at] is AwaitToken,
        ensures
            final(self)@ == old(self)@.without_token(),
            final(self)@.valid(),
    {
        if self.attempt + 1 == TOKEN_ATTEMPTS {
            self.failure = Some(TOKEN_TIMEOUT.to_string());
        } else {
            self.polling =
            if self.attempt == 0 {
                Polling::Notice
            } else {
                Polling::Pause
            };
            self.attempt = self.attempt + 1;
        }
    }

    fn take_output(&mut self, output: CommandOutput<String>)
        requires
            old(self)@.valid(),
            !old(self)@.over(),
            old(self)@.action() is Run,
        ensures
            final(self)@ == old(self)@.after_output(output@),
            final(self)@.valid(),
    {
        assert(self@.steps[self.at as int] == self.steps@[self.at as int]@);
        assert(self.at < self.steps.len());
        match &self.steps[self.at] {
            Step::Connect { node, user, host } => {
                let node: usize = *node;
                let judge = Judge::Connected { user: user.clone(), host: host.clone() };
                match settle(judge, output) {
                    Ok(_) => {
                        self.at = self.at + 1;
                        self.node = node;
                        self.unhealthy = false;
                        self.trouble = String::new();
                        self.captured = Vec::new();
                        assert(texts(self.captured@) == Seq::<Seq<char>>::empty());
                    },
                    Err(e) => {
                        self.failure = Some(e.message());
                    },
                }
            },
            Step::Exec(_) => {
                self.settle_step(Judge::Success, output);
            },
            Step::Attempt(_) => {
                self.at = self.at + 1;
            },
            Step::Upload { remote, .. } => {
                let judge = Judge::Uploaded { remote: remote.clone() };
                self.settle_step(judge, output);
            },
            Step::Probe { wanted, skip, .. } => {
                self.at = self.at + 1 + if (output.code == 0) == *wanted {
                    0
                } else {
                    *skip
                };
            },
            Step::Capture(_) => {
                let ghost before = self.captured@;
                self.captured.push(output.stdout);
                assert(texts(self.captured@) == texts(before).push(output.stdout@));
                self.at = self.at + 1;
            },
            Step::Watch(_) => {
                if output.code != 0 {
                    self.unhealthy = true;
                    self.trouble.append(
                        streams(output.stdout.as_str(), output.stderr.as_str()).as_str(),
                    );
                }
                self.at = self.at + 1;
            },
            Step::Check { message, .. } => {
                if output.code == 0 {
                    self.at = self.at + 1;
                } else {
                    let mut text = message.clone();
                    text.append(
                        streams(output.stdout.as_str(), output.stderr.as_str()).as_str(),
                    );
                    self.failure = Some(text);
                }
            },
            Step::Fetch { message, .. } => {
                if output.code == 0 {
                    self.at = self.at + 1;
                } else {
                    let mut text = message.clone();
                    text.append(output.stdout.as_str());
                    text.append(" / ");
                    text.append(output.stderr.as_str());
                    self.failure = Some(text);
                }
            },
            Step::AwaitToken(_) => {
                if output.code != 0 {
                    self.no_token();
                } else {
                    match extract_token(output.stdout.as_str()) {
                        None => {
                            self.no_token();
                        },
                        Some(t) => {
                            self.token = Some(t);
                            self.attempt = 0;
                            self.polling = Polling::Pause;
                            self.at = self.at + 1;
                        },
                    }
                }
            },
            _ => {},
        }
    }
}

impl ProgressView {
    /// How much is left to do, at most.
    pub open spec fn left(self) -> int {
        if self.over() {
            0
        } else {
            (self.steps.len() - self.at) * 100 + (TOKEN_ATTEMPTS - self.attempt) * 3 + match self.polling {
                Polling::Notice => 2int,
                Polling::Pause => 1int,
                Polling::Ask => 0int,
            }
        }
    }
}

/// Each reply that fits the action brings a plan nearer to its end, so that
/// every plan ends, whatever the commands give back.
pub proof fn lemma_every_reply_counts(p: ProgressView, reply: Reply<Seq<char>>)
    requires
        p.valid(),
        !p.over(),
        p.fits(reply),
    ensures
        0 <= p.advance(reply).left() < p.left(),
        p.advance(reply).valid(),
{
    assert(p.at + 1 + skip_of(p.steps[p.at]) <= p.steps.len());
}

/// Once a plan has failed, nothing more is done.
pub proof fn lemma_failure_is_final(p: ProgressView, reply: Reply<Seq<char>>)
    requires
        p.failure is Some,
    ensures
        p.action() == Action::<Seq<char>>::Failed(p.failure->0),
        p.advance(reply) == p,
{
}

/// A command that must succeed and does not ends the plan at once.
pub proof fn lemma_failed_command_ends_plan(p: ProgressView, output: CommandOutput<Seq<char>>)
    requires
        p.valid(),
        !p.over(),
        output.code != 0,
        match p.steps[p.at] {
            Step::Connect { .. } | Step::Exec(_) | Step::Upload { .. } | Step::Check { .. }
            | Step::Fetch { .. } => true,
            _ => false,
        },
    ensures
        p.advance(Reply::Output(output)).action() is Failed,
{
}

/// A command that cannot be started ends the plan at once, unless the plan does
/// not care for what comes of it.
pub proof fn lemma_unstarted_command_ends_plan(p: ProgressView, reason: Seq<char>)
    requires
        p.valid(),
        !p.over(),
        p.action() is Run,
        !(p.steps[p.at] is Attempt),
    ensures
        p.advance(Reply::NotStarted(reason)).action() is Failed,
{
}

proof fn lemma_trimmed_keeps(s: Seq<char>)
    requires
        s.len() > 0,
        !crate::text::is_space(s[0]),
        !crate::text::is_space(s.last()),
    ensures
        trimmed(s) == s,
        trimmed(s.push('\n')) == s,
{
    let t = s.push('\n');
    assert(t[0] == s[0]);
    assert(t.drop_last() == s);
    assert(crate::text::trim_end(t) == crate::text::trim_end(s));
}

/// From a token file without the mark, all of it is taken.
pub proof fn lemma_token_without_mark(value: Seq<char>)
    requires
        value.len() > 0,
        !crate::text::is_space(value[0]),
        !crate::text::is_space(value.last()),
        !crate::text::contains(value, TOKEN_MARK@),
    ensures
        token_in(value.push('\n')) == Some(value),
{
    lemma_trimmed_keeps(value);
    crate::text::lemma_find(value, TOKEN_MARK@, 0);
}

/// From a token file that holds a first part, the mark and a value, the value is
/// taken.
pub proof fn lemma_token_is_found(first: Seq<char>, value: Seq<char>)
    requires
        first.len() > 0,
        !crate::text::is_space(first[0]),
        value.len() > 0,
        !crate::text::is_space(value[0]),
        !crate::text::is_space(value.last()),
        forall|i: int|
            i != first.len() ==> !#[trigger] crate::text::occurs_at(
                first + TOKEN_MARK@ + value,
                TOKEN_MARK@,
                i,
            ),
    ensures
        token_in((first + TOKEN_MARK@ + value).push('\n')) == Some(value),
{
    let mark = TOKEN_MARK@;
    let all = first + mark + value;
    let end: int = (first.len() + mark.len()) as int;
    reveal_strlit("::server:");
    lemma_trimmed_keeps(all);
    lemma_trimmed_keeps(value);
    crate::text::lemma_find(all, mark, 0);
    assert(all.subrange(first.len() as int, end) == mark);
    assert(crate::text::occurs_at(all, mark, first.len() as int));
    crate::text::lemma_find(all, mark, end);
    assert(all.skip(end) == value);
}

/// The nodes that a plan connects to, in order.
pub open spec fn connections(plan: Seq<Step<Seq<char>>>) -> Seq<usize>
    decreases plan.len(),
{
    if plan.len() == 0 {
        Seq::empty()
    } else {
        let before = connections(plan.drop_last());
        match plan.last() {
            Step::Connect { node, .. } => before.push(node),
            _ => before,
        }
    }
}

/// Plans that follow one another connect to the nodes of the one and then to
/// those of the other.
pub proof fn lemma_connections_of_both(a: Seq<Step<Seq<char>>>, b: Seq<Step<Seq<char>>>)
    ensures
        connections(a + b) == connections(a) + connections(b),
    decreases b.len(),
{
    if b.len() == 0 {
        assert(a + b == a);
    } else {
        lemma_connections_of_both(a, b.drop_last());
        assert((a + b).drop_last() == a + b.drop_last());
        assert((a + b).last() == b.last());
    }
}

/// A node that a step connects to is among the plan's connections.
pub proof fn lemma_connection_is_listed(plan: Seq<Step<Seq<char>>>, i: int)
    requires
        0 <= i < plan.len(),
        plan[i] is Connect,
    ensures
        connections(plan).contains(plan[i]->Connect_node),
    decreases plan.len(),
{
    let before = connections(plan.drop_last());
    let all = connections(plan);
    let node = plan[i]->Connect_node;
    if i == plan.len() - 1 {
        assert(all[all.len() - 1] == node);
    } else {
        assert(plan.drop_last()[i] == plan[i]);
        lemma_connection_is_listed(plan.drop_last(), i);
        let k = choose|k: int| 0 <= k < before.len() && before[k] == node;
        assert(all[k] == node);
    }
}

/// Whether a plan stays with the node that it finds.
pub open spec fn no_connection(plan: Seq<Step<Seq<char>>>) -> bool {
    forall|i: int| 0 <= i < plan.len() ==> !(#[trigger] plan[i] is Connect)
}

/// A plan without a step that connects has no connections.
pub proof fn lemma_no_connections(plan: Seq<Step<Seq<char>>>)
    requires
        no_connection(plan),
    ensures
        connections(plan) == Seq::<usize>::empty(),
    decreases plan.len(),
{
    if plan.len() > 0 {
        assert(!(plan[plan.len() - 1] is Connect));
        assert forall|i: int| 0 <= i < plan.drop_last().len() implies !(
        #[trigger] plan.drop_last()[i] is Connect) by {
            assert(plan.drop_last()[i] == plan[i]);
        }
        lemma_no_connections(plan.drop_last());
    }
}

/// Whether a plan writes files only where every user may.
pub open spec fn stages_uploads(plan: Seq<Step<Seq<char>>>) -> bool {
    forall|i: int|
        0 <= i < plan.len() ==> (#[trigger] plan[i] matches Step::Upload { remote, .. }
            ==> starts_with(remote, "/tmp/"@))
}

/// Whether a plan can be carried out: it stays inside, skips no connection, gives
/// up only where a watched command has failed, and stages what it writes.
pub open spec fn is_sound(plan: Seq<Step<Seq<char>>>) -> bool {
    &&& stays_inside(plan)
    &&& skips_no_connection(plan)
    &&& shields_aborts(plan)
    &&& stages_uploads(plan)
}

/// Two sound plans are sound one after the other.
pub proof fn lemma_sound_both(a: Seq<Step<Seq<char>>>, b: Seq<Step<Seq<char>>>)
    requires
        is_sound(a),
        is_sound(b),
    ensures
        is_sound(a + b),
        connections(a + b) == connections(a) + connections(b),
{
    let all = a + b;
    let n = a.len();
    lemma_connections_of_both(a, b);
    assert forall|i: int| 0 <= i < all.len() implies i + 1 + skip_of(#[trigger] all[i])
        <= all.len() && (all[i] matches Step::Upload { remote, .. } ==> starts_with(
        remote,
        "/tmp/"@,
    )) && (i < n ==> i + 1 + skip_of(all[i]) <= n) by {
        if i < n {
            assert(all[i] == a[i]);
        } else {
            assert(all[i] == b[i - n]);
        }
    }
    assert forall|i: int, j: int|
        #![trigger all[i], all[j]]
        0 <= i < j < all.len() && j <= i + skip_of(all[i]) implies !(all[j] is Connect) by {
        if i < n {
            assert(all[i] == a[i] && all[j] == a[j]);
        } else {
            assert(all[i] == b[i - n] && all[j] == b[j - n]);
        }
    }
    assert forall|j: int| 0 <= j < all.len() && #[trigger] all[j] is Abort implies exists|i: int|
        0 <= i < j && #[trigger] shields(all, i, j) by {
        if j < n {
            assert(a[j] == all[j]);
            let i = choose|i: int| 0 <= i < j && #[trigger] shields(a, i, j);
            assert(all[i] == a[i]);
            assert(shields(all, i, j));
        } else {
            assert(b[j - n] == all[j]);
            let i = choose|i: int| 0 <= i < j - n && #[trigger] shields(b, i, j - n);
            assert(all[i + n] == b[i]);
            assert(shields(all, i + n, j));
        }
    }
    assert forall|k: int, i: int|
        #![trigger all[k], all[i]]
        0 <= k < i < all.len() && all[i] is SkipIfHealthy implies k + 1 + skip_of(all[k])
        <= i by {
        if i < n {
            assert(all[k] == a[k] && all[i] == a[i]);
        } else if k >= n {
            assert(all[k] == b[k - n] && all[i] == b[i - n]);
        }
    }
}

/// Whether a plan can be part of another: it is sound and stays with its node.
pub open spec fn is_block(plan: Seq<Step<Seq<char>>>) -> bool {
    is_sound(plan) && no_connection(plan)
}

/// Two blocks that follow one another are a block.
pub proof fn lemma_blocks(a: Seq<Step<Seq<char>>>, b: Seq<Step<Seq<char>>>)
    requires
        is_block(a),
        is_block(b),
    ensures
        is_block(a + b),
{
    lemma_sound_both(a, b);
    assert forall|i: int| 0 <= i < (a + b).len() implies !(#[trigger] (a + b)[i] is Connect) by {
        if i < a.len() {
            assert((a + b)[i] == a[i]);
        } else {
            assert((a + b)[i] == b[i - a.len()]);
        }
    }
}

/// The node that a reply connects to, if it does.
pub open spec fn connected_by(p: ProgressView, reply: Reply<Seq<char>>) -> Seq<usize> {
    if p.over() {
        Seq::empty()
    } else {
        match (p.steps[p.at], reply) {
            (Step::Connect { node, .. }, Reply::Output(output)) => if output.code == 0 {
                seq![node]
            } else {
                Seq::empty()
            },
            _ => Seq::empty(),
        }
    }
}

/// Steps without a connection add none.
proof fn lemma_connections_between(plan: Seq<Step<Seq<char>>>, from: int, to: int)
    requires
        0 <= from <= to <= plan.len(),
        forall|j: int| from <= j < to ==> !(#[trigger] plan[j] is Connect),
    ensures
        connections(plan.take(to)) == connections(plan.take(from)),
    decreases to - from,
{
    if from < to {
        lemma_connections_between(plan, from, to - 1);
        assert(plan.take(to).drop_last() =~= plan.take(to - 1));
        assert(plan.take(to).last() == plan[to - 1]);
    }
}

/// A plan that skips no connection makes its connections one after another: with
/// each reply, those that have been made are those of the steps that lie behind.
pub proof fn lemma_connections_are_made(p: ProgressView, reply: Reply<Seq<char>>)
    requires
        p.valid(),
        skips_no_connection(p.steps),
    ensures
        p.advance(reply).steps == p.steps,
        0 <= p.advance(reply).at <= p.steps.len(),
        connections(p.steps.take(p.at)) + connected_by(p, reply) == connections(
            p.steps.take(p.advance(reply).at),
        ),
{
    let next = p.advance(reply);
    let made = connections(p.steps.take(p.at));
    if next.at == p.at {
        assert(made + Seq::<usize>::empty() =~= made);
    } else {
        assert(p.at + 1 + skip_of(p.steps[p.at]) <= p.steps.len());
        assert(p.at < next.at <= p.at + 1 + skip_of(p.steps[p.at]));
        assert forall|j: int| p.at + 1 <= j < next.at implies !(
        #[trigger] p.steps[j] is Connect) by {
            let step = p.steps[p.at];
        }
        lemma_connections_between(p.steps, p.at + 1, next.at);
        assert(p.steps.take(p.at + 1).drop_last() =~= p.steps.take(p.at));
        assert(p.steps.take(p.at + 1).last() == p.steps[p.at]);
        assert(made + connected_by(p, reply) =~= connections(p.steps.take(p.at + 1)));
    }
}

/// What a command printed is reported when the command fails the plan.
pub proof fn lemma_failure_reports_output(p: ProgressView, output: CommandOutput<Seq<char>>)
    requires
        p.valid(),
        !p.over(),
        output.code != 0,
        match p.steps[p.at] {
            Step::Connect { .. } | Step::Exec(_) | Step::Upload { .. } | Step::Check { .. } => true,
            _ => false,
        },
    ensures
        ({
            let failure = p.advance(Reply::Output(output)).failure;
            &&& failure is Some
            &&& contains(failure->0, trimmed(output.stdout))
            &&& contains(failure->0, trimmed(output.stderr))
        }),
{
    let text = p.advance(Reply::Output(output)).failure->0;
    let stdout = trimmed(output.stdout);
    let stderr = trimmed(output.stderr);
    match p.steps[p.at] {
        Step::Exec(_) => {
            let head = "Command exited with code "@ + crate::text::signed_decimal(
                output.code as int,
            ) + ":\n  stderr: "@;
            let between = "\n  stdout: "@;
            lemma_contains_part(head, stderr, between + stdout);
            lemma_contains_part(head + stderr + between, stdout, Seq::empty());
            assert(text =~= head + stderr + (between + stdout));
            assert(text =~= head + stderr + between + stdout + Seq::<char>::empty());
        },
        _ => {
            let head = match p.steps[p.at] {
                Step::Connect { user, host, .. } => "Failed to connect to "@ + user + "@"@ + host,
                Step::Upload { remote, .. } => "Failed to upload to remote path "@ + remote,
                _ => p.steps[p.at]->Check_message,
            };
            let mark = "\nstdout: "@;
            let between = "\nstderr: "@;
            lemma_contains_part(head + mark, stdout, between + stderr);
            lemma_contains_part(head + mark + stdout + between, stderr, Seq::empty());
            assert(text =~= head + mark + stdout + (between + stderr));
            assert(text =~= head + mark + stdout + between + stderr + Seq::<char>::empty());
        },
    }
}

/// Whether a reply is a good one: it fits the action, and a command has succeeded
/// and, where a token is asked for, has printed one.
pub open spec fn is_good(p: ProgressView, reply: Reply<Seq<char>>) -> bool {
    &&& p.fits(reply)
    &&& reply is Done || {
        &&& reply matches Reply::Output(output)
        &&& output.code == 0
        &&& p.steps[p.at] is AwaitToken ==> token_in(output.stdout) is Some
    }
}

/// Whether nothing has gone wrong: no command has failed, and the place that has
/// been reached is not one that is skipped in that case.
pub open spec fn is_well(p: ProgressView) -> bool {
    &&& p.failure is None
    &&& !p.unhealthy
    &&& forall|i: int| 0 <= i < p.at ==> !#[trigger] shields(p.steps, i, p.at)
}

/// Good replies to a sound plan leave it well.
pub proof fn lemma_good_reply_keeps_well(p: ProgressView, reply: Reply<Seq<char>>)
    requires
        p.valid(),
        !p.over(),
        is_sound(p.steps),
        is_well(p),
        is_good(p, reply),
    ensures
        is_well(p.advance(reply)),
{
    let next = p.advance(reply);
    let step = p.steps[p.at];
    if step is Abort {
        let i = choose|i: int| 0 <= i < p.at && #[trigger] shields(p.steps, i, p.at);
        assert(shields(p.steps, i, p.at));
    }
    assert(next.failure is None);
    assert(next.at == p.at || p.at < next.at <= p.at + 1 + skip_of(step));
    assert forall|i: int| 0 <= i < next.at implies !#[trigger] shields(
        next.steps,
        i,
        next.at,
    ) by {
        if shields(p.steps, i, next.at) && next.at != p.at {
            assert(p.at + 1 + skip_of(step) <= p.steps.len());
            let shield = p.steps[i];
            if i < p.at {
                assert(!shields(p.steps, i, p.at));
            } else if i > p.at {
                assert(p.at + 1 + skip_of(step) <= i);
            }
        }
    }
}

} // verus!
