//! Commands for the provider and how a runner answers them.

use vstd::prelude::*;
use vstd::string::*;
use crate::model::{push_item, Model};
use crate::text;
use crate::text::{decimal_text, join, text_eq};

verus! {

/// What a command may change.
#[derive(Debug, Clone, Copy, PartialEq, Eq, PartialOrd, Ord, Structural)]
pub enum CommandIntent {
    Read,
    ProviderWrite,
}

impl DeepView for CommandIntent {
    type V = CommandIntent;

    open spec fn deep_view(&self) -> CommandIntent {
        *self
    }
}

impl Model for CommandIntent {
    fn same(&self, other: &Self) -> (r: bool) {
        *self == *other
    }

    fn dup(&self) -> (r: Self) {
        *self
    }
}

/// One command with its arguments and input.
#[derive(Debug, PartialEq, Eq)]
pub struct CommandSpec {
    pub program: String,
    pub args: Vec<String>,
    pub stdin: Option<String>,
    pub intent: CommandIntent,
}

/// The content of a [`CommandSpec`].
#[verifier::ext_equal]
pub struct CommandSpecView {
    pub program: Seq<char>,
    pub args: Seq<Seq<char>>,
    pub stdin: Option<Seq<char>>,
    pub intent: CommandIntent,
}

impl DeepView for CommandSpec {
    type V = CommandSpecView;

    open spec fn deep_view(&self) -> CommandSpecView {
        CommandSpecView {
            program: self.program.deep_view(),
            args: self.args.deep_view(),
            stdin: self.stdin.deep_view(),
            intent: self.intent.deep_view(),
        }
    }
}

impl Clone for CommandSpec {
    fn clone(&self) -> (r: Self)
        ensures
            r.deep_view() == self.deep_view(),
    {
        self.dup()
    }
}

impl Model for CommandSpec {
    fn same(&self, other: &Self) -> (r: bool) {
        self.program.same(&other.program)
            && self.args.same(&other.args)
            && self.stdin.same(&other.stdin)
            && self.intent.same(&other.intent)
    }

    fn dup(&self) -> (r: Self) {
        CommandSpec {
            program: self.program.dup(),
            args: self.args.dup(),
            stdin: self.stdin.dup(),
            intent: self.intent.dup(),
        }
    }
}

/// What a finished command left behind.
#[derive(Debug, PartialEq, Eq)]
pub struct CommandOutput {
    /// Exit code, absent when a signal ended the command.
    pub code: Option<i32>,
    pub stdout: String,
    pub stderr: String,
}

/// The content of a [`CommandOutput`].
#[verifier::ext_equal]
pub struct CommandOutputView {
    pub code: Option<i32>,
    pub stdout: Seq<char>,
    pub stderr: Seq<char>,
}

impl DeepView for CommandOutput {
    type V = CommandOutputView;

    open spec fn deep_view(&self) -> CommandOutputView {
        CommandOutputView {
            code: self.code.deep_view(),
            stdout: self.stdout.deep_view(),
            stderr: self.stderr.deep_view(),
        }
    }
}

impl Clone for CommandOutput {
    fn clone(&self) -> (r: Self)
        ensures
            r.deep_view() == self.deep_view(),
    {
        self.dup()
    }
}

impl Model for CommandOutput {
    fn same(&self, other: &Self) -> (r: bool) {
        self.code.same(&other.code)
            && self.stdout.same(&other.stdout)
            && self.stderr.same(&other.stderr)
    }

    fn dup(&self) -> (r: Self) {
        CommandOutput {
            code: self.code.dup(),
            stdout: self.stdout.dup(),
            stderr: self.stderr.dup(),
        }
    }
}

/// Why a command did not finish.
#[derive(Debug, PartialEq, Eq)]
pub enum CommandRunError {
    /// The command could not be started.
    Spawn {
        command: CommandSpec,
        message: String,
    },
    /// The command ran past its deadline.
    Timeout {
        command: CommandSpec,
        process_group_id: Option<u32>,
        timeout_ms: u64,
        stdout: String,
        stderr: String,
    },
}

/// The content of a [`CommandRunError`].
pub enum CommandRunErrorView {
    Spawn {
        command: CommandSpecView,
        message: Seq<char>,
    },
    Timeout {
        command: CommandSpecView,
        process_group_id: Option<u32>,
        timeout_ms: u64,
        stdout: Seq<char>,
        stderr: Seq<char>,
    },
}

impl DeepView for CommandRunError {
    type V = CommandRunErrorView;

    open spec fn deep_view(&self) -> CommandRunErrorView {
        match self {
            CommandRunError::Spawn { command, message } => CommandRunErrorView::Spawn {
                command: command.deep_view(),
                message: message.deep_view(),
            },
            CommandRunError::Timeout {
                command,
                process_group_id,
                timeout_ms,
                stdout,
                stderr,
            } => CommandRunErrorView::Timeout {
                command: command.deep_view(),
                process_group_id: process_group_id.deep_view(),
                timeout_ms: timeout_ms.deep_view(),
                stdout: stdout.deep_view(),
                stderr: stderr.deep_view(),
            },
        }
    }
}

impl CommandRunError {
    /// Another error of the same content.
    pub fn dup(&self) -> (r: Self)
        ensures
            r.deep_view() == self.deep_view(),
    {
        match self {
            CommandRunError::Spawn { command, message } => CommandRunError::Spawn {
                command: command.dup(),
                message: message.dup(),
            },
            CommandRunError::Timeout {
                command,
                process_group_id,
                timeout_ms,
                stdout,
                stderr,
            } => CommandRunError::Timeout {
                command: command.dup(),
                process_group_id: process_group_id.dup(),
                timeout_ms: timeout_ms.dup(),
                stdout: stdout.dup(),
                stderr: stderr.dup(),
            },
        }
    }
}

impl Clone for CommandRunError {
    fn clone(&self) -> (r: Self)
        ensures
            r.deep_view() == self.deep_view(),
    {
        self.dup()
    }
}

/// Runs commands. Production starts processes; tests replay recorded answers.
///
/// A runner says which commands it may be handed. What a function requires of
/// that bounds what it runs: it is verified for every runner that allows no
/// more than it asks for.
pub trait CommandRunner {
    /// Whether the runner may be handed a command. One that does not say
    /// otherwise may be handed any.
    open spec fn allows(&self, command: CommandSpecView) -> bool {
        true
    }

    fn run(&self, command: &CommandSpec) -> (r: Result<CommandOutput, CommandRunError>)
        requires
            self.allows(command.deep_view()),
    ;
}

/// The runner may be handed every command that reads.
pub open spec fn reads_allowed<R: CommandRunner>(runner: R) -> bool {
    forall|command: CommandSpecView|
        command.intent is Read ==> #[trigger] runner.allows(command)
}

/// How a command was answered.
pub type Reply = Result<CommandOutputView, CommandRunErrorView>;

/// The content of an answer.
pub open spec fn reply_view(raw: Result<CommandOutput, CommandRunError>) -> Reply {
    match raw {
        Ok(output) => Ok(output.deep_view()),
        Err(error) => Err(error.deep_view()),
    }
}

/// The runner may answer a command so.
pub open spec fn ran<R: CommandRunner>(runner: R, command: CommandSpecView, reply: Reply) -> bool {
    exists|c: CommandSpec, raw: Result<CommandOutput, CommandRunError>|
        #[trigger] call_ensures(R::run, (&runner, &c), raw) && c.deep_view() == command
            && reply_view(raw) == reply
}

/// Another answer of the same content.
pub fn dup_reply(reply: &Result<CommandOutput, CommandRunError>) -> (r: Result<
    CommandOutput,
    CommandRunError,
>)
    ensures
        reply_view(r) == reply_view(*reply),
{
    match reply {
        Ok(output) => Ok(output.dup()),
        Err(error) => Err(error.dup()),
    }
}

/// Runs one command.
pub fn run<R: CommandRunner>(runner: &R, command: &CommandSpec) -> (r: Result<
    CommandOutput,
    CommandRunError,
>)
    requires
        runner.allows(command.deep_view()),
    ensures
        ran(*runner, command.deep_view(), reply_view(r)),
{
    let raw = runner.run(command);
    assert(call_ensures(R::run, (runner, command), raw));
    raw
}

// ---------------------------------------------------------------------------
// What comes after a write
// ---------------------------------------------------------------------------

/// A command that was sent, with its answer. There is no other way to one than
/// to send the command.
pub struct Sent {
    command: CommandSpec,
    reply: Result<CommandOutput, CommandRunError>,
}

impl Sent {
    /// The command that was sent.
    pub closed spec fn asked(self) -> CommandSpecView {
        self.command.deep_view()
    }

    /// Its answer.
    pub closed spec fn answer(self) -> Reply {
        reply_view(self.reply)
    }

    /// Its answer.
    pub fn reply(&self) -> (r: &Result<CommandOutput, CommandRunError>)
        ensures
            reply_view(*r) == self.answer(),
    {
        &self.reply
    }
}

/// A runner may have been sent a command so.
pub open spec fn was_sent<R: CommandRunner>(
    runner: R,
    command: CommandSpecView,
    sent: Sent,
) -> bool {
    sent.asked() == command && ran(runner, command, sent.answer())
}

/// Sends one command.
pub fn send<R: CommandRunner>(runner: &R, command: CommandSpec) -> (r: Sent)
    requires
        runner.allows(command.deep_view()),
    ensures
        was_sent(*runner, command.deep_view(), r),
{
    let reply = run(runner, &command);
    Sent { command, reply }
}

/// A runner after a command was sent. It takes reads alone, and what it answers
/// was asked after that command was answered.
pub struct After<'a, R> {
    pub runner: &'a R,
    pub sent: &'a Sent,
}

/// A runner after a command was sent.
pub open spec fn after<'a, R>(runner: &'a R, sent: &'a Sent) -> After<'a, R> {
    After { runner, sent }
}

impl<'a, R: CommandRunner> CommandRunner for After<'a, R> {
    open spec fn allows(&self, command: CommandSpecView) -> bool {
        command.intent is Read && self.runner.allows(command)
    }

    fn run(&self, command: &CommandSpec) -> (r: Result<CommandOutput, CommandRunError>)
        ensures
            ran(*self.runner, command.deep_view(), reply_view(r)),
    {
        run(self.runner, command)
    }
}

/// What a runner answers after a command was sent, it may answer.
pub proof fn lemma_after_ran<R: CommandRunner>(
    runner: R,
    sent: Sent,
    command: CommandSpecView,
    reply: Reply,
)
    requires
        ran(after(&runner, &sent), command, reply),
    ensures
        ran(runner, command, reply),
{
}

/// A read of the provider's command line tool.
pub open spec fn gh(args: Seq<Seq<char>>) -> CommandSpecView {
    CommandSpecView { program: "gh"@, args, stdin: None, intent: CommandIntent::Read }
}

/// A read of the local repository.
pub open spec fn git(args: Seq<Seq<char>>) -> CommandSpecView {
    CommandSpecView { program: "git"@, args, stdin: None, intent: CommandIntent::Read }
}

impl CommandSpecView {
    /// The command as a write of the provider.
    pub open spec fn writing(self) -> CommandSpecView {
        CommandSpecView { intent: CommandIntent::ProviderWrite, ..self }
    }

    /// The command with an input.
    pub open spec fn fed(self, input: Seq<char>) -> CommandSpecView {
        CommandSpecView { stdin: Some(input), ..self }
    }

    /// Program and arguments, separated by blanks.
    pub open spec fn shown(self) -> Seq<char> {
        text::joined(seq![self.program] + self.args, " "@)
    }

    /// Whether an API call names a method other than a read.
    pub open spec fn names_write_method(self) -> bool {
        self.program == "gh"@ && self.args.len() > 0 && self.args[0] == "api"@ && exists|i: int|
            0 <= i < self.args.len() - 1 && self.args[i] == "--method"@ && #[trigger] self.args[i
                + 1] != "GET"@
    }
}

fn words(args: Vec<&str>) -> (r: Vec<String>)
    ensures
        r.deep_view() == args.deep_view(),
{
    let mut list: Vec<String> = Vec::new();
    let mut i: usize = 0;
    while i < args.len()
        invariant
            i <= args.len(),
            list.deep_view() == args.deep_view().take(i as int),
        decreases args.len() - i,
    {
        push_item(&mut list, args[i].to_owned());
        i = i + 1;
        assert(list.deep_view() =~= args.deep_view().take(i as int));
    }
    assert(list.deep_view() =~= args.deep_view());
    list
}

impl CommandSpec {
    /// A read of the provider's command line tool.
    pub fn gh(args: Vec<&str>) -> (r: Self)
        ensures
            r.deep_view() == gh(args.deep_view()),
    {
        CommandSpec {
            program: "gh".to_owned(),
            args: words(args),
            stdin: None,
            intent: CommandIntent::Read,
        }
    }

    /// A read of the local repository.
    pub fn git(args: Vec<&str>) -> (r: Self)
        ensures
            r.deep_view() == git(args.deep_view()),
    {
        CommandSpec {
            program: "git".to_owned(),
            args: words(args),
            stdin: None,
            intent: CommandIntent::Read,
        }
    }

    /// The command as a write of the provider.
    pub fn provider_write(self) -> (r: Self)
        ensures
            r.deep_view() == self.deep_view().writing(),
    {
        CommandSpec { intent: CommandIntent::ProviderWrite, ..self }
    }

    /// The command with an input.
    pub fn stdin(self, input: String) -> (r: Self)
        ensures
            r.deep_view() == self.deep_view().fed(input@),
    {
        CommandSpec { stdin: Some(input), ..self }
    }

    /// What the command declares that it may change.
    pub fn intent(&self) -> (r: CommandIntent)
        ensures
            r == self.deep_view().intent,
    {
        self.intent
    }

    /// What the method of an API call says that it changes.
    pub fn inferred_write_intent(&self) -> (r: Option<CommandIntent>)
        ensures
            r == (if self.deep_view().names_write_method() {
                Some(CommandIntent::ProviderWrite)
            } else {
                None
            }),
    {
        let ghost view = self.deep_view();
        if !text_eq(self.program.as_str(), "gh") || self.args.len() == 0 || !text_eq(
            self.args[0].as_str(),
            "api",
        ) {
            return None;
        }
        let mut i: usize = 1;
        while i < self.args.len()
            invariant
                view == self.deep_view(),
                1 <= i <= self.args.len(),
                view.program == "gh"@ && view.args.len() > 0 && view.args[0] == "api"@,
                forall|j: int|
                    0 <= j < i - 1 ==> !(view.args[j] == "--method"@ && #[trigger] view.args[j + 1]
                        != "GET"@),
            decreases self.args.len() - i,
        {
            assert(view.args[i - 1] == self.args[i - 1]@);
            assert(view.args[i - 1 + 1] == self.args[i as int]@);
            if text_eq(self.args[i - 1].as_str(), "--method") && !text_eq(
                self.args[i].as_str(),
                "GET",
            ) {
                return Some(CommandIntent::ProviderWrite);
            }
            i = i + 1;
        }
        None
    }

    /// Program and arguments, separated by blanks.
    pub fn display(&self) -> (r: String)
        ensures
            r@ == self.deep_view().shown(),
    {
        let mut words: Vec<String> = Vec::new();
        push_item(&mut words, self.program.dup());
        crate::model::append_items(&mut words, self.args.dup());
        assert(words.deep_view() =~= seq![self.deep_view().program] + self.deep_view().args);
        join(&words, " ")
    }
}

impl CommandOutputView {
    /// Whether the command ended with status zero.
    pub open spec fn succeeded(self) -> bool {
        self.code == Some(0i32)
    }
}

impl CommandOutput {
    pub fn success(stdout: String) -> (r: Self)
        ensures
            r.deep_view() == (CommandOutputView {
                code: Some(0),
                stdout: stdout@,
                stderr: Seq::empty(),
            }),
    {
        CommandOutput { code: Some(0), stdout, stderr: String::new() }
    }

    pub fn failure(code: i32, stderr: String) -> (r: Self)
        ensures
            r.deep_view() == (CommandOutputView {
                code: Some(code),
                stdout: Seq::empty(),
                stderr: stderr@,
            }),
    {
        CommandOutput { code: Some(code), stdout: String::new(), stderr }
    }

    /// Whether the command ended with status zero.
    pub fn is_success(&self) -> (r: bool)
        ensures
            r == self.deep_view().succeeded(),
    {
        match self.code {
            Some(code) => code == 0,
            None => false,
        }
    }
}

impl CommandRunErrorView {
    /// The message of the error.
    pub open spec fn message(self) -> Seq<char> {
        match self {
            CommandRunErrorView::Spawn { command, message } => "`"@ + command.shown()
                + "` could not run: "@ + message,
            CommandRunErrorView::Timeout { command, timeout_ms, .. } => "`"@ + command.shown()
                + "` timed out after "@ + text::decimal(timeout_ms as nat) + " ms"@,
        }
    }
}

impl CommandRunError {
    /// The message of the error.
    pub fn to_text(&self) -> (r: String)
        ensures
            r@ == self.deep_view().message(),
    {
        match self {
            CommandRunError::Spawn { command, message } => "`".to_owned().concat(
                command.display().as_str(),
            ).concat("` could not run: ").concat(message.as_str()),
            CommandRunError::Timeout { command, timeout_ms, .. } => "`".to_owned().concat(
                command.display().as_str(),
            ).concat("` timed out after ").concat(decimal_text(*timeout_ms).as_str()).concat(" ms"),
        }
    }
}

} // verus!
