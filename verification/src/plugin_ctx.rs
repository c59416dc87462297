//! What an extension sees of the host: a log, questions to the operator, and
//! requests for changes. A request is recorded as a proposal and nothing is
//! done before the plan is applied.

use crate::logger::{level_of, log_line, timestamp_now, LogLevel, PluginLogger};
use crate::plan::{Plan, PlanState};
use crate::proposal::{proposal_views, Proposal, ProposalView};
use crate::text::{debug_list, format_debug_list, lowercased, owned, texts, trim, trimmed};
use vstd::prelude::*;

verus! {

/// The state of one invocation that the host and the extension share.
#[derive(Debug)]
pub struct PluginCtx {
    pub logs: Vec<String>,
    pub proposals: Vec<Proposal>,
    pub logger: PluginLogger,
}

/// The message that records a proposed command.
pub open spec fn command_note(command: Seq<char>, args: Seq<Seq<char>>) -> Seq<char> {
    "Proposed system command: "@ + command + " "@ + debug_list(args)
}

/// The message that records a question.
pub open spec fn question_note(question: Seq<char>) -> Seq<char> {
    "> "@ + question
}

/// The line that records an answer.
pub open spec fn answer_note(answer: Seq<char>) -> Seq<char> {
    "[ask] "@ + answer
}

impl PluginCtx {
    /// The state at the start of an invocation: nothing logged, nothing
    /// proposed.
    pub fn new(plugin_name: &str) -> (ctx: PluginCtx)
        ensures
            ctx.logs@.len() == 0,
            ctx.proposals@.len() == 0,
            ctx.logger.name@ == plugin_name@,
            ctx.logger.logs@.len() == 0,
    {
        PluginCtx { logs: Vec::new(), proposals: Vec::new(), logger: PluginLogger::new(plugin_name) }
    }

    /// Records the request to create a file.
    pub fn create_file(&mut self, path: String, content: String)
        ensures
            proposal_views(final(self).proposals@) == proposal_views(old(self).proposals@).push(
                ProposalView::CreateFile { path: path@, content: content@ },
            ),
            final(self).logs == old(self).logs,
            final(self).logger == old(self).logger,
    {
        self.proposals.push(Proposal::CreateFile { path, content });
        assert(proposal_views(self.proposals@) =~= proposal_views(old(self).proposals@).push(
            ProposalView::CreateFile { path: path@, content: content@ },
        ));
    }

    /// Records the request to change a file.
    pub fn modify_file(&mut self, path: String, content: String)
        ensures
            proposal_views(final(self).proposals@) == proposal_views(old(self).proposals@).push(
                ProposalView::ModifyFile { path: path@, content: content@ },
            ),
            final(self).logs == old(self).logs,
            final(self).logger == old(self).logger,
    {
        self.proposals.push(Proposal::ModifyFile { path, content });
        assert(proposal_views(self.proposals@) =~= proposal_views(old(self).proposals@).push(
            ProposalView::ModifyFile { path: path@, content: content@ },
        ));
    }

    /// Records the request to delete a file.
    pub fn delete_file(&mut self, path: String)
        ensures
            proposal_views(final(self).proposals@) == proposal_views(old(self).proposals@).push(
                ProposalView::DeleteFile { path: path@ },
            ),
            final(self).logs == old(self).logs,
            final(self).logger == old(self).logger,
    {
        self.proposals.push(Proposal::DeleteFile { path });
        assert(proposal_views(self.proposals@) =~= proposal_views(old(self).proposals@).push(
            ProposalView::DeleteFile { path: path@ },
        ));
    }

    /// Records the request to run a command, and logs it with the given
    /// timestamp. The command is not run. Hands out the logged line.
    pub fn run_command_at(&mut self, command: String, args: Vec<String>, timestamp: &str) -> (line:
        String)
        ensures
            proposal_views(final(self).proposals@) == proposal_views(old(self).proposals@).push(
                ProposalView::RunCommand { command: command@, args: texts(args@) },
            ),
            final(self).logs == old(self).logs,
            line@ == log_line(
                old(self).logger.name@,
                timestamp@,
                LogLevel::Info,
                command_note(command@, texts(args@)),
            ),
            final(self).logger.name == old(self).logger.name,
            final(self).logger.logs@.len() == old(self).logger.logs@.len() + 1,
            final(self).logger.logs@.last()@ == line@,
            final(self).logger.logs@.drop_last() == old(self).logger.logs@,
    {
        let mut note = owned("Proposed system command: ");
        note.append(command.as_str());
        note.append(" ");
        note.append(format_debug_list(&args).as_str());
        let line = self.logger.record(LogLevel::Info, note.as_str(), timestamp);
        self.proposals.push(Proposal::RunCommand { command, args });
        assert(proposal_views(self.proposals@) =~= proposal_views(old(self).proposals@).push(
            ProposalView::RunCommand { command: command@, args: texts(args@) },
        ));
        line
    }

    /// Logs a question to the operator with the given timestamp and hands
    /// out the logged line. The answer is read by the caller.
    pub fn ask_at(&mut self, question: &str, timestamp: &str) -> (line: String)
        ensures
            line@ == log_line(
                old(self).logger.name@,
                timestamp@,
                LogLevel::Info,
                question_note(question@),
            ),
            final(self).proposals == old(self).proposals,
            final(self).logs == old(self).logs,
            final(self).logger.name == old(self).logger.name,
            final(self).logger.logs@.len() == old(self).logger.logs@.len() + 1,
            final(self).logger.logs@.last()@ == line@,
            final(self).logger.logs@.drop_last() == old(self).logger.logs@,
    {
        let mut note = owned("> ");
        note.append(question);
        self.logger.record(LogLevel::Info, note.as_str(), timestamp)
    }

    /// Records the request to run a command and logs it at the time of the
    /// call.
    pub fn run_command(&mut self, command: String, args: Vec<String>) -> (line: String)
        ensures
            proposal_views(final(self).proposals@) == proposal_views(old(self).proposals@).push(
                ProposalView::RunCommand { command: command@, args: texts(args@) },
            ),
            final(self).logs == old(self).logs,
            exists|timestamp: Seq<char>|
                line@ == #[trigger] log_line(
                    old(self).logger.name@,
                    timestamp,
                    LogLevel::Info,
                    command_note(command@, texts(args@)),
                ),
            final(self).logger.name == old(self).logger.name,
            final(self).logger.logs@.len() == old(self).logger.logs@.len() + 1,
            final(self).logger.logs@.last()@ == line@,
            final(self).logger.logs@.drop_last() == old(self).logger.logs@,
    {
        let timestamp = timestamp_now();
        self.run_command_at(command, args, timestamp.as_str())
    }

    /// Logs a question to the operator at the time of the call.
    pub fn ask(&mut self, question: &str) -> (line: String)
        ensures
            exists|timestamp: Seq<char>|
                line@ == #[trigger] log_line(
                    old(self).logger.name@,
                    timestamp,
                    LogLevel::Info,
                    question_note(question@),
                ),
            final(self).proposals == old(self).proposals,
            final(self).logs == old(self).logs,
            final(self).logger.name == old(self).logger.name,
            final(self).logger.logs@.len() == old(self).logger.logs@.len() + 1,
            final(self).logger.logs@.last()@ == line@,
            final(self).logger.logs@.drop_last() == old(self).logger.logs@,
    {
        let timestamp = timestamp_now();
        self.ask_at(question, timestamp.as_str())
    }

    /// Logs a message of the extension at the time of the call.
    pub fn log(&mut self, level: &str, message: &str) -> (line: String)
        ensures
            exists|timestamp: Seq<char>|
                line@ == #[trigger] log_line(
                    old(self).logger.name@,
                    timestamp,
                    level_of(lowercased(level@)),
                    message@,
                ),
            final(self).proposals == old(self).proposals,
            final(self).logs == old(self).logs,
            final(self).logger.name == old(self).logger.name,
            final(self).logger.logs@.len() == old(self).logger.logs@.len() + 1,
            final(self).logger.logs@.last()@ == line@,
            final(self).logger.logs@.drop_last() == old(self).logger.logs@,
    {
        self.logger.log(level, message)
    }

    /// Takes what the operator typed: the answer is the input without the
    /// white space at its ends, and it is recorded in the log.
    pub fn answer(&mut self, input: &str) -> (answer: String)
        ensures
            answer@ == trimmed(input@),
            final(self).logs@.len() == old(self).logs@.len() + 1,
            final(self).logs@.last()@ == answer_note(trimmed(input@)),
            final(self).logs@.drop_last() == old(self).logs@,
            final(self).proposals == old(self).proposals,
            final(self).logger == old(self).logger,
    {
        let answer = trim(input);
        let mut note = owned("[ask] ");
        note.append(answer.as_str());
        self.logs.push(note);
        assert(self.logs@.drop_last() =~= old(self).logs@);
        answer
    }

    /// Hands the proposals over as a plan; the context keeps none.
    pub fn take_plan(&mut self) -> (plan: Plan)
        ensures
            plan.proposals() == proposal_views(old(self).proposals@),
            plan.state() == if old(self).proposals@.len() == 0 {
                PlanState::Empty
            } else {
                PlanState::Populated
            },
            final(self).proposals@.len() == 0,
            final(self).logs == old(self).logs,
            final(self).logger == old(self).logger,
    {
        let mut proposals: Vec<Proposal> = Vec::new();
        std::mem::swap(&mut self.proposals, &mut proposals);
        Plan::new(proposals)
    }
}

} // verus!
