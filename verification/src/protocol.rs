//! The judgement protocol: the events a judge reports to the grading
//! frontend, and their mathematical views.
//!
//! Every event type has a view in which each `String` is replaced by the
//! sequence of its characters. Contracts throughout the crate are stated over
//! these views.

use vstd::prelude::*;

verus! {

/// Row or column position in the submitted source.
pub type Index = u16;

/// Number shown on a tab's badge.
pub type BadgeCount = u16;

/// Who may see a message or a tab.
#[derive(Debug, PartialEq, Eq, Clone, Copy)]
pub enum Permission {
    Student,
    Staff,
    Zeus,
}

/// How the frontend renders the expected and generated values of a test.
#[derive(Debug, PartialEq, Eq, Clone, Copy)]
pub enum TestFormat {
    Text,
    CSV,
}

/// Severity of a code annotation.
#[derive(Debug, PartialEq, Eq, Clone, Copy)]
pub enum Severity {
    Error,
    Warning,
    Info,
}

/// Machine-readable outcome of a test or of a whole judgement.
#[derive(Debug, PartialEq, Eq, Clone, Copy)]
pub enum StatusEnum {
    InternalError,
    CompilationError,
    MemoryLimitExceeded,
    TimeLimitExceeded,
    OutputLimitExceeded,
    RuntimeError,
    Wrong,
    Correct,
}

/// Outcome of a test: the machine-readable verdict and a line for humans.
#[derive(Debug, PartialEq, Eq, Clone)]
pub struct Status {
    pub enum_: StatusEnum,
    pub human: String,
}

/// View of a [`Status`].
pub struct StatusView {
    pub enum_: StatusEnum,
    pub human: Seq<char>,
}

impl View for Status {
    type V = StatusView;

    open spec fn view(&self) -> StatusView {
        StatusView { enum_: self.enum_, human: self.human@ }
    }
}

/// A message for the frontend: plain text, or text with a format and an
/// audience.
#[derive(Debug, PartialEq, Eq, Clone)]
pub enum Message {
    String(String),
    Object { format: String, description: String, permission: Permission },
}

/// View of a [`Message`].
pub enum MessageView {
    String(Seq<char>),
    Object { format: Seq<char>, description: Seq<char>, permission: Permission },
}

impl View for Message {
    type V = MessageView;

    open spec fn view(&self) -> MessageView {
        match *self {
            Message::String(s) => MessageView::String(s@),
            Message::Object { format, description, permission } => MessageView::Object {
                format: format@,
                description: description@,
                permission,
            },
        }
    }
}

/// One event of the judgement trace.
#[derive(Debug, PartialEq, Eq, Clone)]
#[allow(inconsistent_fields)]
pub enum Command {
    StartJudgement,
    StartTab { title: String, hidden: Option<bool>, permission: Option<Permission> },
    StartContext { description: Option<Message> },
    StartTestcase { description: Message },
    StartTest {
        expected: String,
        format: Option<TestFormat>,
        description: Option<Message>,
        channel: Option<String>,
    },
    AppendMessage { message: Message },
    AnnotateCode {
        row: Index,
        column: Option<Index>,
        text: String,
        external_url: Option<String>,
        type_: Option<Severity>,
        rows: Option<Index>,
        columns: Option<Index>,
    },
    EscalateStatus { status: Status },
    CloseTest { generated: String, accepted: Option<bool>, status: Status },
    CloseTestcase { accepted: Option<bool> },
    CloseContext { accepted: Option<bool> },
    CloseTab { badge_count: Option<BadgeCount> },
    CloseJudgement { accepted: Option<bool>, status: Option<Status> },
}

/// View of a [`Command`].
#[allow(inconsistent_fields)]
pub enum CommandView {
    StartJudgement,
    StartTab { title: Seq<char>, hidden: Option<bool>, permission: Option<Permission> },
    StartContext { description: Option<MessageView> },
    StartTestcase { description: MessageView },
    StartTest {
        expected: Seq<char>,
        format: Option<TestFormat>,
        description: Option<MessageView>,
        channel: Option<Seq<char>>,
    },
    AppendMessage { message: MessageView },
    AnnotateCode {
        row: Index,
        column: Option<Index>,
        text: Seq<char>,
        external_url: Option<Seq<char>>,
        type_: Option<Severity>,
        rows: Option<Index>,
        columns: Option<Index>,
    },
    EscalateStatus { status: StatusView },
    CloseTest { generated: Seq<char>, accepted: Option<bool>, status: StatusView },
    CloseTestcase { accepted: Option<bool> },
    CloseContext { accepted: Option<bool> },
    CloseTab { badge_count: Option<BadgeCount> },
    CloseJudgement { accepted: Option<bool>, status: Option<StatusView> },
}

/// The characters of an optional string.
pub open spec fn opt_text(s: Option<String>) -> Option<Seq<char>> {
    match s {
        Some(t) => Some(t@),
        None => None,
    }
}

/// The view of an optional message.
pub open spec fn opt_message(m: Option<Message>) -> Option<MessageView> {
    match m {
        Some(t) => Some(t@),
        None => None,
    }
}

/// The view of an optional status.
pub open spec fn opt_status(s: Option<Status>) -> Option<StatusView> {
    match s {
        Some(t) => Some(t@),
        None => None,
    }
}

impl View for Command {
    type V = CommandView;

    open spec fn view(&self) -> CommandView {
        match *self {
            Command::StartJudgement => CommandView::StartJudgement,
            Command::StartTab { title, hidden, permission } => CommandView::StartTab {
                title: title@,
                hidden,
                permission,
            },
            Command::StartContext { description } => CommandView::StartContext {
                description: opt_message(description),
            },
            Command::StartTestcase { description } => CommandView::StartTestcase {
                description: description@,
            },
            Command::StartTest { expected, format, description, channel } => CommandView::StartTest {
                expected: expected@,
                format,
                description: opt_message(description),
                channel: opt_text(channel),
            },
            Command::AppendMessage { message } => CommandView::AppendMessage { message: message@ },
            Command::AnnotateCode {
                row,
                column,
                text,
                external_url,
                type_,
                rows,
                columns,
            } => CommandView::AnnotateCode {
                row,
                column,
                text: text@,
                external_url: opt_text(external_url),
                type_,
                rows,
                columns,
            },
            Command::EscalateStatus { status } => CommandView::EscalateStatus { status: status@ },
            Command::CloseTest { generated, accepted, status } => CommandView::CloseTest {
                generated: generated@,
                accepted,
                status: status@,
            },
            Command::CloseTestcase { accepted } => CommandView::CloseTestcase { accepted },
            Command::CloseContext { accepted } => CommandView::CloseContext { accepted },
            Command::CloseTab { badge_count } => CommandView::CloseTab { badge_count },
            Command::CloseJudgement { accepted, status } => CommandView::CloseJudgement {
                accepted,
                status: opt_status(status),
            },
        }
    }
}

/// The views of a sequence of events, in order.
pub open spec fn events(commands: Seq<Command>) -> Seq<CommandView> {
    commands.map_values(|c: Command| c@)
}

/// Appends one event to a trace.
pub fn emit(out: &mut Vec<Command>, command: Command)
    ensures
        events(final(out)@) == events(old(out)@).push(command@),
{
    out.push(command);
    assert(events(out@) =~= events(old(out)@).push(command@));
}

} // verus!
