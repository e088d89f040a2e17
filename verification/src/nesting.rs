//! The nesting discipline of a judgement trace.
//!
//! A trace opens and closes levels like brackets: a judgement holds tabs or
//! contexts, a tab holds contexts, a context holds testcases, a testcase
//! holds tests. Every close must close the level opened last.

use vstd::prelude::*;
use crate::protocol::{Command, CommandView, events};

verus! {

/// A level of the judgement hierarchy.
#[derive(Debug, PartialEq, Eq, Clone, Copy, Structural)]
pub enum Level {
    Judgement,
    Tab,
    Context,
    Testcase,
    Test,
}

/// What an event does to the open levels.
#[derive(Debug, PartialEq, Eq, Clone, Copy, Structural)]
pub enum Move {
    Open(Level),
    Close(Level),
    Stay,
}

/// Whether a level may be opened directly inside another.
pub open spec fn nests_in(child: Level, parent: Level) -> bool {
    match child {
        Level::Judgement => false,
        Level::Tab => parent == Level::Judgement,
        Level::Context => parent == Level::Judgement || parent == Level::Tab,
        Level::Testcase => parent == Level::Context,
        Level::Test => parent == Level::Testcase,
    }
}

/// What `event` does to the open levels. Messages, annotations and escalated
/// statuses open and close nothing.
pub open spec fn movement(event: CommandView) -> Move {
    match event {
        CommandView::StartJudgement => Move::Open(Level::Judgement),
        CommandView::StartTab { .. } => Move::Open(Level::Tab),
        CommandView::StartContext { .. } => Move::Open(Level::Context),
        CommandView::StartTestcase { .. } => Move::Open(Level::Testcase),
        CommandView::StartTest { .. } => Move::Open(Level::Test),
        CommandView::CloseTest { .. } => Move::Close(Level::Test),
        CommandView::CloseTestcase { .. } => Move::Close(Level::Testcase),
        CommandView::CloseContext { .. } => Move::Close(Level::Context),
        CommandView::CloseTab { .. } => Move::Close(Level::Tab),
        CommandView::CloseJudgement { .. } => Move::Close(Level::Judgement),
        CommandView::AppendMessage { .. } => Move::Stay,
        CommandView::AnnotateCode { .. } => Move::Stay,
        CommandView::EscalateStatus { .. } => Move::Stay,
    }
}

/// The open levels after a move, innermost last, or `None` where the move is
/// not allowed. A level opens inside a level that may hold it, or as the
/// outermost level of a piece of trace. A level closes only while it is the
/// innermost open one.
pub open spec fn step(open: Seq<Level>, m: Move) -> Option<Seq<Level>> {
    match m {
        Move::Open(level) => if open.len() == 0 || nests_in(level, open.last()) {
            Some(open.push(level))
        } else {
            None
        },
        Move::Close(level) => if open.len() > 0 && open.last() == level {
            Some(open.drop_last())
        } else {
            None
        },
        Move::Stay => Some(open),
    }
}

/// The open levels after a piece of trace that starts with the levels `open`
/// open, or `None` where one of its events is not allowed.
pub open spec fn fold(open: Seq<Level>, trace: Seq<CommandView>) -> Option<Seq<Level>>
    decreases trace.len(),
{
    if trace.len() == 0 {
        Some(open)
    } else {
        match step(open, movement(trace[0])) {
            Some(next) => fold(next, trace.drop_first()),
            None => None,
        }
    }
}

/// Whether a piece of trace is well nested: read from its start with nothing
/// open, no close comes without its open, and at its end nothing is left
/// open.
pub open spec fn well_nested(trace: Seq<CommandView>) -> bool {
    fold(Seq::empty(), trace) == Some(Seq::<Level>::empty())
}

/// Folding two pieces of trace one after the other is folding their
/// concatenation.
pub proof fn lemma_fold_concat(open: Seq<Level>, first: Seq<CommandView>, second: Seq<CommandView>)
    ensures
        fold(open, first + second) == match fold(open, first) {
            Some(mid) => fold(mid, second),
            None => None,
        },
    decreases first.len(),
{
    if first.len() == 0 {
        assert(first + second =~= second);
    } else {
        assert((first + second)[0] == first[0]);
        assert((first + second).drop_first() =~= first.drop_first() + second);
        match step(open, movement(first[0])) {
            Some(next) => {
                lemma_fold_concat(next, first.drop_first(), second);
            },
            None => {},
        }
    }
}

/// The level an open event opens, the level a close event closes.
fn movement_of(command: &Command) -> (m: Move)
    ensures
        m == movement(command@),
{
    match command {
        Command::StartJudgement => Move::Open(Level::Judgement),
        Command::StartTab { .. } => Move::Open(Level::Tab),
        Command::StartContext { .. } => Move::Open(Level::Context),
        Command::StartTestcase { .. } => Move::Open(Level::Testcase),
        Command::StartTest { .. } => Move::Open(Level::Test),
        Command::CloseTest { .. } => Move::Close(Level::Test),
        Command::CloseTestcase { .. } => Move::Close(Level::Testcase),
        Command::CloseContext { .. } => Move::Close(Level::Context),
        Command::CloseTab { .. } => Move::Close(Level::Tab),
        Command::CloseJudgement { .. } => Move::Close(Level::Judgement),
        Command::AppendMessage { .. } => Move::Stay,
        Command::AnnotateCode { .. } => Move::Stay,
        Command::EscalateStatus { .. } => Move::Stay,
    }
}

/// Whether `child` may be opened directly inside `parent`.
fn may_nest(child: Level, parent: Level) -> (r: bool)
    ensures
        r == nests_in(child, parent),
{
    match child {
        Level::Judgement => false,
        Level::Tab => parent == Level::Judgement,
        Level::Context => parent == Level::Judgement || parent == Level::Tab,
        Level::Testcase => parent == Level::Context,
        Level::Test => parent == Level::Testcase,
    }
}

/// Checks a trace against the nesting discipline.
pub fn is_well_nested(trace: &Vec<Command>) -> (r: bool)
    ensures
        r == well_nested(events(trace@)),
{
    let ghost all = events(trace@);
    let mut open: Vec<Level> = Vec::new();
    let mut i: usize = 0;
    assert(all.skip(0) =~= all);
    assert(open@ =~= Seq::empty());
    while i < trace.len()
        invariant
            i <= trace.len(),
            all == events(trace@),
            fold(Seq::empty(), all) == fold(open@, all.skip(i as int)),
        decreases trace.len() - i,
    {
        proof {
            let rest = all.skip(i as int);
            assert(rest.drop_first() =~= all.skip(i + 1));
            assert(rest[0] == trace@[i as int]@);
        }
        match movement_of(&trace[i]) {
            Move::Open(level) => {
                if open.len() > 0 && !may_nest(level, open[open.len() - 1]) {
                    return false;
                }
                open.push(level);
            },
            Move::Close(level) => {
                if open.len() == 0 || open[open.len() - 1] != level {
                    return false;
                }
                open.pop();
            },
            Move::Stay => {},
        }
        i += 1;
    }
    assert(all.skip(i as int) =~= Seq::<CommandView>::empty());
    assert(open.len() == 0 <==> open@ =~= Seq::<Level>::empty());
    open.len() == 0
}

} // verus!
