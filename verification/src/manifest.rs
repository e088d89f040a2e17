//! The manifest as the checks read it: build stages of instructions, and the
//! comments found in the source text.

use vstd::prelude::*;
use crate::config::texts;
use crate::protocol::opt_text;

verus! {

/// A `FROM` instruction: the image a stage is built on.
#[derive(Debug, PartialEq, Eq, Clone)]
pub struct FromInstruction {
    pub image: String,
    pub tag: Option<String>,
    pub digest: Option<String>,
}

/// View of a [`FromInstruction`].
pub struct FromInstructionView {
    pub image: Seq<char>,
    pub tag: Option<Seq<char>>,
    pub digest: Option<Seq<char>>,
}

impl View for FromInstruction {
    type V = FromInstructionView;

    open spec fn view(&self) -> FromInstructionView {
        FromInstructionView {
            image: self.image@,
            tag: opt_text(self.tag),
            digest: opt_text(self.digest),
        }
    }
}

/// One port of an `EXPOSE` instruction. An absent protocol stands for `tcp`.
#[derive(Debug, PartialEq, Eq, Clone)]
pub struct ExposedPort {
    pub port: u16,
    pub protocol: Option<String>,
}

/// View of an [`ExposedPort`].
pub struct ExposedPortView {
    pub port: u16,
    pub protocol: Option<Seq<char>>,
}

impl View for ExposedPort {
    type V = ExposedPortView;

    open spec fn view(&self) -> ExposedPortView {
        ExposedPortView { port: self.port, protocol: opt_text(self.protocol) }
    }
}

/// The views of a list of exposed ports.
pub open spec fn exposed(list: Seq<ExposedPort>) -> Seq<ExposedPortView> {
    list.map_values(|p: ExposedPort| p@)
}

/// An `EXPOSE` instruction: the ports it declares, in order.
#[derive(Debug, PartialEq, Eq, Clone)]
pub struct ExposeInstruction {
    pub ports: Vec<ExposedPort>,
}

/// View of an [`ExposeInstruction`].
pub struct ExposeInstructionView {
    pub ports: Seq<ExposedPortView>,
}

impl View for ExposeInstruction {
    type V = ExposeInstructionView;

    open spec fn view(&self) -> ExposeInstructionView {
        ExposeInstructionView { ports: exposed(self.ports@) }
    }
}

/// A piece of an instruction's argument: literal text, or a comment that
/// stands between two continued lines.
#[derive(Debug, PartialEq, Eq, Clone)]
pub enum Fragment {
    Text(String),
    Comment(String),
}

/// View of a [`Fragment`].
pub enum FragmentView {
    Text(Seq<char>),
    Comment(Seq<char>),
}

impl View for Fragment {
    type V = FragmentView;

    open spec fn view(&self) -> FragmentView {
        match *self {
            Fragment::Text(s) => FragmentView::Text(s@),
            Fragment::Comment(s) => FragmentView::Comment(s@),
        }
    }
}

/// The views of a list of fragments.
pub open spec fn fragments(list: Seq<Fragment>) -> Seq<FragmentView> {
    list.map_values(|f: Fragment| f@)
}

/// The literal text of an argument: its text fragments joined in order, its
/// comments left out.
pub open spec fn literal_text(parts: Seq<FragmentView>) -> Seq<char>
    decreases parts.len(),
{
    if parts.len() == 0 {
        Seq::empty()
    } else {
        literal_text(parts.drop_last()) + match parts.last() {
            FragmentView::Text(t) => t,
            FragmentView::Comment(_) => Seq::empty(),
        }
    }
}

/// Joins the text fragments of an argument.
pub fn join_literal_text(parts: &Vec<Fragment>) -> (r: String)
    ensures
        r@ == literal_text(fragments(parts@)),
{
    let mut r = String::new();
    let mut i: usize = 0;
    while i < parts.len()
        invariant
            i <= parts.len(),
            r@ == literal_text(fragments(parts@).take(i as int)),
        decreases parts.len() - i,
    {
        proof {
            let next = fragments(parts@).take(i + 1);
            assert(next.drop_last() =~= fragments(parts@).take(i as int));
            assert(next.last() == parts@[i as int]@);
        }
        match &parts[i] {
            Fragment::Text(t) => {
                r.append(t.as_str());
            },
            Fragment::Comment(_) => {
                assert(r@ + Seq::<char>::empty() =~= r@);
            },
        }
        i += 1;
    }
    assert(fragments(parts@).take(i as int) =~= fragments(parts@));
    r
}

/// Any instruction that has no model of its own, such as `USER` or
/// `WORKDIR`: its name and the pieces of its argument.
#[derive(Debug, PartialEq, Eq, Clone)]
pub struct MiscInstruction {
    pub name: String,
    pub arguments: Vec<Fragment>,
}

/// View of a [`MiscInstruction`].
pub struct MiscInstructionView {
    pub name: Seq<char>,
    pub arguments: Seq<FragmentView>,
}

impl View for MiscInstruction {
    type V = MiscInstructionView;

    open spec fn view(&self) -> MiscInstructionView {
        MiscInstructionView { name: self.name@, arguments: fragments(self.arguments@) }
    }
}

/// One instruction of a stage.
#[derive(Debug, PartialEq, Eq, Clone)]
pub enum Directive {
    From(FromInstruction),
    Expose(ExposeInstruction),
    Misc(MiscInstruction),
    Comment(String),
}

/// View of an [`Directive`].
pub enum DirectiveView {
    From(FromInstructionView),
    Expose(ExposeInstructionView),
    Misc(MiscInstructionView),
    Comment(Seq<char>),
}

impl View for Directive {
    type V = DirectiveView;

    open spec fn view(&self) -> DirectiveView {
        match *self {
            Directive::From(f) => DirectiveView::From(f@),
            Directive::Expose(e) => DirectiveView::Expose(e@),
            Directive::Misc(m) => DirectiveView::Misc(m@),
            Directive::Comment(c) => DirectiveView::Comment(c@),
        }
    }
}

/// The views of a list of instructions.
pub open spec fn directives(list: Seq<Directive>) -> Seq<DirectiveView> {
    list.map_values(|i: Directive| i@)
}

/// A build stage: its instructions in source order.
#[derive(Debug, PartialEq, Eq, Clone)]
pub struct Stage {
    pub instructions: Vec<Directive>,
}

/// View of a [`Stage`]: the views of its instructions.
impl View for Stage {
    type V = Seq<DirectiveView>;

    open spec fn view(&self) -> Seq<DirectiveView> {
        directives(self.instructions@)
    }
}

/// The views of a list of stages.
pub open spec fn stages(list: Seq<Stage>) -> Seq<Seq<DirectiveView>> {
    list.map_values(|s: Stage| s@)
}

/// A manifest: its build stages in source order, and the comments of its
/// source text.
#[derive(Debug, PartialEq, Eq, Clone)]
pub struct Manifest {
    pub stages: Vec<Stage>,
    pub comments: Vec<String>,
}

/// View of a [`Manifest`].
pub struct ManifestView {
    pub stages: Seq<Seq<DirectiveView>>,
    pub comments: Seq<Seq<char>>,
}

impl View for Manifest {
    type V = ManifestView;

    open spec fn view(&self) -> ManifestView {
        ManifestView { stages: stages(self.stages@), comments: texts(self.comments@) }
    }
}

impl ManifestView {
    /// The instructions that the checks read: those of the last stage, or none
    /// where the manifest has no stage.
    pub open spec fn final_stage(self) -> Seq<DirectiveView> {
        if self.stages.len() == 0 {
            Seq::empty()
        } else {
            self.stages.last()
        }
    }
}

} // verus!
