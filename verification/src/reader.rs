//! Reading a manifest from the text of a container build file.

use vstd::prelude::*;
use crate::config::Config;
use crate::evaluator::{evaluate, evaluation};
use crate::grammar::{comments_in, comments_of, expose_argument, parse_expose_argument};
use crate::manifest::{
    Directive, directives, DirectiveView, ExposeInstruction, ExposeInstructionView, Fragment,
    FromInstruction, FromInstructionView, join_literal_text, literal_text, Manifest, ManifestView,
    MiscInstruction, MiscInstructionView, Stage, stages,
};
use crate::nesting::well_nested;
use crate::protocol::{Command, events};
use crate::text::eq_ignoring_ascii_case;

verus! {

/// A parsed container build file of the `dockerfile_parser` crate.
#[verifier::external_type_specification]
#[verifier::external_body]
pub struct ExDockerfile(dockerfile_parser::Dockerfile);

/// An instruction of a parsed container build file.
#[verifier::external_type_specification]
#[verifier::external_body]
pub struct ExInstruction(dockerfile_parser::Instruction);

/// The error of the `dockerfile_parser` crate.
#[verifier::external_type_specification]
#[verifier::external_body]
pub struct ExError(dockerfile_parser::Error);

/// What `dockerfile_parser::Dockerfile::parse` makes of a text: the
/// instructions of the parsed file stage by stage, or `None` where it reports
/// an error.
pub uninterp spec fn parsed(text: Seq<char>) -> Option<Seq<Seq<dockerfile_parser::Instruction>>>;

/// The instructions that a parsed file holds, stage by stage as
/// `Dockerfile::iter_stages` hands them out.
pub uninterp spec fn stages_of(file: dockerfile_parser::Dockerfile) -> Seq<
    Seq<dockerfile_parser::Instruction>,
>;

/// What a `FROM` instruction holds of its image reference; `None` for any
/// other instruction.
pub uninterp spec fn from_of(instruction: dockerfile_parser::Instruction) -> Option<
    FromInstructionView,
>;

/// What a miscellaneous instruction holds; `None` for any other instruction.
pub uninterp spec fn misc_of(instruction: dockerfile_parser::Instruction) -> Option<
    MiscInstructionView,
>;

/// `Dockerfile::parse`: parses the text of a container build file. The
/// outcome depends on the text alone.
#[verifier::external_body]
fn parse(text: &str) -> (r: Result<dockerfile_parser::Dockerfile, dockerfile_parser::Error>)
    ensures
        match r {
            Ok(file) => parsed(text@) == Some(stages_of(file)),
            Err(_) => parsed(text@) is None,
        },
{
    dockerfile_parser::Dockerfile::parse(text)
}

/// `Dockerfile::iter_stages`: the build stages of a parsed file in source
/// order, each as the list of its instructions.
#[verifier::external_body]
fn stage_instructions<'a>(file: &'a dockerfile_parser::Dockerfile) -> (r: Vec<
    Vec<&'a dockerfile_parser::Instruction>,
>)
    ensures
        r@.len() == stages_of(*file).len(),
        forall|s: int|
            0 <= s < r@.len() ==> (#[trigger] r@[s])@.len() == stages_of(*file)[s].len(),
        forall|s: int, i: int|
            0 <= s < r@.len() && 0 <= i < r@[s]@.len() ==> *(#[trigger] r@[s]@[i]) == stages_of(
                *file,
            )[s][i],
{
    file.iter_stages().map(|stage| stage.instructions).collect()
}

/// `Instruction::as_from`: the image, tag and digest of the parsed image
/// reference of a `FROM` instruction; `None` for any other instruction.
#[verifier::external_body]
fn as_from(instruction: &dockerfile_parser::Instruction) -> (r: Option<FromInstruction>)
    ensures
        match r {
            Some(from) => from_of(*instruction) == Some(from@),
            None => from_of(*instruction) is None,
        },
{
    instruction.as_from().map(
        |from|
            FromInstruction {
                image: from.image_parsed.image.clone(),
                tag: from.image_parsed.tag.clone(),
                digest: from.image_parsed.hash.clone(),
            },
    )
}

/// `Instruction::as_misc`: the name of a miscellaneous instruction and the
/// components of its argument in order, strings as text and comments as
/// comments; `None` for any other instruction.
#[verifier::external_body]
fn as_misc(instruction: &dockerfile_parser::Instruction) -> (r: Option<MiscInstruction>)
    ensures
        match r {
            Some(misc) => misc_of(*instruction) == Some(misc@),
            None => misc_of(*instruction) is None,
        },
{
    instruction.as_misc().map(
        |misc|
            MiscInstruction {
                name: misc.instruction.content.clone(),
                arguments: misc.arguments.components.iter().map(
                    |component|
                        match component {
                            dockerfile_parser::BreakableStringComponent::String(s) =>
                                Fragment::Text(s.content.clone()),
                            dockerfile_parser::BreakableStringComponent::Comment(c) =>
                                Fragment::Comment(c.content.clone()),
                        },
                ).collect(),
            },
    )
}

/// The `Display` of the parser's error: its message.
#[verifier::external_body]
fn describe(error: &dockerfile_parser::Error) -> String {
    error.to_string()
}

/// Why a text could not be read as a manifest.
#[derive(Debug, PartialEq, Eq, Clone)]
pub struct ManifestError {
    /// The parser's message.
    pub message: String,
}

/// The directive that a miscellaneous instruction stands for: an `EXPOSE`
/// instruction, whatever the case of its name, declares the ports of its
/// literal argument; any other instruction stays generic.
pub open spec fn modeled_misc(misc: MiscInstructionView) -> DirectiveView {
    if eq_ignoring_ascii_case("EXPOSE"@, misc.name) {
        DirectiveView::Expose(
            ExposeInstructionView { ports: expose_argument(literal_text(misc.arguments)) },
        )
    } else {
        DirectiveView::Misc(misc)
    }
}

/// The directive that a parsed instruction stands for, if the checks read
/// instructions of its kind.
pub open spec fn modeled(instruction: dockerfile_parser::Instruction) -> Option<DirectiveView> {
    match from_of(instruction) {
        Some(from) => Some(DirectiveView::From(from)),
        None => match misc_of(instruction) {
            Some(misc) => Some(modeled_misc(misc)),
            None => None,
        },
    }
}

/// The directives of a stage: those that its parsed instructions stand for,
/// in order.
pub open spec fn modeled_stage(list: Seq<dockerfile_parser::Instruction>) -> Seq<DirectiveView>
    decreases list.len(),
{
    if list.len() == 0 {
        Seq::empty()
    } else {
        modeled_stage(list.drop_last()) + match modeled(list.last()) {
            Some(directive) => seq![directive],
            None => Seq::empty(),
        }
    }
}

/// The manifest that the parsed stages of a source text and the text itself
/// stand for.
pub open spec fn manifest_of(
    parsed_stages: Seq<Seq<dockerfile_parser::Instruction>>,
    text: Seq<char>,
) -> ManifestView {
    ManifestView {
        stages: parsed_stages.map_values(
            |list: Seq<dockerfile_parser::Instruction>| modeled_stage(list),
        ),
        comments: comments_in(text),
    }
}

/// Turns a miscellaneous instruction into the directive it stands for.
pub fn classify(misc: MiscInstruction) -> (r: Directive)
    ensures
        r@ == modeled_misc(misc@),
{
    if "EXPOSE".eq_ignore_ascii_case(misc.name.as_str()) {
        let argument = join_literal_text(&misc.arguments);
        Directive::Expose(ExposeInstruction { ports: parse_expose_argument(argument.as_str()) })
    } else {
        Directive::Misc(misc)
    }
}

/// The instructions behind a list of borrowed instructions.
pub open spec fn pointees(list: Seq<&dockerfile_parser::Instruction>) -> Seq<
    dockerfile_parser::Instruction,
> {
    list.map_values(|i: &dockerfile_parser::Instruction| *i)
}

/// Turns the parsed instructions of a stage into a stage of directives.
fn convert_stage(list: &Vec<&dockerfile_parser::Instruction>) -> (r: Stage)
    ensures
        r@ == modeled_stage(pointees(list@)),
{
    let ghost all = pointees(list@);
    let mut r: Vec<Directive> = Vec::new();
    let mut i: usize = 0;
    assert(directives(r@) =~= modeled_stage(all.take(0)));
    while i < list.len()
        invariant
            i <= list.len(),
            all == pointees(list@),
            directives(r@) == modeled_stage(all.take(i as int)),
        decreases list.len() - i,
    {
        proof {
            let next = all.take(i + 1);
            assert(next.drop_last() =~= all.take(i as int));
            assert(next.last() == *list@[i as int]);
        }
        let ghost so_far = directives(r@);
        let directive = match as_from(list[i]) {
            Some(from) => Some(Directive::From(from)),
            None => match as_misc(list[i]) {
                Some(misc) => Some(classify(misc)),
                None => None,
            },
        };
        match directive {
            Some(directive) => {
                r.push(directive);
                assert(directives(r@) =~= so_far + seq![directive@]);
            },
            None => {
                assert(so_far + Seq::<DirectiveView>::empty() =~= so_far);
            },
        }
        i += 1;
    }
    assert(all.take(i as int) =~= all);
    Stage { instructions: r }
}

/// The manifest that a parsed file and the text it was parsed from stand
/// for: the stages of the file with their `FROM`, `EXPOSE` and generic
/// instructions, and the comment lines of the text.
pub fn manifest_from(file: &dockerfile_parser::Dockerfile, text: &str) -> (r: Manifest)
    ensures
        r@ == manifest_of(stages_of(*file), text@),
{
    let lists = stage_instructions(file);
    let ghost wanted = manifest_of(stages_of(*file), text@).stages;
    let mut converted: Vec<Stage> = Vec::new();
    let mut s: usize = 0;
    assert(stages(converted@) =~= wanted.take(0));
    while s < lists.len()
        invariant
            s <= lists.len(),
            lists@.len() == stages_of(*file).len(),
            forall|k: int|
                0 <= k < lists@.len() ==> (#[trigger] lists@[k])@.len() == stages_of(*file)[k].len(),
            forall|k: int, i: int|
                0 <= k < lists@.len() && 0 <= i < lists@[k]@.len() ==> *(#[trigger] lists@[k]@[i])
                    == stages_of(*file)[k][i],
            wanted == manifest_of(stages_of(*file), text@).stages,
            stages(converted@) == wanted.take(s as int),
        decreases lists.len() - s,
    {
        let stage = convert_stage(&lists[s]);
        assert(pointees(lists@[s as int]@) =~= stages_of(*file)[s as int]);
        let ghost so_far = stages(converted@);
        converted.push(stage);
        assert(stages(converted@) =~= so_far.push(stage@));
        assert(wanted.take(s + 1) =~= wanted.take(s as int).push(wanted[s as int]));
        s += 1;
    }
    assert(wanted.take(s as int) =~= wanted);
    Manifest { stages: converted, comments: comments_of(text) }
}

/// Reads a manifest from the text of a container build file. It fails
/// exactly where the parser rejects the text.
pub fn read_manifest(text: &str) -> (r: Result<Manifest, ManifestError>)
    ensures
        match parsed(text@) {
            Some(lists) => r matches Ok(manifest) && manifest@ == manifest_of(lists, text@),
            None => r is Err,
        },
{
    match parse(text) {
        Ok(file) => Ok(manifest_from(&file, text)),
        Err(error) => Err(ManifestError { message: describe(&error) }),
    }
}

/// Reads the text of a container build file and holds it against the
/// expectations: the trace of the evaluation of the manifest that the text
/// stands for, or an error where the parser rejects the text.
pub fn analyze(containerfile: &str, config: &Config) -> (r: Result<Vec<Command>, ManifestError>)
    ensures
        match parsed(containerfile@) {
            Some(lists) => r matches Ok(out) && events(out@) == evaluation(
                manifest_of(lists, containerfile@),
                config@,
            ) && well_nested(events(out@)),
            None => r is Err,
        },
{
    match read_manifest(containerfile) {
        Ok(manifest) => Ok(evaluate(&manifest, config)),
        Err(error) => Err(error),
    }
}

} // verus!
