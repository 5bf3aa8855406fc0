//! The decisions taken when one planned move is carried out.
//!
//! The program drives the steps: it starts with `start_rename`, performs
//! what each step asks (look whether the destination exists, ask the user,
//! warn, move) and hands the result to the next function.

use vstd::prelude::*;
use crate::answer::{is_affirmative, is_yes};
use crate::paths::{parent_path, path_parent};

verus! {

/// How moves are carried out.
pub struct RenameOptions {
    /// Ask before each move.
    pub interactive: bool,
    /// Replace an existing destination without asking.
    pub force: bool,
    /// Move nothing.
    pub dry_run: bool,
}

/// A question put to the user.
#[derive(PartialEq, Eq, Structural, Clone, Copy, Debug)]
pub enum Prompt {
    /// The destination exists: replace it?
    Overwrite,
    /// Move this path?
    Rename,
}

/// What to do next for one planned move.
#[derive(PartialEq, Eq, Structural, Clone, Copy, Debug)]
pub enum RenameStep {
    /// Look whether the destination exists, then call
    /// `after_inspection`.
    InspectDestination,
    /// Put the question to the user, then call `after_answer` with the reply.
    Ask(Prompt),
    /// Leave the source where it is and warn that the destination exists.
    SkipExisting,
    /// Create the missing parent directory of the destination, if any (see
    /// `parent_dir_to_prepare`), then move. `overwrite` asks for a warning
    /// that an existing destination is replaced.
    Move { overwrite: bool },
    /// Nothing more to do.
    Finish,
}

/// The first step: a dry run moves nothing.
pub open spec fn first_step(opts: RenameOptions) -> RenameStep {
    if opts.dry_run {
        RenameStep::Finish
    } else {
        RenameStep::InspectDestination
    }
}

/// The step after looking at the destination.
pub open spec fn step_after_destination(opts: RenameOptions, dest_exists: bool) -> RenameStep {
    if dest_exists {
        if opts.interactive {
            RenameStep::Ask(Prompt::Overwrite)
        } else if opts.force {
            RenameStep::Move { overwrite: true }
        } else {
            RenameStep::SkipExisting
        }
    } else if opts.interactive {
        RenameStep::Ask(Prompt::Rename)
    } else {
        RenameStep::Move { overwrite: false }
    }
}

/// The step after the user replied.
pub open spec fn step_after_answer(reply: Seq<char>) -> RenameStep {
    if is_yes(reply) {
        RenameStep::Move { overwrite: false }
    } else {
        RenameStep::Finish
    }
}

/// Whether a planned move ends in a move, given whether the destination
/// exists and what the user would reply if asked.
pub open spec fn rename_moves(opts: RenameOptions, dest_exists: bool, reply: Seq<char>) -> bool {
    match first_step(opts) {
        RenameStep::InspectDestination => match step_after_destination(opts, dest_exists) {
            RenameStep::Ask(_) => step_after_answer(reply) is Move,
            RenameStep::Move { .. } => true,
            _ => false,
        },
        _ => false,
    }
}

/// The first step of a planned move.
pub fn start_rename(opts: &RenameOptions) -> (r: RenameStep)
    ensures
        r == first_step(*opts),
{
    if opts.dry_run {
        RenameStep::Finish
    } else {
        RenameStep::InspectDestination
    }
}

/// The step after looking whether the destination exists: with `-i` the user
/// is asked, with `-f` an existing destination is replaced, and otherwise it
/// is kept and the move skipped.
pub fn after_inspection(opts: &RenameOptions, dest_exists: bool) -> (r: RenameStep)
    ensures
        r == step_after_destination(*opts, dest_exists),
{
    if dest_exists {
        if opts.interactive {
            RenameStep::Ask(Prompt::Overwrite)
        } else if opts.force {
            RenameStep::Move { overwrite: true }
        } else {
            RenameStep::SkipExisting
        }
    } else if opts.interactive {
        RenameStep::Ask(Prompt::Rename)
    } else {
        RenameStep::Move { overwrite: false }
    }
}

/// The step after the user replied to a question: move on yes, stop
/// otherwise.
pub fn after_answer(reply: &str) -> (r: RenameStep)
    ensures
        r == step_after_answer(reply@),
{
    if is_affirmative(reply) {
        RenameStep::Move { overwrite: false }
    } else {
        RenameStep::Finish
    }
}

/// The parent directory that must exist before moving to `new_path`: its
/// parent, unless it has none or the parent is empty (a bare file name).
/// The program creates it, with all its ancestors, where it does not exist.
pub fn parent_dir_to_prepare(new_path: &str) -> (r: Option<String>)
    ensures
        r matches Some(p) ==> parent_path(new_path@) == Some(p@) && p@.len() > 0,
        r is None ==> parent_path(new_path@) is None
            || parent_path(new_path@)->0.len() == 0,
{
    match path_parent(new_path) {
        Some(p) => {
            if p.as_str().is_empty() {
                None
            } else {
                Some(p)
            }
        },
        None => None,
    }
}

impl Prompt {
    /// The question as it is put to the user.
    pub fn message(&self) -> (r: &'static str)
        ensures
            *self == Prompt::Overwrite ==> r@ == "Destination already exists. Overwrite?"@,
            *self == Prompt::Rename ==> r@ == "Perform this rename?"@,
    {
        match self {
            Prompt::Overwrite => "Destination already exists. Overwrite?",
            Prompt::Rename => "Perform this rename?",
        }
    }
}

/// The warning given when an existing destination is replaced.
pub fn overwrite_warning(dest: &str) -> (r: String)
    ensures
        r@ == "Overwriting existing file "@ + dest@,
{
    let mut s = String::from_str("Overwriting existing file ");
    s.append(dest);
    s
}

/// The warning given when a move is skipped because its destination exists.
pub fn skip_warning(dest: &str) -> (r: String)
    ensures
        r@ == "Destination "@ + dest@ + " already exists. Skipping."@,
{
    let mut s = String::from_str("Destination ");
    s.append(dest);
    s.append(" already exists. Skipping.");
    s
}

/// A dry run moves nothing, whatever the destination and the reply.
pub proof fn dry_run_moves_nothing(opts: RenameOptions, dest_exists: bool, reply: Seq<char>)
    requires
        opts.dry_run,
    ensures
        !rename_moves(opts, dest_exists, reply),
{
}

/// An existing destination is replaced only when the user said yes (with
/// `-i`), or with `-f` and without `-i`.
pub proof fn existing_destination_replaced_only_when_allowed(opts: RenameOptions, reply: Seq<char>)
    ensures
        rename_moves(opts, true, reply) <==> !opts.dry_run && (if opts.interactive {
            is_yes(reply)
        } else {
            opts.force
        }),
{
}

/// With `-i`, a path moves exactly when the user says yes (unless it is a
/// dry run, in which case nothing is asked and nothing moves).
pub proof fn interactive_moves_only_on_yes(opts: RenameOptions, dest_exists: bool, reply: Seq<char>)
    requires
        opts.interactive,
    ensures
        rename_moves(opts, dest_exists, reply) <==> !opts.dry_run && is_yes(reply),
{
}

/// Without `-i` and outside a dry run, a path whose destination is free
/// always moves, and nothing is asked.
pub proof fn free_destination_moves_unasked(opts: RenameOptions, reply: Seq<char>)
    requires
        !opts.dry_run,
        !opts.interactive,
    ensures
        rename_moves(opts, false, reply),
        step_after_destination(opts, false) == (RenameStep::Move { overwrite: false }),
{
}

/// A warning about replacing a destination is due exactly when `-f` replaces
/// an existing destination without asking.
pub proof fn overwrite_warning_only_with_force(opts: RenameOptions, dest_exists: bool)
    ensures
        step_after_destination(opts, dest_exists) == (RenameStep::Move { overwrite: true })
            <==> dest_exists && !opts.interactive && opts.force,
{
}

/// With `-i`, the question put names the situation: whether to replace the
/// destination when it exists, whether to move the path when it does not.
/// Without `-i`, nothing is asked; an existing destination is then skipped
/// with a warning exactly when `-f` is not given.
pub proof fn questions_and_skips_fit_the_destination(opts: RenameOptions, dest_exists: bool)
    ensures
        opts.interactive && dest_exists ==> step_after_destination(opts, dest_exists)
            == RenameStep::Ask(Prompt::Overwrite),
        opts.interactive && !dest_exists ==> step_after_destination(opts, dest_exists)
            == RenameStep::Ask(Prompt::Rename),
        !opts.interactive ==> !(step_after_destination(opts, dest_exists) is Ask),
        (step_after_destination(opts, dest_exists) == RenameStep::SkipExisting) <==> (dest_exists
            && !opts.interactive && !opts.force),
        !(step_after_destination(opts, dest_exists) is Finish),
        !(step_after_destination(opts, dest_exists) is InspectDestination),
{
}

/// A reply of `y` or `Y` leads to the move, any other reply ends the planned
/// move with nothing done.
pub proof fn only_yes_leads_to_the_move(reply: Seq<char>)
    ensures
        is_yes(reply) ==> step_after_answer(reply) == (RenameStep::Move { overwrite: false }),
        !is_yes(reply) ==> step_after_answer(reply) == RenameStep::Finish,
{
}

} // verus!
