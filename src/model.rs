use vstd::prelude::*;

use crate::paths::{link_path, profile_path};
use crate::store::{
    activate_plan, active_profile, config_dir_plan, create_plan, remove_plan, Failure, Step,
};

verus! {

/// What stands at a path of the filesystem.
pub enum Node {
    /// A regular file and its content.
    File(Seq<u8>),
    Dir,
    /// A symbolic link and the path it points at.
    Link(Seq<char>),
}

/// A filesystem: each path that has an entry, and what stands there.
pub type Tree = Map<Seq<char>, Node>;

/// How many links a lookup follows before it gives up, as the system does.
pub open spec fn link_budget() -> nat {
    40
}

/// The path that `p` leads to once links are followed, with at most `budget`
/// of them; `None` when the budget runs out first.
pub open spec fn follow(fs: Tree, p: Seq<char>, budget: nat) -> Option<Seq<char>>
    decreases budget,
{
    if fs.contains_key(p) && fs[p] is Link {
        if budget == 0 {
            None
        } else {
            follow(fs, fs[p]->Link_0, (budget - 1) as nat)
        }
    } else {
        Some(p)
    }
}

/// The path that `p` leads to once links are followed.
pub open spec fn resolve(fs: Tree, p: Seq<char>) -> Option<Seq<char>> {
    follow(fs, p, link_budget())
}

/// `p` leads to an existing regular file (following links).
pub open spec fn is_file(fs: Tree, p: Seq<char>) -> bool {
    resolve(fs, p) matches Some(q) && fs.contains_key(q) && fs[q] is File
}

/// `p` leads to an existing directory (following links).
pub open spec fn is_dir(fs: Tree, p: Seq<char>) -> bool {
    resolve(fs, p) matches Some(q) && fs.contains_key(q) && fs[q] is Dir
}

/// The target of the link at `p`, if a link stands there.
pub open spec fn link_target(fs: Tree, p: Seq<char>) -> Option<Seq<char>> {
    if fs.contains_key(p) && fs[p] is Link {
        Some(fs[p]->Link_0)
    } else {
        None
    }
}

/// What reading `p` gives (following links).
pub open spec fn read_file(fs: Tree, p: Seq<char>) -> Option<Seq<u8>> {
    if is_file(fs, p) {
        Some(fs[resolve(fs, p)->0]->File_0)
    } else {
        None
    }
}

/// Writing `content` to `p` (following links); `None` where the write fails:
/// the lookup gives up, or a directory stands at the end.
pub open spec fn write_file(fs: Tree, p: Seq<char>, content: Seq<u8>) -> Option<Tree> {
    match resolve(fs, p) {
        Some(q) => if !fs.contains_key(q) || fs[q] is File {
            Some(fs.insert(q, Node::File(content)))
        } else {
            None
        },
        None => None,
    }
}

/// Some entry lies inside the directory `p`.
pub open spec fn has_entry_below(fs: Tree, p: Seq<char>) -> bool {
    exists|q: Seq<char>|
        #![trigger fs.contains_key(q)]
        fs.contains_key(q) && q.len() > p.len() && q.subrange(0, p.len() + 1int) == p.push('/')
}

/// Removing what stands at `p` would fail: a directory that is not empty.
pub open spec fn blocks_removal(fs: Tree, p: Seq<char>) -> bool {
    fs.contains_key(p) && fs[p] is Dir && has_entry_below(fs, p)
}

/// The filesystem after one step, or `None` where the step fails and the
/// operation reports an I/O error. Creating a directory over anything but a
/// directory fails, as does creating a file or a link where any entry (a
/// dangling link included) stands, or removing what is absent or a directory
/// that is not empty. Parent directories are not modelled. An editor run
/// leaves the entries as they are; what it writes into the file is not
/// modelled.
pub open spec fn perform(fs: Tree, s: Step) -> Option<Tree> {
    match s {
        Step::CreateDirAll(p) => if is_dir(fs, p) {
            Some(fs)
        } else if fs.contains_key(p) {
            None
        } else {
            Some(fs.insert(p, Node::Dir))
        },
        Step::CreateFile(p) => if fs.contains_key(p) {
            None
        } else {
            Some(fs.insert(p, Node::File(Seq::empty())))
        },
        Step::RemoveEntry(p) => if !fs.contains_key(p) || blocks_removal(fs, p) {
            None
        } else {
            Some(fs.remove(p))
        },
        Step::Symlink { target, link } => if fs.contains_key(link) {
            None
        } else {
            Some(fs.insert(link, Node::Link(target)))
        },
        Step::RunEditor { .. } => Some(fs),
    }
}

/// The filesystem after the steps have been carried out in order, or `None`
/// where one of them fails (the later ones are then not tried).
pub open spec fn perform_all(fs: Tree, steps: Seq<Step>) -> Option<Tree>
    decreases steps.len(),
{
    if steps.len() == 0 {
        Some(fs)
    } else {
        match perform(fs, steps[0]) {
            Some(next) => perform_all(next, steps.drop_first()),
            None => None,
        }
    }
}

/// The filesystem after an outcome: a refusal changes nothing; `None` where
/// carrying out the plan fails.
pub open spec fn after(fs: Tree, plan: Result<Seq<Step>, Failure>) -> Option<Tree> {
    match plan {
        Ok(steps) => perform_all(fs, steps),
        Err(_) => Some(fs),
    }
}

/// Making sure that the config root exists, on `fs`.
pub open spec fn init_on(fs: Tree, config_dir: Seq<char>) -> Seq<Step> {
    config_dir_plan(config_dir, is_dir(fs, config_dir))
}

/// Creating the profile `name`, on `fs`.
pub open spec fn create_on(fs: Tree, config_dir: Seq<char>, name: Seq<char>) -> Result<
    Seq<Step>,
    Failure,
> {
    create_plan(config_dir, name, is_file(fs, profile_path(config_dir, name)))
}

/// Removing the profile `name`, on `fs`.
pub open spec fn remove_on(fs: Tree, config_dir: Seq<char>, name: Seq<char>) -> Result<
    Seq<Step>,
    Failure,
> {
    remove_plan(config_dir, name, is_file(fs, profile_path(config_dir, name)))
}

/// Activating the profile `name`, on `fs`; whether something stands at the
/// link path is asked without following it.
pub open spec fn activate_on(
    fs: Tree,
    config_dir: Seq<char>,
    home_dir: Seq<char>,
    name: Seq<char>,
) -> Result<Seq<Step>, Failure> {
    activate_plan(
        config_dir,
        home_dir,
        name,
        is_file(fs, profile_path(config_dir, name)),
        fs.contains_key(link_path(home_dir)),
    )
}

/// The status query, on `fs`.
pub open spec fn status_on(fs: Tree, config_dir: Seq<char>, home_dir: Seq<char>) -> Option<
    Seq<char>,
> {
    let t = link_target(fs, link_path(home_dir));
    active_profile(
        config_dir,
        t,
        match t {
            Some(x) => is_file(fs, x),
            None => false,
        },
    )
}

} // verus!
