use vstd::prelude::*;

use crate::paths::{
    active_link_path, build_file_path, chars_of, config_root, file_name_under, file_under_dir,
    link_path, opt_text, profile_file_path, profile_path, string_of,
};

verus! {

/// Why an operation on the profile store did not happen.
#[derive(Debug, Clone, PartialEq, Eq)]
pub enum StoreError {
    /// The referenced profile file is absent.
    NotFound { path: String },
    /// The file that `create` would make is already there.
    AlreadyExists { path: String },
    /// Creating, reading, deleting or linking on disk failed.
    Io { message: String },
    /// The request is malformed (no subcommand, no profile name).
    InvalidArgument { message: String },
    /// The user's home directory could not be determined.
    HomeDirectoryUnresolved,
}

/// What a `StoreError` says, over character sequences.
pub enum Failure {
    NotFound(Seq<char>),
    AlreadyExists(Seq<char>),
    Io(Seq<char>),
    InvalidArgument(Seq<char>),
    HomeDirectoryUnresolved,
}

impl View for StoreError {
    type V = Failure;

    open spec fn view(&self) -> Failure {
        match self {
            StoreError::NotFound { path } => Failure::NotFound(path@),
            StoreError::AlreadyExists { path } => Failure::AlreadyExists(path@),
            StoreError::Io { message } => Failure::Io(message@),
            StoreError::InvalidArgument { message } => Failure::InvalidArgument(message@),
            StoreError::HomeDirectoryUnresolved => Failure::HomeDirectoryUnresolved,
        }
    }
}

/// One change to the filesystem (or the one blocking editor run) that an
/// operation asks its caller to carry out, in order.
#[derive(Debug, Clone, PartialEq, Eq)]
pub enum Action {
    /// Create the directory and any missing parents.
    CreateDirAll { path: String },
    /// Create an empty file.
    CreateFile { path: String },
    /// Remove the file, link or empty directory at the path.
    RemoveEntry { path: String },
    /// Create a symbolic link at `link` that points at `target`.
    Symlink { target: String, link: String },
    /// Run `editor` on the file at `path` and wait for it to finish.
    RunEditor { editor: String, path: String },
}

/// What an `Action` says, over character sequences.
pub enum Step {
    CreateDirAll(Seq<char>),
    CreateFile(Seq<char>),
    RemoveEntry(Seq<char>),
    Symlink { target: Seq<char>, link: Seq<char> },
    RunEditor { editor: Seq<char>, path: Seq<char> },
}

impl View for Action {
    type V = Step;

    open spec fn view(&self) -> Step {
        match self {
            Action::CreateDirAll { path } => Step::CreateDirAll(path@),
            Action::CreateFile { path } => Step::CreateFile(path@),
            Action::RemoveEntry { path } => Step::RemoveEntry(path@),
            Action::Symlink { target, link } => Step::Symlink { target: target@, link: link@ },
            Action::RunEditor { editor, path } => Step::RunEditor { editor: editor@, path: path@ },
        }
    }
}

/// The steps that a list of actions stands for.
pub open spec fn steps_of(v: Seq<Action>) -> Seq<Step> {
    v.map_values(|a: Action| a@)
}

/// What an operation's outcome says, over character sequences.
pub open spec fn plan_view(r: Result<Vec<Action>, StoreError>) -> Result<Seq<Step>, Failure> {
    match r {
        Ok(v) => Ok(steps_of(v@)),
        Err(e) => Err(e@),
    }
}

/// The two fixed places the store works in.
#[derive(Debug, Clone, PartialEq, Eq)]
pub struct ConfigPaths {
    /// The user's home directory, which holds the active link.
    pub home_dir: String,
    /// The config root, `.rnpmrc` in the home directory, which holds the profiles.
    pub config_dir: String,
}

impl ConfigPaths {
    /// The config root is the one that belongs to the home directory.
    pub open spec fn wf(&self) -> bool {
        self.config_dir@ == config_root(self.home_dir@)
    }
}

/// The store's paths for the home directory that was found, if one was.
pub fn get_config_paths(home_dir: Option<String>) -> (r: Result<ConfigPaths, StoreError>)
    ensures
        home_dir matches Some(h) ==> (r matches Ok(c) && c.home_dir@ == h@ && c.wf()),
        home_dir is None ==> (r matches Err(e) && e@ == Failure::HomeDirectoryUnresolved),
{
    match home_dir {
        Some(h) => {
            proof {
                reveal_strlit(".rnpmrc");
                assert(".rnpmrc"@ =~= crate::paths::config_dir_name());
            }
            let config_dir = build_file_path(h.as_str(), ".rnpmrc");
            Ok(ConfigPaths { home_dir: h, config_dir })
        },
        None => Err(StoreError::HomeDirectoryUnresolved),
    }
}

/// Making sure the config root exists: nothing to do when it is a directory.
pub open spec fn config_dir_plan(config_dir: Seq<char>, is_dir: bool) -> Seq<Step> {
    if is_dir {
        seq![]
    } else {
        seq![Step::CreateDirAll(config_dir)]
    }
}

/// Creating a profile: refused when its file is there, else one empty file.
pub open spec fn create_plan(config_dir: Seq<char>, name: Seq<char>, file_exists: bool) -> Result<
    Seq<Step>,
    Failure,
> {
    let p = profile_path(config_dir, name);
    if file_exists {
        Err(Failure::AlreadyExists(p))
    } else {
        Ok(seq![Step::CreateFile(p)])
    }
}

/// Opening a profile: refused when its file is absent, else one editor run.
pub open spec fn open_plan(
    config_dir: Seq<char>,
    name: Seq<char>,
    editor: Seq<char>,
    file_exists: bool,
) -> Result<Seq<Step>, Failure> {
    let p = profile_path(config_dir, name);
    if file_exists {
        Ok(seq![Step::RunEditor { editor, path: p }])
    } else {
        Err(Failure::NotFound(p))
    }
}

/// Removing a profile: refused when its file is absent, else the file goes.
pub open spec fn remove_plan(config_dir: Seq<char>, name: Seq<char>, file_exists: bool) -> Result<
    Seq<Step>,
    Failure,
> {
    let p = profile_path(config_dir, name);
    if file_exists {
        Ok(seq![Step::RemoveEntry(p)])
    } else {
        Err(Failure::NotFound(p))
    }
}

/// Activating a profile: refused when its file is absent, before anything is
/// touched; else whatever stands at the link path goes, and a link to the
/// profile file takes its place.
pub open spec fn activate_plan(
    config_dir: Seq<char>,
    home_dir: Seq<char>,
    name: Seq<char>,
    file_exists: bool,
    link_present: bool,
) -> Result<Seq<Step>, Failure> {
    let p = profile_path(config_dir, name);
    let l = link_path(home_dir);
    if !file_exists {
        Err(Failure::NotFound(p))
    } else if link_present {
        Ok(seq![Step::RemoveEntry(l), Step::Symlink { target: p, link: l }])
    } else {
        Ok(seq![Step::Symlink { target: p, link: l }])
    }
}

/// The file name of the active profile: the link's target must be an
/// existing regular file that lies under the config root, at any depth.
pub open spec fn active_profile(
    config_dir: Seq<char>,
    link_target: Option<Seq<char>>,
    target_is_file: bool,
) -> Option<Seq<char>> {
    match link_target {
        Some(t) => if target_is_file {
            file_under_dir(config_dir, t)
        } else {
            None
        },
        None => None,
    }
}

/// The actions that make sure the config root exists.
pub fn create_config_dir(config_dir: &str, is_dir: bool) -> (r: Vec<Action>)
    ensures
        steps_of(r@) == config_dir_plan(config_dir@, is_dir),
{
    let mut out: Vec<Action> = Vec::new();
    if !is_dir {
        out.push(Action::CreateDirAll { path: string_of(&chars_of(config_dir)) });
    }
    assert(steps_of(out@) =~= config_dir_plan(config_dir@, is_dir));
    out
}

/// Creates a new profile; refused if a file with the same name exists.
pub fn create_profile(profile: &str, config_dir: &str, file_exists: bool) -> (r: Result<
    Vec<Action>,
    StoreError,
>)
    ensures
        plan_view(r) == create_plan(config_dir@, profile@, file_exists),
{
    let path = profile_file_path(config_dir, profile);
    if file_exists {
        return Err(StoreError::AlreadyExists { path });
    }
    let out = vec![Action::CreateFile { path }];
    assert(steps_of(out@) =~= seq![Step::CreateFile(profile_path(config_dir@, profile@))]);
    Ok(out)
}

/// Opens a profile in `editor`; refused if its file does not exist.
pub fn open_profile(profile: &str, config_dir: &str, editor: &str, file_exists: bool) -> (r: Result<
    Vec<Action>,
    StoreError,
>)
    ensures
        plan_view(r) == open_plan(config_dir@, profile@, editor@, file_exists),
{
    let path = profile_file_path(config_dir, profile);
    if !file_exists {
        return Err(StoreError::NotFound { path });
    }
    let out = vec![Action::RunEditor { editor: string_of(&chars_of(editor)), path }];
    assert(steps_of(out@) =~= seq![
        Step::RunEditor { editor: editor@, path: profile_path(config_dir@, profile@) },
    ]);
    Ok(out)
}

/// Removes a profile; refused if its file does not exist.
pub fn remove_profile(profile: &str, config_dir: &str, file_exists: bool) -> (r: Result<
    Vec<Action>,
    StoreError,
>)
    ensures
        plan_view(r) == remove_plan(config_dir@, profile@, file_exists),
{
    let path = profile_file_path(config_dir, profile);
    if !file_exists {
        return Err(StoreError::NotFound { path });
    }
    let out = vec![Action::RemoveEntry { path }];
    assert(steps_of(out@) =~= seq![Step::RemoveEntry(profile_path(config_dir@, profile@))]);
    Ok(out)
}

/// Points the active link at a profile's file, clearing whatever stands at
/// the link path first; refused, with nothing touched, if the profile does
/// not exist.
pub fn activate_profile(
    profile: &str,
    config_dir: &str,
    home_dir: &str,
    file_exists: bool,
    link_present: bool,
) -> (r: Result<Vec<Action>, StoreError>)
    ensures
        plan_view(r) == activate_plan(config_dir@, home_dir@, profile@, file_exists, link_present),
{
    let path = profile_file_path(config_dir, profile);
    let link = active_link_path(home_dir);
    if !file_exists {
        return Err(StoreError::NotFound { path });
    }
    let ghost p = path@;
    let ghost l = link@;
    let mut out: Vec<Action> = Vec::new();
    if link_present {
        out.push(Action::RemoveEntry { path: string_of(&chars_of(link.as_str())) });
    }
    out.push(Action::Symlink { target: path, link });
    if link_present {
        assert(steps_of(out@) =~= seq![Step::RemoveEntry(l), Step::Symlink { target: p, link: l }]);
    } else {
        assert(steps_of(out@) =~= seq![Step::Symlink { target: p, link: l }]);
    }
    Ok(out)
}

/// The file name of the active profile, from what reading the active link
/// gave (`link_target`) and whether that target is an existing regular file.
pub fn show_active_profile(
    config_dir: &str,
    link_target: &Option<String>,
    target_is_file: bool,
) -> (r: Option<String>)
    ensures
        opt_text(r) == active_profile(config_dir@, opt_text(*link_target), target_is_file),
{
    match link_target {
        Some(t) => {
            if target_is_file {
                file_name_under(config_dir, t.as_str())
            } else {
                None
            }
        },
        None => None,
    }
}

/// The line that reports the active profile, or that there is none.
pub open spec fn status_text(active: Option<Seq<char>>) -> Seq<char> {
    match active {
        Some(n) => "\""@ + n + "\" is active"@,
        None => "No active profile"@,
    }
}

/// The line that reports the active profile, or that there is none.
pub fn status_message(active: &Option<String>) -> (r: String)
    ensures
        r@ == status_text(opt_text(*active)),
{
    match active {
        Some(n) => {
            let mut out = chars_of("\"");
            let mut name = chars_of(n.as_str());
            let mut tail = chars_of("\" is active");
            out.append(&mut name);
            out.append(&mut tail);
            string_of(&out)
        },
        None => string_of(&chars_of("No active profile")),
    }
}

} // verus!
