use vstd::prelude::*;

use crate::paths::{chars_of, same_text, string_of};
use crate::store::{Failure, StoreError};

verus! {

/// One request to the profile store.
#[derive(Debug, Clone, PartialEq, Eq)]
pub enum Command {
    Create { profile: String },
    List,
    Open { profile: String, editor: String },
    Activate { profile: String },
    Status,
    Remove { profile: String },
}

/// What a `Command` says, over character sequences.
pub enum Request {
    Create(Seq<char>),
    List,
    Open { profile: Seq<char>, editor: Seq<char> },
    Activate(Seq<char>),
    Status,
    Remove(Seq<char>),
}

impl View for Command {
    type V = Request;

    open spec fn view(&self) -> Request {
        match self {
            Command::Create { profile } => Request::Create(profile@),
            Command::List => Request::List,
            Command::Open { profile, editor } => Request::Open {
                profile: profile@,
                editor: editor@,
            },
            Command::Activate { profile } => Request::Activate(profile@),
            Command::Status => Request::Status,
            Command::Remove { profile } => Request::Remove(profile@),
        }
    }
}

/// The editor used when none is named.
pub open spec fn default_editor() -> Seq<char> {
    "vi"@
}

/// The profile name a request carries: present and not empty.
pub open spec fn profile_arg(profile: Option<Seq<char>>) -> Result<Seq<char>, Failure> {
    match profile {
        Some(p) => if p.len() > 0 {
            Ok(p)
        } else {
            Err(Failure::InvalidArgument("missing profile name"@))
        },
        None => Err(Failure::InvalidArgument("missing profile name"@)),
    }
}

/// The request that a subcommand name and its arguments make. An empty name
/// means that no subcommand was given.
pub open spec fn request_of(
    name: Seq<char>,
    profile: Option<Seq<char>>,
    editor: Option<Seq<char>>,
) -> Result<Request, Failure> {
    if name == "list"@ {
        Ok(Request::List)
    } else if name == "status"@ {
        Ok(Request::Status)
    } else if name == "create"@ || name == "open"@ || name == "activate"@ || name == "remove"@ {
        match profile_arg(profile) {
            Err(e) => Err(e),
            Ok(p) => if name == "create"@ {
                Ok(Request::Create(p))
            } else if name == "activate"@ {
                Ok(Request::Activate(p))
            } else if name == "remove"@ {
                Ok(Request::Remove(p))
            } else {
                Ok(
                    Request::Open {
                        profile: p,
                        editor: match editor {
                            Some(e) => e,
                            None => default_editor(),
                        },
                    },
                )
            },
        }
    } else if name.len() == 0 {
        Err(Failure::InvalidArgument("no subcommand was used"@))
    } else {
        Err(Failure::InvalidArgument("unknown subcommand"@))
    }
}

/// What a parse outcome says, over character sequences.
pub open spec fn parsed_view(r: Result<Command, StoreError>) -> Result<Request, Failure> {
    match r {
        Ok(c) => Ok(c@),
        Err(e) => Err(e@),
    }
}

fn invalid(message: &str) -> (r: StoreError)
    ensures
        r@ == Failure::InvalidArgument(message@),
{
    StoreError::InvalidArgument { message: string_of(&chars_of(message)) }
}

fn copy_text(s: &str) -> (r: String)
    ensures
        r@ == s@,
{
    string_of(&chars_of(s))
}

/// Turns the subcommand name and its arguments into a request; an empty
/// `name` means that no subcommand was given.
pub fn parse_command(name: &str, profile: Option<&str>, editor: Option<&str>) -> (r: Result<
    Command,
    StoreError,
>)
    ensures
        parsed_view(r) == request_of(
            name@,
            match profile {
                Some(p) => Some(p@),
                None => None,
            },
            match editor {
                Some(e) => Some(e@),
                None => None,
            },
        ),
{
    if same_text(name, "list") {
        return Ok(Command::List);
    }
    if same_text(name, "status") {
        return Ok(Command::Status);
    }
    let is_create = same_text(name, "create");
    let is_open = same_text(name, "open");
    let is_activate = same_text(name, "activate");
    let is_remove = same_text(name, "remove");
    if !(is_create || is_open || is_activate || is_remove) {
        if name.is_empty() {
            return Err(invalid("no subcommand was used"));
        }
        return Err(invalid("unknown subcommand"));
    }
    let p = match profile {
        Some(p) => {
            if p.is_empty() {
                return Err(invalid("missing profile name"));
            }
            copy_text(p)
        },
        None => {
            return Err(invalid("missing profile name"));
        },
    };
    if is_create {
        Ok(Command::Create { profile: p })
    } else if is_activate {
        Ok(Command::Activate { profile: p })
    } else if is_remove {
        Ok(Command::Remove { profile: p })
    } else {
        let e = match editor {
            Some(e) => copy_text(e),
            None => copy_text("vi"),
        };
        Ok(Command::Open { profile: p, editor: e })
    }
}

} // verus!
