//! The commands that the wallpaper daemon takes, and the text of each.

use crate::text::{trim, trimmed};
use vstd::prelude::*;

verus! {

/// What an unload command frees: one image, or every image.
#[derive(Debug, Clone, PartialEq, Eq)]
pub enum UnloadTarget {
    Path(String),
    All,
}

/// A command for the wallpaper daemon. A monitor that is not given stands
/// for all monitors; a mode is handed on as it is.
#[derive(Debug, Clone, PartialEq, Eq)]
pub enum Command {
    Preload { path: String },
    Activate { monitor: Option<String>, mode: Option<String>, path: String },
    Unload { target: UnloadTarget },
    Reload { monitor: Option<String>, mode: Option<String>, path: String },
}

/// A command as plain values. An unload without a path unloads all.
pub enum CommandView {
    Preload { path: Seq<char> },
    Activate { monitor: Option<Seq<char>>, mode: Option<Seq<char>>, path: Seq<char> },
    Unload { path: Option<Seq<char>> },
    Reload { monitor: Option<Seq<char>>, mode: Option<Seq<char>>, path: Seq<char> },
}

/// The text of an optional string, if it is there.
pub open spec fn text_of(s: Option<String>) -> Option<Seq<char>> {
    match s {
        Some(t) => Some(t@),
        None => None,
    }
}

impl View for Command {
    type V = CommandView;

    open spec fn view(&self) -> CommandView {
        match *self {
            Command::Preload { path } => CommandView::Preload { path: path@ },
            Command::Activate { monitor, mode, path } => CommandView::Activate {
                monitor: text_of(monitor),
                mode: text_of(mode),
                path: path@,
            },
            Command::Unload { target } => match target {
                UnloadTarget::Path(path) => CommandView::Unload { path: Some(path@) },
                UnloadTarget::All => CommandView::Unload { path: None },
            },
            Command::Reload { monitor, mode, path } => CommandView::Reload {
                monitor: text_of(monitor),
                mode: text_of(mode),
                path: path@,
            },
        }
    }
}

/// The arguments of a command that shows an image: the monitor, empty where
/// none is given, a comma and the path, then a comma and the mode where one
/// is given.
pub open spec fn display_arguments(
    monitor: Option<Seq<char>>,
    mode: Option<Seq<char>>,
    path: Seq<char>,
) -> Seq<char> {
    let monitor_text = match monitor {
        Some(m) => m,
        None => Seq::empty(),
    };
    let mode_text = match mode {
        Some(m) => ","@ + m,
        None => Seq::empty(),
    };
    monitor_text + ","@ + path + mode_text
}

/// The text of a command: its verb, a space and its arguments.
pub open spec fn encoded(command: CommandView) -> Seq<char> {
    match command {
        CommandView::Preload { path } => "preload "@ + path,
        CommandView::Activate { monitor, mode, path } => "wallpaper "@ + display_arguments(
            monitor,
            mode,
            path,
        ),
        CommandView::Unload { path } => "unload "@ + match path {
            Some(p) => p,
            None => "all"@,
        },
        CommandView::Reload { monitor, mode, path } => "reload "@ + display_arguments(
            monitor,
            mode,
            path,
        ),
    }
}

/// Appends the arguments of a command that shows an image.
fn append_display_arguments(
    line: &mut String,
    monitor: &Option<String>,
    mode: &Option<String>,
    path: &String,
)
    ensures
        final(line)@ == old(line)@ + display_arguments(text_of(*monitor), text_of(*mode), path@),
{
    let ghost start = line@;
    match monitor {
        Some(m) => {
            line.append(m.as_str());
        },
        None => {},
    }
    line.append(",");
    line.append(path.as_str());
    match mode {
        Some(m) => {
            line.append(",");
            line.append(m.as_str());
        },
        None => {},
    }
    assert(line@ =~= start + display_arguments(text_of(*monitor), text_of(*mode), path@));
}

impl Command {
    /// The text of the command, without a line ending.
    pub fn encode(&self) -> (r: String)
        ensures
            r@ == encoded(self@),
    {
        match self {
            Command::Preload { path } => {
                let mut line = String::from_str("preload ");
                line.append(path.as_str());
                line
            },
            Command::Activate { monitor, mode, path } => {
                let mut line = String::from_str("wallpaper ");
                append_display_arguments(&mut line, monitor, mode, path);
                line
            },
            Command::Unload { target } => {
                let mut line = String::from_str("unload ");
                match target {
                    UnloadTarget::Path(path) => {
                        line.append(path.as_str());
                    },
                    UnloadTarget::All => {
                        line.append("all");
                    },
                }
                line
            },
            Command::Reload { monitor, mode, path } => {
                let mut line = String::from_str("reload ");
                append_display_arguments(&mut line, monitor, mode, path);
                line
            },
        }
    }

    /// The line to send: the text of the command and a line feed.
    pub fn to_line(&self) -> (r: String)
        ensures
            r@ == encoded(self@).push('\n'),
    {
        let mut line = self.encode();
        line.append("\n");
        proof {
            reveal_strlit("\n");
            assert("\n"@ =~= seq!['\n']);
            assert(line@ =~= encoded(self@).push('\n'));
        }
        line
    }
}

/// Whether the daemon's answer says that it took the command: the answer,
/// without the white space around it, is `ok`.
pub fn response_accepted(response: &str) -> (r: bool)
    ensures
        r == (trimmed(response@) == "ok"@),
{
    let answer = trim(response);
    proof {
        reveal_strlit("ok");
    }
    if answer.unicode_len() == 2 {
        let first = answer.get_char(0);
        let second = answer.get_char(1);
        proof {
            if first == 'o' && second == 'k' {
                assert(answer@ =~= "ok"@);
            }
        }
        first == 'o' && second == 'k'
    } else {
        false
    }
}

/// A command that did not go through, and what the transport said of it.
#[derive(Debug, Clone, PartialEq, Eq)]
pub struct ProtocolError {
    pub command: Command,
    pub cause: String,
}

/// A protocol error as plain values.
pub struct ProtocolErrorView {
    pub command: CommandView,
    pub cause: Seq<char>,
}

impl View for ProtocolError {
    type V = ProtocolErrorView;

    open spec fn view(&self) -> ProtocolErrorView {
        ProtocolErrorView { command: self.command@, cause: self.cause@ }
    }
}

/// The directory in which the wallpapers lie.
#[derive(Debug, Clone, PartialEq, Eq)]
pub struct WallpaperDirectory {
    pub base: String,
}

/// The path of `name` below `base`: the two joined by a slash, which is left
/// out where `base` is empty or ends in one.
pub open spec fn joined(base: Seq<char>, name: Seq<char>) -> Seq<char> {
    if base.len() == 0 || base.last() == '/' {
        base + name
    } else {
        base.push('/') + name
    }
}

impl WallpaperDirectory {
    /// The directory at `base`.
    pub fn new(base: String) -> (r: WallpaperDirectory)
        ensures
            r.base == base,
    {
        WallpaperDirectory { base }
    }

    /// The full path of the wallpaper `name`.
    pub fn resolve(&self, name: &str) -> (r: String)
        ensures
            r@ == joined(self.base@, name@),
    {
        let base = self.base.as_str();
        let len = base.unicode_len();
        let mut path = String::from_str(base);
        if len > 0 && base.get_char(len - 1) != '/' {
            path.append("/");
            proof {
                reveal_strlit("/");
                assert("/"@ =~= seq!['/']);
                assert(path@ =~= self.base@.push('/'));
            }
        }
        path.append(name);
        path
    }
}

} // verus!
