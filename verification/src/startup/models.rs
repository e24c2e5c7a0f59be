//! Autostart entries and requests for new ones.

use vstd::prelude::*;

verus! {

/// Where an autostart entry lives.
#[derive(Debug, Clone, Copy, PartialEq, Eq, Structural)]
pub enum StartupSource {
    /// The user's own autostart directory.
    User,
    /// A system-wide autostart directory.
    System,
}

/// The code of a source, as used in entry ids.
pub open spec fn source_code(s: StartupSource) -> Seq<char> {
    match s {
        StartupSource::User => "user"@,
        StartupSource::System => "system"@,
    }
}

impl StartupSource {
    pub fn as_str(&self) -> (r: &'static str)
        ensures
            r@ == match *self {
                StartupSource::User => "User"@,
                StartupSource::System => "System"@,
            },
    {
        match self {
            StartupSource::User => "User",
            StartupSource::System => "System",
        }
    }

    pub fn code(&self) -> (r: &'static str)
        ensures
            r@ == source_code(*self),
    {
        match self {
            StartupSource::User => "user",
            StartupSource::System => "system",
        }
    }
}

/// An autostart entry read from a `.desktop` file.
#[derive(Debug, PartialEq, Eq)]
pub struct StartupItem {
    pub id: String,
    pub file_name: String,
    pub name: String,
    pub comment: String,
    pub command: String,
    pub icon: String,
    pub icon_path: Option<String>,
    pub source: StartupSource,
    pub enabled: bool,
    pub file_path: String,
    pub is_terminal: bool,
}

impl Clone for StartupItem {
    fn clone(&self) -> (r: Self)
        ensures
            r == *self,
    {
        StartupItem {
            id: self.id.clone(),
            file_name: self.file_name.clone(),
            name: self.name.clone(),
            comment: self.comment.clone(),
            command: self.command.clone(),
            icon: self.icon.clone(),
            icon_path: match &self.icon_path {
                Some(p) => Some(p.clone()),
                None => None,
            },
            source: self.source,
            enabled: self.enabled,
            file_path: self.file_path.clone(),
            is_terminal: self.is_terminal,
        }
    }
}

/// What the user asks for when adding an autostart entry.
#[derive(Debug)]
pub struct CreateStartupRequest {
    pub name: String,
    pub command: String,
    pub comment: String,
    pub icon: String,
    pub terminal: bool,
}

impl Default for CreateStartupRequest {
    fn default() -> (r: Self)
        ensures
            r.name@ == Seq::<char>::empty(),
            r.command@ == Seq::<char>::empty(),
            r.comment@ == Seq::<char>::empty(),
            r.icon@ == Seq::<char>::empty(),
            !r.terminal,
    {
        CreateStartupRequest {
            name: String::new(),
            command: String::new(),
            comment: String::new(),
            icon: String::new(),
            terminal: false,
        }
    }
}

impl Clone for CreateStartupRequest {
    fn clone(&self) -> (r: Self)
        ensures
            r == *self,
    {
        CreateStartupRequest {
            name: self.name.clone(),
            command: self.command.clone(),
            comment: self.comment.clone(),
            icon: self.icon.clone(),
            terminal: self.terminal,
        }
    }
}

} // verus!
