//! The two path conventions, and the root directory of pod logs under each.

use vstd::prelude::*;

verus! {

/// The path convention that a target follows.
#[derive(Clone, Copy, Debug, PartialEq, Eq, Hash, Structural)]
pub enum Platform {
    /// `/` separates segments.
    Posix,
    /// `\` separates segments, and `/` is accepted in its place.
    Windows,
}

impl Platform {
    /// The separator that is written between two segments.
    pub open spec fn main_separator_spec(self) -> char {
        match self {
            Platform::Posix => '/',
            Platform::Windows => '\\',
        }
    }

    /// The characters that end a segment when a path is read.
    pub open spec fn separators(self) -> Set<char> {
        match self {
            Platform::Posix => set!['/'],
            Platform::Windows => set!['/', '\\'],
        }
    }

    /// The separator that is written between two segments.
    pub fn main_separator(self) -> (c: char)
        ensures
            c == self.main_separator_spec(),
    {
        match self {
            Platform::Posix => '/',
            Platform::Windows => '\\',
        }
    }

    /// The separator that is written between two segments, as a string.
    pub fn main_separator_str(self) -> (s: &'static str)
        ensures
            s@ == seq![self.main_separator_spec()],
    {
        proof {
            reveal_strlit("/");
            reveal_strlit("\\");
        }
        let s = match self {
            Platform::Posix => "/",
            Platform::Windows => "\\",
        };
        assert(s@ =~= seq![self.main_separator_spec()]);
        s
    }

    /// Whether `c` ends a segment.
    pub fn is_separator(self, c: char) -> (b: bool)
        ensures
            b == self.separators().contains(c),
    {
        match self {
            Platform::Posix => c == '/',
            Platform::Windows => c == '/' || c == '\\',
        }
    }

    /// The separator that is written is one of those that are read.
    pub proof fn lemma_main_separator_separates(self)
        ensures
            self.separators().contains(self.main_separator_spec()),
    {
    }
}

/// The root directory of pod logs, as a sequence of characters.
pub open spec fn k8s_logs_dir(platform: Platform) -> Seq<char> {
    match platform {
        Platform::Posix => "/var/log/pods"@,
        Platform::Windows => "C:\\var\\log\\pods"@,
    }
}

/// The root directory of pod logs: `/var/log/pods`, or `C:\var\log\pods`
/// under the Windows convention.
pub fn get_k8s_logs_dir(platform: Platform) -> (dir: &'static str)
    ensures
        dir@ == k8s_logs_dir(platform),
        dir@.len() > 0,
{
    proof {
        reveal_strlit("/var/log/pods");
        reveal_strlit("C:\\var\\log\\pods");
    }
    match platform {
        Platform::Posix => "/var/log/pods",
        Platform::Windows => "C:\\var\\log\\pods",
    }
}

} // verus!
