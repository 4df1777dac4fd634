//! What depends on the operating system.

use vstd::prelude::*;

verus! {

/// The systems that the shell tells apart.
#[derive(Clone, Copy, Debug, PartialEq, Eq, Structural)]
pub enum Platform {
    Windows,
    Other,
}

impl Platform {
    /// The character between two parts of a path.
    pub open spec fn spec_separator(self) -> char {
        match self {
            Platform::Windows => '\\',
            Platform::Other => '/',
        }
    }

    /// The character between two parts of a path.
    pub fn separator(self) -> (c: char)
        ensures
            c == self.spec_separator(),
    {
        match self {
            Platform::Windows => '\\',
            Platform::Other => '/',
        }
    }
}

/// Parts of a path are set apart by a backslash on Windows and by a slash elsewhere.
pub proof fn law_separators(platform: Platform, c: char)
    requires
        call_ensures(Platform::separator, (platform,), c),
    ensures
        platform == Platform::Windows ==> c == '\\',
        platform == Platform::Other ==> c == '/',
        platform.spec_separator() == c,
{
}

} // verus!
