use vstd::prelude::*;

use crate::text::{ends_with, has_suffix, str_eq};

verus! {

/// The operating systems the tool runs on.
#[derive(Clone, Copy, Debug, PartialEq, Eq, Structural)]
pub enum Platform {
    Windows,
    MacOS,
    Linux,
}

/// The platform of an operating-system name as Rust's target names it
/// (`"windows"`, `"macos"`, ...); any other system is treated as Linux.
pub open spec fn platform_of(os: Seq<char>) -> Platform {
    if os == "windows"@ {
        Platform::Windows
    } else if os == "macos"@ {
        Platform::MacOS
    } else {
        Platform::Linux
    }
}

impl Platform {
    /// The platform the program was built for, given the target's operating-system name.
    pub fn current(os: &str) -> (r: Platform)
        ensures
            r == platform_of(os@),
    {
        if str_eq(os, "windows") {
            Platform::Windows
        } else if str_eq(os, "macos") {
            Platform::MacOS
        } else {
            Platform::Linux
        }
    }

    /// The system package manager's executable on this platform.
    pub open spec fn spec_brew_program(self) -> Seq<char> {
        if self == Platform::Windows {
            "brew.exe"@
        } else {
            "brew"@
        }
    }

    /// The system package manager's executable.
    pub fn brew_program(self) -> (r: &'static str)
        ensures
            r@ == self.spec_brew_program(),
    {
        match self {
            Platform::Windows => "brew.exe",
            _ => "brew",
        }
    }

    /// A name that an executable is found by on this platform.
    pub fn executable_name(self, command: &str) -> (r: String)
        ensures
            r@ == (if self == Platform::Windows && !has_suffix(command@, ".exe"@) {
                command@ + ".exe"@
            } else {
                command@
            }),
    {
        if self == Platform::Windows && !ends_with(command, ".exe") {
            crate::text::concat_str(command, ".exe")
        } else {
            String::from_str(command)
        }
    }
}

} // verus!
