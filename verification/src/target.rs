//! The target matcher: which platform a shortcut name stands for.

use crate::text::same_text;
use vstd::prelude::*;

verus! {

/// The operating-system families that shortcuts can speak of.
#[derive(Clone, Copy, Debug, PartialEq, Eq, Structural)]
pub enum OsFamily {
    Linux,
    Windows,
    MacOs,
}

/// What is known of the platform a build is made for. The facts are fixed for
/// the whole build and are only ever read.
#[derive(Clone, Copy, Debug, PartialEq, Eq, Structural)]
pub struct PlatformDescriptor {
    pub os: OsFamily,
    /// Width of a pointer in bits.
    pub pointer_width: u32,
}

/// Why a platform cannot be described.
#[derive(Clone, Copy, Debug, PartialEq, Eq, Structural)]
pub enum PlatformError {
    /// The operating system belongs to none of the recognised families.
    UnsupportedOs,
}

/// The family that an operating-system name belongs to, if any.
pub open spec fn os_family_of(name: Seq<char>) -> Option<OsFamily> {
    if name == "linux"@ {
        Some(OsFamily::Linux)
    } else if name == "windows"@ {
        Some(OsFamily::Windows)
    } else if name == "macos"@ {
        Some(OsFamily::MacOs)
    } else {
        None
    }
}

impl OsFamily {
    /// Reads the name of an operating system as the compiler spells it.
    pub fn from_name(name: &str) -> (r: Option<OsFamily>)
        ensures
            r == os_family_of(name@),
    {
        if same_text(name, "linux") {
            Some(OsFamily::Linux)
        } else if same_text(name, "windows") {
            Some(OsFamily::Windows)
        } else if same_text(name, "macos") {
            Some(OsFamily::MacOs)
        } else {
            None
        }
    }
}

impl PlatformDescriptor {
    /// Describes a platform from the names the compiler gives. A platform
    /// whose operating system is outside the recognised families is refused
    /// here, before any shortcut is ever matched against it.
    pub fn new(os_name: &str, pointer_width: u32) -> (r: Result<PlatformDescriptor, PlatformError>)
        ensures
            r == match os_family_of(os_name@) {
                Some(os) => Ok::<PlatformDescriptor, PlatformError>(
                    PlatformDescriptor { os, pointer_width },
                ),
                None => Err(PlatformError::UnsupportedOs),
            },
    {
        match OsFamily::from_name(os_name) {
            Some(os) => Ok(PlatformDescriptor { os, pointer_width }),
            None => Err(PlatformError::UnsupportedOs),
        }
    }
}

/// The names that stand for a platform condition. The vocabulary is closed:
/// these eleven and no others.
#[derive(Clone, Copy, Debug, PartialEq, Eq, Structural)]
pub enum Shortcut {
    Linux64,
    Linux32,
    Win32,
    Win64,
    Macos32,
    Macos64,
    Linux,
    Win,
    Macos,
    Bits64,
    Bits32,
}

/// The shortcut that a name stands for, if the name is in the vocabulary.
pub open spec fn shortcut_named(name: Seq<char>) -> Option<Shortcut> {
    if name == "linux64"@ {
        Some(Shortcut::Linux64)
    } else if name == "linux32"@ {
        Some(Shortcut::Linux32)
    } else if name == "win32"@ {
        Some(Shortcut::Win32)
    } else if name == "win64"@ {
        Some(Shortcut::Win64)
    } else if name == "macos32"@ {
        Some(Shortcut::Macos32)
    } else if name == "macos64"@ {
        Some(Shortcut::Macos64)
    } else if name == "linux"@ {
        Some(Shortcut::Linux)
    } else if name == "win"@ {
        Some(Shortcut::Win)
    } else if name == "macos"@ {
        Some(Shortcut::Macos)
    } else if name == "64"@ {
        Some(Shortcut::Bits64)
    } else if name == "32"@ {
        Some(Shortcut::Bits32)
    } else {
        None
    }
}

impl Shortcut {
    /// The family that the shortcut asks for, if it asks for one.
    pub open spec fn os(self) -> Option<OsFamily> {
        match self {
            Shortcut::Linux64 | Shortcut::Linux32 | Shortcut::Linux => Some(OsFamily::Linux),
            Shortcut::Win32 | Shortcut::Win64 | Shortcut::Win => Some(OsFamily::Windows),
            Shortcut::Macos32 | Shortcut::Macos64 | Shortcut::Macos => Some(OsFamily::MacOs),
            Shortcut::Bits64 | Shortcut::Bits32 => None,
        }
    }

    /// The pointer width that the shortcut asks for, if it asks for one.
    pub open spec fn width(self) -> Option<u32> {
        match self {
            Shortcut::Linux64 | Shortcut::Win64 | Shortcut::Macos64 | Shortcut::Bits64 => Some(
                64u32,
            ),
            Shortcut::Linux32 | Shortcut::Win32 | Shortcut::Macos32 | Shortcut::Bits32 => Some(
                32u32,
            ),
            Shortcut::Linux | Shortcut::Win | Shortcut::Macos => None,
        }
    }

    /// Whether the shortcut denotes the platform: the platform has the family
    /// that the shortcut asks for and the pointer width that it asks for,
    /// wherever it asks.
    pub open spec fn holds_on(self, platform: PlatformDescriptor) -> bool {
        &&& self.os() matches Some(os) ==> platform.os == os
        &&& self.width() matches Some(width) ==> platform.pointer_width == width
    }

    /// The name of the shortcut.
    pub open spec fn name_text(self) -> Seq<char> {
        match self {
            Shortcut::Linux64 => "linux64"@,
            Shortcut::Linux32 => "linux32"@,
            Shortcut::Win32 => "win32"@,
            Shortcut::Win64 => "win64"@,
            Shortcut::Macos32 => "macos32"@,
            Shortcut::Macos64 => "macos64"@,
            Shortcut::Linux => "linux"@,
            Shortcut::Win => "win"@,
            Shortcut::Macos => "macos"@,
            Shortcut::Bits64 => "64"@,
            Shortcut::Bits32 => "32"@,
        }
    }

    /// Reads a shortcut from its name. `None` for a name outside the
    /// vocabulary.
    pub fn from_name(name: &str) -> (r: Option<Shortcut>)
        ensures
            r == shortcut_named(name@),
    {
        if same_text(name, "linux64") {
            Some(Shortcut::Linux64)
        } else if same_text(name, "linux32") {
            Some(Shortcut::Linux32)
        } else if same_text(name, "win32") {
            Some(Shortcut::Win32)
        } else if same_text(name, "win64") {
            Some(Shortcut::Win64)
        } else if same_text(name, "macos32") {
            Some(Shortcut::Macos32)
        } else if same_text(name, "macos64") {
            Some(Shortcut::Macos64)
        } else if same_text(name, "linux") {
            Some(Shortcut::Linux)
        } else if same_text(name, "win") {
            Some(Shortcut::Win)
        } else if same_text(name, "macos") {
            Some(Shortcut::Macos)
        } else if same_text(name, "64") {
            Some(Shortcut::Bits64)
        } else if same_text(name, "32") {
            Some(Shortcut::Bits32)
        } else {
            None
        }
    }

    /// The name of the shortcut.
    pub fn name(self) -> (r: &'static str)
        ensures
            r@ == self.name_text(),
    {
        match self {
            Shortcut::Linux64 => "linux64",
            Shortcut::Linux32 => "linux32",
            Shortcut::Win32 => "win32",
            Shortcut::Win64 => "win64",
            Shortcut::Macos32 => "macos32",
            Shortcut::Macos64 => "macos64",
            Shortcut::Linux => "linux",
            Shortcut::Win => "win",
            Shortcut::Macos => "macos",
            Shortcut::Bits64 => "64",
            Shortcut::Bits32 => "32",
        }
    }

    /// The family that the shortcut asks for, if it asks for one.
    pub fn required_os(self) -> (r: Option<OsFamily>)
        ensures
            r == self.os(),
    {
        match self {
            Shortcut::Linux64 | Shortcut::Linux32 | Shortcut::Linux => Some(OsFamily::Linux),
            Shortcut::Win32 | Shortcut::Win64 | Shortcut::Win => Some(OsFamily::Windows),
            Shortcut::Macos32 | Shortcut::Macos64 | Shortcut::Macos => Some(OsFamily::MacOs),
            Shortcut::Bits64 | Shortcut::Bits32 => None,
        }
    }

    /// The pointer width that the shortcut asks for, if it asks for one.
    pub fn required_width(self) -> (r: Option<u32>)
        ensures
            r == self.width(),
    {
        match self {
            Shortcut::Linux64 | Shortcut::Win64 | Shortcut::Macos64 | Shortcut::Bits64 => Some(64),
            Shortcut::Linux32 | Shortcut::Win32 | Shortcut::Macos32 | Shortcut::Bits32 => Some(32),
            Shortcut::Linux | Shortcut::Win | Shortcut::Macos => None,
        }
    }

    /// Whether the shortcut denotes the platform.
    pub fn matches(self, platform: &PlatformDescriptor) -> (r: bool)
        ensures
            r == self.holds_on(*platform),
    {
        let os_fits = match self.required_os() {
            Some(os) => platform.os == os,
            None => true,
        };
        let width_fits = match self.required_width() {
            Some(width) => platform.pointer_width == width,
            None => true,
        };
        os_fits && width_fits
    }
}

/// Whether the shortcut called `shortcut` denotes the platform. Only names of
/// the vocabulary may be asked about.
pub fn matches(shortcut: &str, platform: &PlatformDescriptor) -> (r: bool)
    requires
        shortcut_named(shortcut@) is Some,
    ensures
        r == shortcut_named(shortcut@).unwrap().holds_on(*platform),
{
    match Shortcut::from_name(shortcut) {
        Some(known) => known.matches(platform),
        None => false,
    }
}

/// The name of a shortcut is in the vocabulary and stands for that shortcut.
pub proof fn lemma_name_round_trip(shortcut: Shortcut)
    ensures
        shortcut_named(shortcut.name_text()) == Some(shortcut),
{
    reveal_strlit("linux64");
    reveal_strlit("linux32");
    reveal_strlit("win32");
    reveal_strlit("win64");
    reveal_strlit("macos32");
    reveal_strlit("macos64");
    reveal_strlit("linux");
    reveal_strlit("win");
    reveal_strlit("macos");
    reveal_strlit("64");
    reveal_strlit("32");
    assert("linux64"@[0] == 'l' && "linux64"@[5] == '6');
    assert("linux32"@[0] == 'l' && "linux32"@[5] == '3');
    assert("macos64"@[0] == 'm' && "macos64"@[5] == '6');
    assert("macos32"@[0] == 'm' && "macos32"@[5] == '3');
    assert("win64"@[0] == 'w' && "win64"@[3] == '6');
    assert("win32"@[0] == 'w' && "win32"@[3] == '3');
    assert("linux"@[0] == 'l' && "linux"@.len() == 5);
    assert("macos"@[0] == 'm' && "macos"@.len() == 5);
    assert("win"@.len() == 3);
    assert("linux64"@.len() == 7 && "linux32"@.len() == 7);
    assert("macos64"@.len() == 7 && "macos32"@.len() == 7);
    assert("win64"@.len() == 5 && "win32"@.len() == 5);
    assert("64"@[0] == '6');
    assert("32"@[0] == '3');
}

/// A shortcut that names both a family and a width denotes exactly the
/// platforms that the shortcut of its family and the shortcut of its width
/// both denote.
pub proof fn lemma_compound_is_both(platform: PlatformDescriptor)
    ensures
        Shortcut::Linux64.holds_on(platform) <==> Shortcut::Linux.holds_on(platform)
            && Shortcut::Bits64.holds_on(platform),
        Shortcut::Linux32.holds_on(platform) <==> Shortcut::Linux.holds_on(platform)
            && Shortcut::Bits32.holds_on(platform),
        Shortcut::Win64.holds_on(platform) <==> Shortcut::Win.holds_on(platform)
            && Shortcut::Bits64.holds_on(platform),
        Shortcut::Win32.holds_on(platform) <==> Shortcut::Win.holds_on(platform)
            && Shortcut::Bits32.holds_on(platform),
        Shortcut::Macos64.holds_on(platform) <==> Shortcut::Macos.holds_on(platform)
            && Shortcut::Bits64.holds_on(platform),
        Shortcut::Macos32.holds_on(platform) <==> Shortcut::Macos.holds_on(platform)
            && Shortcut::Bits32.holds_on(platform),
{
}

} // verus!
