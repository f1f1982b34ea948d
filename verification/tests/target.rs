use fn_abi::target::{OsFamily, PlatformDescriptor, PlatformError, Shortcut};

const ALL: [Shortcut; 11] = [
    Shortcut::Linux64,
    Shortcut::Linux32,
    Shortcut::Win32,
    Shortcut::Win64,
    Shortcut::Macos32,
    Shortcut::Macos64,
    Shortcut::Linux,
    Shortcut::Win,
    Shortcut::Macos,
    Shortcut::Bits64,
    Shortcut::Bits32,
];

fn platform(os: OsFamily, pointer_width: u32) -> PlatformDescriptor {
    PlatformDescriptor { os, pointer_width }
}

#[test]
fn platform_is_described_from_compiler_names() {
    assert_eq!(PlatformDescriptor::new("linux", 64), Ok(platform(OsFamily::Linux, 64)));
    assert_eq!(PlatformDescriptor::new("windows", 32), Ok(platform(OsFamily::Windows, 32)));
    assert_eq!(PlatformDescriptor::new("macos", 64), Ok(platform(OsFamily::MacOs, 64)));
}

#[test]
fn unsupported_os_family_is_refused_up_front() {
    assert_eq!(PlatformDescriptor::new("freebsd", 64), Err(PlatformError::UnsupportedOs));
    assert_eq!(PlatformDescriptor::new("", 64), Err(PlatformError::UnsupportedOs));
    assert_eq!(PlatformDescriptor::new("Linux", 64), Err(PlatformError::UnsupportedOs));
    assert_eq!(OsFamily::from_name("win"), None);
}

#[test]
fn vocabulary_has_exactly_the_eleven_names() {
    let names = [
        "linux64", "linux32", "win32", "win64", "macos32", "macos64", "linux", "win", "macos", "64", "32",
    ];
    for (name, shortcut) in names.iter().zip(ALL.iter()) {
        assert_eq!(Shortcut::from_name(name), Some(*shortcut));
        assert_eq!(shortcut.name(), *name);
    }
    for other in ["", "windows", "win16", "linux 64", "LINUX", "mac", "osx", "16", "x64", "linux64 "] {
        assert_eq!(Shortcut::from_name(other), None);
    }
}

#[test]
fn compound_shortcuts_need_os_and_width() {
    let linux64 = platform(OsFamily::Linux, 64);
    assert!(Shortcut::Linux64.matches(&linux64));
    assert!(!Shortcut::Linux32.matches(&linux64));
    assert!(!Shortcut::Win64.matches(&linux64));
    assert!(!Shortcut::Win32.matches(&linux64));
    assert!(!Shortcut::Macos64.matches(&linux64));
    assert!(!Shortcut::Macos32.matches(&linux64));

    let win32 = platform(OsFamily::Windows, 32);
    assert!(Shortcut::Win32.matches(&win32));
    assert!(!Shortcut::Win64.matches(&win32));
    assert!(!Shortcut::Linux32.matches(&win32));

    let macos64 = platform(OsFamily::MacOs, 64);
    assert!(Shortcut::Macos64.matches(&macos64));
    assert!(!Shortcut::Macos32.matches(&macos64));
    assert!(!Shortcut::Linux64.matches(&macos64));
}

#[test]
fn os_only_shortcuts_ignore_width() {
    for width in [16, 32, 64, 128] {
        assert!(Shortcut::Linux.matches(&platform(OsFamily::Linux, width)));
        assert!(!Shortcut::Linux.matches(&platform(OsFamily::Windows, width)));
        assert!(Shortcut::Win.matches(&platform(OsFamily::Windows, width)));
        assert!(!Shortcut::Win.matches(&platform(OsFamily::MacOs, width)));
        assert!(Shortcut::Macos.matches(&platform(OsFamily::MacOs, width)));
        assert!(!Shortcut::Macos.matches(&platform(OsFamily::Linux, width)));
    }
}

#[test]
fn width_only_shortcuts_ignore_os() {
    for os in [OsFamily::Linux, OsFamily::Windows, OsFamily::MacOs] {
        assert!(Shortcut::Bits64.matches(&platform(os, 64)));
        assert!(!Shortcut::Bits64.matches(&platform(os, 32)));
        assert!(Shortcut::Bits32.matches(&platform(os, 32)));
        assert!(!Shortcut::Bits32.matches(&platform(os, 64)));
        assert!(!Shortcut::Bits32.matches(&platform(os, 16)));
        assert!(!Shortcut::Bits64.matches(&platform(os, 16)));
    }
}

#[test]
fn compound_holds_exactly_where_both_parts_hold() {
    let parts = [
        (Shortcut::Linux64, Shortcut::Linux, Shortcut::Bits64),
        (Shortcut::Linux32, Shortcut::Linux, Shortcut::Bits32),
        (Shortcut::Win64, Shortcut::Win, Shortcut::Bits64),
        (Shortcut::Win32, Shortcut::Win, Shortcut::Bits32),
        (Shortcut::Macos64, Shortcut::Macos, Shortcut::Bits64),
        (Shortcut::Macos32, Shortcut::Macos, Shortcut::Bits32),
    ];
    for os in [OsFamily::Linux, OsFamily::Windows, OsFamily::MacOs] {
        for width in [16, 32, 64] {
            let p = platform(os, width);
            for (both, family, bits) in parts {
                assert_eq!(both.matches(&p), family.matches(&p) && bits.matches(&p));
            }
        }
    }
}

#[test]
fn required_parts_of_each_shortcut() {
    assert_eq!(Shortcut::Linux64.required_os(), Some(OsFamily::Linux));
    assert_eq!(Shortcut::Linux64.required_width(), Some(64));
    assert_eq!(Shortcut::Win32.required_os(), Some(OsFamily::Windows));
    assert_eq!(Shortcut::Win32.required_width(), Some(32));
    assert_eq!(Shortcut::Macos.required_os(), Some(OsFamily::MacOs));
    assert_eq!(Shortcut::Macos.required_width(), None);
    assert_eq!(Shortcut::Bits32.required_os(), None);
    assert_eq!(Shortcut::Bits32.required_width(), Some(32));
}

#[test]
fn matcher_answers_by_name() {
    let linux64 = platform(OsFamily::Linux, 64);
    assert!(fn_abi::target::matches("linux64", &linux64));
    assert!(fn_abi::target::matches("linux", &linux64));
    assert!(fn_abi::target::matches("64", &linux64));
    assert!(!fn_abi::target::matches("32", &linux64));
    assert!(!fn_abi::target::matches("win64", &linux64));
    assert!(!fn_abi::target::matches("macos", &linux64));
    for shortcut in ALL {
        assert_eq!(fn_abi::target::matches(shortcut.name(), &linux64), shortcut.matches(&linux64));
    }
}
