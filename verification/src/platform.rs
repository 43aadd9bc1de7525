//! Platform policy: which download URL a tool uses, which executable file
//! extensions are probed and in what order, the platform's name, and the
//! atomic-publish primitive that makes a prepared directory visible.

use vstd::prelude::*;

use crate::config::{opt_view, ToolConfiguration, ToolView};

verus! {

/// The two supported host platforms.
#[derive(Debug, Clone, Copy, PartialEq, Eq, Structural)]
pub enum PlatformKind {
    Linux,
    Windows,
}

/// The platform's name as it appears in `${linux:..}` / `${windows:..}`
/// template selectors.
pub open spec fn spec_platform_name(k: PlatformKind) -> Seq<char> {
    match k {
        PlatformKind::Linux => "linux"@,
        PlatformKind::Windows => "windows"@,
    }
}

/// The executable filename extensions probed for a resolved binary, in order.
pub open spec fn spec_application_extensions(k: PlatformKind) -> Seq<Seq<char>> {
    match k {
        PlatformKind::Linux => seq![""@, ".sh"@],
        PlatformKind::Windows => seq![".exe"@, ".cmd"@, ".bat"@, ""@],
    }
}

/// The download URL a tool uses on platform `k`: the platform-specific one,
/// else the default.
pub open spec fn spec_download_url(k: PlatformKind, t: ToolView) -> Option<Seq<char>> {
    match k {
        PlatformKind::Linux => match t.download_linux {
            Some(u) => Some(u),
            None => t.download_default,
        },
        PlatformKind::Windows => match t.download_windows {
            Some(u) => Some(u),
            None => t.download_default,
        },
    }
}

/// The executable filename extensions probed on platform `k`, in order.
pub fn extensions_of(k: PlatformKind) -> (r: Vec<&'static str>)
    ensures
        r.deep_view() == spec_application_extensions(k),
{
    let mut v: Vec<&'static str> = Vec::new();
    match k {
        PlatformKind::Linux => {
            v.push("");
            v.push(".sh");
        },
        PlatformKind::Windows => {
            v.push(".exe");
            v.push(".cmd");
            v.push(".bat");
            v.push("");
        },
    }
    proof {
        assert(v.deep_view() =~= spec_application_extensions(k));
    }
    v
}

/// The download URL a tool uses on platform `k`.
pub fn download_url_of(k: PlatformKind, tool: &ToolConfiguration) -> (r: Option<String>)
    ensures
        opt_view(r) == spec_download_url(k, tool@),
{
    let primary = match k {
        PlatformKind::Linux => &tool.download.linux,
        PlatformKind::Windows => &tool.download.windows,
    };
    match primary {
        Some(u) => Some(u.clone()),
        None => match &tool.download.default {
            Some(u) => Some(u.clone()),
            None => None,
        },
    }
}

/// Per-platform read-only policy: URL selection, extension probing order, and
/// the platform's name.
pub trait Platform {
    /// Which platform this policy describes.
    spec fn kind(&self) -> PlatformKind;

    fn get_download_url(&self, tool_configuration: &ToolConfiguration) -> (r: Option<String>)
        ensures
            opt_view(r) == spec_download_url(self.kind(), tool_configuration@),
    ;

    fn get_application_extensions(&self) -> (r: Vec<&'static str>)
        ensures
            r.deep_view() == spec_application_extensions(self.kind()),
    ;

    fn get_name(&self) -> (r: &'static str)
        ensures
            r@ == spec_platform_name(self.kind()),
    ;
}

pub struct Linux;

pub struct Windows;

impl Platform for Linux {
    open spec fn kind(&self) -> PlatformKind {
        PlatformKind::Linux
    }

    fn get_download_url(&self, tool_configuration: &ToolConfiguration) -> (r: Option<String>) {
        download_url_of(PlatformKind::Linux, tool_configuration)
    }

    fn get_application_extensions(&self) -> (r: Vec<&'static str>) {
        extensions_of(PlatformKind::Linux)
    }

    fn get_name(&self) -> (r: &'static str) {
        "linux"
    }
}

impl Platform for Windows {
    open spec fn kind(&self) -> PlatformKind {
        PlatformKind::Windows
    }

    fn get_download_url(&self, tool_configuration: &ToolConfiguration) -> (r: Option<String>) {
        download_url_of(PlatformKind::Windows, tool_configuration)
    }

    fn get_application_extensions(&self) -> (r: Vec<&'static str>) {
        extensions_of(PlatformKind::Windows)
    }

    fn get_name(&self) -> (r: &'static str) {
        "windows"
    }
}

/// A path with a parent directory and a final name component, as the
/// atomic-publish primitives require of both of their operands: not empty,
/// not the filesystem root, not a bare drive or share prefix, and not
/// ending in a separator or a `.` or `..` step (paths like `.` or `a/..`
/// have no final name component).
pub open spec fn publishable_path(p: Seq<char>) -> bool {
    &&& p.len() > 0
    &&& p.last() != '/'
    &&& p.last() != ':'
    &&& p != "/"@
    &&& p != "."@
    &&& !(p.len() >= 2 && p[0] == '/' && p[1] == '/')
    &&& !(p.len() >= 2 && p.subrange(p.len() - 2, p.len() as int) == "/."@)
    &&& !(p.len() >= 2 && p.subrange(p.len() - 2, p.len() as int) == ".."@)
}

/// Relies on atomicwrites::replace_atomic: one rename syscall moves `src`
/// onto `dst`, so `dst` is only ever absent or complete; an existing `dst`
/// directory makes the rename fail unless it is empty. What it returns
/// depends on the directory tree, so nothing more is promised of the
/// outcome.
#[verifier::external_body]
fn replace_atomic_paths(src: &str, dst: &str) -> (r: Result<(), String>)
    requires
        publishable_path(src@),
        publishable_path(dst@),
{
    atomicwrites::replace_atomic(std::path::Path::new(src), std::path::Path::new(dst)).map_err(
        |e| e.to_string(),
    )
}

/// Relies on atomicwrites::move_atomic: renames `src` onto `dst` in one
/// filesystem operation, so `dst` is only ever absent or complete, and fails
/// if `dst` already exists. What it returns depends on the directory tree, so
/// nothing more is promised of the outcome.
#[verifier::external_body]
fn move_atomic_paths(src: &str, dst: &str) -> (r: Result<(), String>)
    requires
        publishable_path(src@),
        publishable_path(dst@),
{
    atomicwrites::move_atomic(std::path::Path::new(src), std::path::Path::new(dst)).map_err(|e| {
        e.to_string()
    })
}

/// The atomic-publish primitive: moves a fully prepared directory to its
/// final name in one step.
pub trait PlatformFunctions {
    fn rename_atomically(src: &str, dst: &str) -> (r: Result<(), String>)
        requires
            publishable_path(src@),
            publishable_path(dst@),
    ;
}

impl PlatformFunctions for Linux {
    fn rename_atomically(src: &str, dst: &str) -> (r: Result<(), String>) {
        replace_atomic_paths(src, dst)
    }
}

impl PlatformFunctions for Windows {
    fn rename_atomically(src: &str, dst: &str) -> (r: Result<(), String>) {
        move_atomic_paths(src, dst)
    }
}

} // verus!
