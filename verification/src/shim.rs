//! The shim dispatch protocol: a small dispatcher installed under many tool
//! names works out which tool it stands for, walks the ancestor directories
//! for a project resolver, treats the reserved sentinel exit code as "not
//! mine, keep looking", and falls back to the real search path with a guard
//! against dispatching to itself.

use vstd::prelude::*;

use crate::cache::{CommandLine, ResolveError};
use crate::chars::{
    append_chars, chars_to_string, lemma_rfind_char_spec, rfind, rfind_char, str_to_chars,
    subrange_chars,
};
use crate::host::{spec_assoc_lookup, Host};
use crate::platform::{extensions_of, spec_application_extensions, PlatformKind};

verus! {

/// The reserved exit code a resolver returns to a shim for "this command is
/// not mine, keep searching".
pub const EXIT_CODE_NOT_FOUND: i32 = 125;

/// The shim's terminal exit code when nothing matched anywhere.
pub const EXIT_CODE_NOTHING_FOUND: i32 = 127;

/// The resolver binary's own name on each platform.
pub open spec fn spec_resolver_binary_name(k: PlatformKind) -> Seq<char> {
    match k {
        PlatformKind::Linux => "tt"@,
        PlatformKind::Windows => "tt.exe"@,
    }
}

/// The resolver binary's own name on platform `k`.
pub fn resolver_binary_name(k: PlatformKind) -> (r: &'static str)
    ensures
        r@ == spec_resolver_binary_name(k),
{
    match k {
        PlatformKind::Linux => "tt",
        PlatformKind::Windows => "tt.exe",
    }
}

/// The last `/`-separated component of a path.
pub open spec fn spec_file_name(path: Seq<char>) -> Seq<char> {
    match rfind_char(path, '/') {
        Some(i) => path.skip(i + 1),
        None => path,
    }
}

/// A file name with its extension removed: what follows the last dot is
/// dropped, unless the dot starts the name.
pub open spec fn spec_strip_extension(name: Seq<char>) -> Seq<char> {
    match rfind_char(name, '.') {
        Some(i) => if i == 0 {
            name
        } else {
            name.take(i)
        },
        None => name,
    }
}

/// The tool name a shim invocation path stands for: its file name without
/// directory or extension.
pub open spec fn spec_invoked_tool_name(path: Seq<char>) -> Seq<char> {
    spec_strip_extension(spec_file_name(path))
}

/// The tool name the shim's own invocation path stands for.
pub fn invoked_tool_name(path: &str) -> (r: String)
    ensures
        r@ == spec_invoked_tool_name(path@),
{
    let pc = str_to_chars(path);
    let name = match rfind(&pc, '/') {
        Some(i) => {
            proof {
                lemma_rfind_char_spec(pc@, '/');
            }
            let n = subrange_chars(&pc, i + 1, pc.len());
            proof {
                assert(n@ =~= pc@.skip(i + 1));
            }
            n
        },
        None => pc,
    };
    match rfind(&name, '.') {
        Some(i) => {
            proof {
                lemma_rfind_char_spec(name@, '.');
            }
            if i == 0 {
                chars_to_string(&name)
            } else {
                let stem = subrange_chars(&name, 0, i);
                proof {
                    assert(stem@ =~= name@.take(i as int));
                }
                chars_to_string(&stem)
            }
        },
        None => chars_to_string(&name),
    }
}

/// Every ancestor directory of `path`, itself first: each step drops the
/// last `/`-separated component, a path with a single leading slash steps
/// to the root, and a bare name steps to the empty relative directory.
pub open spec fn spec_parent(path: Seq<char>) -> Option<Seq<char>> {
    if path.len() == 0 || path == "/"@ {
        None
    } else {
        match rfind_char(path, '/') {
            None => Some(Seq::empty()),
            Some(i) => if i == 0 {
                Some(seq!['/'])
            } else {
                Some(path.take(i))
            },
        }
    }
}

pub open spec fn spec_ancestors(path: Seq<char>) -> Seq<Seq<char>>
    decreases path.len(),
    via spec_ancestors_decreases
{
    match spec_parent(path) {
        None => seq![path],
        Some(p) => seq![path] + spec_ancestors(p),
    }
}

#[via_fn]
proof fn spec_ancestors_decreases(path: Seq<char>) {
    lemma_rfind_char_spec(path, '/');
    match spec_parent(path) {
        None => {},
        Some(p) => {
            if path.len() == 0 || path == "/"@ {
            } else {
                match rfind_char(path, '/') {
                    None => {},
                    Some(i) => {
                        if i == 0 {
                            assert(path[0] == '/');
                            if path.len() == 1 {
                                assert(path =~= "/"@) by {
                                    reveal_strlit("/");
                                }
                            }
                        }
                    },
                }
            }
        },
    }
}

/// The directory chain the shim searches: the starting directory and every
/// ancestor of it, nearest first.
pub fn parent_directories(start_directory: &str) -> (r: Vec<String>)
    ensures
        r.deep_view() == spec_ancestors(start_directory@),
{
    let mut out: Vec<String> = Vec::new();
    let mut current = str_to_chars(start_directory);
    let ghost whole = spec_ancestors(start_directory@);
    proof {
        assert(whole =~= Seq::<Seq<char>>::empty() + spec_ancestors(current@));
    }
    loop
        invariant
            whole == spec_ancestors(start_directory@),
            whole == out.deep_view() + spec_ancestors(current@),
        decreases current@.len(),
    {
        let ghost before = out.deep_view();
        let cs = chars_to_string(&current);
        let ghost cv = current@;
        out.push(cs);
        proof {
            assert(out.deep_view() =~= before.push(cv));
        }
        if current.len() == 0 {
            proof {
                assert(spec_parent(cv) is None);
                assert(spec_ancestors(cv) =~= seq![cv]);
                assert(before + spec_ancestors(cv) =~= out.deep_view());
            }
            return out;
        }
        if current.len() == 1 && current[0] == '/' {
            proof {
                reveal_strlit("/");
                assert(cv =~= "/"@);
                assert(spec_parent(cv) is None);
                assert(spec_ancestors(cv) =~= seq![cv]);
                assert(before + spec_ancestors(cv) =~= out.deep_view());
            }
            return out;
        }
        proof {
            reveal_strlit("/");
            assert(cv != "/"@) by {
                if cv == "/"@ {
                    assert(cv.len() == 1 && cv[0] == '/');
                }
            }
        }
        match rfind(&current, '/') {
            None => {
                proof {
                    assert(spec_parent(cv) == Some(Seq::<char>::empty()));
                    assert(spec_ancestors(cv) =~= seq![cv] + spec_ancestors(Seq::<char>::empty()));
                    assert(before.push(cv) + spec_ancestors(Seq::<char>::empty())
                        =~= before + spec_ancestors(cv));
                }
                current = Vec::new();
                proof {
                    assert(current@ =~= Seq::<char>::empty());
                }
            },
            Some(i) => {
                proof {
                    lemma_rfind_char_spec(cv, '/');
                }
                if i == 0 {
                    let mut root: Vec<char> = Vec::new();
                    root.push('/');
                    proof {
                        assert(root@ =~= seq!['/']);
                        assert(spec_parent(cv) == Some(seq!['/']));
                        assert(spec_ancestors(cv) =~= seq![cv] + spec_ancestors(seq!['/']));
                        assert(before.push(cv) + spec_ancestors(seq!['/']) =~= before
                            + spec_ancestors(cv));
                    }
                    current = root;
                } else {
                    let parent = subrange_chars(&current, 0, i);
                    proof {
                        assert(parent@ =~= cv.take(i as int));
                        assert(spec_parent(cv) == Some(cv.take(i as int)));
                        assert(spec_ancestors(cv) =~= seq![cv] + spec_ancestors(cv.take(i as int)));
                        assert(before.push(cv) + spec_ancestors(cv.take(i as int)) =~= before
                            + spec_ancestors(cv));
                    }
                    current = parent;
                }
            },
        }
    }
}

/// What the shim does with an ancestor resolver's exit code.
#[derive(Debug, PartialEq, Eq, Structural)]
pub enum ShimDecision {
    /// The resolver answered with the sentinel: keep walking.
    Continue,
    /// Dispatch finished; exit with this code.
    Exit(i32),
}

/// The decision the shim takes on a resolver's exit code: the reserved
/// code means "keep looking at the next ancestor"; any other code is the
/// dispatch's final result, propagated verbatim.
pub open spec fn spec_shim_reaction(code: i32) -> ShimDecision {
    if code == EXIT_CODE_NOT_FOUND {
        ShimDecision::Continue
    } else {
        ShimDecision::Exit(code)
    }
}

/// Sentinel handling: what the shim does with an ancestor resolver's exit
/// code.
pub fn on_resolver_exit(code: i32) -> (r: ShimDecision)
    ensures
        r == spec_shim_reaction(code),
{
    if code == EXIT_CODE_NOT_FOUND {
        ShimDecision::Continue
    } else {
        ShimDecision::Exit(code)
    }
}

/// The exit code the resolver answers a shim-forwarded lookup with: the
/// sentinel exactly where the invocation came from a shim and the command
/// is in no tool's command map; every other outcome is handled normally.
pub open spec fn spec_lookup_exit(from_shim: bool, result: Result<CommandLine, ResolveError>) -> Option<
    i32,
> {
    match result {
        Err(e) => if from_shim && e@ is CommandNotFound {
            Some(EXIT_CODE_NOT_FOUND)
        } else {
            None
        },
        Ok(_) => None,
    }
}

/// The resolver's answer to a shim-forwarded lookup.
pub fn lookup_exit_code(from_shim: bool, result: &Result<CommandLine, ResolveError>) -> (r: Option<
    i32,
>)
    ensures
        r == spec_lookup_exit(from_shim, *result),
{
    match result {
        Err(e) => if from_shim && e.is_command_not_found() {
            Some(EXIT_CODE_NOT_FOUND)
        } else {
            None
        },
        Ok(_) => None,
    }
}

/// Sentinel propagation: a resolver asked from a shim for a command in no
/// tool's command map exits with the sentinel code, and a shim that reads
/// that code from one ancestor keeps searching instead of terminating with
/// it.
pub proof fn lemma_sentinel_propagation(e: ResolveError)
    requires
        e@ is CommandNotFound,
    ensures
        spec_lookup_exit(true, Err(e)) == Some(EXIT_CODE_NOT_FOUND),
        spec_shim_reaction(EXIT_CODE_NOT_FOUND) == ShimDecision::Continue,
{
}

/// The candidate paths the search-path fallback probes, in order: for each
/// directory, the tool name with each platform extension appended.
pub open spec fn spec_fallback_candidates(
    dirs: Seq<Seq<char>>,
    tool_name: Seq<char>,
    platform: PlatformKind,
) -> Seq<Seq<char>>
    decreases dirs.len(),
{
    if dirs.len() == 0 {
        Seq::empty()
    } else {
        spec_application_extensions(platform).map(
            |k: int, e: Seq<char>| dirs[0] + "/"@ + tool_name + e,
        ) + spec_fallback_candidates(dirs.drop_first(), tool_name, platform)
    }
}

/// Builds the fallback candidate list for `tool_name` over the search-path
/// directories.
pub fn fallback_candidates(dirs: &Vec<String>, tool_name: &str, platform: PlatformKind) -> (r: Vec<
    String,
>)
    ensures
        r.deep_view() == spec_fallback_candidates(dirs.deep_view(), tool_name@, platform),
{
    let exts = extensions_of(platform);
    let ghost ev = exts.deep_view();
    let ghost dv = dirs.deep_view();
    let mut out: Vec<String> = Vec::new();
    let mut i: usize = 0;
    proof {
        assert(dv.skip(0) =~= dv);
        assert(out.deep_view() + spec_fallback_candidates(dv.skip(0), tool_name@, platform)
            =~= spec_fallback_candidates(dv, tool_name@, platform));
    }
    while i < dirs.len()
        invariant
            ev == exts.deep_view(),
            ev == spec_application_extensions(platform),
            ev.len() == exts@.len(),
            dv == dirs.deep_view(),
            dv.len() == dirs@.len(),
            0 <= i <= dirs@.len(),
            spec_fallback_candidates(dv, tool_name@, platform) == out.deep_view()
                + spec_fallback_candidates(dv.skip(i as int), tool_name@, platform),
        decreases dirs@.len() - i,
    {
        let ghost outer_before = out.deep_view();
        let ghost row = spec_application_extensions(platform).map(
            |k: int, e: Seq<char>| dv[i as int] + "/"@ + tool_name@ + e,
        );
        let mut j: usize = 0;
        while j < exts.len()
            invariant
                ev == exts.deep_view(),
                ev == spec_application_extensions(platform),
                ev.len() == exts@.len(),
                dv == dirs.deep_view(),
                dv.len() == dirs@.len(),
                0 <= i < dirs@.len(),
                0 <= j <= exts@.len(),
                row == spec_application_extensions(platform).map(
                    |k: int, e: Seq<char>| dv[i as int] + "/"@ + tool_name@ + e,
                ),
                out.deep_view() =~= outer_before + row.take(j as int),
            decreases exts@.len() - j,
        {
            let mut c: Vec<char> = str_to_chars(dirs[i].as_str());
            let sep = str_to_chars("/");
            append_chars(&mut c, &sep);
            let tn = str_to_chars(tool_name);
            append_chars(&mut c, &tn);
            let ec = str_to_chars(exts[j]);
            append_chars(&mut c, &ec);
            let ghost before = out.deep_view();
            let candidate = chars_to_string(&c);
            let ghost cv = candidate@;
            out.push(candidate);
            proof {
                assert(dv[i as int] == dirs@[i as int]@);
                assert(ev[j as int] == exts@[j as int]@);
                assert(out.deep_view() =~= before.push(cv));
                assert(row[j as int] == dv[i as int] + "/"@ + tool_name@ + ev[j as int]);
                assert(row.take(j + 1) =~= row.take(j as int).push(row[j as int]));
            }
            j += 1;
        }
        proof {
            assert(row.take(ev.len() as int) =~= row);
            assert(dv.skip(i as int)[0] == dv[i as int]);
            assert(dv.skip(i as int).drop_first() =~= dv.skip(i + 1));
            assert(spec_fallback_candidates(dv.skip(i as int), tool_name@, platform) == row
                + spec_fallback_candidates(dv.skip(i + 1), tool_name@, platform));
            assert((outer_before + row) + spec_fallback_candidates(dv.skip(i + 1), tool_name@, platform)
                =~= outer_before + (row + spec_fallback_candidates(
                dv.skip(i + 1),
                tool_name@,
                platform,
            )));
        }
        i += 1;
    }
    proof {
        assert(dv.skip(dv.len() as int) =~= Seq::<Seq<char>>::empty());
        assert(out.deep_view() + Seq::<Seq<char>>::empty() =~= out.deep_view());
    }
    out
}

/// The first candidate the fallback runs: candidates are probed in order,
/// one whose canonical path equals the shim's own canonical path is
/// skipped even if it exists (the self-recursion guard), and the first
/// remaining candidate that exists wins.
pub open spec fn spec_first_runnable(
    h: crate::host::HostView,
    candidates: Seq<Seq<char>>,
    self_canonical: Seq<char>,
) -> Option<Seq<char>>
    decreases candidates.len(),
{
    if candidates.len() == 0 {
        None
    } else if spec_assoc_lookup(h.absolute, candidates[0]) == Some(self_canonical) {
        spec_first_runnable(h, candidates.drop_first(), self_canonical)
    } else if h.files.contains(candidates[0]) {
        Some(candidates[0])
    } else {
        spec_first_runnable(h, candidates.drop_first(), self_canonical)
    }
}

/// Probes the fallback candidates in order, skipping any whose canonical
/// path is the shim's own, and takes the first that exists.
pub fn first_runnable_candidate<H: Host>(
    host: &H,
    candidates: &Vec<String>,
    self_canonical: &str,
) -> (r: Option<String>)
    ensures
        match r {
            Some(c) => spec_first_runnable(
                host.host_view(),
                candidates.deep_view(),
                self_canonical@,
            ) == Some(c@),
            None => spec_first_runnable(
                host.host_view(),
                candidates.deep_view(),
                self_canonical@,
            ) is None,
        },
{
    let ghost dv = candidates.deep_view();
    let mut i: usize = 0;
    proof {
        assert(dv.skip(0) =~= dv);
    }
    while i < candidates.len()
        invariant
            dv == candidates.deep_view(),
            dv.len() == candidates@.len(),
            0 <= i <= candidates@.len(),
            spec_first_runnable(host.host_view(), dv, self_canonical@) == spec_first_runnable(
                host.host_view(),
                dv.skip(i as int),
                self_canonical@,
            ),
        decreases candidates@.len() - i,
    {
        proof {
            assert(dv.skip(i as int)[0] == dv[i as int]);
            assert(dv[i as int] == candidates@[i as int]@);
            assert(dv.skip(i as int).drop_first() =~= dv.skip(i + 1));
        }
        let mut is_self = false;
        match host.make_absolute(candidates[i].as_str()) {
            Ok(canon) => {
                let cc = str_to_chars(canon.as_str());
                let sc = str_to_chars(self_canonical);
                if crate::chars::chars_eq(&cc, &sc) {
                    is_self = true;
                }
            },
            Err(_) => {},
        }
        if !is_self {
            if host.file_exists(candidates[i].as_str()) {
                return Some(candidates[i].clone());
            }
        }
        i += 1;
    }
    proof {
        assert(dv.skip(dv.len() as int) =~= Seq::<Seq<char>>::empty());
    }
    None
}

/// The first candidate that exists on the host, with no self guard; used
/// to locate the shim's own binary when its invocation path does not
/// canonicalize directly.
pub open spec fn spec_first_existing(
    h: crate::host::HostView,
    candidates: Seq<Seq<char>>,
) -> Option<Seq<char>>
    decreases candidates.len(),
{
    if candidates.len() == 0 {
        None
    } else if h.files.contains(candidates[0]) {
        Some(candidates[0])
    } else {
        spec_first_existing(h, candidates.drop_first())
    }
}

/// Probes the candidates in order and takes the first that exists.
pub fn first_existing_candidate<H: Host>(host: &H, candidates: &Vec<String>) -> (r: Option<
    String,
>)
    ensures
        match r {
            Some(c) => spec_first_existing(host.host_view(), candidates.deep_view()) == Some(c@),
            None => spec_first_existing(host.host_view(), candidates.deep_view()) is None,
        },
{
    let ghost dv = candidates.deep_view();
    let mut i: usize = 0;
    proof {
        assert(dv.skip(0) =~= dv);
    }
    while i < candidates.len()
        invariant
            dv == candidates.deep_view(),
            dv.len() == candidates@.len(),
            0 <= i <= candidates@.len(),
            spec_first_existing(host.host_view(), dv) == spec_first_existing(
                host.host_view(),
                dv.skip(i as int),
            ),
        decreases candidates@.len() - i,
    {
        proof {
            assert(dv.skip(i as int)[0] == dv[i as int]);
            assert(dv[i as int] == candidates@[i as int]@);
            assert(dv.skip(i as int).drop_first() =~= dv.skip(i + 1));
        }
        if host.file_exists(candidates[i].as_str()) {
            return Some(candidates[i].clone());
        }
        i += 1;
    }
    proof {
        assert(dv.skip(dv.len() as int) =~= Seq::<Seq<char>>::empty());
    }
    None
}

/// Self-recursion guard: a candidate whose canonical path equals the
/// shim's own canonical path is never the one dispatched to, whatever else
/// exists.
pub proof fn lemma_self_candidate_skipped(
    h: crate::host::HostView,
    candidates: Seq<Seq<char>>,
    self_canonical: Seq<char>,
    chosen: Seq<char>,
)
    requires
        spec_first_runnable(h, candidates, self_canonical) == Some(chosen),
    ensures
        spec_assoc_lookup(h.absolute, chosen) != Some(self_canonical),
    decreases candidates.len(),
{
    if candidates.len() == 0 {
    } else if spec_assoc_lookup(h.absolute, candidates[0]) == Some(self_canonical) {
        lemma_self_candidate_skipped(h, candidates.drop_first(), self_canonical, chosen);
    } else if h.files.contains(candidates[0]) {
    } else {
        lemma_self_candidate_skipped(h, candidates.drop_first(), self_canonical, chosen);
    }
}

/// The shim's closing diagnostic when neither an ancestor resolver nor the
/// search path had the tool.
pub fn not_found_message(tool_name: &str) -> (r: String)
    ensures
        r@ == "Tool "@ + tool_name@ + " not found as tool nor in PATH"@,
{
    let mut out: Vec<char> = Vec::new();
    let a = str_to_chars("Tool ");
    append_chars(&mut out, &a);
    let t = str_to_chars(tool_name);
    append_chars(&mut out, &t);
    let b = str_to_chars(" not found as tool nor in PATH");
    append_chars(&mut out, &b);
    chars_to_string(&out)
}

} // verus!
