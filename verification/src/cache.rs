//! The tool cache and the command resolver: the cache addresses installed
//! tools under `<cache root>/tools/<name>/<version>`, and the resolver turns
//! a logical command name into a runnable command line by substituting
//! `${..}` placeholders against the manifest, the platform and the host.

use vstd::prelude::*;

use crate::chars::{
    append_chars, chars_eq, chars_to_string, has_prefix, spec_split, split_chars,
    starts_with_chars, str_to_chars, subrange_chars,
};
use crate::config::{Configuration, ConfigView, ToolConfiguration, ToolView};
use crate::host::{spec_assoc_lookup, Host, HostView};
use crate::platform::{extensions_of, spec_application_extensions, PlatformKind};
use crate::template::{parse_parts, parts_view, spec_parse, SegView, TemplatePart};

verus! {

/// How deep `cmd:` references may chain before resolution gives up.
pub const MAX_COMMAND_RECURSION: u64 = 64;

/// A fully resolved invocation: the binary to run, its arguments, and the
/// environment overlay.
#[derive(Debug, PartialEq, Eq)]
pub struct CommandLine {
    pub binary: String,
    pub arguments: Vec<String>,
    pub env: Vec<(String, String)>,
}

/// Specification-level counterpart of `CommandLine`.
pub struct CommandLineView {
    pub binary: Seq<char>,
    pub arguments: Seq<Seq<char>>,
    pub env: Seq<(Seq<char>, Seq<char>)>,
}

impl View for CommandLine {
    type V = CommandLineView;

    open spec fn view(&self) -> CommandLineView {
        CommandLineView {
            binary: self.binary@,
            arguments: self.arguments.deep_view(),
            env: self.env.deep_view(),
        }
    }
}

/// The logical command is in no tool's command map.
#[derive(Debug, Clone, PartialEq, Eq)]
pub struct CommandNotFoundError {
    pub command: String,
}

impl CommandNotFoundError {
    pub open spec fn message_view(&self) -> Seq<char> {
        "Command '"@ + self.command@ + "' not found"@
    }

    /// The user-facing description of this error.
    pub fn message(&self) -> (r: String)
        ensures
            r@ == self.message_view(),
    {
        let mut out: Vec<char> = Vec::new();
        let a = str_to_chars("Command '");
        append_chars(&mut out, &a);
        let c = str_to_chars(self.command.as_str());
        append_chars(&mut out, &c);
        let b = str_to_chars("' not found");
        append_chars(&mut out, &b);
        chars_to_string(&out)
    }
}

/// Why a command failed to resolve.
#[derive(Debug, Clone, PartialEq, Eq)]
pub enum ResolveError {
    /// No tool's command map holds the requested command.
    CommandNotFound(CommandNotFoundError),
    /// A template held `${` without a closing `}`.
    UnclosedTemplate { template: String },
    /// A placeholder of a form the resolver does not know, in `template`.
    UnsupportedTemplate { name: String, template: String },
    /// `${dir:T}` in `template` named a tool absent from the manifest.
    UnknownTool { name: String, template: String },
    /// `${env:V}` in `template` named an unset environment variable.
    MissingEnvVar { name: String, template: String },
    /// A tool directory could not be made absolute.
    AbsolutePathFailed { path: String },
    /// No candidate with any platform extension exists on disk.
    ExecutableNotFound { candidate: String },
    /// A `${cmd:..}` chain exceeded the recursion bound.
    RecursionLimit { command: String },
}

/// Specification-level counterpart of `ResolveError`.
pub enum ResolveErrorView {
    CommandNotFound(Seq<char>),
    UnclosedTemplate(Seq<char>),
    UnsupportedTemplate(Seq<char>, Seq<char>),
    UnknownTool(Seq<char>, Seq<char>),
    MissingEnvVar(Seq<char>, Seq<char>),
    AbsolutePathFailed(Seq<char>),
    ExecutableNotFound(Seq<char>),
    RecursionLimit(Seq<char>),
}

impl View for ResolveError {
    type V = ResolveErrorView;

    open spec fn view(&self) -> ResolveErrorView {
        match self {
            ResolveError::CommandNotFound(e) => ResolveErrorView::CommandNotFound(e.command@),
            ResolveError::UnclosedTemplate { template } => ResolveErrorView::UnclosedTemplate(
                template@,
            ),
            ResolveError::UnsupportedTemplate { name, template } => {
                ResolveErrorView::UnsupportedTemplate(name@, template@)
            },
            ResolveError::UnknownTool { name, template } => ResolveErrorView::UnknownTool(
                name@,
                template@,
            ),
            ResolveError::MissingEnvVar { name, template } => ResolveErrorView::MissingEnvVar(
                name@,
                template@,
            ),
            ResolveError::AbsolutePathFailed { path } => ResolveErrorView::AbsolutePathFailed(
                path@,
            ),
            ResolveError::ExecutableNotFound { candidate } => ResolveErrorView::ExecutableNotFound(
                candidate@,
            ),
            ResolveError::RecursionLimit { command } => ResolveErrorView::RecursionLimit(command@),
        }
    }
}

impl ResolveError {
    /// Whether this is the recoverable "command not found" case, which the
    /// shim protocol maps to the sentinel exit code.
    pub fn is_command_not_found(&self) -> (r: bool)
        ensures
            r == (self@ is CommandNotFound),
    {
        match self {
            ResolveError::CommandNotFound(_) => true,
            _ => false,
        }
    }

    pub open spec fn message_view(&self) -> Seq<char> {
        match self {
            ResolveError::CommandNotFound(e) => e.message_view(),
            ResolveError::UnclosedTemplate { template } => "Unclosed template string in template '"@
                + template@ + "', you may be missing a closing '}'"@,
            ResolveError::UnsupportedTemplate { name, template } => {
                "Could not replace template name '"@ + name@ + "' in template string "@
                    + template@ + ": Unsupported template: '"@ + name@ + "'"@
            },
            ResolveError::UnknownTool { name, template } => {
                "Could not replace template name 'dir:"@ + name@ + "' in template string "@
                    + template@ + ": Could not find tool '"@ + name@ + "' in tools list"@
            },
            ResolveError::MissingEnvVar { name, template } => {
                "Could not replace template name 'env:"@ + name@ + "' in template string "@
                    + template@ + ": Could not retrieve environment variable '"@ + name@ + "'"@
            },
            ResolveError::AbsolutePathFailed { path } => "Could not make path absolute: '"@ + path@
                + "'"@,
            ResolveError::ExecutableNotFound { candidate } => "Tool executable "@ + candidate@
                + " not found"@,
            ResolveError::RecursionLimit { command } => "Recursion limit reached while resolving command '"@
                + command@ + "'"@,
        }
    }

    /// The user-facing description of this error.
    pub fn message(&self) -> (r: String)
        ensures
            r@ == self.message_view(),
    {
        let mut out: Vec<char> = Vec::new();
        match self {
            ResolveError::CommandNotFound(e) => {
                return e.message();
            },
            ResolveError::UnclosedTemplate { template } => {
                let a = str_to_chars("Unclosed template string in template '");
                append_chars(&mut out, &a);
                let m = str_to_chars(template.as_str());
                append_chars(&mut out, &m);
                let b = str_to_chars("', you may be missing a closing '}'");
                append_chars(&mut out, &b);
            },
            ResolveError::UnsupportedTemplate { name, template } => {
                let a = str_to_chars("Could not replace template name '");
                append_chars(&mut out, &a);
                let m = str_to_chars(name.as_str());
                append_chars(&mut out, &m);
                let b = str_to_chars("' in template string ");
                append_chars(&mut out, &b);
                let t = str_to_chars(template.as_str());
                append_chars(&mut out, &t);
                let c = str_to_chars(": Unsupported template: '");
                append_chars(&mut out, &c);
                let m2 = str_to_chars(name.as_str());
                append_chars(&mut out, &m2);
                let d = str_to_chars("'");
                append_chars(&mut out, &d);
            },
            ResolveError::UnknownTool { name, template } => {
                let a = str_to_chars("Could not replace template name 'dir:");
                append_chars(&mut out, &a);
                let m = str_to_chars(name.as_str());
                append_chars(&mut out, &m);
                let b = str_to_chars("' in template string ");
                append_chars(&mut out, &b);
                let t = str_to_chars(template.as_str());
                append_chars(&mut out, &t);
                let c = str_to_chars(": Could not find tool '");
                append_chars(&mut out, &c);
                let m2 = str_to_chars(name.as_str());
                append_chars(&mut out, &m2);
                let d = str_to_chars("' in tools list");
                append_chars(&mut out, &d);
            },
            ResolveError::MissingEnvVar { name, template } => {
                let a = str_to_chars("Could not replace template name 'env:");
                append_chars(&mut out, &a);
                let m = str_to_chars(name.as_str());
                append_chars(&mut out, &m);
                let b = str_to_chars("' in template string ");
                append_chars(&mut out, &b);
                let t = str_to_chars(template.as_str());
                append_chars(&mut out, &t);
                let c = str_to_chars(": Could not retrieve environment variable '");
                append_chars(&mut out, &c);
                let m2 = str_to_chars(name.as_str());
                append_chars(&mut out, &m2);
                let d = str_to_chars("'");
                append_chars(&mut out, &d);
            },
            ResolveError::AbsolutePathFailed { path } => {
                let a = str_to_chars("Could not make path absolute: '");
                append_chars(&mut out, &a);
                let m = str_to_chars(path.as_str());
                append_chars(&mut out, &m);
                let b = str_to_chars("'");
                append_chars(&mut out, &b);
            },
            ResolveError::ExecutableNotFound { candidate } => {
                let a = str_to_chars("Tool executable ");
                append_chars(&mut out, &a);
                let m = str_to_chars(candidate.as_str());
                append_chars(&mut out, &m);
                let b = str_to_chars(" not found");
                append_chars(&mut out, &b);
            },
            ResolveError::RecursionLimit { command } => {
                let a = str_to_chars("Recursion limit reached while resolving command '");
                append_chars(&mut out, &a);
                let m = str_to_chars(command.as_str());
                append_chars(&mut out, &m);
                let b = str_to_chars("'");
                append_chars(&mut out, &b);
            },
        }
        chars_to_string(&out)
    }
}

/// The tool cache: the manifest, the directory installed tools live under,
/// and the platform whose policy applies.
pub struct Cache {
    pub configuration: Configuration,
    pub tools_dir: String,
    pub platform: PlatformKind,
}

/// Specification-level counterpart of `Cache`.
pub struct CacheView {
    pub configuration: ConfigView,
    pub tools_dir: Seq<char>,
    pub platform: PlatformKind,
}

impl View for Cache {
    type V = CacheView;

    open spec fn view(&self) -> CacheView {
        CacheView {
            configuration: self.configuration@,
            tools_dir: self.tools_dir@,
            platform: self.platform,
        }
    }
}

/// The directory a tool's version is installed under.
pub open spec fn spec_tool_dir(tools_dir: Seq<char>, name: Seq<char>, version: Seq<char>) -> Seq<
    char,
> {
    tools_dir + "/"@ + name + "/"@ + version
}

/// Versioned installs coexist: two different versions of the same tool
/// live under two different directories, so neither install can clobber
/// the other.
pub proof fn lemma_tool_dirs_distinct(
    tools_dir: Seq<char>,
    name: Seq<char>,
    v1: Seq<char>,
    v2: Seq<char>,
)
    requires
        v1 != v2,
    ensures
        spec_tool_dir(tools_dir, name, v1) != spec_tool_dir(tools_dir, name, v2),
{
    let p = tools_dir + "/"@ + name + "/"@;
    let d1 = spec_tool_dir(tools_dir, name, v1);
    let d2 = spec_tool_dir(tools_dir, name, v2);
    assert(d1 =~= p + v1);
    assert(d2 =~= p + v2);
    if d1 == d2 {
        assert(v1 =~= (p + v1).skip(p.len() as int));
        assert(v2 =~= (p + v2).skip(p.len() as int));
        assert(false);
    }
}

/// Everything resolution depends on: the manifest's tools, the tools
/// directory, the platform, and the host snapshot.
pub struct ResolveCtx {
    pub tools: Seq<ToolView>,
    pub tools_dir: Seq<char>,
    pub platform: PlatformKind,
    pub host: HostView,
}

pub open spec fn spec_ctx(c: CacheView, h: HostView) -> ResolveCtx {
    ResolveCtx {
        tools: c.configuration.tools,
        tools_dir: c.tools_dir,
        platform: c.platform,
        host: h,
    }
}

/// The first tool whose command map holds `command`.
pub open spec fn spec_find_tool(tools: Seq<ToolView>, command: Seq<char>) -> Option<ToolView>
    decreases tools.len(),
{
    if tools.len() == 0 {
        None
    } else if spec_assoc_lookup(tools[0].commands, command) is Some {
        Some(tools[0])
    } else {
        spec_find_tool(tools.drop_first(), command)
    }
}

/// The first tool with the given name.
pub open spec fn spec_find_tool_by_name(tools: Seq<ToolView>, name: Seq<char>) -> Option<ToolView>
    decreases tools.len(),
{
    if tools.len() == 0 {
        None
    } else if tools[0].name == name {
        Some(tools[0])
    } else {
        spec_find_tool_by_name(tools.drop_first(), name)
    }
}

/// The absolute form of `p` in the host snapshot, or the error for a path
/// that does not canonicalize.
pub open spec fn spec_absolute(h: HostView, p: Seq<char>) -> Result<Seq<char>, ResolveErrorView> {
    match spec_assoc_lookup(h.absolute, p) {
        Some(a) => Ok(a),
        None => Err(ResolveErrorView::AbsolutePathFailed(p)),
    }
}

/// What one `${name}` placeholder stands for, evaluated against tool `tool`:
/// `dir` and `dir:T` are absolute install directories, `version` the tool's
/// version, `cmd:X` the binary of the recursively resolved command `X`,
/// `env:V` an environment variable, and `linux:..` / `windows:..` literal
/// text on the matching platform; anything else is unsupported.
pub open spec fn spec_placeholder(
    ctx: ResolveCtx,
    tool: ToolView,
    name: Seq<char>,
    template: Seq<char>,
    depth: nat,
) -> Result<Seq<char>, ResolveErrorView>
    decreases depth, 0nat, 0nat,
{
    if name == "dir"@ {
        spec_absolute(ctx.host, spec_tool_dir(ctx.tools_dir, tool.name, tool.version))
    } else if name == "version"@ {
        Ok(tool.version)
    } else if has_prefix(name, "cmd:"@) {
        let command = name.skip(4);
        if depth == 0 {
            Err(ResolveErrorView::RecursionLimit(command))
        } else {
            match spec_resolve(ctx, command, (depth - 1) as nat) {
                Ok(cl) => Ok(cl.binary),
                Err(e) => Err(e),
            }
        }
    } else if has_prefix(name, "env:"@) {
        let var = name.skip(4);
        match spec_assoc_lookup(ctx.host.env, var) {
            Some(v) => Ok(v),
            None => Err(ResolveErrorView::MissingEnvVar(var, template)),
        }
    } else if has_prefix(name, "dir:"@) {
        let tool_name = name.skip(4);
        match spec_find_tool_by_name(ctx.tools, tool_name) {
            Some(t) => spec_absolute(ctx.host, spec_tool_dir(ctx.tools_dir, t.name, t.version)),
            None => Err(ResolveErrorView::UnknownTool(tool_name, template)),
        }
    } else if has_prefix(name, "linux:"@) {
        if ctx.platform == PlatformKind::Linux {
            Ok(name.skip(6))
        } else {
            Ok(Seq::empty())
        }
    } else if has_prefix(name, "windows:"@) {
        if ctx.platform == PlatformKind::Windows {
            Ok(name.skip(8))
        } else {
            Ok(Seq::empty())
        }
    } else {
        Err(ResolveErrorView::UnsupportedTemplate(name, template))
    }
}

/// The concatenation of template parts with every placeholder evaluated;
/// the first failure, in order, wins.
pub open spec fn spec_subst_parts(
    ctx: ResolveCtx,
    tool: ToolView,
    parts: Seq<SegView>,
    template: Seq<char>,
    depth: nat,
) -> Result<Seq<char>, ResolveErrorView>
    decreases depth, 1nat, parts.len(),
{
    if parts.len() == 0 {
        Ok(Seq::empty())
    } else {
        let head = match parts[0] {
            SegView::Lit(l) => Ok(l),
            SegView::Ph(n) => spec_placeholder(ctx, tool, n, template, depth),
        };
        match head {
            Err(e) => Err(e),
            Ok(h) => match spec_subst_parts(ctx, tool, parts.drop_first(), template, depth) {
                Err(e) => Err(e),
                Ok(t) => Ok(h + t),
            },
        }
    }
}

/// One template string substituted: parsed, then each placeholder evaluated.
pub open spec fn spec_subst_template(
    ctx: ResolveCtx,
    tool: ToolView,
    s: Seq<char>,
    depth: nat,
) -> Result<Seq<char>, ResolveErrorView>
    decreases depth, 2nat, 0nat,
{
    match spec_parse(s) {
        None => Err(ResolveErrorView::UnclosedTemplate(s)),
        Some(parts) => spec_subst_parts(ctx, tool, parts, s, depth),
    }
}

/// Every token substituted, in order; the first failure wins.
pub open spec fn spec_subst_tokens(
    ctx: ResolveCtx,
    tool: ToolView,
    tokens: Seq<Seq<char>>,
    depth: nat,
) -> Result<Seq<Seq<char>>, ResolveErrorView>
    decreases depth, 3nat, tokens.len(),
{
    if tokens.len() == 0 {
        Ok(Seq::empty())
    } else {
        match spec_subst_template(ctx, tool, tokens[0], depth) {
            Err(e) => Err(e),
            Ok(h) => match spec_subst_tokens(ctx, tool, tokens.drop_first(), depth) {
                Err(e) => Err(e),
                Ok(t) => Ok(seq![h] + t),
            },
        }
    }
}

/// The tool's environment map with every value substituted, in order.
pub open spec fn spec_resolve_env(
    ctx: ResolveCtx,
    tool: ToolView,
    env: Seq<(Seq<char>, Seq<char>)>,
    depth: nat,
) -> Result<Seq<(Seq<char>, Seq<char>)>, ResolveErrorView>
    decreases depth, 3nat, env.len(),
{
    if env.len() == 0 {
        Ok(Seq::empty())
    } else {
        match spec_subst_template(ctx, tool, env[0].1, depth) {
            Err(e) => Err(e),
            Ok(v) => match spec_resolve_env(ctx, tool, env.drop_first(), depth) {
                Err(e) => Err(e),
                Ok(t) => Ok(seq![(env[0].0, v)] + t),
            },
        }
    }
}

/// The first candidate `base + extension` that exists, probing the
/// extensions in order.
pub open spec fn spec_pick_binary(
    files: Seq<Seq<char>>,
    base: Seq<char>,
    exts: Seq<Seq<char>>,
) -> Option<Seq<char>>
    decreases exts.len(),
{
    if exts.len() == 0 {
        None
    } else if files.contains(base + exts[0]) {
        Some(base + exts[0])
    } else {
        spec_pick_binary(files, base, exts.drop_first())
    }
}

/// What resolving `command` yields: the owning tool is the first whose
/// command map holds it; its raw template splits into space-separated
/// tokens, each substituted; the first token plus the first existing
/// platform extension is the binary, the rest are the arguments; the tool's
/// environment map is substituted the same way.
pub open spec fn spec_resolve(ctx: ResolveCtx, command: Seq<char>, depth: nat) -> Result<
    CommandLineView,
    ResolveErrorView,
>
    decreases depth, 4nat, 0nat,
{
    match spec_find_tool(ctx.tools, command) {
        None => Err(ResolveErrorView::CommandNotFound(command)),
        Some(tool) => {
            let raw = spec_assoc_lookup(tool.commands, command)->Some_0;
            match spec_subst_tokens(ctx, tool, spec_split(raw, ' '), depth) {
                Err(e) => Err(e),
                Ok(parts) => {
                    let base = parts[0];
                    match spec_pick_binary(
                        ctx.host.files,
                        base,
                        spec_application_extensions(ctx.platform),
                    ) {
                        None => Err(ResolveErrorView::ExecutableNotFound(base)),
                        Some(binary) => match spec_resolve_env(ctx, tool, tool.env, depth) {
                            Err(e) => Err(e),
                            Ok(env) => Ok(
                                CommandLineView { binary, arguments: parts.drop_first(), env },
                            ),
                        },
                    }
                },
            }
        },
    }
}

impl Cache {
    /// Builds the cache over a loaded manifest; the manifest must already
    /// carry a cache root (normalization always fills one in). Tools live
    /// under `<cache root>/tools`. The platform starts as Linux; the caller
    /// sets the field for another platform.
    pub fn create(configuration: Configuration) -> (r: Result<Cache, String>)
        requires
            configuration@.cache_dir is Some,
        ensures
            match r {
                Ok(c) => {
                    &&& c@.configuration == configuration@
                    &&& c@.tools_dir == configuration@.cache_dir->Some_0 + "/tools"@
                    &&& c@.platform == PlatformKind::Linux
                },
                Err(_) => false,
            },
    {
        let mut dir_chars: Vec<char> = Vec::new();
        match &configuration.cache_dir {
            Some(d) => {
                let dc = str_to_chars(d.as_str());
                append_chars(&mut dir_chars, &dc);
            },
            None => {},
        }
        let suffix = str_to_chars("/tools");
        append_chars(&mut dir_chars, &suffix);
        proof {
            assert(Seq::<char>::empty() + configuration@.cache_dir->Some_0 =~= configuration@.cache_dir->Some_0);
        }
        let tools_dir = chars_to_string(&dir_chars);
        Ok(Cache { configuration, tools_dir, platform: PlatformKind::Linux })
    }

    /// The directory installed tools live under, as a path string.
    pub fn tools_dir_str(&self) -> (r: &str)
        ensures
            r@ == self@.tools_dir,
    {
        self.tools_dir.as_str()
    }

    /// The directory `tool`'s pinned version is installed under.
    pub fn get_tool_dir(&self, tool: &ToolConfiguration) -> (r: String)
        ensures
            r@ == spec_tool_dir(self@.tools_dir, tool@.name, tool@.version),
    {
        let mut out: Vec<char> = Vec::new();
        let td = str_to_chars(self.tools_dir.as_str());
        append_chars(&mut out, &td);
        let sep = str_to_chars("/");
        append_chars(&mut out, &sep);
        let n = str_to_chars(tool.name.as_str());
        append_chars(&mut out, &n);
        append_chars(&mut out, &sep);
        let v = str_to_chars(tool.version.as_str());
        append_chars(&mut out, &v);
        chars_to_string(&out)
    }

    /// Resolves a logical command name into a runnable command line against
    /// the host, following `${cmd:..}` references up to the recursion bound.
    pub fn get_command_line<H: Host>(&self, host: &H, command: &str) -> (r: Result<
        CommandLine,
        ResolveError,
    >)
        ensures
            match r {
                Ok(cl) => spec_resolve(
                    spec_ctx(self@, host.host_view()),
                    command@,
                    MAX_COMMAND_RECURSION as nat,
                ) == Ok::<CommandLineView, ResolveErrorView>(cl@),
                Err(e) => spec_resolve(
                    spec_ctx(self@, host.host_view()),
                    command@,
                    MAX_COMMAND_RECURSION as nat,
                ) == Err::<CommandLineView, ResolveErrorView>(e@),
            },
    {
        let cc = str_to_chars(command);
        resolve_inner(self, host, &cc, MAX_COMMAND_RECURSION)
    }
}

/// The first tool whose command map holds `command`.
fn find_tool<'a>(tools: &'a Vec<ToolConfiguration>, command: &Vec<char>) -> (r: Option<
    &'a ToolConfiguration,
>)
    ensures
        match r {
            Some(t) => spec_find_tool(tools@.map(|i: int, t: ToolConfiguration| t@), command@)
                == Some(t@),
            None => spec_find_tool(tools@.map(|i: int, t: ToolConfiguration| t@), command@)
                is None,
        },
{
    let ghost tv = tools@.map(|i: int, t: ToolConfiguration| t@);
    let command_string = chars_to_string(command);
    let mut i: usize = 0;
    proof {
        assert(tv.skip(0) =~= tv);
    }
    while i < tools.len()
        invariant
            tv == tools@.map(|i: int, t: ToolConfiguration| t@),
            tv.len() == tools@.len(),
            command_string@ == command@,
            0 <= i <= tools@.len(),
            spec_find_tool(tv, command@) == spec_find_tool(tv.skip(i as int), command@),
        decreases tools@.len() - i,
    {
        proof {
            assert(tv.skip(i as int)[0] == tv[i as int]);
            assert(tv.skip(i as int).drop_first() =~= tv.skip(i + 1));
        }
        match crate::host::assoc_get(&tools[i].commands, command_string.as_str()) {
            Some(_) => {
                return Some(&tools[i]);
            },
            None => {},
        }
        i += 1;
    }
    proof {
        assert(tv.skip(tv.len() as int) =~= Seq::<ToolView>::empty());
    }
    None
}

/// The first tool with the given name.
fn find_tool_by_name<'a>(tools: &'a Vec<ToolConfiguration>, name: &Vec<char>) -> (r: Option<
    &'a ToolConfiguration,
>)
    ensures
        match r {
            Some(t) => spec_find_tool_by_name(
                tools@.map(|i: int, t: ToolConfiguration| t@),
                name@,
            ) == Some(t@),
            None => spec_find_tool_by_name(tools@.map(|i: int, t: ToolConfiguration| t@), name@)
                is None,
        },
{
    let ghost tv = tools@.map(|i: int, t: ToolConfiguration| t@);
    let mut i: usize = 0;
    proof {
        assert(tv.skip(0) =~= tv);
    }
    while i < tools.len()
        invariant
            tv == tools@.map(|i: int, t: ToolConfiguration| t@),
            tv.len() == tools@.len(),
            0 <= i <= tools@.len(),
            spec_find_tool_by_name(tv, name@) == spec_find_tool_by_name(
                tv.skip(i as int),
                name@,
            ),
        decreases tools@.len() - i,
    {
        proof {
            assert(tv.skip(i as int)[0] == tv[i as int]);
            assert(tv.skip(i as int).drop_first() =~= tv.skip(i + 1));
        }
        let tn = str_to_chars(tools[i].name.as_str());
        if chars_eq(&tn, name) {
            return Some(&tools[i]);
        }
        i += 1;
    }
    proof {
        assert(tv.skip(tv.len() as int) =~= Seq::<ToolView>::empty());
    }
    None
}

/// The absolute form of a tool directory on the host.
fn absolute_dir<H: Host>(host: &H, dir: &String) -> (r: Result<String, ResolveError>)
    ensures
        match r {
            Ok(a) => spec_absolute(host.host_view(), dir@) == Ok::<Seq<char>, ResolveErrorView>(
                a@,
            ),
            Err(e) => spec_absolute(host.host_view(), dir@) == Err::<Seq<char>, ResolveErrorView>(
                e@,
            ),
        },
{
    match host.make_absolute(dir.as_str()) {
        Ok(a) => Ok(a),
        Err(_) => Err(ResolveError::AbsolutePathFailed { path: dir.clone() }),
    }
}

/// Evaluates one `${name}` placeholder.
fn placeholder_value<H: Host>(
    cache: &Cache,
    host: &H,
    tool: &ToolConfiguration,
    name: &Vec<char>,
    template: &Vec<char>,
    depth: u64,
) -> (r: Result<String, ResolveError>)
    ensures
        match r {
            Ok(v) => spec_placeholder(
                spec_ctx(cache@, host.host_view()),
                tool@,
                name@,
                template@,
                depth as nat,
            ) == Ok::<Seq<char>, ResolveErrorView>(v@),
            Err(e) => spec_placeholder(
                spec_ctx(cache@, host.host_view()),
                tool@,
                name@,
                template@,
                depth as nat,
            ) == Err::<Seq<char>, ResolveErrorView>(e@),
        },
    decreases depth, 0int, 0int,
{
    proof {
        reveal_strlit("cmd:");
        reveal_strlit("env:");
        reveal_strlit("dir:");
        reveal_strlit("linux:");
        reveal_strlit("windows:");
    }
    let dir_lit = str_to_chars("dir");
    let version_lit = str_to_chars("version");
    if chars_eq(name, &dir_lit) {
        let dir = cache.get_tool_dir(tool);
        return absolute_dir(host, &dir);
    }
    if chars_eq(name, &version_lit) {
        return Ok(tool.version.clone());
    }
    let cmd_prefix = str_to_chars("cmd:");
    if starts_with_chars(name, &cmd_prefix) {
        let command = subrange_chars(name, 4, name.len());
        proof {
            assert(command@ =~= name@.skip(4));
        }
        if depth == 0 {
            return Err(ResolveError::RecursionLimit { command: chars_to_string(&command) });
        }
        return match resolve_inner(cache, host, &command, depth - 1) {
            Ok(cl) => Ok(cl.binary),
            Err(e) => Err(e),
        };
    }
    let env_prefix = str_to_chars("env:");
    if starts_with_chars(name, &env_prefix) {
        let var = subrange_chars(name, 4, name.len());
        proof {
            assert(var@ =~= name@.skip(4));
        }
        let var_string = chars_to_string(&var);
        return match host.env_var(var_string.as_str()) {
            Some(v) => Ok(v),
            None => Err(
                ResolveError::MissingEnvVar {
                    name: var_string,
                    template: chars_to_string(template),
                },
            ),
        };
    }
    let dir_prefix = str_to_chars("dir:");
    if starts_with_chars(name, &dir_prefix) {
        let tool_name = subrange_chars(name, 4, name.len());
        proof {
            assert(tool_name@ =~= name@.skip(4));
        }
        return match find_tool_by_name(&cache.configuration.tools, &tool_name) {
            Some(t) => {
                let dir = cache.get_tool_dir(t);
                absolute_dir(host, &dir)
            },
            None => Err(
                ResolveError::UnknownTool {
                    name: chars_to_string(&tool_name),
                    template: chars_to_string(template),
                },
            ),
        };
    }
    let linux_prefix = str_to_chars("linux:");
    if starts_with_chars(name, &linux_prefix) {
        return match cache.platform {
            PlatformKind::Linux => {
                let rest = subrange_chars(name, 6, name.len());
                proof {
                    assert(rest@ =~= name@.skip(6));
                }
                Ok(chars_to_string(&rest))
            },
            PlatformKind::Windows => {
                let empty: Vec<char> = Vec::new();
                proof {
                    assert(empty@ =~= Seq::<char>::empty());
                }
                Ok(chars_to_string(&empty))
            },
        };
    }
    let windows_prefix = str_to_chars("windows:");
    if starts_with_chars(name, &windows_prefix) {
        return match cache.platform {
            PlatformKind::Windows => {
                let rest = subrange_chars(name, 8, name.len());
                proof {
                    assert(rest@ =~= name@.skip(8));
                }
                Ok(chars_to_string(&rest))
            },
            PlatformKind::Linux => {
                let empty: Vec<char> = Vec::new();
                proof {
                    assert(empty@ =~= Seq::<char>::empty());
                }
                Ok(chars_to_string(&empty))
            },
        };
    }
    Err(
        ResolveError::UnsupportedTemplate {
            name: chars_to_string(name),
            template: chars_to_string(template),
        },
    )
}

/// Substitutes the parts of one template from index `i` on.
fn subst_parts_from<H: Host>(
    cache: &Cache,
    host: &H,
    tool: &ToolConfiguration,
    parts: &Vec<TemplatePart>,
    template: &Vec<char>,
    i: usize,
    depth: u64,
) -> (r: Result<Vec<char>, ResolveError>)
    requires
        i <= parts@.len(),
    ensures
        match r {
            Ok(v) => spec_subst_parts(
                spec_ctx(cache@, host.host_view()),
                tool@,
                parts_view(parts@).skip(i as int),
                template@,
                depth as nat,
            ) == Ok::<Seq<char>, ResolveErrorView>(v@),
            Err(e) => spec_subst_parts(
                spec_ctx(cache@, host.host_view()),
                tool@,
                parts_view(parts@).skip(i as int),
                template@,
                depth as nat,
            ) == Err::<Seq<char>, ResolveErrorView>(e@),
        },
    decreases depth, 1int, parts@.len() - i,
{
    let ghost pv = parts_view(parts@);
    if i == parts.len() {
        proof {
            assert(pv.skip(i as int) =~= Seq::<SegView>::empty());
        }
        let empty: Vec<char> = Vec::new();
        proof {
            assert(empty@ =~= Seq::<char>::empty());
        }
        return Ok(empty);
    }
    proof {
        assert(pv.skip(i as int)[0] == pv[i as int]);
        assert(pv.skip(i as int).drop_first() =~= pv.skip(i + 1));
    }
    let head = match &parts[i] {
        TemplatePart::Literal(l) => {
            let h = subrange_chars(l, 0, l.len());
            proof {
                assert(h@ =~= l@);
            }
            h
        },
        TemplatePart::Placeholder(n) => {
            match placeholder_value(cache, host, tool, n, template, depth) {
                Ok(v) => str_to_chars(v.as_str()),
                Err(e) => {
                    return Err(e);
                },
            }
        },
    };
    match subst_parts_from(cache, host, tool, parts, template, i + 1, depth) {
        Ok(t) => {
            let mut out = head;
            append_chars(&mut out, &t);
            Ok(out)
        },
        Err(e) => Err(e),
    }
}

/// Substitutes one whole template string.
fn subst_template<H: Host>(
    cache: &Cache,
    host: &H,
    tool: &ToolConfiguration,
    s: &Vec<char>,
    depth: u64,
) -> (r: Result<Vec<char>, ResolveError>)
    ensures
        match r {
            Ok(v) => spec_subst_template(
                spec_ctx(cache@, host.host_view()),
                tool@,
                s@,
                depth as nat,
            ) == Ok::<Seq<char>, ResolveErrorView>(v@),
            Err(e) => spec_subst_template(
                spec_ctx(cache@, host.host_view()),
                tool@,
                s@,
                depth as nat,
            ) == Err::<Seq<char>, ResolveErrorView>(e@),
        },
    decreases depth, 2int, 0int,
{
    match parse_parts(s) {
        None => Err(ResolveError::UnclosedTemplate { template: chars_to_string(s) }),
        Some(parts) => {
            proof {
                assert(parts_view(parts@).skip(0) =~= parts_view(parts@));
            }
            subst_parts_from(cache, host, tool, &parts, s, 0, depth)
        },
    }
}

/// Substitutes every token from index `i` on.
fn subst_tokens_from<H: Host>(
    cache: &Cache,
    host: &H,
    tool: &ToolConfiguration,
    tokens: &Vec<Vec<char>>,
    i: usize,
    depth: u64,
) -> (r: Result<Vec<String>, ResolveError>)
    requires
        i <= tokens@.len(),
    ensures
        match r {
            Ok(v) => spec_subst_tokens(
                spec_ctx(cache@, host.host_view()),
                tool@,
                tokens.deep_view().skip(i as int),
                depth as nat,
            ) == Ok::<Seq<Seq<char>>, ResolveErrorView>(v.deep_view()),
            Err(e) => spec_subst_tokens(
                spec_ctx(cache@, host.host_view()),
                tool@,
                tokens.deep_view().skip(i as int),
                depth as nat,
            ) == Err::<Seq<Seq<char>>, ResolveErrorView>(e@),
        },
    decreases depth, 3int, tokens@.len() - i,
{
    let ghost dv = tokens.deep_view();
    if i == tokens.len() {
        proof {
            assert(dv.skip(i as int) =~= Seq::<Seq<char>>::empty());
        }
        let empty: Vec<String> = Vec::new();
        proof {
            assert(empty.deep_view() =~= Seq::<Seq<char>>::empty());
        }
        return Ok(empty);
    }
    proof {
        assert(dv.skip(i as int)[0] == dv[i as int]);
        assert(dv[i as int] == tokens@[i as int]@);
        assert(dv.skip(i as int).drop_first() =~= dv.skip(i + 1));
    }
    match subst_template(cache, host, tool, &tokens[i], depth) {
        Err(e) => Err(e),
        Ok(h) => match subst_tokens_from(cache, host, tool, tokens, i + 1, depth) {
            Err(e) => Err(e),
            Ok(t) => {
                let ghost tdv = t.deep_view();
                let mut out: Vec<String> = Vec::new();
                let ghost hv = h@;
                out.push(chars_to_string(&h));
                let ghost head_dv = out.deep_view();
                let mut t2 = t;
                out.append(&mut t2);
                proof {
                    assert(head_dv =~= seq![hv]);
                    assert(out.deep_view() =~= head_dv + tdv);
                }
                Ok(out)
            },
        },
    }
}

/// Substitutes every environment entry's value from index `i` on.
fn resolve_env_from<H: Host>(
    cache: &Cache,
    host: &H,
    tool: &ToolConfiguration,
    env: &Vec<(String, String)>,
    i: usize,
    depth: u64,
) -> (r: Result<Vec<(String, String)>, ResolveError>)
    requires
        i <= env@.len(),
    ensures
        match r {
            Ok(v) => spec_resolve_env(
                spec_ctx(cache@, host.host_view()),
                tool@,
                env.deep_view().skip(i as int),
                depth as nat,
            ) == Ok::<Seq<(Seq<char>, Seq<char>)>, ResolveErrorView>(v.deep_view()),
            Err(e) => spec_resolve_env(
                spec_ctx(cache@, host.host_view()),
                tool@,
                env.deep_view().skip(i as int),
                depth as nat,
            ) == Err::<Seq<(Seq<char>, Seq<char>)>, ResolveErrorView>(e@),
        },
    decreases depth, 3int, env@.len() - i,
{
    let ghost dv = env.deep_view();
    if i == env.len() {
        proof {
            assert(dv.skip(i as int) =~= Seq::<(Seq<char>, Seq<char>)>::empty());
        }
        let empty: Vec<(String, String)> = Vec::new();
        proof {
            assert(empty.deep_view() =~= Seq::<(Seq<char>, Seq<char>)>::empty());
        }
        return Ok(empty);
    }
    proof {
        assert(dv.skip(i as int)[0] == dv[i as int]);
        assert(dv[i as int] == env@[i as int].deep_view());
        assert(dv.skip(i as int).drop_first() =~= dv.skip(i + 1));
    }
    let value_chars = str_to_chars(env[i].1.as_str());
    match subst_template(cache, host, tool, &value_chars, depth) {
        Err(e) => Err(e),
        Ok(v) => match resolve_env_from(cache, host, tool, env, i + 1, depth) {
            Err(e) => Err(e),
            Ok(t) => {
                let key = env[i].0.clone();
                let ghost keyv = key@;
                let ghost valv = v@;
                let ghost tdv = t.deep_view();
                let mut out: Vec<(String, String)> = Vec::new();
                out.push((key, chars_to_string(&v)));
                let ghost head_dv = out.deep_view();
                let mut t2 = t;
                out.append(&mut t2);
                proof {
                    assert(head_dv =~= seq![(keyv, valv)]);
                    assert(out.deep_view() =~= head_dv + tdv);
                }
                Ok(out)
            },
        },
    }
}

/// Probes `base` plus each platform extension and takes the first that
/// exists on the host.
fn pick_binary<H: Host>(host: &H, base: &Vec<char>, platform: PlatformKind) -> (r: Option<String>)
    ensures
        match r {
            Some(b) => spec_pick_binary(
                host.host_view().files,
                base@,
                spec_application_extensions(platform),
            ) == Some(b@),
            None => spec_pick_binary(
                host.host_view().files,
                base@,
                spec_application_extensions(platform),
            ) is None,
        },
{
    let exts = extensions_of(platform);
    let ghost ev = exts.deep_view();
    let mut i: usize = 0;
    proof {
        assert(ev.skip(0) =~= ev);
    }
    while i < exts.len()
        invariant
            ev == exts.deep_view(),
            ev == spec_application_extensions(platform),
            ev.len() == exts@.len(),
            0 <= i <= exts@.len(),
            spec_pick_binary(host.host_view().files, base@, ev) == spec_pick_binary(
                host.host_view().files,
                base@,
                ev.skip(i as int),
            ),
        decreases exts@.len() - i,
    {
        proof {
            assert(ev.skip(i as int)[0] == ev[i as int]);
            assert(ev[i as int] == exts@[i as int]@);
            assert(ev.skip(i as int).drop_first() =~= ev.skip(i + 1));
        }
        let mut candidate = subrange_chars(base, 0, base.len());
        proof {
            assert(candidate@ =~= base@);
        }
        let ec = str_to_chars(exts[i]);
        append_chars(&mut candidate, &ec);
        let candidate_string = chars_to_string(&candidate);
        if host.file_exists(candidate_string.as_str()) {
            return Some(candidate_string);
        }
        i += 1;
    }
    proof {
        assert(ev.skip(ev.len() as int) =~= Seq::<Seq<char>>::empty());
    }
    None
}

/// A found tool's command map does hold the command that found it.
proof fn lemma_find_tool_found(tools: Seq<ToolView>, command: Seq<char>)
    ensures
        match spec_find_tool(tools, command) {
            Some(t) => spec_assoc_lookup(t.commands, command) is Some,
            None => true,
        },
    decreases tools.len(),
{
    if tools.len() == 0 {
    } else if spec_assoc_lookup(tools[0].commands, command) is Some {
    } else {
        lemma_find_tool_found(tools.drop_first(), command);
    }
}

/// Token substitution keeps the token count.
proof fn lemma_subst_tokens_len(
    ctx: ResolveCtx,
    tool: ToolView,
    tokens: Seq<Seq<char>>,
    depth: nat,
)
    ensures
        match spec_subst_tokens(ctx, tool, tokens, depth) {
            Ok(v) => v.len() == tokens.len(),
            Err(_) => true,
        },
    decreases tokens.len(),
{
    if tokens.len() == 0 {
    } else {
        lemma_subst_tokens_len(ctx, tool, tokens.drop_first(), depth);
    }
}

/// Resolves `command` with `depth` recursion budget left.
fn resolve_inner<H: Host>(cache: &Cache, host: &H, command: &Vec<char>, depth: u64) -> (r: Result<
    CommandLine,
    ResolveError,
>)
    ensures
        match r {
            Ok(cl) => spec_resolve(spec_ctx(cache@, host.host_view()), command@, depth as nat)
                == Ok::<CommandLineView, ResolveErrorView>(cl@),
            Err(e) => spec_resolve(spec_ctx(cache@, host.host_view()), command@, depth as nat)
                == Err::<CommandLineView, ResolveErrorView>(e@),
        },
    decreases depth, 4int, 0int,
{
    proof {
        lemma_find_tool_found(
            cache@.configuration.tools,
            command@,
        );
    }
    let tool = match find_tool(&cache.configuration.tools, command) {
        Some(t) => t,
        None => {
            return Err(
                ResolveError::CommandNotFound(
                    CommandNotFoundError { command: chars_to_string(command) },
                ),
            );
        },
    };
    let command_string = chars_to_string(command);
    let raw = match crate::host::assoc_get(&tool.commands, command_string.as_str()) {
        Some(v) => v,
        None => {
            proof {
                assert(false);
            }
            return Err(
                ResolveError::CommandNotFound(
                    CommandNotFoundError { command: chars_to_string(command) },
                ),
            );
        },
    };
    let raw_chars = str_to_chars(raw.as_str());
    let tokens = split_chars(&raw_chars, ' ');
    proof {
        assert(tokens.deep_view().skip(0) =~= tokens.deep_view());
    }
    proof {
        lemma_subst_tokens_len(
            spec_ctx(cache@, host.host_view()),
            tool@,
            tokens.deep_view(),
            depth as nat,
        );
    }
    let parts = match subst_tokens_from(cache, host, tool, &tokens, 0, depth) {
        Ok(p) => p,
        Err(e) => {
            return Err(e);
        },
    };
    proof {
        assert(spec_split(raw_chars@, ' ').len() >= 1);
        assert(parts.deep_view().len() >= 1);
        assert(parts.deep_view()[0] == parts@[0]@);
    }
    let base = str_to_chars(parts[0].as_str());
    let binary = match pick_binary(host, &base, cache.platform) {
        Some(b) => b,
        None => {
            return Err(ResolveError::ExecutableNotFound { candidate: chars_to_string(&base) });
        },
    };
    proof {
        assert(tool.env.deep_view().skip(0) =~= tool.env.deep_view());
    }
    let env = match resolve_env_from(cache, host, tool, &tool.env, 0, depth) {
        Ok(env) => env,
        Err(e) => {
            return Err(e);
        },
    };
    let mut arguments: Vec<String> = Vec::new();
    let mut i: usize = 1;
    let ghost pdv = parts.deep_view();
    while i < parts.len()
        invariant
            pdv == parts.deep_view(),
            pdv.len() == parts@.len(),
            1 <= i <= parts@.len() || (parts@.len() == 0 && i == 1),
            parts@.len() >= 1,
            arguments.deep_view() =~= pdv.subrange(1, i as int),
        decreases parts@.len() - i,
    {
        let ghost before = arguments.deep_view();
        arguments.push(parts[i].clone());
        proof {
            assert(arguments.deep_view() =~= before.push(pdv[i as int]));
            assert(pdv.subrange(1, i + 1) =~= pdv.subrange(1, i as int).push(pdv[i as int]));
        }
        i += 1;
    }
    proof {
        assert(arguments.deep_view() =~= pdv.drop_first());
    }
    Ok(CommandLine { binary, arguments, env })
}

} // verus!
