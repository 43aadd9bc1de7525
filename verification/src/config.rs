//! The manifest: the declarative list of pinned tools, their download
//! locators and per-tool command and environment templates, and the
//! normalization pass that fills in defaults after loading.

use vstd::prelude::*;

use crate::chars::{
    append_chars, chars_to_string, contains_chars, contains_sub, rfind, rfind_char, replace_all,
    spec_replace_all, str_to_chars,
};

verus! {

/// The manifest file's name, looked for in the working directory and its
/// ancestors.
pub const CONFIG_FILENAME: &'static str = ".tool-tool.v1.yaml";

/// Platform-specific download locations; `default` applies where no
/// platform-specific one is given.
#[derive(Debug, Clone, PartialEq, Eq)]
pub struct DownloadUrls {
    pub default: Option<String>,
    pub linux: Option<String>,
    pub windows: Option<String>,
}

/// One pinned tool: its unique name, opaque version string, download
/// locations, logical command templates, environment templates, and how many
/// leading path components to strip when unpacking an archive.
#[derive(Debug, Clone, PartialEq, Eq)]
pub struct ToolConfiguration {
    pub name: String,
    pub version: String,
    pub download: DownloadUrls,
    pub commands: Vec<(String, String)>,
    pub env: Vec<(String, String)>,
    pub strip_directories: usize,
}

/// The whole manifest: an optional cache root, the ordered tool list, and the
/// paths the manifest was loaded from.
#[derive(Debug, Clone, PartialEq, Eq)]
pub struct Configuration {
    pub cache_dir: Option<String>,
    pub tools: Vec<ToolConfiguration>,
    pub configuration_files: Vec<String>,
}

pub open spec fn opt_view(o: Option<String>) -> Option<Seq<char>> {
    match o {
        Some(s) => Some(s@),
        None => None,
    }
}

/// Specification-level counterpart of `ToolConfiguration`.
pub struct ToolView {
    pub name: Seq<char>,
    pub version: Seq<char>,
    pub download_default: Option<Seq<char>>,
    pub download_linux: Option<Seq<char>>,
    pub download_windows: Option<Seq<char>>,
    pub commands: Seq<(Seq<char>, Seq<char>)>,
    pub env: Seq<(Seq<char>, Seq<char>)>,
    pub strip_directories: int,
}

/// Specification-level counterpart of `Configuration`.
pub struct ConfigView {
    pub cache_dir: Option<Seq<char>>,
    pub tools: Seq<ToolView>,
    pub configuration_files: Seq<Seq<char>>,
}

impl View for ToolConfiguration {
    type V = ToolView;

    open spec fn view(&self) -> ToolView {
        ToolView {
            name: self.name@,
            version: self.version@,
            download_default: opt_view(self.download.default),
            download_linux: opt_view(self.download.linux),
            download_windows: opt_view(self.download.windows),
            commands: self.commands.deep_view(),
            env: self.env.deep_view(),
            strip_directories: self.strip_directories as int,
        }
    }
}

impl View for Configuration {
    type V = ConfigView;

    open spec fn view(&self) -> ConfigView {
        ConfigView {
            cache_dir: opt_view(self.cache_dir),
            tools: self.tools@.map(|i: int, t: ToolConfiguration| t@),
            configuration_files: self.configuration_files.deep_view(),
        }
    }
}

impl Default for DownloadUrls {
    /// A locator with no URL configured anywhere.
    fn default() -> (r: DownloadUrls)
        ensures
            r.default is None && r.linux is None && r.windows is None,
    {
        DownloadUrls { default: None, linux: None, windows: None }
    }
}

impl Default for ToolConfiguration {
    /// A tool with empty name and version, no download location, no commands,
    /// no environment, and nothing stripped when unpacking.
    fn default() -> (r: ToolConfiguration)
        ensures
            r@.name.len() == 0,
            r@.version.len() == 0,
            r@.download_default is None,
            r@.download_linux is None,
            r@.download_windows is None,
            r@.commands.len() == 0,
            r@.env.len() == 0,
            r@.strip_directories == 0,
    {
        let r = ToolConfiguration {
            name: String::new(),
            version: String::new(),
            download: DownloadUrls { default: None, linux: None, windows: None },
            commands: Vec::new(),
            env: Vec::new(),
            strip_directories: 0,
        };
        proof {
            assert(r@.commands =~= Seq::<(Seq<char>, Seq<char>)>::empty());
            assert(r@.env =~= Seq::<(Seq<char>, Seq<char>)>::empty());
        }
        r
    }
}

impl Default for Configuration {
    /// A manifest with no cache root, no tools and no source files.
    fn default() -> (r: Configuration)
        ensures
            r@.cache_dir is None,
            r@.tools.len() == 0,
            r@.configuration_files.len() == 0,
    {
        let r = Configuration {
            cache_dir: None,
            tools: Vec::new(),
            configuration_files: Vec::new(),
        };
        proof {
            assert(r@.tools =~= Seq::<ToolView>::empty());
            assert(r@.configuration_files =~= Seq::<Seq<char>>::empty());
        }
        r
    }
}

/// How many leading path components are stripped when unpacking, where the
/// manifest does not say.
pub fn default_strip_directories() -> (r: usize)
    ensures
        r == 1,
{
    1
}

/// Replaces every `${version}` macro in the optional locator string.
pub fn replace_templates(string: &mut Option<String>, version: &str)
    ensures
        match (*old(string), *final (string)) {
            (Some(o), Some(n)) => n@ == spec_replace_all(o@, "${version}"@, version@),
            (None, None) => true,
            _ => false,
        },
{
    let pat = str_to_chars("${version}");
    let to = str_to_chars(version);
    match string {
        Some(inner) => {
            let sc = str_to_chars(inner.as_str());
            let replaced = replace_all(&sc, &pat, &to);
            *string = Some(chars_to_string(&replaced));
        },
        None => {},
    }
}

/// The default cache root derived from a manifest path: the manifest's
/// directory, then `.tool-tool/v1`.
pub open spec fn spec_default_cache_dir(path: Seq<char>) -> Seq<char> {
    (match rfind_char(path, '/') {
        Some(i) => path.subrange(0, i + 1),
        None => Seq::<char>::empty(),
    }) + ".tool-tool/v1"@
}

/// Computes the default cache root beside the manifest file. Backslashes in
/// the manifest path are first normalized to forward slashes.
pub fn default_cache_dir(path: &str) -> (r: String)
    ensures
        r@ == spec_default_cache_dir(spec_replace_all(path@, seq!['\\'], seq!['/'])),
{
    let pc = str_to_chars(path);
    let mut bs: Vec<char> = Vec::new();
    bs.push('\\');
    let mut fs: Vec<char> = Vec::new();
    fs.push('/');
    proof {
        assert(bs@ =~= seq!['\\']);
        assert(fs@ =~= seq!['/']);
    }
    let norm = replace_all(&pc, &bs, &fs);
    let mut out: Vec<char> = Vec::new();
    match rfind(&norm, '/') {
        Some(i) => {
            proof {
                crate::chars::lemma_rfind_char_spec(norm@, '/');
            }
            let head = crate::chars::subrange_chars(&norm, 0, i + 1);
            append_chars(&mut out, &head);
        },
        None => {},
    }
    let suffix = str_to_chars(".tool-tool/v1");
    append_chars(&mut out, &suffix);
    proof {
        assert(Seq::<char>::empty() + ".tool-tool/v1"@ =~= ".tool-tool/v1"@);
    }
    chars_to_string(&out)
}

/// A command template that does not mention `${dir}` gets `${dir}/`
/// prefixed.
pub open spec fn spec_prefix_dir(c: (Seq<char>, Seq<char>)) -> (Seq<char>, Seq<char>) {
    (
        c.0,
        if contains_sub(c.1, "${dir}"@) {
            c.1
        } else {
            "${dir}/"@ + c.1
        },
    )
}

/// One tool after normalization: `${version}` expanded in the locators, a
/// default command named after the tool where none is given, and `${dir}/`
/// prefixed to command templates that do not mention `${dir}`.
pub open spec fn spec_normalize_tool(t: ToolView) -> ToolView {
    let expanded = ToolView {
        download_default: match t.download_default {
            Some(u) => Some(spec_replace_all(u, "${version}"@, t.version)),
            None => None,
        },
        download_linux: match t.download_linux {
            Some(u) => Some(spec_replace_all(u, "${version}"@, t.version)),
            None => None,
        },
        download_windows: match t.download_windows {
            Some(u) => Some(spec_replace_all(u, "${version}"@, t.version)),
            None => None,
        },
        ..t
    };
    let with_default = if t.commands.len() == 0 {
        ToolView { commands: seq![(t.name, t.name)], ..expanded }
    } else {
        expanded
    };
    ToolView {
        commands: with_default.commands.map(|i: int, c: (Seq<char>, Seq<char>)| spec_prefix_dir(c)),
        ..with_default
    }
}

/// Normalizes one tool in place.
fn normalize_tool(tool: &mut ToolConfiguration)
    ensures
        final (tool)@ == spec_normalize_tool(old(tool)@),
{
    let version = tool.version.clone();
    replace_templates(&mut tool.download.default, version.as_str());
    replace_templates(&mut tool.download.linux, version.as_str());
    replace_templates(&mut tool.download.windows, version.as_str());
    if tool.commands.len() == 0 {
        tool.commands.push((tool.name.clone(), tool.name.clone()));
        proof {
            assert(tool.commands.deep_view() =~= seq![(old(tool)@.name, old(tool)@.name)]);
        }
    }
    let marker = str_to_chars("${dir}");
    let prefix = str_to_chars("${dir}/");
    let ghost before = tool.commands.deep_view();
    let mut rewritten: Vec<(String, String)> = Vec::new();
    let mut i: usize = 0;
    while i < tool.commands.len()
        invariant
            marker@ == "${dir}"@,
            prefix@ == "${dir}/"@,
            before == tool.commands.deep_view(),
            before.len() == tool.commands@.len(),
            0 <= i <= tool.commands@.len(),
            rewritten@.len() == i,
            forall|k: int|
                0 <= k < i ==> #[trigger] rewritten.deep_view()[k] == spec_prefix_dir(before[k]),
        decreases tool.commands@.len() - i,
    {
        let key = tool.commands[i].0.clone();
        let value_chars = str_to_chars(tool.commands[i].1.as_str());
        let new_value = if contains_chars(&value_chars, &marker) {
            tool.commands[i].1.clone()
        } else {
            let mut v: Vec<char> = Vec::new();
            append_chars(&mut v, &prefix);
            append_chars(&mut v, &value_chars);
            chars_to_string(&v)
        };
        let ghost keyv = key@;
        let ghost valv = new_value@;
        proof {
            assert(before[i as int] == tool.commands@[i as int].deep_view());
            assert(keyv == before[i as int].0);
            assert(valv == spec_prefix_dir(before[i as int]).1);
        }
        let ghost old_rewritten = rewritten;
        rewritten.push((key, new_value));
        proof {
            assert(rewritten@.len() == i + 1);
            assert(rewritten.deep_view()[i as int] == (keyv, valv));
            assert forall|k: int| 0 <= k < i implies #[trigger] rewritten.deep_view()[k]
                == old_rewritten.deep_view()[k] by {
                assert(rewritten@[k] == old_rewritten@[k]);
            }
        }
        i += 1;
    }
    tool.commands = rewritten;
    proof {
        assert forall|k: int| 0 <= k < before.len() implies final (tool)@.commands[k]
            == spec_normalize_tool(old(tool)@).commands[k] by {
            assert(rewritten.deep_view()[k] == spec_prefix_dir(before[k]));
        }
        assert(final (tool)@.commands =~~= spec_normalize_tool(old(tool)@).commands);
    }
}

/// The manifest after loading: every tool normalized, the cache root filled
/// in with its default beside the manifest where the manifest names none, and
/// the manifest path recorded.
pub open spec fn spec_normalize_configuration(c: ConfigView, path: Seq<char>) -> ConfigView {
    ConfigView {
        tools: c.tools.map(|i: int, t: ToolView| spec_normalize_tool(t)),
        cache_dir: match c.cache_dir {
            Some(d) => Some(d),
            None => Some(
                spec_default_cache_dir(spec_replace_all(path, seq!['\\'], seq!['/'])),
            ),
        },
        configuration_files: c.configuration_files.push(path),
    }
}

/// Normalizes a freshly loaded manifest in place; `path` is the file it was
/// loaded from.
pub fn normalize_configuration(config: &mut Configuration, path: &str)
    ensures
        final (config)@ == spec_normalize_configuration(old(config)@, path@),
{
    let ghost before = config@.tools;
    let mut i: usize = 0;
    while i < config.tools.len()
        invariant
            before.len() == config.tools@.len(),
            0 <= i <= config.tools@.len(),
            forall|k: int|
                i <= k < before.len() ==> (#[trigger] config.tools@[k])@ == before[k],
            forall|k: int|
                0 <= k < i ==> (#[trigger] config.tools@[k])@ == spec_normalize_tool(before[k]),
            config.cache_dir == old(config).cache_dir,
            config.configuration_files == old(config).configuration_files,
        decreases config.tools@.len() - i,
    {
        let tool = &mut config.tools[i];
        normalize_tool(tool);
        i += 1;
    }
    if config.cache_dir.is_none() {
        config.cache_dir = Some(default_cache_dir(path));
    }
    let path_string = chars_to_string(&str_to_chars(path));
    config.configuration_files.push(path_string);
    proof {
        assert(final (config)@.tools =~= spec_normalize_configuration(old(config)@, path@).tools);
        assert(final (config)@.configuration_files =~= spec_normalize_configuration(
            old(config)@,
            path@,
        ).configuration_files);
    }
}

} // verus!
