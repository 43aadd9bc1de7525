//! The install engine's verified core: naming the downloaded artifact,
//! classifying it by extension, decoding archives, stripping leading path
//! components, planning the per-tool install steps, and the model under
//! which installation is idempotent and publishing is atomic.

use vstd::prelude::*;

use crate::cache::{spec_tool_dir, Cache};
use crate::chars::{
    append_chars, chars_to_string, dec_rep, find_from, find_sub, lemma_find_from_spec,
    lemma_rfind_char_spec, rfind, rfind_char, spec_split, split_chars, str_to_chars,
    subrange_chars, u64_to_dec_chars,
};
use crate::config::{ToolConfiguration, ToolView};
use crate::platform::{spec_download_url, download_url_of, PlatformKind};

verus! {

/// One decoded archive member: its path inside the archive, whether it is a
/// directory, its contents, and its recorded permission bits.
#[derive(Debug, PartialEq, Eq)]
pub struct ArchiveEntry {
    pub name: String,
    pub is_dir: bool,
    pub data: Vec<u8>,
    pub mode: Option<u32>,
}

/// Specification-level counterpart of `ArchiveEntry`.
pub struct ArchiveEntryView {
    pub name: Seq<char>,
    pub is_dir: bool,
    pub data: Seq<u8>,
    pub mode: Option<u32>,
}

impl View for ArchiveEntry {
    type V = ArchiveEntryView;

    open spec fn view(&self) -> ArchiveEntryView {
        ArchiveEntryView {
            name: self.name@,
            is_dir: self.is_dir,
            data: self.data@,
            mode: self.mode,
        }
    }
}

impl DeepView for ArchiveEntry {
    type V = ArchiveEntryView;

    open spec fn deep_view(&self) -> ArchiveEntryView {
        self@
    }
}

/// The members a well-formed zip archive with these bytes decodes to, in
/// order; `None` for bytes that do not decode.
pub uninterp spec fn zip_entries_of(bytes: Seq<u8>) -> Option<Seq<ArchiveEntryView>>;

/// The members a well-formed gzipped tar archive with these bytes decodes
/// to, in order; `None` for bytes that do not decode.
pub uninterp spec fn tar_gz_entries_of(bytes: Seq<u8>) -> Option<Seq<ArchiveEntryView>>;

/// Relies on zip::ZipArchive (with std::io::Cursor): decodes an in-memory
/// zip archive into its members, in order, with each member's path, kind,
/// contents and Unix permission bits; the result depends on the bytes alone.
#[verifier::external_body]
pub fn read_zip_archive(bytes: &Vec<u8>) -> (r: Option<Vec<ArchiveEntry>>)
    ensures
        match r {
            Some(v) => zip_entries_of(bytes@) == Some(v.deep_view()),
            None => zip_entries_of(bytes@) is None,
        },
{
    let mut archive = zip::ZipArchive::new(std::io::Cursor::new(bytes.as_slice())).ok()?;
    let mut out = Vec::new();
    for i in 0..archive.len() {
        let mut f = archive.by_index(i).ok()?;
        let mut data = Vec::new();
        std::io::Read::read_to_end(&mut f, &mut data).ok()?;
        out.push(
            ArchiveEntry { name: f.name().to_string(), is_dir: f.is_dir(), data, mode: f.unix_mode() },
        );
    }
    Some(out)
}

/// Relies on flate2::read::GzDecoder and tar::Archive (with
/// std::io::Cursor): decodes an in-memory gzipped tar archive into its
/// members, in order, with each member's path, kind, contents and recorded
/// mode. Member names are decoded lossily from their raw path bytes, so
/// the result depends on the bytes alone, the same on every platform.
#[verifier::external_body]
pub fn read_tar_gz_archive(bytes: &Vec<u8>) -> (r: Option<Vec<ArchiveEntry>>)
    ensures
        match r {
            Some(v) => tar_gz_entries_of(bytes@) == Some(v.deep_view()),
            None => tar_gz_entries_of(bytes@) is None,
        },
{
    let decoder = flate2::read::GzDecoder::new(std::io::Cursor::new(bytes.as_slice()));
    let mut archive = tar::Archive::new(decoder);
    let mut out = Vec::new();
    for entry in archive.entries().ok()? {
        let mut entry = entry.ok()?;
        let name = String::from_utf8_lossy(&entry.path_bytes()).into_owned();
        let is_dir = entry.header().entry_type().is_dir();
        let mode = entry.header().mode().ok();
        let mut data = Vec::new();
        std::io::Read::read_to_end(&mut entry, &mut data).ok()?;
        out.push(ArchiveEntry { name, is_dir, data, mode });
    }
    Some(out)
}

/// Why an install cannot proceed.
#[derive(Debug, PartialEq, Eq)]
pub enum InstallError {
    /// No download URL is configured for the tool on this platform.
    NoDownloadUrl { tool_name: String },
    /// Stripping the configured number of leading path components left a
    /// file entry with no name at all.
    EmptyPathAfterStrip { file_name: String, strip_directories: usize, tool_name: String },
}

/// Specification-level counterpart of `InstallError`.
pub enum InstallErrorView {
    NoDownloadUrl(Seq<char>),
    EmptyPathAfterStrip { file_name: Seq<char>, strip_directories: int, tool_name: Seq<char> },
}

impl View for InstallError {
    type V = InstallErrorView;

    open spec fn view(&self) -> InstallErrorView {
        match self {
            InstallError::NoDownloadUrl { tool_name } => InstallErrorView::NoDownloadUrl(
                tool_name@,
            ),
            InstallError::EmptyPathAfterStrip { file_name, strip_directories, tool_name } => {
                InstallErrorView::EmptyPathAfterStrip {
                    file_name: file_name@,
                    strip_directories: *strip_directories as int,
                    tool_name: tool_name@,
                }
            },
        }
    }
}

impl InstallError {
    pub open spec fn message_view(&self) -> Seq<char> {
        match self {
            InstallError::NoDownloadUrl { tool_name } => "No download url configured for "@
                + tool_name@,
            InstallError::EmptyPathAfterStrip { file_name, strip_directories, tool_name } => {
                "File name \""@ + file_name@ + "\" was empty after stripping "@ + dec_rep(
                    *strip_directories as nat,
                ) + " path components (in \""@ + tool_name@
                    + "\").\nHINT: Try setting strip_components: 0 in the tool configuration for "@
                    + tool_name@
            },
        }
    }

    /// The user-facing description of this error.
    pub fn message(&self) -> (r: String)
        ensures
            r@ == self.message_view(),
    {
        let mut out: Vec<char> = Vec::new();
        match self {
            InstallError::NoDownloadUrl { tool_name } => {
                let a = str_to_chars("No download url configured for ");
                append_chars(&mut out, &a);
                let t = str_to_chars(tool_name.as_str());
                append_chars(&mut out, &t);
            },
            InstallError::EmptyPathAfterStrip { file_name, strip_directories, tool_name } => {
                let a = str_to_chars("File name \"");
                append_chars(&mut out, &a);
                let f = str_to_chars(file_name.as_str());
                append_chars(&mut out, &f);
                let b = str_to_chars("\" was empty after stripping ");
                append_chars(&mut out, &b);
                let n = u64_to_dec_chars(*strip_directories as u64);
                append_chars(&mut out, &n);
                let c = str_to_chars(" path components (in \"");
                append_chars(&mut out, &c);
                let t = str_to_chars(tool_name.as_str());
                append_chars(&mut out, &t);
                let d = str_to_chars(
                    "\").\nHINT: Try setting strip_components: 0 in the tool configuration for ",
                );
                append_chars(&mut out, &d);
                let t2 = str_to_chars(tool_name.as_str());
                append_chars(&mut out, &t2);
            },
        }
        chars_to_string(&out)
    }
}

/// How a downloaded artifact is unpacked, decided by its file extension.
#[derive(Debug, Clone, Copy, PartialEq, Eq, Structural)]
pub enum ArchiveKind {
    Zip,
    GzipTar,
    Bare,
}

/// The extension of a plain file name: what follows the last dot, if any.
pub open spec fn spec_extension(file_name: Seq<char>) -> Option<Seq<char>> {
    match rfind_char(file_name, '.') {
        Some(i) => Some(file_name.skip(i + 1)),
        None => None,
    }
}

/// How an artifact with this file name is unpacked: `.zip` as a zip
/// archive, `.gz` or `.tgz` as a gzipped tar archive, anything else as a
/// bare executable.
pub open spec fn spec_classify(file_name: Seq<char>) -> ArchiveKind {
    match spec_extension(file_name) {
        Some(e) => if e == "zip"@ {
            ArchiveKind::Zip
        } else if e == "gz"@ || e == "tgz"@ {
            ArchiveKind::GzipTar
        } else {
            ArchiveKind::Bare
        },
        None => ArchiveKind::Bare,
    }
}

/// Classifies a downloaded artifact by its file name.
pub fn classify_artifact(file_name: &str) -> (r: ArchiveKind)
    ensures
        r == spec_classify(file_name@),
{
    let fc = str_to_chars(file_name);
    match rfind(&fc, '.') {
        None => ArchiveKind::Bare,
        Some(i) => {
            proof {
                lemma_rfind_char_spec(fc@, '.');
            }
            let ext = subrange_chars(&fc, i + 1, fc.len());
            proof {
                assert(ext@ =~= fc@.skip(i + 1));
            }
            let zip_lit = str_to_chars("zip");
            let gz_lit = str_to_chars("gz");
            let tgz_lit = str_to_chars("tgz");
            if crate::chars::chars_eq(&ext, &zip_lit) {
                ArchiveKind::Zip
            } else if crate::chars::chars_eq(&ext, &gz_lit) || crate::chars::chars_eq(
                &ext,
                &tgz_lit,
            ) {
                ArchiveKind::GzipTar
            } else {
                ArchiveKind::Bare
            }
        },
    }
}

/// The file name the downloaded artifact is stored under: the tool's name,
/// a dot, and the URL's tail after dropping any query string, everything up
/// to the last `/`, and everything up to the last `.`.
pub open spec fn spec_download_file_name(tool_name: Seq<char>, url: Seq<char>) -> Seq<char> {
    let before_query = match find_from(url, seq!['?'], 0) {
        Some(i) => url.subrange(0, i),
        None => url,
    };
    let after_slash = match rfind_char(before_query, '/') {
        Some(i) => before_query.skip(i + 1),
        None => before_query,
    };
    let ext = match rfind_char(after_slash, '.') {
        Some(i) => after_slash.skip(i + 1),
        None => after_slash,
    };
    tool_name + "."@ + ext
}

/// Derives the artifact's file name from the tool's name and its URL.
pub fn download_file_name(tool_name: &str, url: &str) -> (r: String)
    ensures
        r@ == spec_download_file_name(tool_name@, url@),
{
    let uc = str_to_chars(url);
    let mut qmark: Vec<char> = Vec::new();
    qmark.push('?');
    proof {
        assert(qmark@ =~= seq!['?']);
    }
    let before_query = match find_sub(&uc, &qmark, 0) {
        Some(i) => {
            proof {
                lemma_find_from_spec(uc@, seq!['?'], 0);
            }
            subrange_chars(&uc, 0, i)
        },
        None => subrange_chars(&uc, 0, uc.len()),
    };
    proof {
        assert(uc@.subrange(0, uc@.len() as int) =~= uc@);
    }
    let after_slash = match rfind(&before_query, '/') {
        Some(i) => {
            proof {
                lemma_rfind_char_spec(before_query@, '/');
            }
            let r = subrange_chars(&before_query, i + 1, before_query.len());
            proof {
                assert(r@ =~= before_query@.skip(i + 1));
            }
            r
        },
        None => before_query,
    };
    let ext = match rfind(&after_slash, '.') {
        Some(i) => {
            proof {
                lemma_rfind_char_spec(after_slash@, '.');
            }
            let r = subrange_chars(&after_slash, i + 1, after_slash.len());
            proof {
                assert(r@ =~= after_slash@.skip(i + 1));
            }
            r
        },
        None => after_slash,
    };
    let mut out: Vec<char> = Vec::new();
    let tn = str_to_chars(tool_name);
    append_chars(&mut out, &tn);
    let dot = str_to_chars(".");
    append_chars(&mut out, &dot);
    append_chars(&mut out, &ext);
    chars_to_string(&out)
}

/// The name a bare-file artifact is installed under: the tool's name, with
/// `.exe` kept where the artifact had it.
pub open spec fn spec_bare_file_name(tool_name: Seq<char>, artifact_name: Seq<char>) -> Seq<char> {
    match spec_extension(artifact_name) {
        Some(e) => if e == "exe"@ {
            tool_name + ".exe"@
        } else {
            tool_name
        },
        None => tool_name,
    }
}

/// The file name a bare artifact becomes inside the tool's directory.
pub fn bare_file_name(tool_name: &str, artifact_name: &str) -> (r: String)
    ensures
        r@ == spec_bare_file_name(tool_name@, artifact_name@),
{
    let ac = str_to_chars(artifact_name);
    match rfind(&ac, '.') {
        None => chars_to_string(&str_to_chars(tool_name)),
        Some(i) => {
            let aclen = ac.len();
            proof {
                lemma_rfind_char_spec(ac@, '.');
            }
            let ext = subrange_chars(&ac, i + 1, aclen);
            proof {
                assert(ext@ =~= ac@.skip(i + 1));
            }
            let exe_lit = str_to_chars("exe");
            if crate::chars::chars_eq(&ext, &exe_lit) {
                let mut out = str_to_chars(tool_name);
                let suffix = str_to_chars(".exe");
                append_chars(&mut out, &suffix);
                chars_to_string(&out)
            } else {
                chars_to_string(&str_to_chars(tool_name))
            }
        },
    }
}

/// A path piece that names a real component: not empty (so leading and
/// doubled separators vanish) and not a `.` or `..` step (so an archive
/// entry can neither stay in place nor climb out of the target directory,
/// as the zip reader's sanitized names also guarantee).
pub open spec fn real_component(c: Seq<char>) -> bool {
    c.len() != 0 && c != "."@ && c != ".."@
}

/// The pieces of `parts` that name real components.
pub open spec fn spec_real_components(parts: Seq<Seq<char>>) -> Seq<Seq<char>>
    decreases parts.len(),
{
    if parts.len() == 0 {
        Seq::empty()
    } else if !real_component(parts[0]) {
        spec_real_components(parts.drop_first())
    } else {
        seq![parts[0]] + spec_real_components(parts.drop_first())
    }
}

/// The real `/`-separated components of an archive entry path.
pub open spec fn spec_path_components(s: Seq<char>) -> Seq<Seq<char>> {
    spec_real_components(spec_split(s, '/'))
}

/// Components joined back with `/`.
pub open spec fn spec_join(parts: Seq<Seq<char>>, sep: char) -> Seq<char>
    decreases parts.len(),
{
    if parts.len() == 0 {
        Seq::empty()
    } else if parts.len() == 1 {
        parts[0]
    } else {
        parts[0] + seq![sep] + spec_join(parts.drop_first(), sep)
    }
}

/// An entry path after stripping `strip` leading components: the remaining
/// components rejoined; `None` where a file entry keeps no component.
pub open spec fn spec_strip_path(s: Seq<char>, strip: int, is_dir: bool) -> Option<Seq<char>> {
    let comps = spec_path_components(s);
    let kept = if strip >= comps.len() {
        Seq::<Seq<char>>::empty()
    } else {
        comps.skip(strip)
    };
    if !is_dir && kept.len() == 0 {
        None
    } else {
        Some(spec_join(kept, '/'))
    }
}

/// Keeps the real components from index `i` on.
fn real_components_from(parts: &Vec<Vec<char>>, i: usize) -> (r: Vec<Vec<char>>)
    requires
        i <= parts@.len(),
    ensures
        r.deep_view() == spec_real_components(parts.deep_view().skip(i as int)),
    decreases parts@.len() - i,
{
    let ghost dv = parts.deep_view();
    if i == parts.len() {
        proof {
            assert(dv.skip(i as int) =~= Seq::<Seq<char>>::empty());
        }
        let r: Vec<Vec<char>> = Vec::new();
        proof {
            assert(r.deep_view() =~= Seq::<Seq<char>>::empty());
        }
        return r;
    }
    proof {
        assert(dv.skip(i as int)[0] == dv[i as int]);
        assert(dv[i as int] == parts@[i as int]@);
        assert(dv.skip(i as int).drop_first() =~= dv.skip(i + 1));
    }
    let tail = real_components_from(parts, i + 1);
    let dot = str_to_chars(".");
    let dotdot = str_to_chars("..");
    if parts[i].len() == 0 || crate::chars::chars_eq(&parts[i], &dot) || crate::chars::chars_eq(
        &parts[i],
        &dotdot,
    ) {
        tail
    } else {
        let mut r: Vec<Vec<char>> = Vec::new();
        let head = subrange_chars(&parts[i], 0, parts[i].len());
        proof {
            assert(head@ =~= dv[i as int]);
        }
        let ghost headv = head@;
        r.push(head);
        let ghost head_dv = r.deep_view();
        let ghost tail_dv = tail.deep_view();
        let mut tail2 = tail;
        r.append(&mut tail2);
        proof {
            assert(head_dv.len() == 1);
            assert(head_dv[0] == headv);
            assert(head_dv =~= seq![dv[i as int]]);
            assert(r.deep_view() =~= head_dv + tail_dv);
        }
        r
    }
}

/// Joins pieces with `sep`, from index `i` on.
fn join_from(parts: &Vec<Vec<char>>, i: usize, sep: char) -> (r: Vec<char>)
    requires
        i <= parts@.len(),
    ensures
        r@ == spec_join(parts.deep_view().skip(i as int), sep),
    decreases parts@.len() - i,
{
    let ghost dv = parts.deep_view();
    if i == parts.len() {
        proof {
            assert(dv.skip(i as int) =~= Seq::<Seq<char>>::empty());
        }
        let r: Vec<char> = Vec::new();
        proof {
            assert(r@ =~= Seq::<char>::empty());
        }
        return r;
    }
    proof {
        assert(dv.skip(i as int)[0] == dv[i as int]);
        assert(dv[i as int] == parts@[i as int]@);
        assert(dv.skip(i as int).drop_first() =~= dv.skip(i + 1));
    }
    let head = subrange_chars(&parts[i], 0, parts[i].len());
    proof {
        assert(head@ =~= dv[i as int]);
    }
    if i + 1 == parts.len() {
        proof {
            assert(dv.skip(i as int).len() == 1);
        }
        return head;
    }
    let tail = join_from(parts, i + 1, sep);
    let mut out = head;
    out.push(sep);
    append_chars(&mut out, &tail);
    proof {
        assert(out@ =~= dv[i as int] + seq![sep] + spec_join(dv.skip(i + 1), sep));
    }
    out
}

/// Strips the tool's configured number of leading path components from an
/// archive entry path; a file entry whose whole path is stripped away is
/// the configuration error that names the tool and the original path.
pub fn strip_filename(file_name: &str, tool: &ToolConfiguration, is_dir: bool) -> (r: Result<
    String,
    InstallError,
>)
    ensures
        match r {
            Ok(p) => spec_strip_path(file_name@, tool@.strip_directories, is_dir) == Some(p@),
            Err(e) => {
                &&& spec_strip_path(file_name@, tool@.strip_directories, is_dir) is None
                &&& e@ == (InstallErrorView::EmptyPathAfterStrip {
                    file_name: file_name@,
                    strip_directories: tool@.strip_directories,
                    tool_name: tool@.name,
                })
            },
        },
{
    let fc = str_to_chars(file_name);
    let raw = split_chars(&fc, '/');
    proof {
        assert(raw.deep_view().skip(0) =~= raw.deep_view());
    }
    let comps = real_components_from(&raw, 0);
    let strip = tool.strip_directories;
    let kept_from: usize = if strip >= comps.len() {
        comps.len()
    } else {
        strip
    };
    proof {
        if strip >= comps.deep_view().len() {
            assert(comps.deep_view().skip(comps.deep_view().len() as int) =~= Seq::<
                Seq<char>,
            >::empty());
        }
    }
    if !is_dir && kept_from == comps.len() {
        return Err(
            InstallError::EmptyPathAfterStrip {
                file_name: chars_to_string(&fc),
                strip_directories: tool.strip_directories,
                tool_name: tool.name.clone(),
            },
        );
    }
    proof {
        if !is_dir {
            assert(comps.deep_view().skip(kept_from as int).len() != 0);
        }
    }
    let joined = join_from(&comps, kept_from, '/');
    Ok(chars_to_string(&joined))
}

/// What the install pass does for one tool.
#[derive(Debug, PartialEq, Eq)]
pub enum ToolStep {
    /// The versioned directory already exists; nothing to do.
    AlreadyInstalled,
    /// Fetch `url` into a staging file called `file_name` and unpack it as
    /// `kind`.
    Install { url: String, file_name: String, kind: ArchiveKind },
}

/// Specification-level counterpart of `ToolStep`.
pub enum ToolStepView {
    AlreadyInstalled,
    Install { url: Seq<char>, file_name: Seq<char>, kind: ArchiveKind },
}

impl View for ToolStep {
    type V = ToolStepView;

    open spec fn view(&self) -> ToolStepView {
        match self {
            ToolStep::AlreadyInstalled => ToolStepView::AlreadyInstalled,
            ToolStep::Install { url, file_name, kind } => ToolStepView::Install {
                url: url@,
                file_name: file_name@,
                kind: *kind,
            },
        }
    }
}

/// What the install pass must do for a tool: nothing if its directory
/// already exists, else fetch and unpack its platform URL, or fail where
/// none is configured.
pub open spec fn spec_plan_tool(platform: PlatformKind, tool: ToolView, installed: bool) -> Result<
    ToolStepView,
    InstallErrorView,
> {
    if installed {
        Ok(ToolStepView::AlreadyInstalled)
    } else {
        match spec_download_url(platform, tool) {
            None => Err(InstallErrorView::NoDownloadUrl(tool.name)),
            Some(url) => Ok(
                ToolStepView::Install {
                    url,
                    file_name: spec_download_file_name(tool.name, url),
                    kind: spec_classify(spec_download_file_name(tool.name, url)),
                },
            ),
        }
    }
}

/// Decides the install step for one tool; `installed` says whether its
/// versioned directory already exists.
pub fn plan_tool(platform: PlatformKind, tool: &ToolConfiguration, installed: bool) -> (r: Result<
    ToolStep,
    InstallError,
>)
    ensures
        match r {
            Ok(s) => spec_plan_tool(platform, tool@, installed) == Ok::<
                ToolStepView,
                InstallErrorView,
            >(s@),
            Err(e) => spec_plan_tool(platform, tool@, installed) == Err::<
                ToolStepView,
                InstallErrorView,
            >(e@),
        },
{
    if installed {
        return Ok(ToolStep::AlreadyInstalled);
    }
    match download_url_of(platform, tool) {
        None => Err(InstallError::NoDownloadUrl { tool_name: tool.name.clone() }),
        Some(url) => {
            let file_name = download_file_name(tool.name.as_str(), url.as_str());
            let kind = classify_artifact(file_name.as_str());
            Ok(ToolStep::Install { url, file_name, kind })
        },
    }
}

impl Cache {
    /// The per-process staging directory for an install batch, unique by
    /// creation time in nanoseconds and process id.
    pub fn get_staging_dir(&self, nanos: u64, pid: u64) -> (r: String)
        ensures
            r@ == self@.tools_dir + "/.tmp/"@ + dec_rep(nanos as nat) + "-"@ + dec_rep(
                pid as nat,
            ),
    {
        let mut out: Vec<char> = Vec::new();
        let td = str_to_chars(self.tools_dir_str());
        append_chars(&mut out, &td);
        let a = str_to_chars("/.tmp/");
        append_chars(&mut out, &a);
        let n = u64_to_dec_chars(nanos);
        append_chars(&mut out, &n);
        let dash = str_to_chars("-");
        append_chars(&mut out, &dash);
        let p = u64_to_dec_chars(pid);
        append_chars(&mut out, &p);
        chars_to_string(&out)
    }

    /// Plans the whole install pass: one step per tool, in manifest order;
    /// `installed` says, per tool, whether its directory already exists.
    /// The first tool with no URL for this platform aborts the pass.
    pub fn plan_install(&self, installed: &Vec<bool>) -> (r: Result<Vec<ToolStep>, InstallError>)
        requires
            installed@.len() == self@.configuration.tools.len(),
        ensures
            match r {
                Ok(steps) => {
                    &&& steps@.len() == self@.configuration.tools.len()
                    &&& forall|i: int|
                        0 <= i < steps@.len() ==> spec_plan_tool(
                            self@.platform,
                            self@.configuration.tools[i],
                            installed@[i],
                        ) == Ok::<ToolStepView, InstallErrorView>((#[trigger] steps@[i])@)
                },
                Err(e) => exists|i: int|
                    {
                        &&& 0 <= i < self@.configuration.tools.len()
                        &&& !installed@[i]
                        &&& spec_plan_tool(
                            self@.platform,
                            #[trigger] self@.configuration.tools[i],
                            installed@[i],
                        ) == Err::<ToolStepView, InstallErrorView>(e@)
                    },
            },
    {
        let mut steps: Vec<ToolStep> = Vec::new();
        let mut i: usize = 0;
        let tools = &self.configuration.tools;
        while i < tools.len()
            invariant
                self@.configuration.tools.len() == tools@.len(),
                self@.configuration.tools == tools@.map(|k: int, t: ToolConfiguration| t@),
                installed@.len() == tools@.len(),
                0 <= i <= tools@.len(),
                steps@.len() == i,
                self.platform == self@.platform,
                forall|k: int|
                    0 <= k < i ==> spec_plan_tool(
                        self@.platform,
                        self@.configuration.tools[k],
                        installed@[k],
                    ) == Ok::<ToolStepView, InstallErrorView>((#[trigger] steps@[k])@),
            decreases tools@.len() - i,
        {
            proof {
                assert(self@.configuration.tools[i as int] == tools@[i as int]@);
            }
            match plan_tool(self.platform, &tools[i], installed[i]) {
                Ok(s) => {
                    let ghost sv = s@;
                    steps.push(s);
                    proof {
                        assert(steps@[i as int]@ == sv);
                    }
                },
                Err(e) => {
                    proof {
                        assert(!installed@[i as int]);
                    }
                    return Err(e);
                },
            }
            i += 1;
        }
        Ok(steps)
    }
}

/// The publish outcomes after the first tool: empty stays empty.
pub open spec fn tail_outcomes(s: Seq<bool>) -> Seq<bool> {
    if s.len() == 0 {
        s
    } else {
        s.drop_first()
    }
}

/// The installed-directory set an install pass leaves behind, and how many
/// downloads it performs: each tool whose directory is absent is fetched,
/// and its directory appears exactly where its publish succeeded
/// (`published[i]`). A tool whose directory exists is skipped outright.
pub open spec fn spec_install_pass(
    installed: Set<Seq<char>>,
    tools_dir: Seq<char>,
    tools: Seq<ToolView>,
    published: Seq<bool>,
) -> (nat, Set<Seq<char>>)
    decreases tools.len(),
{
    if tools.len() == 0 {
        (0, installed)
    } else {
        let dir = spec_tool_dir(tools_dir, tools[0].name, tools[0].version);
        if installed.contains(dir) {
            spec_install_pass(installed, tools_dir, tools.drop_first(), tail_outcomes(published))
        } else {
            let after = if published.len() > 0 && published[0] {
                installed.insert(dir)
            } else {
                installed
            };
            let rest = spec_install_pass(
                after,
                tools_dir,
                tools.drop_first(),
                tail_outcomes(published),
            );
            (rest.0 + 1, rest.1)
        }
    }
}

/// A pass only ever adds tool directories: what was installed stays
/// installed.
pub proof fn lemma_install_pass_monotonic(
    installed: Set<Seq<char>>,
    tools_dir: Seq<char>,
    tools: Seq<ToolView>,
    published: Seq<bool>,
)
    ensures
        forall|d: Seq<char>|
            installed.contains(d) ==> #[trigger] spec_install_pass(
                installed,
                tools_dir,
                tools,
                published,
            ).1.contains(d),
    decreases tools.len(),
{
    if tools.len() == 0 {
    } else {
        let dir = spec_tool_dir(tools_dir, tools[0].name, tools[0].version);
        if installed.contains(dir) {
            lemma_install_pass_monotonic(
                installed,
                tools_dir,
                tools.drop_first(),
                tail_outcomes(published),
            );
            assert forall|d: Seq<char>| installed.contains(d) implies #[trigger] spec_install_pass(
                installed,
                tools_dir,
                tools,
                published,
            ).1.contains(d) by {
                assert(spec_install_pass(
                    installed,
                    tools_dir,
                    tools.drop_first(),
                    tail_outcomes(published),
                ).1.contains(d));
            }
        } else {
            let after = if published.len() > 0 && published[0] {
                installed.insert(dir)
            } else {
                installed
            };
            lemma_install_pass_monotonic(
                after,
                tools_dir,
                tools.drop_first(),
                tail_outcomes(published),
            );
            assert forall|d: Seq<char>| installed.contains(d) implies #[trigger] spec_install_pass(
                installed,
                tools_dir,
                tools,
                published,
            ).1.contains(d) by {
                assert(after.contains(d));
                assert(spec_install_pass(
                    after,
                    tools_dir,
                    tools.drop_first(),
                    tail_outcomes(published),
                ).1.contains(d));
            }
        }
    }
}

/// After a pass in which every publish succeeded, every tool's directory
/// exists.
pub proof fn lemma_install_pass_installs_all(
    installed: Set<Seq<char>>,
    tools_dir: Seq<char>,
    tools: Seq<ToolView>,
    published: Seq<bool>,
)
    requires
        published.len() == tools.len(),
        forall|i: int| 0 <= i < published.len() ==> published[i],
    ensures
        forall|i: int|
            0 <= i < tools.len() ==> spec_install_pass(
                installed,
                tools_dir,
                tools,
                published,
            ).1.contains(
                #[trigger] spec_tool_dir(tools_dir, tools[i].name, tools[i].version),
            ),
    decreases tools.len(),
{
    if tools.len() == 0 {
    } else {
        let dir = spec_tool_dir(tools_dir, tools[0].name, tools[0].version);
        assert forall|k: int| 0 <= k < tail_outcomes(published).len() implies #[trigger] tail_outcomes(published)[k] by {
            assert(tail_outcomes(published)[k] == published[k + 1]);
        }
        let after = if installed.contains(dir) {
            installed
        } else {
            installed.insert(dir)
        };
        assert(published.len() > 0 && published[0]);
        lemma_install_pass_installs_all(
            after,
            tools_dir,
            tools.drop_first(),
            tail_outcomes(published),
        );
        lemma_install_pass_monotonic(
            after,
            tools_dir,
            tools.drop_first(),
            tail_outcomes(published),
        );
        assert forall|i: int| 0 <= i < tools.len() implies spec_install_pass(
            installed,
            tools_dir,
            tools,
            published,
        ).1.contains(
            #[trigger] spec_tool_dir(tools_dir, tools[i].name, tools[i].version),
        ) by {
            if i == 0 {
                assert(after.contains(dir));
                assert(spec_install_pass(
                    after,
                    tools_dir,
                    tools.drop_first(),
                    tail_outcomes(published),
                ).1.contains(dir));
            } else {
                assert(tools.drop_first()[i - 1] == tools[i]);
                assert(spec_install_pass(
                    after,
                    tools_dir,
                    tools.drop_first(),
                    tail_outcomes(published),
                ).1.contains(
                    spec_tool_dir(
                        tools_dir,
                        tools.drop_first()[i - 1].name,
                        tools.drop_first()[i - 1].version,
                    ),
                ));
            }
        }
    }
}

/// A pass over a cache that already holds every tool's directory performs
/// no download and changes nothing.
pub proof fn lemma_install_pass_idempotent_step(
    installed: Set<Seq<char>>,
    tools_dir: Seq<char>,
    tools: Seq<ToolView>,
    published: Seq<bool>,
)
    requires
        forall|i: int|
            0 <= i < tools.len() ==> installed.contains(
                #[trigger] spec_tool_dir(tools_dir, tools[i].name, tools[i].version),
            ),
    ensures
        spec_install_pass(installed, tools_dir, tools, published) == (0nat, installed),
    decreases tools.len(),
{
    if tools.len() == 0 {
    } else {
        assert(installed.contains(spec_tool_dir(tools_dir, tools[0].name, tools[0].version)));
        assert forall|i: int| 0 <= i < tools.drop_first().len() implies installed.contains(
            #[trigger] spec_tool_dir(
                tools_dir,
                tools.drop_first()[i].name,
                tools.drop_first()[i].version,
            ),
        ) by {
            assert(tools.drop_first()[i] == tools[i + 1]);
        }
        lemma_install_pass_idempotent_step(
            installed,
            tools_dir,
            tools.drop_first(),
            tail_outcomes(published),
        );
    }
}

/// Idempotent install: one pass in which every publish succeeded installs
/// every tool, and a second pass over the result performs zero downloads
/// and leaves the cache exactly as it was.
pub proof fn lemma_install_idempotent(
    installed: Set<Seq<char>>,
    tools_dir: Seq<char>,
    tools: Seq<ToolView>,
    published: Seq<bool>,
    published2: Seq<bool>,
)
    requires
        published.len() == tools.len(),
        forall|i: int| 0 <= i < published.len() ==> published[i],
    ensures
        spec_install_pass(
            spec_install_pass(installed, tools_dir, tools, published).1,
            tools_dir,
            tools,
            published2,
        ) == (0nat, spec_install_pass(installed, tools_dir, tools, published).1),
{
    lemma_install_pass_installs_all(installed, tools_dir, tools, published);
    lemma_install_pass_idempotent_step(
        spec_install_pass(installed, tools_dir, tools, published).1,
        tools_dir,
        tools,
        published2,
    );
}

/// Atomic publish: where a tool's publish failed (and no other tool shares
/// its directory), its installed directory does not appear — the pass
/// leaves either the old absence or a complete install, never anything
/// between. A later pass therefore downloads that tool again.
pub proof fn lemma_failed_publish_leaves_absent(
    installed: Set<Seq<char>>,
    tools_dir: Seq<char>,
    tools: Seq<ToolView>,
    published: Seq<bool>,
    i: int,
)
    requires
        published.len() == tools.len(),
        0 <= i < tools.len(),
        !installed.contains(spec_tool_dir(tools_dir, tools[i].name, tools[i].version)),
        forall|j: int|
            0 <= j < tools.len() && spec_tool_dir(
                tools_dir,
                (#[trigger] tools[j]).name,
                tools[j].version,
            ) == spec_tool_dir(tools_dir, tools[i].name, tools[i].version) ==> !published[j],
    ensures
        !spec_install_pass(installed, tools_dir, tools, published).1.contains(
            spec_tool_dir(tools_dir, tools[i].name, tools[i].version),
        ),
    decreases tools.len(),
{
    let dir = spec_tool_dir(tools_dir, tools[i].name, tools[i].version);
    let dir0 = spec_tool_dir(tools_dir, tools[0].name, tools[0].version);
    if installed.contains(dir0) {
        assert(dir0 != dir);
        if i > 0 {
            assert forall|j: int|
                0 <= j < tools.drop_first().len() && spec_tool_dir(
                    tools_dir,
                    (#[trigger] tools.drop_first()[j]).name,
                    tools.drop_first()[j].version,
                ) == dir implies !tail_outcomes(published)[j] by {
                assert(tools.drop_first()[j] == tools[j + 1]);
                assert(tail_outcomes(published)[j] == published[j + 1]);
            }
            assert(tools.drop_first()[i - 1] == tools[i]);
            lemma_failed_publish_leaves_absent(
                installed,
                tools_dir,
                tools.drop_first(),
                tail_outcomes(published),
                i - 1,
            );
        } else {
            assert(false);
        }
    } else {
        let after = if published.len() > 0 && published[0] {
            installed.insert(dir0)
        } else {
            installed
        };
        assert(!after.contains(dir)) by {
            if published.len() > 0 && published[0] {
                assert(dir0 != dir);
            }
        }
        if i == 0 {
            lemma_pass_only_adds_tool_dirs(
                after,
                tools_dir,
                tools.drop_first(),
                tail_outcomes(published),
                dir,
            );
        } else {
            assert forall|j: int|
                0 <= j < tools.drop_first().len() && spec_tool_dir(
                    tools_dir,
                    (#[trigger] tools.drop_first()[j]).name,
                    tools.drop_first()[j].version,
                ) == dir implies !tail_outcomes(published)[j] by {
                assert(tools.drop_first()[j] == tools[j + 1]);
                assert(tail_outcomes(published)[j] == published[j + 1]);
            }
            assert(tools.drop_first()[i - 1] == tools[i]);
            lemma_failed_publish_leaves_absent(
                after,
                tools_dir,
                tools.drop_first(),
                tail_outcomes(published),
                i - 1,
            );
        }
    }
}

/// A pass adds no directory beyond those of tools whose publish succeeded:
/// a directory absent before the pass, and not a published tool's
/// directory, is still absent after it.
pub proof fn lemma_pass_only_adds_tool_dirs(
    installed: Set<Seq<char>>,
    tools_dir: Seq<char>,
    tools: Seq<ToolView>,
    published: Seq<bool>,
    dir: Seq<char>,
)
    requires
        !installed.contains(dir),
        forall|j: int|
            0 <= j < tools.len() && spec_tool_dir(
                tools_dir,
                (#[trigger] tools[j]).name,
                tools[j].version,
            ) == dir ==> !(published.len() > j && published[j]),
    ensures
        !spec_install_pass(installed, tools_dir, tools, published).1.contains(dir),
    decreases tools.len(),
{
    if tools.len() == 0 {
    } else {
        let dir0 = spec_tool_dir(tools_dir, tools[0].name, tools[0].version);
        assert forall|j: int|
            0 <= j < tools.drop_first().len() && spec_tool_dir(
                tools_dir,
                (#[trigger] tools.drop_first()[j]).name,
                tools.drop_first()[j].version,
            ) == dir implies !(tail_outcomes(published).len() > j && tail_outcomes(published)[j]) by {
            assert(tools.drop_first()[j] == tools[j + 1]);
            if tail_outcomes(published).len() > j {
                assert(tail_outcomes(published)[j] == published[j + 1]);
            }
        }
        if installed.contains(dir0) {
            lemma_pass_only_adds_tool_dirs(
                installed,
                tools_dir,
                tools.drop_first(),
                tail_outcomes(published),
                dir,
            );
        } else {
            let after = if published.len() > 0 && published[0] {
                installed.insert(dir0)
            } else {
                installed
            };
            assert(!after.contains(dir)) by {
                if published.len() > 0 && published[0] {
                    assert(dir0 != dir);
                }
            }
            lemma_pass_only_adds_tool_dirs(
                after,
                tools_dir,
                tools.drop_first(),
                tail_outcomes(published),
                dir,
            );
        }
    }
}

/// One filesystem action of an extraction, relative to the tool's
/// directory.
#[derive(Debug, PartialEq, Eq)]
pub enum ExtractAction {
    /// Create this directory (and its parents).
    MkDir { path: String },
    /// Write this file with these contents and, where recorded, these
    /// permission bits.
    WriteFile { path: String, data: Vec<u8>, mode: Option<u32> },
}

/// Specification-level counterpart of `ExtractAction`.
pub enum ExtractActionView {
    MkDir { path: Seq<char> },
    WriteFile { path: Seq<char>, data: Seq<u8>, mode: Option<u32> },
}

impl View for ExtractAction {
    type V = ExtractActionView;

    open spec fn view(&self) -> ExtractActionView {
        match self {
            ExtractAction::MkDir { path } => ExtractActionView::MkDir { path: path@ },
            ExtractAction::WriteFile { path, data, mode } => ExtractActionView::WriteFile {
                path: path@,
                data: data@,
                mode: *mode,
            },
        }
    }
}

impl DeepView for ExtractAction {
    type V = ExtractActionView;

    open spec fn deep_view(&self) -> ExtractActionView {
        self@
    }
}

/// The filesystem actions extracting these entries performs, in order:
/// each entry's path is stripped, directory entries are created and file
/// entries written; a file entry stripped to nothing is the configuration
/// error naming the tool and the original path.
pub open spec fn spec_extract_actions(
    entries: Seq<ArchiveEntryView>,
    strip: int,
    tool_name: Seq<char>,
) -> Result<Seq<ExtractActionView>, InstallErrorView>
    decreases entries.len(),
{
    if entries.len() == 0 {
        Ok(Seq::empty())
    } else {
        let e = entries[0];
        match spec_strip_path(e.name, strip, e.is_dir) {
            None => Err(
                InstallErrorView::EmptyPathAfterStrip {
                    file_name: e.name,
                    strip_directories: strip,
                    tool_name: tool_name,
                },
            ),
            Some(p) => {
                let action = if e.is_dir {
                    ExtractActionView::MkDir { path: p }
                } else {
                    ExtractActionView::WriteFile { path: p, data: e.data, mode: e.mode }
                };
                match spec_extract_actions(entries.drop_first(), strip, tool_name) {
                    Err(err) => Err(err),
                    Ok(rest) => Ok(seq![action] + rest),
                }
            },
        }
    }
}

/// Plans the extraction of decoded archive entries from index `i` on.
fn extract_actions_from(entries: &Vec<ArchiveEntry>, tool: &ToolConfiguration, i: usize) -> (r:
    Result<Vec<ExtractAction>, InstallError>)
    requires
        i <= entries@.len(),
    ensures
        match r {
            Ok(v) => spec_extract_actions(
                entries.deep_view().skip(i as int),
                tool@.strip_directories,
                tool@.name,
            ) == Ok::<Seq<ExtractActionView>, InstallErrorView>(v.deep_view()),
            Err(e) => spec_extract_actions(
                entries.deep_view().skip(i as int),
                tool@.strip_directories,
                tool@.name,
            ) == Err::<Seq<ExtractActionView>, InstallErrorView>(e@),
        },
    decreases entries@.len() - i,
{
    let ghost dv = entries.deep_view();
    if i == entries.len() {
        proof {
            assert(dv.skip(i as int) =~= Seq::<ArchiveEntryView>::empty());
        }
        let empty: Vec<ExtractAction> = Vec::new();
        proof {
            assert(empty.deep_view() =~= Seq::<ExtractActionView>::empty());
        }
        return Ok(empty);
    }
    proof {
        assert(dv.skip(i as int)[0] == dv[i as int]);
        assert(dv[i as int] == entries@[i as int]@);
        assert(dv.skip(i as int).drop_first() =~= dv.skip(i + 1));
    }
    let path = match strip_filename(entries[i].name.as_str(), tool, entries[i].is_dir) {
        Ok(p) => p,
        Err(e) => {
            return Err(e);
        },
    };
    let action = if entries[i].is_dir {
        ExtractAction::MkDir { path }
    } else {
        ExtractAction::WriteFile {
            path,
            data: entries[i].data.clone(),
            mode: entries[i].mode,
        }
    };
    match extract_actions_from(entries, tool, i + 1) {
        Err(e) => Err(e),
        Ok(rest) => {
            let ghost av = action@;
            let ghost restv = rest.deep_view();
            let mut out: Vec<ExtractAction> = Vec::new();
            out.push(action);
            let ghost head_dv = out.deep_view();
            let mut rest2 = rest;
            out.append(&mut rest2);
            proof {
                assert(head_dv.len() == 1);
                assert(head_dv[0] == av);
                assert(head_dv =~= seq![av]);
                assert(out.deep_view() =~= head_dv + restv);
            }
            Ok(out)
        },
    }
}

/// Plans the extraction of a whole decoded archive into per-file actions.
pub fn extract_actions(entries: &Vec<ArchiveEntry>, tool: &ToolConfiguration) -> (r: Result<
    Vec<ExtractAction>,
    InstallError,
>)
    ensures
        match r {
            Ok(v) => spec_extract_actions(
                entries.deep_view(),
                tool@.strip_directories,
                tool@.name,
            ) == Ok::<Seq<ExtractActionView>, InstallErrorView>(v.deep_view()),
            Err(e) => spec_extract_actions(
                entries.deep_view(),
                tool@.strip_directories,
                tool@.name,
            ) == Err::<Seq<ExtractActionView>, InstallErrorView>(e@),
        },
{
    proof {
        assert(entries.deep_view().skip(0) =~= entries.deep_view());
    }
    extract_actions_from(entries, tool, 0)
}

} // verus!
