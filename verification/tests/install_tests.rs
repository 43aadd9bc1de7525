use std::io::Write;

use tool_tool::install::{
    bare_file_name, classify_artifact, download_file_name, extract_actions, plan_tool,
    read_tar_gz_archive, read_zip_archive, strip_filename, ArchiveKind, ExtractAction, ToolStep,
};
use tool_tool::{Cache, Configuration, DownloadUrls, PlatformKind, ToolConfiguration};

fn tool_with_strip(strip: usize) -> ToolConfiguration {
    ToolConfiguration {
        name: "foo".to_string(),
        version: "1.2.3".to_string(),
        download: DownloadUrls {
            default: Some("http://host.invalid/cache/tool1".to_string()),
            linux: None,
            windows: None,
        },
        commands: vec![],
        env: vec![],
        strip_directories: strip,
    }
}

#[test]
fn strip_component_keeps_the_tail() {
    let tool = tool_with_strip(1);
    assert_eq!(
        strip_filename("foo/hello.txt", &tool, false).unwrap(),
        "hello.txt".to_string()
    );
}

#[test]
fn strip_component_boundary_is_an_error() {
    let tool = tool_with_strip(1);
    let err = strip_filename("hello_world.txt", &tool, false).unwrap_err();
    assert_eq!(
        err.message(),
        "File name \"hello_world.txt\" was empty after stripping 1 path components (in \"foo\").\nHINT: Try setting strip_components: 0 in the tool configuration for foo"
    );
}

#[test]
fn directories_may_strip_to_nothing() {
    let tool = tool_with_strip(1);
    assert_eq!(strip_filename("foo", &tool, true).unwrap(), "".to_string());
}

#[test]
fn classify_by_extension() {
    assert_eq!(classify_artifact("foo.zip"), ArchiveKind::Zip);
    assert_eq!(classify_artifact("foo.gz"), ArchiveKind::GzipTar);
    assert_eq!(classify_artifact("foo.tgz"), ArchiveKind::GzipTar);
    assert_eq!(classify_artifact("foo.tool1"), ArchiveKind::Bare);
    assert_eq!(classify_artifact("foo"), ArchiveKind::Bare);
}

#[test]
fn download_file_name_uses_the_url_tail() {
    assert_eq!(
        download_file_name("foo", "http://host.invalid/cache/tool.zip"),
        "foo.zip".to_string()
    );
    assert_eq!(
        download_file_name("foo", "http://host.invalid/cache/tool1"),
        "foo.tool1".to_string()
    );
}

#[test]
fn download_file_name_ignores_the_query_string() {
    assert_eq!(
        download_file_name("foo", "http://host.invalid/cache/toolq?foo=bar/baz?xyz"),
        "foo.toolq".to_string()
    );
}

#[test]
fn bare_artifacts_keep_only_an_exe_extension() {
    assert_eq!(bare_file_name("foo", "foo.exe"), "foo.exe".to_string());
    assert_eq!(bare_file_name("foo", "foo.tool1"), "foo".to_string());
    assert_eq!(bare_file_name("foo", "foo"), "foo".to_string());
}

fn cache_for(tools: Vec<ToolConfiguration>) -> Cache {
    let configuration = Configuration {
        cache_dir: Some("/cache".to_string()),
        tools,
        configuration_files: vec![],
    };
    Cache::create(configuration).unwrap()
}

#[test]
fn idempotent_install_downloads_only_once() {
    let cache = cache_for(vec![tool_with_strip(1)]);
    let first = cache.plan_install(&vec![false]).unwrap();
    assert_eq!(
        first,
        vec![ToolStep::Install {
            url: "http://host.invalid/cache/tool1".to_string(),
            file_name: "foo.tool1".to_string(),
            kind: ArchiveKind::Bare,
        }]
    );
    let second = cache.plan_install(&vec![true]).unwrap();
    assert_eq!(second, vec![ToolStep::AlreadyInstalled]);
}

#[test]
fn interrupted_publish_retries_from_scratch() {
    let cache = cache_for(vec![tool_with_strip(1)]);
    let first = cache.plan_install(&vec![false]).unwrap();
    assert!(matches!(first[0], ToolStep::Install { .. }));
    let retry = cache.plan_install(&vec![false]).unwrap();
    assert_eq!(first, retry);
}

#[test]
fn missing_url_aborts_the_install() {
    let mut tool = tool_with_strip(1);
    tool.download = DownloadUrls {
        default: None,
        linux: None,
        windows: None,
    };
    let cache = cache_for(vec![tool]);
    let err = cache.plan_install(&vec![false]).unwrap_err();
    assert_eq!(err.message(), "No download url configured for foo");
}

#[test]
fn platform_specific_url_wins() {
    let mut tool = tool_with_strip(1);
    tool.download.windows = Some("http://host.invalid/win.zip".to_string());
    let mut cache = cache_for(vec![tool]);
    cache.platform = PlatformKind::Windows;
    let plan = cache.plan_install(&vec![false]).unwrap();
    assert_eq!(
        plan,
        vec![ToolStep::Install {
            url: "http://host.invalid/win.zip".to_string(),
            file_name: "foo.zip".to_string(),
            kind: ArchiveKind::Zip,
        }]
    );
}

#[test]
fn staging_dir_is_unique_per_process() {
    let cache = cache_for(vec![]);
    assert_eq!(
        cache.get_staging_dir(12345, 678),
        "/cache/tools/.tmp/12345-678".to_string()
    );
}

fn build_zip(entries: &[(&str, Option<&[u8]>)]) -> Vec<u8> {
    let mut zip = zip::ZipWriter::new(std::io::Cursor::new(Vec::new()));
    let options = zip::write::SimpleFileOptions::default();
    for (name, data) in entries {
        match data {
            Some(bytes) => {
                zip.start_file(*name, options).unwrap();
                zip.write_all(bytes).unwrap();
            }
            None => {
                zip.add_directory(*name, options).unwrap();
            }
        }
    }
    zip.finish().unwrap().into_inner()
}

#[test]
fn zip_entries_round_trip() {
    let bytes = build_zip(&[
        ("foo/hello_world.txt", Some(b"Hello, World!")),
        ("foo/bar", None),
    ]);
    let entries = read_zip_archive(&bytes).unwrap();
    assert_eq!(entries.len(), 2);
    assert_eq!(entries[0].name, "foo/hello_world.txt".to_string());
    assert!(!entries[0].is_dir);
    assert_eq!(entries[0].data, b"Hello, World!".to_vec());
    assert!(entries[1].is_dir);
}

#[test]
fn zip_extraction_strips_components() {
    let bytes = build_zip(&[
        ("foo/hello_world.txt", Some(b"Hello, World!")),
        ("foo/bar", None),
    ]);
    let entries = read_zip_archive(&bytes).unwrap();
    let actions = extract_actions(&entries, &tool_with_strip(1)).unwrap();
    assert_eq!(
        actions,
        vec![
            ExtractAction::WriteFile {
                path: "hello_world.txt".to_string(),
                data: b"Hello, World!".to_vec(),
                mode: entries_mode(&bytes),
            },
            ExtractAction::MkDir {
                path: "bar".to_string()
            },
        ]
    );
}

fn entries_mode(bytes: &[u8]) -> Option<u32> {
    read_zip_archive(&bytes.to_vec()).unwrap()[0].mode
}

#[test]
fn zip_with_too_many_directories_stripped_is_an_error() {
    let bytes = build_zip(&[("hello_world.txt", Some(b"Hello, World!")), ("foo/bar", None)]);
    let entries = read_zip_archive(&bytes).unwrap();
    let err = extract_actions(&entries, &tool_with_strip(1)).unwrap_err();
    assert_eq!(
        err.message(),
        "File name \"hello_world.txt\" was empty after stripping 1 path components (in \"foo\").\nHINT: Try setting strip_components: 0 in the tool configuration for foo"
    );
}

#[test]
fn garbage_bytes_are_not_a_zip() {
    assert!(read_zip_archive(&b"not a zip at all".to_vec()).is_none());
}

fn build_tar_gz(name: &str, content: &[u8]) -> Vec<u8> {
    let encoder = flate2::write::GzEncoder::new(Vec::new(), flate2::Compression::default());
    let mut ar = tar::Builder::new(encoder);
    let mut header = tar::Header::new_gnu();
    header.set_path(name).unwrap();
    header.set_size(content.len() as u64);
    header.set_cksum();
    ar.append(&header, std::io::Cursor::new(content)).unwrap();
    ar.into_inner().unwrap().finish().unwrap()
}

#[test]
fn tar_gz_entries_round_trip() {
    let bytes = build_tar_gz("foo/hello_world.txt", b"Hello, World!");
    let entries = read_tar_gz_archive(&bytes).unwrap();
    assert_eq!(entries.len(), 1);
    assert_eq!(entries[0].name, "foo/hello_world.txt".to_string());
    assert!(!entries[0].is_dir);
    assert_eq!(entries[0].data, b"Hello, World!".to_vec());
}

#[test]
fn tar_gz_with_too_many_directories_stripped_is_an_error() {
    let bytes = build_tar_gz("hello_world.txt", b"Hello, World!");
    let entries = read_tar_gz_archive(&bytes).unwrap();
    let err = extract_actions(&entries, &tool_with_strip(1)).unwrap_err();
    assert_eq!(
        err.message(),
        "File name \"hello_world.txt\" was empty after stripping 1 path components (in \"foo\").\nHINT: Try setting strip_components: 0 in the tool configuration for foo"
    );
}

#[test]
fn plan_tool_skips_installed_tools() {
    let tool = tool_with_strip(1);
    assert_eq!(
        plan_tool(PlatformKind::Linux, &tool, true).unwrap(),
        ToolStep::AlreadyInstalled
    );
}

#[test]
fn special_path_steps_are_ignored_when_stripping() {
    let tool = tool_with_strip(1);
    assert_eq!(
        strip_filename("foo/../hello.txt", &tool, false).unwrap(),
        "hello.txt".to_string()
    );
    assert_eq!(
        strip_filename("./foo//inner/hello.txt", &tool, false).unwrap(),
        "inner/hello.txt".to_string()
    );
}
