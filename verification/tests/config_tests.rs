use tool_tool::config::{default_strip_directories, normalize_configuration, replace_templates};
use tool_tool::{Configuration, DownloadUrls, ToolConfiguration};

#[test]
fn simple() {
    let mut config = Configuration {
        cache_dir: None,
        tools: vec![ToolConfiguration {
            name: "lsd".to_string(),
            version: "0.17.0".to_string(),
            download: DownloadUrls {
                default: None,
                linux: Some(
                    "https://host.invalid/lsd/releases/download/${version}/lsd-${version}-x86_64-unknown-linux-gnu.tar.gz"
                        .to_string(),
                ),
                windows: Some(
                    "https://host.invalid/lsd/releases/download/${version}/lsd-${version}-x86_64-pc-windows-msvc.zip"
                        .to_string(),
                ),
            },
            commands: vec![],
            env: vec![],
            strip_directories: default_strip_directories(),
        }],
        configuration_files: vec![],
    };
    normalize_configuration(&mut config, "root/foo.yaml");
    assert_eq!(config.cache_dir, Some("root/.tool-tool/v1".to_string()));
    assert_eq!(config.configuration_files, vec!["root/foo.yaml".to_string()]);
    let tool = &config.tools[0];
    assert_eq!(
        tool.download.linux,
        Some(
            "https://host.invalid/lsd/releases/download/0.17.0/lsd-0.17.0-x86_64-unknown-linux-gnu.tar.gz"
                .to_string()
        )
    );
    assert_eq!(
        tool.download.windows,
        Some(
            "https://host.invalid/lsd/releases/download/0.17.0/lsd-0.17.0-x86_64-pc-windows-msvc.zip"
                .to_string()
        )
    );
    assert_eq!(tool.download.default, None);
    assert_eq!(
        tool.commands,
        vec![("lsd".to_string(), "${dir}/lsd".to_string())]
    );
}

#[test]
fn with_commands() {
    let mut config = Configuration {
        cache_dir: None,
        tools: vec![ToolConfiguration {
            name: "xyz".to_string(),
            version: "0.17.0".to_string(),
            download: DownloadUrls {
                default: Some("https://default.tar.gz".to_string()),
                linux: None,
                windows: Some("https://windows.tar.gz".to_string()),
            },
            commands: vec![
                ("foo".to_string(), "bar".to_string()),
                ("fizz".to_string(), "${dir}/buzz".to_string()),
            ],
            env: vec![],
            strip_directories: 0,
        }],
        configuration_files: vec![],
    };
    normalize_configuration(&mut config, "root/foo.yaml");
    let tool = &config.tools[0];
    assert_eq!(
        tool.commands,
        vec![
            ("foo".to_string(), "${dir}/bar".to_string()),
            ("fizz".to_string(), "${dir}/buzz".to_string()),
        ]
    );
    assert_eq!(tool.download.default, Some("https://default.tar.gz".to_string()));
    assert_eq!(tool.strip_directories, 0);
}

#[test]
fn explicit_cache_dir_is_kept() {
    let mut config = Configuration {
        cache_dir: Some("/already/set".to_string()),
        tools: vec![],
        configuration_files: vec![],
    };
    normalize_configuration(&mut config, "root/foo.yaml");
    assert_eq!(config.cache_dir, Some("/already/set".to_string()));
}

#[test]
fn backslash_manifest_paths_are_normalized() {
    let mut config = Configuration {
        cache_dir: None,
        tools: vec![],
        configuration_files: vec![],
    };
    normalize_configuration(&mut config, "root\\sub\\foo.yaml");
    assert_eq!(config.cache_dir, Some("root/sub/.tool-tool/v1".to_string()));
}

#[test]
fn replace_templates_expands_the_version_macro() {
    let mut url = Some("https://host.invalid/${version}/x-${version}.zip".to_string());
    replace_templates(&mut url, "1.2.3");
    assert_eq!(url, Some("https://host.invalid/1.2.3/x-1.2.3.zip".to_string()));
    let mut nothing: Option<String> = None;
    replace_templates(&mut nothing, "1.2.3");
    assert_eq!(nothing, None);
}

#[test]
fn empty_tool_list() {
    let configuration = Configuration {
        cache_dir: Some("/cache".to_string()),
        tools: vec![],
        configuration_files: vec![],
    };
    let cache = tool_tool::Cache::create(configuration).unwrap();
    assert_eq!(cache.tools_dir, "/cache/tools".to_string());
    assert_eq!(cache.plan_install(&vec![]).unwrap(), vec![]);
}

#[test]
fn default_command_resolves_after_normalization() {
    let mut config = Configuration {
        cache_dir: Some("/cache".to_string()),
        tools: vec![ToolConfiguration {
            name: "lsd".to_string(),
            version: "0.17.0".to_string(),
            download: DownloadUrls {
                default: Some("https://host.invalid/lsd-${version}.tar.gz".to_string()),
                linux: None,
                windows: None,
            },
            commands: vec![],
            env: vec![],
            strip_directories: 1,
        }],
        configuration_files: vec![],
    };
    normalize_configuration(&mut config, "root/foo.yaml");
    let cache = tool_tool::Cache::create(config).unwrap();
    let host = tool_tool::FixedHost {
        env_vars: vec![],
        files: vec!["/abs/lsd/lsd".to_string()],
        absolute_paths: vec![(
            "/cache/tools/lsd/0.17.0".to_string(),
            "/abs/lsd".to_string(),
        )],
    };
    let line = cache.get_command_line(&host, "lsd").unwrap();
    assert_eq!(line.binary, "/abs/lsd/lsd".to_string());
    assert_eq!(line.arguments, Vec::<String>::new());
}
