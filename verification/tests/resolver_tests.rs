use tool_tool::{
    Cache, CommandLine, Configuration, DownloadUrls, FixedHost, PlatformKind, ToolConfiguration,
};

fn foo_tool() -> ToolConfiguration {
    ToolConfiguration {
        name: "foo".to_string(),
        version: "1.2.3".to_string(),
        download: DownloadUrls {
            default: Some("http://host.invalid/cache/tool1".to_string()),
            linux: None,
            windows: None,
        },
        commands: vec![
            (
                "foo".to_string(),
                "${dir}/foo bar ${linux:LLL}${windows:WWW} ${version}".to_string(),
            ),
            ("reframe".to_string(), "${dir:foo} ${cmd:foo}".to_string()),
        ],
        env: vec![("XPATH".to_string(), "${dir:foo}".to_string())],
        strip_directories: 0,
    }
}

fn test_cache() -> Cache {
    let configuration = Configuration {
        cache_dir: Some("/cache".to_string()),
        tools: vec![foo_tool()],
        configuration_files: vec![],
    };
    Cache::create(configuration).unwrap()
}

fn test_host() -> FixedHost {
    FixedHost {
        env_vars: vec![],
        files: vec!["/abs/foo/foo".to_string(), "/abs/foo".to_string()],
        absolute_paths: vec![("/cache/tools/foo/1.2.3".to_string(), "/abs/foo".to_string())],
    }
}

#[test]
fn tool_dir_is_versioned() {
    let cache = test_cache();
    assert_eq!(
        cache.get_tool_dir(&foo_tool()),
        "/cache/tools/foo/1.2.3".to_string()
    );
}

#[test]
fn template_round_trip_on_linux() {
    let cache = test_cache();
    assert_eq!(
        cache.get_command_line(&test_host(), "foo").unwrap(),
        CommandLine {
            binary: "/abs/foo/foo".to_string(),
            arguments: vec!["bar".to_string(), "LLL".to_string(), "1.2.3".to_string()],
            env: vec![("XPATH".to_string(), "/abs/foo".to_string())],
        }
    );
}

#[test]
fn template_round_trip_on_windows() {
    let mut cache = test_cache();
    cache.platform = PlatformKind::Windows;
    assert_eq!(
        cache.get_command_line(&test_host(), "foo").unwrap(),
        CommandLine {
            binary: "/abs/foo/foo".to_string(),
            arguments: vec!["bar".to_string(), "WWW".to_string(), "1.2.3".to_string()],
            env: vec![("XPATH".to_string(), "/abs/foo".to_string())],
        }
    );
}

#[test]
fn cross_tool_reference() {
    let cache = test_cache();
    assert_eq!(
        cache.get_command_line(&test_host(), "reframe").unwrap(),
        CommandLine {
            binary: "/abs/foo".to_string(),
            arguments: vec!["/abs/foo/foo".to_string()],
            env: vec![("XPATH".to_string(), "/abs/foo".to_string())],
        }
    );
}

#[test]
fn unknown_command_is_command_not_found() {
    let cache = test_cache();
    let err = cache
        .get_command_line(&test_host(), "no_such_command")
        .unwrap_err();
    assert!(err.is_command_not_found());
    assert_eq!(err.message(), "Command 'no_such_command' not found");
}

fn cache_with_command(command: &str, value: &str) -> Cache {
    let mut tool = foo_tool();
    tool.commands = vec![(command.to_string(), value.to_string())];
    tool.env = vec![];
    let configuration = Configuration {
        cache_dir: Some("/cache".to_string()),
        tools: vec![tool],
        configuration_files: vec![],
    };
    Cache::create(configuration).unwrap()
}

#[test]
fn unsupported_template_is_fatal() {
    let cache = cache_with_command("x", "${bogus}");
    let err = cache.get_command_line(&test_host(), "x").unwrap_err();
    assert_eq!(
        err.message(),
        "Could not replace template name 'bogus' in template string ${bogus}: Unsupported template: 'bogus'"
    );
}

#[test]
fn unset_environment_variable_is_fatal() {
    let cache = cache_with_command("x", "${env:NOPE}");
    let err = cache.get_command_line(&test_host(), "x").unwrap_err();
    assert_eq!(
        err.message(),
        "Could not replace template name 'env:NOPE' in template string ${env:NOPE}: Could not retrieve environment variable 'NOPE'"
    );
}

#[test]
fn set_environment_variable_is_substituted() {
    let cache = cache_with_command("x", "${env:P}");
    let host = FixedHost {
        env_vars: vec![("P".to_string(), "/abs/foo".to_string())],
        files: vec!["/abs/foo".to_string()],
        absolute_paths: vec![],
    };
    let line = cache.get_command_line(&host, "x").unwrap();
    assert_eq!(line.binary, "/abs/foo".to_string());
}

#[test]
fn unknown_tool_reference_is_fatal() {
    let cache = cache_with_command("x", "${dir:bar}");
    let err = cache.get_command_line(&test_host(), "x").unwrap_err();
    assert_eq!(
        err.message(),
        "Could not replace template name 'dir:bar' in template string ${dir:bar}: Could not find tool 'bar' in tools list"
    );
}

#[test]
fn unclosed_template_is_fatal() {
    let cache = cache_with_command("x", "${oops");
    let err = cache.get_command_line(&test_host(), "x").unwrap_err();
    assert_eq!(
        err.message(),
        "Unclosed template string in template '${oops', you may be missing a closing '}'"
    );
}

#[test]
fn self_referential_command_hits_the_recursion_bound() {
    let cache = cache_with_command("loop", "${cmd:loop}");
    let err = cache.get_command_line(&test_host(), "loop").unwrap_err();
    assert_eq!(
        err.message(),
        "Recursion limit reached while resolving command 'loop'"
    );
}

#[test]
fn missing_executable_is_fatal() {
    let cache = test_cache();
    let host = FixedHost {
        env_vars: vec![],
        files: vec![],
        absolute_paths: vec![("/cache/tools/foo/1.2.3".to_string(), "/abs/foo".to_string())],
    };
    let err = cache.get_command_line(&host, "foo").unwrap_err();
    assert_eq!(err.message(), "Tool executable /abs/foo/foo not found");
}

#[test]
fn windows_prefers_exe_extension() {
    let mut cache = test_cache();
    cache.platform = PlatformKind::Windows;
    let host = FixedHost {
        env_vars: vec![],
        files: vec![
            "/abs/foo/foo.exe".to_string(),
            "/abs/foo/foo".to_string(),
            "/abs/foo".to_string(),
        ],
        absolute_paths: vec![("/cache/tools/foo/1.2.3".to_string(), "/abs/foo".to_string())],
    };
    let line = cache.get_command_line(&host, "foo").unwrap();
    assert_eq!(line.binary, "/abs/foo/foo.exe".to_string());
}

#[test]
fn uncanonicalizable_tool_dir_is_fatal() {
    let cache = test_cache();
    let host = FixedHost {
        env_vars: vec![],
        files: vec![],
        absolute_paths: vec![],
    };
    let err = cache.get_command_line(&host, "foo").unwrap_err();
    assert_eq!(
        err.message(),
        "Could not make path absolute: '/cache/tools/foo/1.2.3'"
    );
}

#[test]
fn template_errors_name_the_enclosing_token() {
    let cache = cache_with_command("x", "${dir}/run ${env:GONE}");
    let host = FixedHost {
        env_vars: vec![],
        files: vec![],
        absolute_paths: vec![("/cache/tools/foo/1.2.3".to_string(), "/abs/foo".to_string())],
    };
    let err = cache.get_command_line(&host, "x").unwrap_err();
    assert_eq!(
        err.message(),
        "Could not replace template name 'env:GONE' in template string ${env:GONE}: Could not retrieve environment variable 'GONE'"
    );
}
