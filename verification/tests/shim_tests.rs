use tool_tool::cache::{CommandLine, CommandNotFoundError, ResolveError};
use tool_tool::shim::{
    fallback_candidates, first_runnable_candidate, invoked_tool_name, lookup_exit_code,
    not_found_message, on_resolver_exit, parent_directories, resolver_binary_name, ShimDecision,
    EXIT_CODE_NOTHING_FOUND, EXIT_CODE_NOT_FOUND,
};
use tool_tool::{FixedHost, PlatformKind};

#[test]
fn ancestors_walk_to_the_root() {
    assert_eq!(
        parent_directories("/a/b/c"),
        vec![
            "/a/b/c".to_string(),
            "/a/b".to_string(),
            "/a".to_string(),
            "/".to_string(),
        ]
    );
}

#[test]
fn ancestors_of_a_relative_path_end_empty() {
    assert_eq!(
        parent_directories("rel/x"),
        vec!["rel/x".to_string(), "rel".to_string(), "".to_string()]
    );
}

#[test]
fn invoked_file_name_loses_directory_and_extension() {
    assert_eq!(invoked_tool_name("/usr/bin/kubectl.exe"), "kubectl".to_string());
    assert_eq!(invoked_tool_name("kubectl"), "kubectl".to_string());
    assert_eq!(invoked_tool_name("/opt/tt"), "tt".to_string());
}

#[test]
fn resolver_name_per_platform() {
    assert_eq!(resolver_binary_name(PlatformKind::Linux), "tt");
    assert_eq!(resolver_binary_name(PlatformKind::Windows), "tt.exe");
}

#[test]
fn sentinel_exit_code_continues_the_walk() {
    assert_eq!(on_resolver_exit(EXIT_CODE_NOT_FOUND), ShimDecision::Continue);
    assert_eq!(on_resolver_exit(0), ShimDecision::Exit(0));
    assert_eq!(on_resolver_exit(1), ShimDecision::Exit(1));
    assert_eq!(on_resolver_exit(127), ShimDecision::Exit(127));
}

#[test]
fn sentinel_propagation_from_resolver_to_shim() {
    let err: Result<CommandLine, ResolveError> = Err(ResolveError::CommandNotFound(
        CommandNotFoundError {
            command: "missing".to_string(),
        },
    ));
    assert_eq!(lookup_exit_code(true, &err), Some(EXIT_CODE_NOT_FOUND));
    assert_eq!(lookup_exit_code(false, &err), None);
    let other: Result<CommandLine, ResolveError> = Err(ResolveError::UnsupportedTemplate {
        name: "x".to_string(),
        template: "${x}".to_string(),
    });
    assert_eq!(lookup_exit_code(true, &other), None);
    assert_eq!(
        on_resolver_exit(lookup_exit_code(true, &err).unwrap()),
        ShimDecision::Continue
    );
}

#[test]
fn fallback_candidates_cover_dirs_and_extensions() {
    let dirs = vec!["/bin".to_string(), "/usr/bin".to_string()];
    assert_eq!(
        fallback_candidates(&dirs, "kubectl", PlatformKind::Linux),
        vec![
            "/bin/kubectl".to_string(),
            "/bin/kubectl.sh".to_string(),
            "/usr/bin/kubectl".to_string(),
            "/usr/bin/kubectl.sh".to_string(),
        ]
    );
}

#[test]
fn self_recursion_guard_skips_the_shim_itself() {
    let host = FixedHost {
        env_vars: vec![],
        files: vec!["/bin/kubectl".to_string()],
        absolute_paths: vec![("/bin/kubectl".to_string(), "/self/shim".to_string())],
    };
    let candidates = vec!["/bin/kubectl".to_string()];
    assert_eq!(
        first_runnable_candidate(&host, &candidates, "/self/shim"),
        None
    );
    assert_eq!(
        first_runnable_candidate(&host, &candidates, "/other/binary"),
        Some("/bin/kubectl".to_string())
    );
}

#[test]
fn guard_falls_through_to_the_next_candidate() {
    let host = FixedHost {
        env_vars: vec![],
        files: vec!["/bin/kubectl".to_string(), "/usr/bin/kubectl".to_string()],
        absolute_paths: vec![("/bin/kubectl".to_string(), "/self/shim".to_string())],
    };
    let candidates = vec!["/bin/kubectl".to_string(), "/usr/bin/kubectl".to_string()];
    assert_eq!(
        first_runnable_candidate(&host, &candidates, "/self/shim"),
        Some("/usr/bin/kubectl".to_string())
    );
}

#[test]
fn nothing_found_diagnostic() {
    assert_eq!(
        not_found_message("kubectl"),
        "Tool kubectl not found as tool nor in PATH".to_string()
    );
    assert_eq!(EXIT_CODE_NOTHING_FOUND, 127);
}

#[test]
fn ancestors_of_root_and_empty() {
    assert_eq!(parent_directories("/"), vec!["/".to_string()]);
    assert_eq!(parent_directories(""), vec!["".to_string()]);
}

#[test]
fn hidden_file_names_keep_their_dot() {
    assert_eq!(invoked_tool_name("/home/x/.hidden"), ".hidden".to_string());
}
