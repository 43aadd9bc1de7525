use tool_tool::{parse_args, Args, Invocation};

fn test_args(a: &[&str], verbose_env: bool) -> Args {
    parse_args(a.iter().map(|x| x.to_string()).collect(), verbose_env).expect("Can be parsed")
}

fn make_args(a: &[&str]) -> Vec<String> {
    a.iter().map(|x| x.to_string()).collect()
}

#[test]
fn parse_no_args() {
    assert_eq!(test_args(&[], false), Args::Help);
}

#[test]
fn parse_help() {
    assert_eq!(test_args(&["--help"], false), Args::Help);
}

#[test]
fn parse_download() {
    assert_eq!(test_args(&["--download"], false), Args::Download);
}

#[test]
fn parse_get_binary_path() {
    assert_eq!(
        test_args(&["--getBinaryPath", "foo"], false),
        Args::GetBinaryPath {
            command_name: "foo".to_string()
        }
    );
}

#[test]
fn parse_get_tool_path() {
    assert_eq!(
        test_args(&["--getToolPath", "bar"], false),
        Args::GetToolPath {
            tool_name: "bar".to_string()
        }
    );
}

#[test]
fn parse_command() {
    assert_eq!(
        test_args(&["shake"], false),
        Args::Invocation(Invocation {
            command_name: "shake".to_string(),
            verbose: false,
            from_shim: false,
            args: vec![],
        })
    );
}

#[test]
fn parse_command_with_args() {
    assert_eq!(
        test_args(&["stir", "--rotations", "42"], false),
        Args::Invocation(Invocation {
            command_name: "stir".to_string(),
            verbose: false,
            from_shim: false,
            args: make_args(&["--rotations", "42"]),
        })
    );
}

#[test]
fn parse_command_verbose_arg() {
    assert_eq!(
        test_args(&["-v", "foo", "bar"], false),
        Args::Invocation(Invocation {
            command_name: "foo".to_string(),
            verbose: true,
            from_shim: false,
            args: make_args(&["bar"]),
        })
    );
}

#[test]
fn parse_command_verbose_env() {
    assert_eq!(
        test_args(&["foo", "bar"], true),
        Args::Invocation(Invocation {
            command_name: "foo".to_string(),
            verbose: true,
            from_shim: false,
            args: make_args(&["bar"]),
        })
    );
}

#[test]
fn parse_command_from_shim() {
    assert_eq!(
        test_args(&["--from-shim", "foo", "bar"], false),
        Args::Invocation(Invocation {
            command_name: "foo".to_string(),
            verbose: false,
            from_shim: true,
            args: make_args(&["bar"]),
        })
    );
}

#[test]
fn parse_flag_without_command_is_an_error() {
    let r = parse_args(make_args(&["-v"]), false);
    assert_eq!(r.unwrap_err().message(), "tt: No command given");
}

#[test]
fn parse_get_binary_path_without_command_is_an_error() {
    let r = parse_args(make_args(&["--getBinaryPath"]), false);
    assert_eq!(r.unwrap_err().message(), "Expected a command, but none was found");
}

#[test]
fn parse_get_tool_path_without_tool_is_an_error() {
    let r = parse_args(make_args(&["--getToolPath"]), false);
    assert_eq!(r.unwrap_err().message(), "Expected a tool name, but none was found");
}
