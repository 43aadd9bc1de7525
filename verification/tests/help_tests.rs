use tool_tool::config::{Configuration, DownloadUrls, ToolConfiguration};
use tool_tool::print_help;

const USAGE: &str = "Usage: tt [-v] <command> <args...>\n  Run tool <command> with the provided arguments\n\nFlags:\n  -v     Verbose debug output\n\nUsage: tt --download\n  Download configured tools for later use\n\nUsage: tt --getBinaryPath <command>\n  Writes the absolute path to the binary to stdout. This can be used for integration with other tooling.\n\nUsage: tt --getToolPath <tool>\n  Writes the absolute path to the tool directory to stdout. This can be used for integration with other tooling.\n\n";

const BANNER: &str = "\u{1f527} tool-tool 0.1.0 \u{1f527}\n\n\u{1f527} A light-weight meta-tool to version and install tool dependencies for your software projects\n\n";

#[test]
fn help_empty() {
    let configuration = Configuration {
        cache_dir: None,
        tools: vec![],
        configuration_files: vec![],
    };
    let expected = format!(
        "{}{}{}{}",
        BANNER,
        "\n",
        USAGE,
        "No tool-tool file named .tool-tool.v1.yaml found in current directory or ancestors, please create one and configure your tools.\nRefer to https://example.invalid/tool-tool for further information\n"
    );
    assert_eq!(print_help(&configuration), expected);
}

fn plain_tool(name: &str, version: &str, commands: &[(&str, &str)]) -> ToolConfiguration {
    ToolConfiguration {
        name: name.to_string(),
        version: version.to_string(),
        download: DownloadUrls {
            default: None,
            linux: None,
            windows: None,
        },
        commands: commands
            .iter()
            .map(|(k, v)| (k.to_string(), v.to_string()))
            .collect(),
        env: vec![],
        strip_directories: 1,
    }
}

#[test]
fn help_configured() {
    let configuration = Configuration {
        cache_dir: None,
        tools: vec![
            plain_tool("foo", "1.2.3", &[("bar", "bar")]),
            plain_tool("fizz", "4.5.6", &[("buzz", "buzz"), ("apply", "apply")]),
        ],
        configuration_files: vec!["foo.bar.yaml".to_string()],
    };
    let expected = format!(
        "{}{}{}{}{}",
        BANNER,
        "\u{1f527} Loaded configuration from foo.bar.yaml\n",
        "\n",
        USAGE,
        "Available commands:\n\n   Command  Tool\n   apply    fizz 4.5.6\n   bar      foo 1.2.3\n   buzz     fizz 4.5.6\n"
    );
    assert_eq!(print_help(&configuration), expected);
}

#[test]
fn command_table_is_sorted_by_command_name() {
    let configuration = Configuration {
        cache_dir: None,
        tools: vec![plain_tool("z", "1", &[("zeta", "zeta"), ("alpha", "alpha")])],
        configuration_files: vec![],
    };
    let table = tool_tool::help::print_commands(&configuration);
    assert_eq!(
        table,
        "Available commands:\n\n   Command  Tool\n   alpha    z 1 \n   zeta     z 1 \n"
    );
}
