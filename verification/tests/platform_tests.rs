use tool_tool::{DownloadUrls, Linux, Platform, PlatformKind, ToolConfiguration, Windows};

fn tool(default: Option<&str>, linux: Option<&str>, windows: Option<&str>) -> ToolConfiguration {
    ToolConfiguration {
        name: "foo".to_string(),
        version: "1.2.3".to_string(),
        download: DownloadUrls {
            default: default.map(|s| s.to_string()),
            linux: linux.map(|s| s.to_string()),
            windows: windows.map(|s| s.to_string()),
        },
        commands: vec![],
        env: vec![],
        strip_directories: 1,
    }
}

#[test]
fn platform_names() {
    assert_eq!(Linux.get_name(), "linux");
    assert_eq!(Windows.get_name(), "windows");
}

#[test]
fn platform_extensions_in_probe_order() {
    assert_eq!(Linux.get_application_extensions(), vec!["", ".sh"]);
    assert_eq!(
        Windows.get_application_extensions(),
        vec![".exe", ".cmd", ".bat", ""]
    );
}

#[test]
fn platform_url_falls_back_to_default() {
    let both = tool(Some("http://d.invalid"), Some("http://l.invalid"), None);
    assert_eq!(
        Linux.get_download_url(&both),
        Some("http://l.invalid".to_string())
    );
    assert_eq!(
        Windows.get_download_url(&both),
        Some("http://d.invalid".to_string())
    );
    let none = tool(None, None, None);
    assert_eq!(Linux.get_download_url(&none), None);
    let _ = PlatformKind::Windows;
}
