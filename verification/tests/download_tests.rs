use tool_tool::download::{
    download_step, run_download, DownloadRun, DownloadStep, HttpOutcome, MAX_REDIRECTS,
};

#[test]
fn simple_download_succeeds() {
    let outcomes = vec![HttpOutcome::Success];
    assert_eq!(
        run_download("http://127.0.0.1:9999/download1", &outcomes),
        DownloadRun::Done
    );
}

#[test]
fn redirected_download_succeeds() {
    let outcomes = vec![
        HttpOutcome::Redirect {
            location: Some("http://127.0.0.1:9999/download2".to_string()),
        },
        HttpOutcome::Success,
    ];
    assert_eq!(
        run_download("http://127.0.0.1:9999/redirect2", &outcomes),
        DownloadRun::Done
    );
}

#[test]
fn failure_status_reports_code_and_reason() {
    let outcomes = vec![HttpOutcome::Failure {
        code: 500,
        reason: "Internal Server Error".to_string(),
    }];
    assert_eq!(
        run_download("http://127.0.0.1:9999/download3", &outcomes),
        DownloadRun::Fail {
            message: "HTTP Error 500 downloading http://127.0.0.1:9999/download3 (Internal Server Error)"
                .to_string()
        }
    );
}

#[test]
fn redirect_loop_fails_after_the_bound() {
    let url = "http://127.0.0.1:9999/download4";
    let mut outcomes = Vec::new();
    let mut i = 0;
    while i < MAX_REDIRECTS {
        outcomes.push(HttpOutcome::Redirect {
            location: Some(url.to_string()),
        });
        i += 1;
    }
    assert_eq!(
        run_download(url, &outcomes),
        DownloadRun::Fail {
            message: "Failed to download http://127.0.0.1:9999/download4 after 10 redirects"
                .to_string()
        }
    );
}

#[test]
fn redirect_before_the_bound_is_followed() {
    let step = download_step(
        "http://a.invalid/x",
        MAX_REDIRECTS - 1,
        &HttpOutcome::Redirect {
            location: Some("http://b.invalid/y".to_string()),
        },
    );
    assert_eq!(
        step,
        DownloadStep::Follow {
            url: "http://b.invalid/y".to_string()
        }
    );
}

#[test]
fn redirect_at_the_bound_fails() {
    let step = download_step(
        "http://a.invalid/x",
        MAX_REDIRECTS,
        &HttpOutcome::Redirect {
            location: Some("http://b.invalid/y".to_string()),
        },
    );
    assert_eq!(
        step,
        DownloadStep::Fail {
            message: "Failed to download http://a.invalid/x after 10 redirects".to_string()
        }
    );
}

#[test]
fn redirect_without_location_fails() {
    let step = download_step("http://a.invalid/x", 1, &HttpOutcome::Redirect { location: None });
    assert_eq!(
        step,
        DownloadStep::Fail {
            message: "No location in HTTP redirect".to_string()
        }
    );
}

#[test]
fn exhausted_responses_are_reported() {
    let outcomes = vec![HttpOutcome::Redirect {
        location: Some("http://a.invalid/next".to_string()),
    }];
    assert_eq!(
        run_download("http://a.invalid/x", &outcomes),
        DownloadRun::NoResponse
    );
}
