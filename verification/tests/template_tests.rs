use tool_tool::template;

fn replacer(string: String) -> Result<String, String> {
    Ok(string.to_uppercase())
}

fn template_test(input: &str, output: &str) {
    assert_eq!(template(input, replacer).unwrap(), output);
}

#[test]
fn template_nothing() {
    template_test("foobar", "foobar");
}

#[test]
fn template_everything() {
    template_test("${foobar}", "FOOBAR");
}

#[test]
fn template_mixed() {
    template_test("a${x}b${y}c", "aXbYc");
}

#[test]
fn template_mixed2() {
    template_test("${x}b${y}", "XbY");
}

#[test]
fn template_missing() {
    let error = template("${foo}", |_: String| Err::<String, String>("Failhard".to_string()))
        .expect_err("Want error");
    assert_eq!(
        error.message(),
        "Could not replace template name 'foo' in template string ${foo}"
    );
    assert_eq!(error.cause().expect("cause"), &"Failhard".to_string());
}

#[test]
fn template_unclosed() {
    assert_eq!(
        template("${foo", |_: String| Ok::<String, String>("never".into()))
            .expect_err("Want error")
            .message(),
        "Unclosed template string in template '${foo', you may be missing a closing '}'"
    );
}

#[test]
fn template_adjacent_placeholders() {
    template_test("${a}${b}", "AB");
}
