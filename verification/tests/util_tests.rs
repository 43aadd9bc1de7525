use tool_tool::u64_to_dec_string;
use tool_tool::util::{retry, retry_delay, retry_exhausted_message, RETRY_ATTEMPTS};

#[test]
fn decimal_rendering() {
    assert_eq!(u64_to_dec_string(0), "0".to_string());
    assert_eq!(u64_to_dec_string(7), "7".to_string());
    assert_eq!(u64_to_dec_string(125), "125".to_string());
    assert_eq!(u64_to_dec_string(1234567890), "1234567890".to_string());
}

#[test]
fn retry_schedule_backs_off_then_gives_up() {
    assert_eq!(retry_delay(0), Some(0));
    assert_eq!(retry_delay(1), Some(1));
    assert_eq!(retry_delay(2), Some(10));
    assert_eq!(retry_delay(3), Some(100));
    assert_eq!(retry_delay(4), Some(1000));
    assert_eq!(retry_delay(RETRY_ATTEMPTS - 1), Some(1000));
    assert_eq!(retry_delay(RETRY_ATTEMPTS), None);
    assert_eq!(retry_delay(RETRY_ATTEMPTS + 5), None);
}

#[test]
fn retry_failure_names_the_cause() {
    assert_eq!(
        retry_exhausted_message(14, "environment variable not found"),
        "failed after 14 tries: environment variable not found".to_string()
    );
}

#[test]
fn retry_success() {
    let res = retry(|| Ok::<i32, String>(42), |_ms| {});
    assert_eq!(res.unwrap(), 42);
}

#[test]
fn retry_exhaustion_surfaces_the_last_error() {
    let res = retry(
        || Err::<u32, String>("environment variable not found".to_string()),
        |_ms| {},
    );
    let (tries, cause) = res.unwrap_err();
    assert_eq!(tries, RETRY_ATTEMPTS);
    assert_eq!(
        retry_exhausted_message(tries, &cause),
        "failed after 14 tries: environment variable not found".to_string()
    );
}
