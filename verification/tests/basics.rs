use s5ci::job_mgmt::effective_exit_status;
use s5ci::text::{parse_u32, safe_or_underscores, u64_to_string};

#[test]
fn it_works() {
    assert_eq!(2 + 2, 4);
}

#[test]
fn exit_status_of_a_signalled_job_is_the_sentinel() {
    assert_eq!(effective_exit_status(None), 4242);
    assert_eq!(effective_exit_status(Some(0)), 0);
    assert_eq!(effective_exit_status(Some(3)), 3);
}

#[test]
fn numbers_are_written_and_read_in_decimal() {
    assert_eq!(u64_to_string(0), "0");
    assert_eq!(u64_to_string(1907), "1907");
    assert_eq!(parse_u32("1907"), Some(1907));
    assert_eq!(parse_u32("+7"), Some(7));
    assert_eq!(parse_u32(""), None);
    assert_eq!(parse_u32("+"), None);
    assert_eq!(parse_u32("-7"), None);
    assert_eq!(parse_u32("4294967295"), Some(4294967295));
    assert_eq!(parse_u32("4294967296"), None);
    assert_eq!(parse_u32("12a"), None);
}

#[test]
fn unsafe_characters_become_underscores() {
    assert_eq!(safe_or_underscores("abc-1/x_y"), "abc-1/x_y");
    assert_eq!(safe_or_underscores("a b;c"), "a_b_c");
    assert_eq!(safe_or_underscores("-rf"), "_rf");
    assert_eq!(safe_or_underscores("/etc"), "_etc");
    assert_eq!(safe_or_underscores(""), "");
}
