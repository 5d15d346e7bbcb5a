use netpulse::ping_parse::parse_ping_latency;

#[test]
fn typical_linux_reply_rounds_down() {
    let out = "64 bytes from x: icmp_seq=1 ttl=64 time=12.3 ms";
    assert_eq!(parse_ping_latency(out), Some(12));
}

#[test]
fn whole_millisecond_value() {
    assert_eq!(parse_ping_latency("time=5ms"), Some(5));
}

#[test]
fn sub_millisecond_fraction_rounds_to_zero() {
    assert_eq!(parse_ping_latency("time=0.456 ms"), Some(0));
}

#[test]
fn half_rounds_up() {
    assert_eq!(parse_ping_latency("time=2.5 ms"), Some(3));
    assert_eq!(parse_ping_latency("time=0.5 ms"), Some(1));
}

#[test]
fn just_below_half_rounds_down() {
    assert_eq!(parse_ping_latency("time=0.49 ms"), Some(0));
}

#[test]
fn case_insensitive_match() {
    assert_eq!(parse_ping_latency("Reply from x: TIME=7.2 MS"), Some(7));
}

#[test]
fn time_less_than_is_clamped_to_one() {
    assert_eq!(parse_ping_latency("Reply from x: bytes=32 time<1ms TTL=64"), Some(1));
    assert_eq!(parse_ping_latency("time<0.2 ms"), Some(1));
}

#[test]
fn time_less_than_above_one_keeps_its_value() {
    assert_eq!(parse_ping_latency("time<2.7 ms"), Some(3));
}

#[test]
fn bare_time_less_than_defaults_to_one() {
    assert_eq!(parse_ping_latency("reply time<threshold"), Some(1));
}

#[test]
fn no_token_yields_nothing() {
    let out = "PING x (1.2.3.4) 56(84) bytes of data.\n--- x ping statistics ---";
    assert_eq!(parse_ping_latency(out), None);
}

#[test]
fn two_decimal_points_do_not_parse() {
    assert_eq!(parse_ping_latency("time=1.2.3 ms"), None);
}

#[test]
fn token_without_digits_does_not_parse() {
    assert_eq!(parse_ping_latency("time=. ms"), None);
    assert_eq!(parse_ping_latency("time= ms"), None);
}

#[test]
fn trailing_point_parses() {
    assert_eq!(parse_ping_latency("time=12. ms"), Some(12));
}

#[test]
fn leading_point_parses() {
    assert_eq!(parse_ping_latency("time=.5 ms"), Some(1));
}

#[test]
fn later_line_is_found() {
    let out = "PING x: data\n64 bytes from x: time=4.5 ms\nrtt min/avg/max";
    assert_eq!(parse_ping_latency(out), Some(5));
}

#[test]
fn earlier_line_wins_over_later_line() {
    let out = "first time<2 here\nsecond time=9 there";
    assert_eq!(parse_ping_latency(out), Some(2));
}

#[test]
fn equals_token_wins_within_one_line() {
    assert_eq!(parse_ping_latency("a time<2 b time=9 c"), Some(9));
}

#[test]
fn unparsable_equals_token_moves_to_next_line() {
    let out = "bad time=1.2.3 here\ngood time=6 there";
    assert_eq!(parse_ping_latency(out), Some(6));
}

#[test]
fn huge_value_saturates() {
    assert_eq!(parse_ping_latency("time=99999999999999999999999 ms"), Some(u64::MAX));
}

#[test]
fn empty_input_yields_nothing() {
    assert_eq!(parse_ping_latency(""), None);
}
