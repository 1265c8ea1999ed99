use port_discovery::parser::parse_readiness_line;

#[test]
fn readiness_line_yields_announced_port() {
    assert_eq!(
        parse_readiness_line(b"Server running on http://127.0.0.1:54231"),
        Some(54231)
    );
}

#[test]
fn prefix_text_is_ignored() {
    assert_eq!(
        parse_readiness_line(b"[info] 2024 Server running on http://0.0.0.0:8080"),
        Some(8080)
    );
}

#[test]
fn trailing_whitespace_is_trimmed() {
    assert_eq!(
        parse_readiness_line(b"Server running on host:  8080  \r"),
        Some(8080)
    );
}

#[test]
fn smallest_and_largest_ports_parse() {
    assert_eq!(parse_readiness_line(b"Server running on x:0"), Some(0));
    assert_eq!(parse_readiness_line(b"Server running on x:65535"), Some(65535));
}

#[test]
fn value_above_port_range_is_rejected() {
    assert_eq!(parse_readiness_line(b"Server running on x:65536"), None);
    assert_eq!(
        parse_readiness_line(b"Server running on x:99999999999999999999"),
        None
    );
}

#[test]
fn leading_plus_is_accepted_as_the_integer_parser_does() {
    assert_eq!(parse_readiness_line(b"Server running on x:+54231"), Some(54231));
    assert_eq!(parse_readiness_line(b"Server running on x:+"), None);
}

#[test]
fn line_without_marker_never_matches() {
    assert_eq!(parse_readiness_line(b"Starting up..."), None);
    assert_eq!(parse_readiness_line(b"server running on http://127.0.0.1:54231"), None);
    assert_eq!(parse_readiness_line(b"listening at http://127.0.0.1:54231"), None);
    assert_eq!(parse_readiness_line(b""), None);
}

#[test]
fn malformed_trailing_token_is_a_plain_non_match() {
    assert_eq!(parse_readiness_line(b"Server running on http://host:80a0"), None);
    assert_eq!(parse_readiness_line(b"Server running on port 8080"), None);
    assert_eq!(parse_readiness_line(b"Server running on host:"), None);
    assert_eq!(parse_readiness_line(b"Server running on host: -1"), None);
}

#[test]
fn marker_may_stand_anywhere_before_the_token() {
    assert_eq!(parse_readiness_line(b"Server running on:7"), Some(7));
    assert_eq!(parse_readiness_line(b"xServer running onx:7"), Some(7));
}
