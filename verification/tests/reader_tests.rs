use dns_optimizer::reader::parse_dns_report;

#[test]
fn parses_primary_nameserver_entries() {
    let report = "DNS configuration\n\
                  resolver #1\n\
                  nameserver[0] : 8.8.8.8\n\
                  nameserver[1] : 1.1.1.1\n\
                  flags    : Request A records\n";
    assert_eq!(parse_dns_report(report), vec!["8.8.8.8".to_string(), "1.1.1.1".to_string()]);
}

#[test]
fn excludes_scoped_query_section() {
    let report = "resolver #1\n\
                  nameserver[0] : 9.9.9.9\n\
                  DNS configuration (for scoped queries)\n\
                  resolver #1\n\
                  nameserver[0] : 192.168.1.1\n";
    assert_eq!(parse_dns_report(report), vec!["9.9.9.9".to_string()]);
}

#[test]
fn empty_report_means_automatic() {
    assert_eq!(parse_dns_report(""), Vec::<String>::new());
}

#[test]
fn report_without_entries_means_automatic() {
    let report = "resolver #1\n  search domain[0] : lan\nflags : Scoped\n";
    assert_eq!(parse_dns_report(report), Vec::<String>::new());
}

#[test]
fn tolerates_leading_whitespace_and_spacing() {
    let report = "  nameserver[0]:1.0.0.1\n\tnameserver[1]  :   8.8.4.4  \n";
    assert_eq!(parse_dns_report(report), vec!["1.0.0.1".to_string(), "8.8.4.4".to_string()]);
}

#[test]
fn ignores_malformed_entry_lines() {
    let report = "nameserver : 1.2.3.4\n\
                  nameserver[] : 5.6.7.8\n\
                  nameserver[x] : 6.7.8.9\n\
                  nameserver[0]\n\
                  nameserver[1] :\n\
                  nameserver[2] : 4.2.2.1\n";
    assert_eq!(parse_dns_report(report), vec!["4.2.2.1".to_string()]);
}

#[test]
fn reads_multi_digit_indices() {
    let report = "nameserver[9] : 1.1.1.1\n\
                  nameserver[10] : 8.8.8.8\n\
                  nameserver[12]:5.6.7.8\n\
                  nameserver[137] : 9.9.9.9\n";
    assert_eq!(
        parse_dns_report(report),
        vec![
            "1.1.1.1".to_string(),
            "8.8.8.8".to_string(),
            "5.6.7.8".to_string(),
            "9.9.9.9".to_string(),
        ]
    );
}

#[test]
fn address_stops_at_whitespace() {
    let report = "nameserver[0] : 4.2.2.2 (reachable)\n";
    assert_eq!(parse_dns_report(report), vec!["4.2.2.2".to_string()]);
}

#[test]
fn last_line_without_newline_is_read() {
    let report = "nameserver[0] : 64.6.64.6";
    assert_eq!(parse_dns_report(report), vec!["64.6.64.6".to_string()]);
}

#[test]
fn everything_after_marker_is_ignored_even_entries() {
    let report = "DNS configuration (for scoped queries)\nnameserver[0] : 10.0.0.1\n";
    assert_eq!(parse_dns_report(report), Vec::<String>::new());
}
