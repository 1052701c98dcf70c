use wifi_list::lister::{list_networks, parse_scan_text, WifiNetwork};

fn ssids(nets: &[WifiNetwork]) -> Vec<&str> {
    nets.iter().map(|n| n.ssid.as_str()).collect()
}

#[test]
fn example_listing_takes_second_token() {
    let text = "SSID  BSSID  MODE\nnet1  aa:bb  Infra\nnet2  cc:dd  Infra\n";
    let nets = parse_scan_text(text);
    assert_eq!(ssids(&nets), vec!["aa:bb", "cc:dd"]);
}

#[test]
fn second_token_of_each_well_formed_line() {
    let text = "HDR\none two three\nalpha beta gamma delta\n";
    let nets = parse_scan_text(text);
    assert_eq!(ssids(&nets), vec!["two", "beta"]);
}

#[test]
fn header_only_gives_empty_list() {
    let nets = parse_scan_text("SSID BSSID MODE");
    assert!(nets.is_empty());
}

#[test]
fn header_with_trailing_newline_gives_empty_list() {
    let nets = parse_scan_text("SSID BSSID MODE\n");
    assert!(nets.is_empty());
}

#[test]
fn empty_text_gives_empty_list() {
    let nets = parse_scan_text("");
    assert!(nets.is_empty());
}

#[test]
fn short_line_is_skipped_and_rest_continue() {
    let text = "HDR\na b c\nonly two\nd e f\n";
    let nets = parse_scan_text(text);
    assert_eq!(ssids(&nets), vec!["b", "e"]);
}

#[test]
fn blank_lines_are_skipped() {
    let text = "HDR\n\n   \na b c\n";
    let nets = parse_scan_text(text);
    assert_eq!(ssids(&nets), vec!["b"]);
}

#[test]
fn exactly_three_tokens_is_enough() {
    let nets = parse_scan_text("HDR\nx y z");
    assert_eq!(ssids(&nets), vec!["y"]);
}

#[test]
fn two_tokens_are_too_few() {
    let nets = parse_scan_text("HDR\nx y");
    assert!(nets.is_empty());
}

#[test]
fn runs_of_whitespace_count_once() {
    let nets = parse_scan_text("HDR\n  a \t\t b \u{00A0} c  ");
    assert_eq!(ssids(&nets), vec!["b"]);
}

#[test]
fn duplicate_ssids_are_kept_in_order() {
    let text = "HDR\na same b\nc same d\n";
    let nets = parse_scan_text(text);
    assert_eq!(ssids(&nets), vec!["same", "same"]);
}

#[test]
fn parsing_twice_gives_identical_lists() {
    let text = "HDR\nnet1 aa:bb Infra\nshort\nnet2 cc:dd Infra\n";
    let first = parse_scan_text(text);
    let second = parse_scan_text(text);
    assert_eq!(ssids(&first), ssids(&second));
}

#[test]
fn failing_exit_status_gives_empty_list() {
    let stdout = b"SSID BSSID MODE\nnet1 aa:bb Infra\n";
    let nets = list_networks(false, stdout);
    assert!(nets.is_empty());
}

#[test]
fn successful_exit_status_parses_stdout() {
    let stdout = b"SSID BSSID MODE\nnet1 aa:bb Infra\n";
    let nets = list_networks(true, stdout);
    assert_eq!(ssids(&nets), vec!["aa:bb"]);
}

#[test]
fn ill_formed_bytes_decode_to_replacement_character() {
    let stdout = b"HDR\nx \xFFy z\n";
    let nets = list_networks(true, stdout);
    assert_eq!(ssids(&nets), vec!["\u{FFFD}y"]);
}

#[test]
fn success_on_empty_stdout_gives_empty_list() {
    let nets = list_networks(true, b"");
    assert!(nets.is_empty());
}
