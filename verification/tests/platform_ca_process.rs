use rsproxy::platform::ca::{certificate_fingerprint_sha256, generate_root_ca, leaf_cache_name};
use rsproxy::platform::error::PlatformError;
use rsproxy::platform::process::{
    control_socket_path, first_listed_pid, listening_socket_inodes, parse_pid, vm_rss_kib,
};
use rsproxy::text::{lines_of, parse_hex_u16, words_of};

#[test]
fn ca_leaf_cache_name_is_path_safe() {
    assert_eq!(leaf_cache_name("API.Example.TEST"), "api.example.test");
    assert_eq!(leaf_cache_name("127.0.0.1:443"), "127.0.0.1_443");
    assert_eq!(leaf_cache_name("*.example.test"), "_.example.test");
}

#[test]
fn process_pid_parser_rejects_invalid_and_reserved_values() {
    assert_eq!(parse_pid(" 42\n").unwrap(), 42);
    assert!(matches!(
        parse_pid("not-a-pid"),
        Err(PlatformError::InvalidState(_))
    ));
    assert!(matches!(parse_pid("0"), Err(PlatformError::InvalidState(_))));
    assert!(matches!(parse_pid("1"), Err(PlatformError::InvalidState(_))));
}

#[test]
fn process_control_socket_path_hashes_only_when_unix_path_is_too_long() {
    let euid = 1000;
    let short = "/tmp/rsproxy-test";
    assert_eq!(control_socket_path(short, euid), "/tmp/rsproxy-test/run/ctl.sock");

    let long = format!("/tmp/{}", "x".repeat(120));
    let first = control_socket_path(&long, euid);
    assert!(first.starts_with("/tmp"));
    assert_eq!(first, control_socket_path(&long, euid));
    assert!(first.len() <= 96);
}

#[test]
fn unix_control_socket_assembly_is_public() {
    let storage = "/tmp/rsproxy-platform-public-socket";
    assert_eq!(
        control_socket_path(storage, 1000),
        "/tmp/rsproxy-platform-public-socket/run/ctl.sock"
    );
}

#[test]
fn procfs_status_and_tcp_tables_parse_to_sizes_and_inodes() {
    let status = "Name:\trsproxy\nVmPeak:\t 9000 kB\nVmRSS:\t  4321 kB\r\nThreads:\t4\n";
    assert_eq!(vm_rss_kib(status), Some(4321));
    assert_eq!(vm_rss_kib("Name: x\n"), None);
    assert_eq!(vm_rss_kib("VmRSS:\n"), None);
    let table = "  sl  local_address rem_address   st tx_queue rx_queue tr tm->when retrnsmt   uid  timeout inode\n   0: 0100007F:49E4 00000000:0000 0A 00000000:00000000 00:00000000 00000000  1000        0 55501 1 0000000000000000 100 0 0 10 0\n   1: 0100007F:49E4 0200007F:1F90 01 00000000:00000000 00:00000000 00000000  1000        0 55502 1\n   2: 00000000000000000000000000000000:49E4 00000000000000000000000000000000:0000 0A 00000000:00000000 00:00000000 00000000  1000        0 55503 1\n";
    assert_eq!(listening_socket_inodes(table, 18916), [55501, 55503]);
    assert!(listening_socket_inodes(table, 80).is_empty());
    assert!(listening_socket_inodes("", 80).is_empty());
    assert_eq!(first_listed_pid("\nabc\n 4242 \n17\n"), Some(4242));
    assert_eq!(first_listed_pid("none\n"), None);
}

#[test]
fn text_words_and_hex_follow_std_semantics() {
    let chars = |s: &str| s.chars().collect::<Vec<char>>();
    let words: Vec<String> = words_of(&chars("  a\tbc \n d ")).iter().map(|w| w.iter().collect()).collect();
    assert_eq!(words, ["a", "bc", "d"]);
    assert_eq!(parse_hex_u16(&chars("49E4")), Some(18916));
    assert_eq!(parse_hex_u16(&chars("+ff")), Some(255));
    assert_eq!(parse_hex_u16(&chars("10000")), None);
    assert_eq!(parse_hex_u16(&chars("")), None);
    assert_eq!(parse_hex_u16(&chars("g")), None);
}

#[test]
fn ca_generated_root_ca_is_parseable_pem() {
    let root = generate_root_ca("rsproxy-test-root").unwrap();

    assert!(root.certificate_pem.contains("BEGIN CERTIFICATE"));
    assert!(root.private_key_pem.contains("BEGIN PRIVATE KEY"));
    assert!(certificate_fingerprint_sha256(&root.certificate_pem).is_some());
}

#[test]
fn text_lines_keep_a_lone_trailing_carriage_return() {
    let pieces: Vec<String> = lines_of(&"a\r\nb\r".chars().collect::<Vec<_>>())
        .into_iter()
        .map(|line| line.into_iter().collect())
        .collect();
    assert_eq!(pieces, vec!["a".to_string(), "b\r".to_string()]);
    let pieces: Vec<String> = lines_of(&"a\r\nb\r\n".chars().collect::<Vec<_>>())
        .into_iter()
        .map(|line| line.into_iter().collect())
        .collect();
    assert_eq!(pieces, vec!["a".to_string(), "b".to_string()]);
    assert_eq!(pieces, "a\r\nb\r\n".lines().collect::<Vec<_>>());
}
