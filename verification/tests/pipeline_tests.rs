//! Classification, enumeration parsing, working-directory resolution,
//! aggregation and the action gateway.

use localdock::actions::{browser_url, kill_server_allowed};
use localdock::classify::lookup_process;
use localdock::cwd::{cwd_start, cwd_step, normalize_cwd, CwdAction, CwdEvent, CwdState};
use localdock::scanner::{
    extract_port, get_all_process_cwds, get_all_uptimes, parse_csv_first_two,
    parse_netstat_output, parse_tasklist_output,
};
use localdock::{category_rank, get_servers, Server};

#[test]
fn classifier_knows_dev_tools_case_insensitively() {
    let info = lookup_process("NODE.EXE");
    assert_eq!(info.category, "dev");
    assert_eq!(info.description, "Node.js");
    let info = lookup_process("Python.exe");
    assert_eq!(info.category, "dev");
    assert_eq!(info.description, "Python");
}

#[test]
fn classifier_knows_apps_and_system_services() {
    let info = lookup_process("chrome.exe");
    assert_eq!(info.category, "app");
    assert_eq!(info.description, "Google Chrome");
    let info = lookup_process("svchost.exe");
    assert_eq!(info.category, "system");
    assert_eq!(info.description, "Windows Service Host");
}

#[test]
fn classifier_defaults_unknown_names_to_system() {
    let info = lookup_process("definitely-not-a-known-binary.exe");
    assert_eq!(info.category, "system");
    assert_eq!(info.description, "");
    // no substring matching: a known name embedded in a longer one is unknown
    let info = lookup_process("node.exe.bak");
    assert_eq!(info.category, "system");
}

#[test]
fn category_ranks_order_dev_app_system() {
    assert_eq!(category_rank("dev"), 0);
    assert_eq!(category_rank("app"), 1);
    assert_eq!(category_rank("system"), 2);
    assert_eq!(category_rank("anything else"), 2);
}

#[test]
fn extract_port_handles_all_address_forms() {
    assert_eq!(extract_port("0.0.0.0:8080"), Some(8080));
    assert_eq!(extract_port("127.0.0.1:3000"), Some(3000));
    assert_eq!(extract_port("[::]:5173"), Some(5173));
    assert_eq!(extract_port("[::1]:65535"), Some(65535));
    assert_eq!(extract_port("no-colon-here"), None);
    assert_eq!(extract_port("bad:port:"), None);
    assert_eq!(extract_port("x:70000"), None);
    assert_eq!(extract_port("x:12a"), None);
}

#[test]
fn csv_first_two_reads_quoted_fields_only() {
    assert_eq!(
        parse_csv_first_two(r#""node.exe","1234","Console","1","12,345 K""#),
        Some(("node.exe".to_string(), "1234".to_string()))
    );
    assert_eq!(parse_csv_first_two("node.exe,1234"), None);
    assert_eq!(parse_csv_first_two(r#""unterminated"#), None);
    assert_eq!(parse_csv_first_two(r#""a"x"b""#), None);
    assert_eq!(parse_csv_first_two(""), None);
}

#[test]
fn netstat_parse_filters_and_merges() {
    let output = "\
Active Connections\r\n\
\r\n\
  Proto  Local Address          Foreign Address        State           PID\r\n\
  TCP    0.0.0.0:3000           0.0.0.0:0              LISTENING       4242\r\n\
  TCP    0.0.0.0:3000           0.0.0.0:0              LISTENING       4242\r\n\
  TCP    127.0.0.1:8080         0.0.0.0:0              LISTENING       4242\r\n\
  TCP    [::]:5173              [::]:0                 LISTENING       777\r\n\
  TCP    0.0.0.0:80             0.0.0.0:0              LISTENING       900\r\n\
  TCP    0.0.0.0:9999           0.0.0.0:0              LISTENING       0\r\n\
  TCP    0.0.0.0:1234           1.2.3.4:80             ESTABLISHED     4242\r\n\
  garbage line\r\n";
    let table = parse_netstat_output(output);
    assert_eq!(table.len(), 2);
    assert_eq!(table[0].0, 4242);
    assert_eq!(table[0].1, vec![3000u16, 8080]);
    assert_eq!(table[1].0, 777);
    assert_eq!(table[1].1, vec![5173u16]);
}

#[test]
fn netstat_parse_of_failure_output_is_empty() {
    assert_eq!(parse_netstat_output("").len(), 0);
}

#[test]
fn tasklist_parse_reads_names_and_pids() {
    let output = "\
\"System\",\"4\",\"Services\",\"0\",\"148 K\"\r\n\
\"node.exe\",\"4242\",\"Console\",\"1\",\"12,345 K\"\r\n\
\"nginx.exe\",\"900\",\"Services\",\"0\",\"2,001 K\"\r\n\
\r\n\
not a csv line\r\n";
    let table = parse_tasklist_output(output);
    assert_eq!(table.len(), 3);
    assert_eq!(table[0], (4, "System".to_string()));
    assert_eq!(table[1], (4242, "node.exe".to_string()));
    assert_eq!(table[2], (900, "nginx.exe".to_string()));
}

#[test]
fn uptimes_are_whole_seconds_since_creation() {
    // timestamps in 100 ns units: 1000 s of uptime
    let probes = vec![(10u32, 10_000_000_000u64), (11, 0), (12, 30_000_000_000)];
    let now = 20_000_000_000u64;
    let table = get_all_uptimes(&probes, now);
    assert_eq!(table.len(), 2);
    assert_eq!(table[0], (10, 1000));
    // a creation time in the future reads as zero rather than wrapping
    assert_eq!(table[1], (12, 0));
}

#[test]
fn cwd_table_keeps_successful_probes_only() {
    let results = vec![
        (10u32, Some("C:\\work\\api".to_string())),
        (11, None),
        (12, Some("C:\\work\\web".to_string())),
        (12, Some("C:\\elsewhere".to_string())),
    ];
    let table = get_all_process_cwds(&results);
    assert_eq!(table.len(), 2);
    assert_eq!(table[0], (10, "C:\\work\\api".to_string()));
    assert_eq!(table[1], (12, "C:\\work\\web".to_string()));
}

#[test]
fn cwd_machine_walks_the_whole_read_chain() {
    let (state, action) = cwd_start();
    assert!(matches!(action, CwdAction::QueryControlBlock));

    // control block found at 0x1000
    let (state, action) = cwd_step(state, CwdEvent::ControlBlock(Some(0x1000)));
    assert!(matches!(action, CwdAction::ReadMemory { address: 0x1020, size: 8 }));

    // startup parameters at 0x2000
    let params = 0x2000u64.to_le_bytes().to_vec();
    let (state, action) = cwd_step(state, CwdEvent::Bytes(Some(params)));
    assert!(matches!(action, CwdAction::ReadMemory { address: 0x2038, size: 2 }));

    // the directory string is 16 bytes long
    let length = 16u16.to_le_bytes().to_vec();
    let (state, action) = cwd_step(state, CwdEvent::Bytes(Some(length)));
    assert!(matches!(action, CwdAction::ReadMemory { address: 0x2040, size: 8 }));

    // its buffer lives at 0x3000; the read must be exactly 16 bytes
    let buffer = 0x3000u64.to_le_bytes().to_vec();
    let (state, action) = cwd_step(state, CwdEvent::Bytes(Some(buffer)));
    assert!(matches!(action, CwdAction::ReadPath { address: 0x3000, length_bytes: 16 }));

    // the decoded text comes back and loses its trailing separator
    let (state, action) = cwd_step(state, CwdEvent::PathText(Some("C:\\work\\api\\".to_string())));
    assert!(matches!(action, CwdAction::Stop));
    match state {
        CwdState::Finished { cwd } => assert_eq!(cwd, Some("C:\\work\\api".to_string())),
        _ => panic!("resolver did not finish"),
    }
}

#[test]
fn cwd_machine_read_failure_yields_unknown() {
    let (state, _) = cwd_start();
    let (state, _) = cwd_step(state, CwdEvent::ControlBlock(Some(0x1000)));
    // the params-pointer read fails mid-chain
    let (state, action) = cwd_step(state, CwdEvent::Bytes(None));
    assert!(matches!(action, CwdAction::Stop));
    assert!(matches!(state, CwdState::Finished { cwd: None }));
}

#[test]
fn cwd_machine_rejects_null_control_block() {
    let (state, _) = cwd_start();
    let (state, _) = cwd_step(state, CwdEvent::ControlBlock(Some(0)));
    assert!(matches!(state, CwdState::Finished { cwd: None }));
    let (state, _) = cwd_start();
    let (state, _) = cwd_step(state, CwdEvent::ControlBlock(None));
    assert!(matches!(state, CwdState::Finished { cwd: None }));
}

#[test]
fn normalize_cwd_strips_one_separator_but_not_drive_roots() {
    assert_eq!(normalize_cwd("C:\\work\\api\\".to_string()), "C:\\work\\api");
    assert_eq!(normalize_cwd("C:\\work\\api".to_string()), "C:\\work\\api");
    assert_eq!(normalize_cwd("C:\\".to_string()), "C:\\");
    assert_eq!(normalize_cwd("".to_string()), "");
}

fn sample_tables() -> (
    Vec<(u32, Vec<u16>)>,
    Vec<(u32, String)>,
    Vec<(u32, u64)>,
    Vec<(u32, (String, String))>,
) {
    let ports = vec![
        (900u32, vec![8080u16]),
        (4242, vec![3000u16, 5173]),
        (31, vec![2000u16]),
        (77, vec![1555u16]),
    ];
    let names = vec![
        (900u32, "nginx.exe".to_string()),
        (4242, "node.exe".to_string()),
        (77, "chrome.exe".to_string()),
    ];
    let uptimes = vec![(4242u32, 42u64), (900, 7)];
    let projects = vec![(4242u32, ("shop".to_string(), "Next.js".to_string()))];
    (ports, names, uptimes, projects)
}

#[test]
fn get_servers_joins_and_orders_records() {
    let (ports, names, uptimes, projects) = sample_tables();
    let servers = get_servers(&ports, &names, &uptimes, &projects);

    // pid 31 has no name and is dropped; node.exe holds two ports
    assert_eq!(servers.len(), 4);

    // dev first, then app, then system, ports ascending within a category
    let summary: Vec<(u32, u16, &str, &str)> = servers
        .iter()
        .map(|s: &Server| (s.pid, s.port, s.category.as_str(), s.framework.as_str()))
        .collect();
    assert_eq!(
        summary,
        vec![
            (4242, 3000, "dev", "Next.js"),
            (4242, 5173, "dev", "Next.js"),
            (77, 1555, "app", ""),
            (900, 8080, "system", ""),
        ]
    );

    let dev = &servers[0];
    assert_eq!(dev.project_name, "shop");
    assert_eq!(dev.process_name, "node.exe");
    assert_eq!(dev.description, "Node.js");
    assert_eq!(dev.uptime_seconds, 42);

    let sys = &servers[3];
    assert_eq!(sys.project_name, "nginx.exe");
    assert_eq!(sys.framework, "");
    assert_eq!(sys.description, "Nginx");
    assert_eq!(sys.uptime_seconds, 7);
}

#[test]
fn get_servers_ports_and_pids_stay_in_bounds() {
    let (ports, names, uptimes, projects) = sample_tables();
    let servers = get_servers(&ports, &names, &uptimes, &projects);
    for s in &servers {
        assert!(s.port >= 1024);
        assert!(s.pid != 0);
    }
}

#[test]
fn get_servers_pairs_ignore_uptime_drift() {
    let (ports, names, uptimes, projects) = sample_tables();
    let first = get_servers(&ports, &names, &uptimes, &projects);
    let drifted = vec![(4242u32, 43u64), (900, 9)];
    let second = get_servers(&ports, &names, &drifted, &projects);
    let pairs = |v: &Vec<Server>| v.iter().map(|s| (s.pid, s.port)).collect::<Vec<_>>();
    assert_eq!(pairs(&first), pairs(&second));
}

#[test]
fn dev_without_cwd_falls_back_to_process_name() {
    let ports = vec![(4242u32, vec![3000u16])];
    let names = vec![(4242u32, "node.exe".to_string())];
    let servers = get_servers(&ports, &names, &vec![], &vec![]);
    assert_eq!(servers.len(), 1);
    assert_eq!(servers[0].project_name, "node.exe");
    assert_eq!(servers[0].framework, "Unknown");
    assert_eq!(servers[0].uptime_seconds, 0);
}

#[test]
fn kill_gate_requires_fresh_listing() {
    let stale = vec![(4242u32, vec![3000u16])];
    let fresh: Vec<(u32, Vec<u16>)> = vec![(900u32, vec![8080u16])];
    // present in the stale table, absent from the fresh one: refused
    assert!(kill_server_allowed(&stale, 4242));
    assert!(!kill_server_allowed(&fresh, 4242));
    assert!(!kill_server_allowed(&vec![], 4242));
}

#[test]
fn open_port_refuses_privileged_ports() {
    assert_eq!(browser_url(80), None);
    assert_eq!(browser_url(1023), None);
    assert_eq!(browser_url(3000), Some("http://localhost:3000".to_string()));
    assert_eq!(browser_url(1024), Some("http://localhost:1024".to_string()));
    assert_eq!(browser_url(65535), Some("http://localhost:65535".to_string()));
}
