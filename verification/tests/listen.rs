use aether_dev::listen::{
    attach_names, listening, parse_linux_netstat, parse_netstat, parse_ss, parse_tasklist, read,
    Format, ListenError, Listener, Listening, PortsConfig, Probe,
};

/// Goes through the steps on a machine that has none of the programs.
fn on_a_bare_machine(config: &PortsConfig) -> Result<Vec<Listener>, ListenError> {
    let mut answers = Vec::new();
    let mut names = None;
    loop {
        match listening(config, &answers, &names) {
            Listening::Ask(command) => answers.push(Err(ListenError::Unavailable(format!(
                "{}: not found",
                command[0]
            )))),
            Listening::AskNames(_) => names = Some(None),
            Listening::Done(outcome) => return outcome,
        }
    }
}

/// Taken from a machine's `netstat -ano -p TCP`.
const WINDOWS_NETSTAT: &str = "\
Active Connections

  Proto  Local Address          Foreign Address        State           PID
  TCP    0.0.0.0:22             0.0.0.0:0              LISTENING       4764
  TCP    0.0.0.0:445            0.0.0.0:0              LISTENING       4
  TCP    127.0.0.1:2375         0.0.0.0:0              LISTENING       9128
  TCP    0.0.0.0:8000           0.0.0.0:0              LISTENING       16784
  TCP    192.168.1.5:52233      52.1.2.3:443           ESTABLISHED     3312
  TCP    [::]:445               [::]:0                 LISTENING       4
";

/// Taken from a machine's `tasklist /NH /FO CSV`.
const WINDOWS_TASKLIST: &str = "\
\"System Idle Process\",\"0\",\"Services\",\"0\",\"8 K\"
\"System\",\"4\",\"Services\",\"0\",\"168 K\"
\"php.exe\",\"16784\",\"Console\",\"1\",\"42.000 K\"
\"com.docker.backend.exe\",\"9128\",\"Console\",\"1\",\"90.000 K\"
";

#[test]
fn each_format_is_read_by_the_parser_that_understands_it() {
    // Four, not five: the Windows capture lists 445 on both address
    // families and one service holding one port is one row.
    assert_eq!(read(WINDOWS_NETSTAT, Format::WindowsNetstat).len(), 4);
    assert_eq!(read(LINUX_NETSTAT, Format::LinuxNetstat).len(), 4);
    assert_eq!(read(LINUX_SS, Format::Ss).len(), 4);
}

/// Why a probe has to name its format rather than only a command.
///
/// The two failures are not the same, and the quieter one is worse. Read
/// as linux-netstat, ss output produces nothing - loud, and obvious. Read
/// as ss, netstat output still produces the right ports, because the
/// address happens to sit in the same column, but every name is lost. That
/// second one looks like a working list.
#[test]
fn a_mismatched_format_fails_quietly_enough_to_be_worth_preventing() {
    assert!(read(LINUX_SS, Format::LinuxNetstat).is_empty());

    let misread = read(LINUX_NETSTAT, Format::Ss);
    let ports: Vec<u16> = misread.iter().map(|l| l.port).collect();
    assert!(
        ports.contains(&3306) && ports.contains(&8080),
        "the real ports survive, which is what makes this hard to notice"
    );
    assert!(
        misread.iter().all(|l| l.process.is_none()),
        "every name is gone: a list that looks complete and is not"
    );
    assert!(
        ports.contains(&52233),
        "and worse, a merely connected socket is reported as listening - \
         the ss reader does not filter by state because its own output has \
         already done that"
    );
}

#[test]
fn every_probe_that_failed_is_named_in_the_error() {
    let config = PortsConfig {
        probe: vec![
            Probe {
                command: vec!["adev-no-such-tool-a".to_string()],
                format: Format::Ss,
            },
            Probe {
                command: vec!["adev-no-such-tool-b".to_string()],
                format: Format::LinuxNetstat,
            },
        ],
        names: Vec::new(),
    };
    let error = on_a_bare_machine(&config).unwrap_err().to_string();
    assert!(
        error.contains("adev-no-such-tool-a") && error.contains("adev-no-such-tool-b"),
        "an empty port list with only the last reason shown cannot be diagnosed; got {error}"
    );
}

#[test]
fn a_chain_with_nothing_in_it_says_so_instead_of_reporting_no_ports() {
    let error = on_a_bare_machine(&PortsConfig {
        probe: Vec::new(),
        names: Vec::new(),
    })
    .unwrap_err()
    .to_string();
    assert!(
        error.contains("[ports]"),
        "zero probes and zero ports look identical unless one of them says why; got {error}"
    );
}

/// Taken from `netstat -lntp` inside a machine's WSL as root, so the
/// owner column is filled, plus one line from the unprivileged run where
/// it is a bare dash. Both forms happen and the parser has to survive the
/// second without inventing an owner for it.
const LINUX_NETSTAT: &str = "\
Active Internet connections (only servers)
Proto Recv-Q Send-Q Local Address           Foreign Address         State       PID/Program name
tcp        0      0 0.0.0.0:3306            0.0.0.0:*               LISTEN      1085/docker-proxy
tcp        0      0 127.0.0.53:53           0.0.0.0:*               LISTEN      147/systemd-resolve
tcp        0      0 10.255.255.254:53       0.0.0.0:*               LISTEN      -
tcp        0      0 127.0.0.1:2375          0.0.0.0:*               LISTEN      689/docker-proxy
tcp6       0      0 :::8080                 :::*                    LISTEN      1462/docker-proxy
tcp        0      0 192.168.1.5:52233       52.1.2.3:443            ESTABLISHED 900/curl
";

#[test]
fn linux_netstat_gives_the_port_the_pid_and_the_name_in_one_pass() {
    let listeners = parse_linux_netstat(LINUX_NETSTAT);
    let ports: Vec<u16> = listeners.iter().map(|l| l.port).collect();
    assert_eq!(
        ports,
        vec![53, 2375, 3306, 8080],
        "every listening socket once, and nothing that is merely connected"
    );

    let mysql = listeners.iter().find(|l| l.port == 3306).unwrap();
    assert_eq!(mysql.pid, Some(1085));
    assert_eq!(
        mysql.process.as_deref(),
        Some("docker-proxy"),
        "this format carries the name already, so nothing else need be asked"
    );
}

#[test]
fn a_socket_linux_netstat_will_not_name_still_holds_its_port() {
    // Without root, netstat prints a dash for anything it does not own.
    let listeners = parse_linux_netstat(
        "tcp        0      0 10.255.255.254:53       0.0.0.0:*               LISTEN      -\n",
    );
    assert_eq!(listeners.len(), 1, "the port is held either way");
    assert_eq!(listeners[0].pid, None);
    assert_eq!(
        listeners[0].process, None,
        "a dash is an absence, not a process called '-'"
    );
}

#[test]
fn linux_netstat_headers_are_not_read_as_sockets() {
    let listeners = parse_linux_netstat(
        "Active Internet connections (only servers)\n\
         Proto Recv-Q Send-Q Local Address Foreign Address State PID/Program name\n",
    );
    assert!(listeners.is_empty());
    assert!(parse_linux_netstat("").is_empty());
}

/// Taken from `ss -lntpH` inside a machine's WSL.
const LINUX_SS: &str = "\
LISTEN 0      4096          0.0.0.0:443   0.0.0.0:* users:((\"docker-proxy\",pid=1172,fd=9))
LISTEN 0      4096          0.0.0.0:80    0.0.0.0:* users:((\"docker-proxy\",pid=1145,fd=9))
LISTEN 0      4096        127.0.0.1:2375  0.0.0.0:* users:((\"socat\",pid=1205,fd=5))
LISTEN 0      511                 *:8080  *:*
";

#[test]
fn only_listening_sockets_are_taken_from_netstat() {
    let listeners = parse_netstat(WINDOWS_NETSTAT);
    let ports: Vec<u16> = listeners.iter().map(|l| l.port).collect();
    assert!(ports.contains(&8000) && ports.contains(&2375));
    assert!(
        !ports.contains(&52233),
        "an established connection is not something holding a port"
    );
}

#[test]
fn a_port_listening_on_two_address_families_is_reported_once() {
    let listeners = parse_netstat(WINDOWS_NETSTAT);
    assert_eq!(
        listeners.iter().filter(|l| l.port == 445).count(),
        1,
        "0.0.0.0:445 and [::]:445 are one service, and listing it twice \
         makes a short list look long"
    );
}

#[test]
fn the_owning_process_is_carried_through_from_netstat() {
    let listeners = parse_netstat(WINDOWS_NETSTAT);
    let php = listeners.iter().find(|l| l.port == 8000).expect("8000");
    assert_eq!(php.pid, Some(16784));
    assert_eq!(php.process, None, "netstat only knows the number");
}

#[test]
fn tasklist_supplies_the_name_the_number_alone_does_not() {
    let names = parse_tasklist(WINDOWS_TASKLIST);
    assert_eq!(names.get(&16784).map(String::as_str), Some("php.exe"));
    assert_eq!(
        names.get(&9128).map(String::as_str),
        Some("com.docker.backend.exe")
    );
    assert_eq!(names.get(&1).map(String::as_str), None);
}

#[test]
fn a_name_is_attached_to_the_port_it_belongs_to() {
    let mut listeners = parse_netstat(WINDOWS_NETSTAT);
    attach_names(&mut listeners, &parse_tasklist(WINDOWS_TASKLIST));
    let php = listeners.iter().find(|l| l.port == 8000).expect("8000");
    assert_eq!(php.process.as_deref(), Some("php.exe"));

    let unknown = listeners.iter().find(|l| l.port == 22).expect("22");
    assert_eq!(
        unknown.process, None,
        "a pid tasklist did not report stays a number rather than becoming a guess"
    );
}

#[test]
fn ss_carries_the_name_and_the_number_together() {
    let listeners = parse_ss(LINUX_SS);
    let socat = listeners.iter().find(|l| l.port == 2375).expect("2375");
    assert_eq!(socat.process.as_deref(), Some("socat"));
    assert_eq!(socat.pid, Some(1205));
}

#[test]
fn a_listener_ss_reports_without_an_owner_is_still_a_listener() {
    let listeners = parse_ss(LINUX_SS);
    let anonymous = listeners.iter().find(|l| l.port == 8080).expect("8080");
    assert_eq!(anonymous.process, None);
    assert_eq!(anonymous.pid, None);
}

#[test]
fn ports_come_back_in_order_so_the_list_reads_the_same_way_twice() {
    let listeners = parse_ss(LINUX_SS);
    let ports: Vec<u16> = listeners.iter().map(|l| l.port).collect();
    let mut sorted = ports.clone();
    sorted.sort_unstable();
    assert_eq!(ports, sorted);
}

#[test]
fn nothing_listening_is_an_empty_list_rather_than_a_failure() {
    assert!(parse_netstat("").is_empty());
    assert!(parse_ss("").is_empty());
    assert!(parse_tasklist("").is_empty());
}
