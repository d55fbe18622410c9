use dynatrace_problem_forwarder::cli::commands::{Cli, Commands};
use dynatrace_problem_forwarder::utils::process::{
    get_log_file_path, get_pid_file_path, parse_pid, parse_u32, run_directory,
};
use std::path::Path;

#[test]
fn run_files_lie_beside_the_settings_file() {
    let pid = get_pid_file_path("/etc/relay/config.yaml");
    assert_eq!(Path::new(&pid), Path::new("/etc/relay").join("dtpf.pid"));
    assert!(pid.starts_with("/etc/relay"));
    assert!(pid.ends_with("dtpf.pid"));
    let log = get_log_file_path("/etc/relay/config.yaml");
    assert_eq!(Path::new(&log), Path::new("/etc/relay").join("dtpf.log"));
    assert!(log.ends_with("dtpf.log"));
}

#[test]
fn run_files_are_named_with_one_separator() {
    let separators = ['/', std::path::MAIN_SEPARATOR];
    for (config, base) in [
        ("/etc/dtpf/config.yaml", "/etc/dtpf"),
        ("relay/config.yaml", "relay"),
        ("a/b.c/settings.yml", "a/b.c"),
    ] {
        let pid = get_pid_file_path(config);
        assert!(separators.iter().any(|s| pid == format!("{}{}dtpf.pid", base, s)));
        let log = get_log_file_path(config);
        assert!(separators.iter().any(|s| log == format!("{}{}dtpf.log", base, s)));
    }
    assert_eq!(get_pid_file_path("/config.yaml"), "/dtpf.pid");
    assert_eq!(get_log_file_path("/config.yaml"), "/dtpf.log");
}

#[test]
fn run_files_of_a_bare_file_name_lie_in_the_current_directory() {
    assert_eq!(get_pid_file_path("config.yaml"), "dtpf.pid");
    assert_eq!(get_log_file_path("config.yaml"), "dtpf.log");
    let rooted = get_pid_file_path("");
    assert_eq!(Path::new(&rooted), Path::new(".").join("dtpf.pid"));
    assert!(rooted.starts_with('.'));
}

#[test]
fn run_directory_falls_back_to_the_current_one() {
    assert_eq!(run_directory(Some("/srv/relay".to_string())), "/srv/relay");
    assert_eq!(run_directory(Some(String::new())), "");
    assert_eq!(run_directory(None), ".");
}

#[test]
fn pids_are_read_without_the_blanks_around_them() {
    assert_eq!(parse_pid("4242\n"), Some(4242));
    assert_eq!(parse_pid("  17  "), Some(17));
    assert_eq!(parse_pid("0"), Some(0));
    assert_eq!(parse_pid("007"), Some(7));
    assert_eq!(parse_pid("+15"), Some(15));
    assert_eq!(parse_pid("+"), None);
    assert_eq!(parse_pid("++1"), None);
    assert_eq!(parse_pid("1e3"), None);
    assert_eq!(parse_pid("99999999999999999999999"), None);
    assert_eq!(parse_pid("4294967295"), Some(u32::MAX));
    assert_eq!(parse_pid("4294967296"), None);
    assert_eq!(parse_pid("-1"), None);
    assert_eq!(parse_pid("12 34"), None);
    assert_eq!(parse_pid("pid"), None);
    assert_eq!(parse_pid(""), None);
}

#[test]
fn numbers_are_parsed_as_the_standard_library_parses_them() {
    for text in ["0", "1", "+1", "42", "0042", "4294967295", "4294967296", "", "+", "-0", " 1", "1 ", "x", "12a", "٣"] {
        assert_eq!(parse_u32(text), text.parse::<u32>().ok());
    }
}

#[test]
fn clearing_needs_a_yes() {
    assert!(Commands::clear_confirmed(true, ""));
    assert!(Commands::clear_confirmed(true, "n"));
    assert!(Commands::clear_confirmed(false, "y"));
    assert!(Commands::clear_confirmed(false, "Y\n"));
    assert!(Commands::clear_confirmed(false, "  y  \r\n"));
    assert!(!Commands::clear_confirmed(false, ""));
    assert!(!Commands::clear_confirmed(false, "\n"));
    assert!(!Commands::clear_confirmed(false, "yes"));
    assert!(!Commands::clear_confirmed(false, "n"));
    assert!(!Commands::clear_confirmed(false, "y y"));
}

#[test]
fn every_command_names_its_settings_file() {
    let path = "./config.yaml".to_string();
    let commands = vec![
        Commands::Run { config: path.clone(), nohup: false },
        Commands::ClearCache { config: path.clone(), confirm: true },
        Commands::TestDynatrace { config: path.clone() },
        Commands::TestConnectors { config: path.clone() },
        Commands::Stats { config: path.clone() },
        Commands::Stop { config: path.clone() },
    ];
    for command in commands {
        let cli = Cli { command };
        assert_eq!(cli.command.config(), &path);
    }
}
