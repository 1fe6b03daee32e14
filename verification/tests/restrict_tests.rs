use restrict::restrict::{is_valid_scope_id, ConfigError, Restrict};

fn sample() -> Restrict {
    Restrict::new()
        .with_shell("/bin/sh".to_string())
        .with_command("echo hi".to_string())
}

#[test]
fn new_request_is_empty() {
    let r = Restrict::new();
    assert!(!r.debug());
    assert_eq!(r.memory_limit(), None);
    assert_eq!(r.cpu_shares(), None);
    assert_eq!(r.shell(), "");
    assert_eq!(r.command(), "");
    assert_eq!(r.cgroup_path(), "restrict");
}

#[test]
fn default_request_is_new_request() {
    let r = Restrict::default();
    assert!(!r.debug());
    assert_eq!(r.memory_limit(), None);
    assert_eq!(r.cpu_shares(), None);
    assert_eq!(r.shell(), "");
    assert_eq!(r.command(), "");
    assert_eq!(r.cgroup_path(), "restrict");
}

#[test]
fn builders_set_one_field_each() {
    let r = Restrict::new().with_shell("/bin/bash".to_string());
    assert_eq!(r.shell(), "/bin/bash");
    assert_eq!(r.command(), "");
    let r = r.with_command("exit 7".to_string());
    assert_eq!(r.shell(), "/bin/bash");
    assert_eq!(r.command(), "exit 7");
    let r = r.with_debug(true);
    assert!(r.debug());
    let r = r.with_memory_limit(Some(4096));
    assert_eq!(r.memory_limit(), Some(4096));
    assert_eq!(r.cpu_shares(), None);
    let r = r.with_cpu_limit(Some(200));
    assert_eq!(r.cpu_shares(), Some(200));
    assert_eq!(r.memory_limit(), Some(4096));
    let r = r.with_cgroup_path("batch".to_string());
    assert_eq!(r.cgroup_path(), "batch");
    assert_eq!(r.shell(), "/bin/bash");
    assert_eq!(r.command(), "exit 7");
    assert!(r.debug());
    let r = r.with_memory_limit(None).with_cpu_limit(None).with_debug(false);
    assert_eq!(r.memory_limit(), None);
    assert_eq!(r.cpu_shares(), None);
    assert!(!r.debug());
}

#[test]
fn shell_reads_the_command_in_one_piece() {
    let r = sample().with_command("echo 'a  b' | wc -c; exit 3".to_string());
    assert_eq!(
        r.shell_arguments(),
        vec!["-c".to_string(), "echo 'a  b' | wc -c; exit 3".to_string()]
    );
}

#[test]
fn complete_request_passes_the_check() {
    assert_eq!(sample().check(), Ok(()));
    assert_eq!(
        sample()
            .with_memory_limit(Some(100_000_000))
            .with_cpu_limit(Some(50))
            .with_cgroup_path("restrict-4711".to_string())
            .check(),
        Ok(())
    );
}

#[test]
fn request_without_shell_is_turned_down() {
    assert_eq!(Restrict::new().check(), Err(ConfigError::EmptyShell));
    assert_eq!(
        Restrict::new().with_command("ls".to_string()).check(),
        Err(ConfigError::EmptyShell)
    );
}

#[test]
fn request_without_command_is_turned_down() {
    assert_eq!(
        Restrict::new().with_shell("/bin/sh".to_string()).check(),
        Err(ConfigError::EmptyCommand)
    );
}

#[test]
fn request_with_bad_group_is_turned_down() {
    for name in ["", ".", "..", "a/b", "/abs", "a\0b", "trailing/"] {
        assert_eq!(
            sample().with_cgroup_path(name.to_string()).check(),
            Err(ConfigError::InvalidScope),
            "{:?}",
            name
        );
    }
}

#[test]
fn request_with_too_large_ceiling_is_turned_down() {
    assert_eq!(
        sample().with_memory_limit(Some(u64::MAX)).check(),
        Err(ConfigError::MemoryTooLarge)
    );
    assert_eq!(
        sample().with_memory_limit(Some(i64::MAX as u64 + 1)).check(),
        Err(ConfigError::MemoryTooLarge)
    );
    assert_eq!(sample().with_memory_limit(Some(i64::MAX as u64)).check(), Ok(()));
}

#[test]
fn defects_are_found_in_order() {
    let r = Restrict::new()
        .with_cgroup_path("a/b".to_string())
        .with_memory_limit(Some(u64::MAX));
    assert_eq!(r.clone().check(), Err(ConfigError::EmptyShell));
    let r = r.with_shell("sh".to_string());
    assert_eq!(r.clone().check(), Err(ConfigError::EmptyCommand));
    let r = r.with_command("true".to_string());
    assert_eq!(r.clone().check(), Err(ConfigError::InvalidScope));
    let r = r.with_cgroup_path("ab".to_string());
    assert_eq!(r.clone().check(), Err(ConfigError::MemoryTooLarge));
    let r = r.with_memory_limit(Some(1));
    assert_eq!(r.check(), Ok(()));
}

#[test]
fn group_names_of_one_segment() {
    for name in ["restrict", "restrict-1", "a", "..a", "...", "a.b", ".hidden", "with space", "\u{e9}t\u{e9}"] {
        assert!(is_valid_scope_id(name), "{:?}", name);
    }
    for name in ["", ".", "..", "/", "a/b", "a/", "/a", "\0", "a\0"] {
        assert!(!is_valid_scope_id(name), "{:?}", name);
    }
}
