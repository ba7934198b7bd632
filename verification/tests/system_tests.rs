use grease::native_system::{pipe_command, process_status, redirect_command, timeout_command, ProcessResult};

#[test]
fn shell_command_lines() {
    assert_eq!(pipe_command("ls", "wc -l"), "ls | wc -l");
    assert_eq!(redirect_command("make", "out.txt", None), "make > out.txt");
    assert_eq!(redirect_command("make", "out.txt", Some("err.txt")), "make > out.txt 2> err.txt");
    assert_eq!(timeout_command(5, "sleep 9", false), "timeout 5s sleep 9");
    assert_eq!(timeout_command(30, "ping x", true), "timeout 30 ping x");
    assert_eq!(timeout_command(u64::MAX, "x", false), format!("timeout {}s x", u64::MAX));
}

#[test]
fn process_results_and_status() {
    let r = ProcessResult::new(0, "hi".to_string(), String::new());
    assert!(r.success);
    assert!(r.pid.is_none());
    assert!(!ProcessResult::new(2, String::new(), String::new()).success);
    assert_eq!(process_status(true), "running");
    assert_eq!(process_status(false), "not_found");
}
