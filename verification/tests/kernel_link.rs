use luowm::ipc::KernelIpc;

#[test]
fn new_link_is_down() {
    let k = KernelIpc::new("/dev/ttyS0");
    assert!(!k.connected);
    assert_eq!(k.port, "/dev/ttyS0");
    assert!(k.get_output().is_empty());
}

#[test]
fn commands_fail_until_connected() {
    let mut k = KernelIpc::new("/dev/ttyS0");
    assert_eq!(k.send_command("ls"), "[IPC] Not connected");
    assert!(k.connect());
    assert!(k.connected);
    assert_eq!(k.send_command("ls"), "  readme.txt  (91 bytes)\n  motd.txt  (35 bytes)");
}

#[test]
fn known_replies() {
    let mut k = KernelIpc::new("p");
    k.connect();
    assert_eq!(
        k.send_command("meminfo"),
        "  Total: 1048576 bytes\n  Used: 4096 bytes\n  Free: 1044480 bytes"
    );
    assert_eq!(k.send_command("ps"), "  PID  NAME     STATE    TICKS\n  0    kernel   running  0");
    assert_eq!(k.send_command("uptime"), "  Uptime: 42 seconds");
    assert_eq!(k.send_command("version"), "  luo_os v1.0");
}

#[test]
fn unknown_commands_are_acknowledged() {
    let mut k = KernelIpc::new("p");
    k.connect();
    assert_eq!(k.send_command("cat readme.txt"), "  [kernel] ok: cat readme.txt");
    assert_eq!(k.send_command(""), "  [kernel] ok: ");
    assert_eq!(k.send_command("LS"), "  [kernel] ok: LS");
}

#[test]
fn output_buffer_is_copied() {
    let mut k = KernelIpc::new("p");
    k.output_buf.push("line".to_string());
    assert_eq!(k.get_output(), vec!["line".to_string()]);
}
