//! The link to the luo_os kernel: shell commands go out, their output comes back.
//! The link is simulated: each known command has a fixed reply.
use vstd::prelude::*;
use crate::text::{str_eq, strings_view};
use vstd::string::StringExecFns;

verus! {

#[derive(Debug)]
pub struct KernelIpc {
    pub connected: bool,
    pub port: String,
    pub output_buf: Vec<String>,
}

/// What the kernel answers to `cmd`.
pub open spec fn kernel_reply(connected: bool, cmd: Seq<char>) -> Seq<char> {
    if !connected {
        "[IPC] Not connected"@
    } else if cmd == "ls"@ {
        "  readme.txt  (91 bytes)\n  motd.txt  (35 bytes)"@
    } else if cmd == "meminfo"@ {
        "  Total: 1048576 bytes\n  Used: 4096 bytes\n  Free: 1044480 bytes"@
    } else if cmd == "ps"@ {
        "  PID  NAME     STATE    TICKS\n  0    kernel   running  0"@
    } else if cmd == "uptime"@ {
        "  Uptime: 42 seconds"@
    } else if cmd == "version"@ {
        "  luo_os v1.0"@
    } else {
        "  [kernel] ok: "@ + cmd
    }
}

impl KernelIpc {
    pub fn new(port: &str) -> (k: Self)
        ensures
            !k.connected,
            k.port@ == port@,
            k.output_buf@.len() == 0,
    {
        Self { connected: false, port: port.to_owned(), output_buf: Vec::new() }
    }

    /// Marks the link as up; the simulated link always comes up.
    pub fn connect(&mut self) -> (ok: bool)
        ensures
            ok,
            final(self).connected,
            final(self).port == old(self).port,
            final(self).output_buf == old(self).output_buf,
    {
        self.connected = true;
        true
    }

    /// The kernel's reply to the shell command `cmd`.
    pub fn send_command(&self, cmd: &str) -> (out: String)
        ensures
            out@ == kernel_reply(self.connected, cmd@),
    {
        if !self.connected {
            return "[IPC] Not connected".to_owned();
        }
        if str_eq(cmd, "ls") {
            "  readme.txt  (91 bytes)\n  motd.txt  (35 bytes)".to_owned()
        } else if str_eq(cmd, "meminfo") {
            "  Total: 1048576 bytes\n  Used: 4096 bytes\n  Free: 1044480 bytes".to_owned()
        } else if str_eq(cmd, "ps") {
            "  PID  NAME     STATE    TICKS\n  0    kernel   running  0".to_owned()
        } else if str_eq(cmd, "uptime") {
            "  Uptime: 42 seconds".to_owned()
        } else if str_eq(cmd, "version") {
            "  luo_os v1.0".to_owned()
        } else {
            let mut out = "  [kernel] ok: ".to_owned();
            out.append(cmd);
            out
        }
    }

    /// A copy of the output collected so far.
    pub fn get_output(&self) -> (out: Vec<String>)
        ensures
            strings_view(out@) == strings_view(self.output_buf@),
    {
        let out = self.output_buf.clone();
        assert(strings_view(out@) =~= strings_view(self.output_buf@));
        out
    }
}

} // verus!
