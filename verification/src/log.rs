use vstd::prelude::*;

use crate::path::{below, join_path};

verus! {

/// Where a server logs.
pub const SERVER_LOG_DIR: &'static str = "/var/log/vitro";

/// The file that is written to learn whether a directory can be.
pub const WRITE_TEST: &'static str = ".write-test";

/// The name of the log.
pub const LOG_FILE: &'static str = "vitro.log";

/// The log directory: that of a server, where it is there and can be written,
/// else one below the user's home, which is made.
pub fn log_dir(server_dir_writable: bool, home: Option<&str>) -> (r: String)
    ensures
        r@ == if server_dir_writable {
            SERVER_LOG_DIR@
        } else {
            below(
                match home {
                    Some(h) => h@,
                    None => "/tmp"@,
                },
                ".local/share/vitro"@,
            )
        },
{
    if server_dir_writable {
        SERVER_LOG_DIR.to_string()
    } else {
        let h = match home {
            Some(h) => h,
            None => "/tmp",
        };
        join_path(h, ".local/share/vitro")
    }
}

} // verus!
