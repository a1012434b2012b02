use vstd::prelude::*;

use crate::paths::{join_text, path_join};
use crate::text::to_chars;

verus! {

/// The exit status after a failed or abandoned session.
pub const EXIT_FAILURE: i32 = 1;

/// The exit status when the application cannot start.
pub const EXIT_STARTUP: i32 = 2;

/// The exit status after a cancelled export.
pub const EXIT_CANCELLED: i32 = 130;

/// The three exit statuses are distinct and none of them is success.
pub proof fn exit_codes_distinct()
    ensures
        EXIT_FAILURE != EXIT_STARTUP,
        EXIT_CANCELLED != EXIT_STARTUP,
        EXIT_CANCELLED != EXIT_FAILURE,
        EXIT_FAILURE != 0 && EXIT_STARTUP != 0 && EXIT_CANCELLED != 0,
{
}

/// The Wayland socket to check before anything starts: `WAYLAND_DISPLAY`
/// itself when it is an absolute path, else that name inside
/// `XDG_RUNTIME_DIR`. The editor refuses to start without either.
pub open spec fn wayland_socket_of(display: Option<Seq<char>>, runtime_dir: Option<Seq<char>>) -> Result<Seq<char>, Seq<char>> {
    match display {
        None => Err("WAYLAND_DISPLAY is not set; video-trimmer requires a native Wayland session"@),
        Some(d) => if d.len() > 0 && d[0] == '/' {
            Ok(d)
        } else {
            match runtime_dir {
                None => Err("XDG_RUNTIME_DIR is not set; cannot locate Wayland display"@),
                Some(r) => Ok(join_text(r, d)),
            }
        },
    }
}

/// The Wayland socket is `WAYLAND_DISPLAY` itself when it is an absolute
/// path, else that name inside `XDG_RUNTIME_DIR`; without a display, or
/// with a relative one and no runtime directory, the editor does not start.
pub proof fn wayland_socket_location(d: Seq<char>, r: Seq<char>)
    ensures
        wayland_socket_of(None, Some(r)) is Err,
        wayland_socket_of(None, None) is Err,
        d.len() > 0 && d[0] == '/' ==> wayland_socket_of(Some(d), Some(r)) == Ok::<Seq<char>, Seq<char>>(d)
            && wayland_socket_of(Some(d), None) == Ok::<Seq<char>, Seq<char>>(d),
        d.len() > 0 && d[0] != '/' ==> wayland_socket_of(Some(d), None) is Err,
        d.len() > 0 && d[0] != '/' && r.len() > 0 && r.last() != '/' ==> wayland_socket_of(Some(d), Some(r))
            == Ok::<Seq<char>, Seq<char>>(r + seq!['/'] + d),
{
}

pub fn wayland_socket(display: Option<&str>, runtime_dir: Option<&str>) -> (r: Result<String, String>)
    ensures
        match (r, wayland_socket_of(
            match display {
                Some(d) => Some(d@),
                None => None,
            },
            match runtime_dir {
                Some(d) => Some(d@),
                None => None,
            },
        )) {
            (Ok(s), Ok(t)) => s@ == t,
            (Err(e), Err(t)) => e@ == t,
            _ => false,
        },
{
    let d = match display {
        None => {
            return Err(String::from_str("WAYLAND_DISPLAY is not set; video-trimmer requires a native Wayland session"));
        },
        Some(d) => d,
    };
    let dc = to_chars(d);
    if dc.len() > 0 && dc[0] == '/' {
        return Ok(String::from_str(d));
    }
    match runtime_dir {
        None => Err(String::from_str("XDG_RUNTIME_DIR is not set; cannot locate Wayland display")),
        Some(r) => Ok(path_join(r, d)),
    }
}

} // verus!
