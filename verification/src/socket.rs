//! Where the daemon listens.

use vstd::prelude::*;

use crate::config::{join_path, optional_str, path_within};
use crate::text::{
    begins_with, decimal, decimal_text, fields, lines, numeral, parse_number, split_fields,
    split_lines, starts_with, views,
};

verus! {

/// The name of the socket.
pub const DEFAULT_SOCK_NAME: &'static str = "ticker-follow.sock";

/// The first line that begins with `Uid:`.
pub open spec fn uid_line(rows: Seq<Seq<char>>) -> Option<Seq<char>>
    decreases rows.len(),
{
    if rows.len() == 0 {
        None
    } else if begins_with(rows[0], "Uid:"@) {
        Some(rows[0])
    } else {
        uid_line(rows.drop_first())
    }
}

/// The number in the second column of a line.
pub open spec fn second_column(line: Seq<char>) -> Option<nat> {
    if fields(line).len() > 1 {
        numeral(fields(line)[1])
    } else {
        None
    }
}

/// The real uid that a process status names, or 0 where it names none.
pub open spec fn uid_in(status: Option<Seq<char>>) -> nat {
    match status {
        None => 0,
        Some(text) => match uid_line(lines(text)) {
            None => 0,
            Some(line) => match second_column(line) {
                Some(n) => if n <= u32::MAX {
                    n
                } else {
                    0
                },
                None => 0,
            },
        },
    }
}

/// The real uid of the process whose status this is, as `/proc/self/status`
/// gives it; 0 where the status could not be read or names none.
pub fn current_uid(status: Option<&str>) -> (uid: u32)
    ensures
        uid as nat == uid_in(optional_str(status)),
{
    let text = match status {
        Some(text) => text,
        None => return 0,
    };
    let rows = split_lines(text);
    let ghost all = views(rows@);
    let mut i: usize = 0;
    assert(all.skip(0) =~= all);
    while i < rows.len()
        invariant
            i <= rows@.len(),
            all == views(rows@),
            all == lines(text@),
            optional_str(status) == Some(text@),
            uid_line(all.skip(i as int)) == uid_line(all),
        decreases rows@.len() - i,
    {
        assert(all.skip(i as int)[0] == rows@[i as int]@);
        if starts_with(rows[i].as_str(), "Uid:") {
            let columns = split_fields(rows[i].as_str());
            if columns.len() > 1 {
                assert(views(columns@)[1] == columns@[1]@);
                return match parse_number(columns[1].as_str(), 0xffff_ffff) {
                    Some(n) => n as u32,
                    None => 0,
                };
            }
            assert(views(columns@).len() == columns@.len());
            return 0;
        }
        assert(all.skip(i as int).drop_first() =~= all.skip(i + 1));
        i = i + 1;
    }
    0
}

/// The private directory of the socket of a user.
pub open spec fn fallback_dir(uid: nat) -> Seq<char> {
    "/tmp/paperticker-"@ + decimal(uid)
}

/// The private directory of the socket where `XDG_RUNTIME_DIR` is not set.
pub fn default_socket_fallback_dir(uid: u32) -> (dir: String)
    ensures
        dir@ == fallback_dir(uid as nat),
{
    let mut dir = "/tmp/paperticker-".to_owned();
    dir.append(decimal_text(uid as u64).as_str());
    dir
}

/// The path of the socket, from the value of `XDG_RUNTIME_DIR` and the uid.
pub fn default_socket_path(xdg_runtime_dir: Option<&str>, uid: u32) -> (path: String)
    ensures
        path@ == match xdg_runtime_dir {
            Some(dir) => path_within(dir@, DEFAULT_SOCK_NAME@),
            None => path_within(fallback_dir(uid as nat), DEFAULT_SOCK_NAME@),
        },
{
    match xdg_runtime_dir {
        Some(dir) => join_path(dir, DEFAULT_SOCK_NAME),
        None => {
            let dir = default_socket_fallback_dir(uid);
            join_path(dir.as_str(), DEFAULT_SOCK_NAME)
        },
    }
}

} // verus!
