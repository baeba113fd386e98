//! What the daemon settles before it listens: whether it may, and where.

use vstd::prelude::*;

use crate::config::{
    is_loose, loose, path_within, Config, ConfigView, PRIVATE_DIR, PRIVATE_FILE,
};
use crate::provider::{entry, lookup, optional_text};
use crate::socket::{fallback_dir, DEFAULT_SOCK_NAME};
use crate::text::{
    decimal, decimal_text, fields, from_chars, holds, lemma_holds_itself, lemma_parts_hold, lines,
    numeral, parse_number, same, split_fields, split_lines, to_chars, views,
};

verus! {

/// Where the first segment of a path ends.
pub open spec fn segment_end(path: Seq<char>) -> nat
    decreases path.len(),
{
    if path.len() == 0 || path[0] == '/' {
        0
    } else {
        1 + segment_end(path.drop_first())
    }
}

proof fn lemma_segment_end(path: Seq<char>)
    ensures
        segment_end(path) <= path.len(),
    decreases path.len(),
{
    if path.len() > 0 && path[0] != '/' {
        lemma_segment_end(path.drop_first());
    }
}

/// The first segment of a path that names something: not empty, and not the dot
/// that stands for the directory itself.
pub open spec fn first_name(path: Seq<char>) -> Seq<char>
    decreases path.len() via first_name_shrinks
{
    let end = segment_end(path) as int;
    let segment = path.take(end);
    if (end == 0 || segment == "."@) && end < path.len() {
        first_name(path.skip(end + 1))
    } else {
        segment
    }
}

#[via_fn]
proof fn first_name_shrinks(path: Seq<char>) {
    lemma_segment_end(path);
}

/// Whether a path leads through `/tmp`, where anyone may make a directory.
pub open spec fn in_tmp(path: Seq<char>) -> bool {
    path.len() > 0 && path[0] == '/' && first_name(path.drop_first()) == "tmp"@
}

fn find_segment_end(path: &Vec<char>, from: usize) -> (end: usize)
    requires
        from <= path@.len(),
    ensures
        from <= end <= path@.len(),
        end - from == segment_end(path@.skip(from as int)),
{
    let mut end: usize = from;
    while end < path.len() && path[end] != '/'
        invariant
            from <= end <= path@.len(),
            end - from + segment_end(path@.skip(end as int)) == segment_end(
                path@.skip(from as int),
            ),
        decreases path@.len() - end,
    {
        assert(path@.skip(end as int).drop_first() =~= path@.skip(end + 1));
        end = end + 1;
    }
    end
}

/// Whether a path leads through `/tmp`, where anyone may make a directory.
pub fn is_in_tmp(path: &str) -> (b: bool)
    ensures
        b == in_tmp(path@),
{
    let chars = to_chars(path);
    let len: usize = chars.len();
    if len == 0 || chars[0] != '/' {
        return false;
    }
    let mut from: usize = 1;
    assert(chars@.skip(1) =~= path@.drop_first());
    loop
        invariant
            1 <= from <= len,
            len == chars@.len(),
            chars@ == path@,
            path@[0] == '/',
            first_name(chars@.skip(from as int)) == first_name(path@.drop_first()),
        decreases len - from,
    {
        let ghost rest = chars@.skip(from as int);
        let end = find_segment_end(&chars, from);
        let segment = from_chars(&chars, from, end);
        assert(segment@ =~= rest.take(end - from));
        if (end == from || same(segment.as_str(), ".")) && end < len {
            assert(rest.skip(end - from + 1) =~= chars@.skip(end + 1));
            from = end + 1;
        } else {
            return same(segment.as_str(), "tmp");
        }
    }
}

/// The fallback socket leads through `/tmp`, so its directory is always vetted.
pub proof fn the_fallback_socket_is_vetted(uid: nat)
    ensures
        in_tmp(path_within(fallback_dir(uid), DEFAULT_SOCK_NAME@)),
{
    reveal_strlit("/tmp/paperticker-");
    reveal_strlit("tmp");
    reveal_strlit(".");
    let path = path_within(fallback_dir(uid), DEFAULT_SOCK_NAME@);
    let rest = path.drop_first();
    assert(rest.len() >= 4 && rest[0] == 't' && rest[1] == 'm' && rest[2] == 'p' && rest[3]
        == '/');
    assert(segment_end(rest) == 3) by {
        let a = rest.drop_first();
        let b = a.drop_first();
        let c = b.drop_first();
        assert(a[0] == 'm' && b[0] == 'p' && c[0] == '/');
        assert(segment_end(c) == 0);
        assert(segment_end(b) == 1);
        assert(segment_end(a) == 2);
    }
    assert(rest.take(3) =~= "tmp"@);
    assert(rest.take(3).len() != "."@.len());
}

/// What is known of a directory, links not followed.
#[derive(Debug, Clone, Copy, PartialEq, Eq, Structural)]
pub struct DirFacts {
    pub symlink: bool,
    pub directory: bool,
    pub uid: u32,
    pub mode: u32,
}

/// Whether a directory may hold the socket.
#[derive(Debug, Clone)]
pub enum DirVerdict {
    /// As it is.
    Keep,
    /// Once others are shut out.
    Tighten,
    Refuse(String),
}

/// What is said of a directory that may not hold the socket of `uid`.
pub open spec fn dir_problem(dir: Seq<char>, facts: Option<DirFacts>, uid: u32) -> Option<Seq<char>> {
    match facts {
        None => Some("stat "@ + dir),
        Some(f) => if f.symlink || !f.directory {
            Some(dir + " exists but is not a real directory — refusing to bind inside it"@)
        } else if f.uid != uid {
            Some(
                dir + " is owned by uid "@ + decimal(f.uid as nat) + ", not "@ + decimal(uid as nat)
                    + " — refusing to bind inside it"@,
            )
        } else {
            None
        },
    }
}

/// Vets the directory the socket is about to be created in. In `/tmp` anyone
/// can make it first; a directory of someone else, or one that is only a link,
/// is refused, and one that lets others in is tightened. Without facts, the
/// directory could not be examined.
pub fn ensure_private_dir(dir: &str, facts: Option<DirFacts>, uid: u32) -> (verdict: DirVerdict)
    ensures
        match dir_problem(dir@, facts, uid) {
            Some(text) => verdict matches DirVerdict::Refuse(message) && message@ == text,
            None => if loose(facts->0.mode) {
                verdict is Tighten
            } else {
                verdict is Keep
            },
        },
{
    let f = match facts {
        Some(f) => f,
        None => return DirVerdict::Refuse("stat ".to_owned().concat(dir)),
    };
    if f.symlink || !f.directory {
        return DirVerdict::Refuse(
            dir.to_owned().concat(
                " exists but is not a real directory — refusing to bind inside it",
            ),
        );
    }
    if f.uid != uid {
        let mut message = dir.to_owned();
        message.append(" is owned by uid ");
        message.append(decimal_text(f.uid as u64).as_str());
        message.append(", not ");
        message.append(decimal_text(uid as u64).as_str());
        message.append(" — refusing to bind inside it");
        return DirVerdict::Refuse(message);
    }
    if is_loose(f.mode) {
        DirVerdict::Tighten
    } else {
        DirVerdict::Keep
    }
}

/// What is found where the socket belongs.
#[derive(Debug, Clone, Copy, PartialEq, Eq, Structural)]
pub enum Found {
    Nothing,
    /// A socket that nobody answers on.
    Stale,
    /// A socket that somebody answers on.
    Live,
}

/// Whether to listen.
#[derive(Debug, Clone)]
pub enum BindVerdict {
    Bind,
    /// After removing what a crashed daemon left behind.
    RemoveAndBind,
    Refuse(String),
}

/// What is said where another daemon listens, whose process may be known.
pub open spec fn occupied_text(path: Seq<char>, pid: Option<u32>) -> Seq<char> {
    let who = match pid {
        Some(pid) => " (PID "@ + decimal(pid as nat) + ")"@,
        None => seq![],
    };
    "another tickerd"@ + who + " is already listening on "@ + path
        + "\n\nOne daemon per user is by design — tickerc and tickerctl find it\non their own, so you usually don't need to start a second one.\n\nTo replace the running one (needed after upgrading, since the\ndaemon and clients share a wire protocol):\n\n    pkill tickerd && tickerd &"@
}

/// Whether to listen at `path`, given what is there and, if a daemon answers,
/// its process.
pub fn bind_verdict(path: &str, found: Found, pid: Option<u32>) -> (verdict: BindVerdict)
    ensures
        match found {
            Found::Nothing => verdict is Bind,
            Found::Stale => verdict is RemoveAndBind,
            Found::Live => verdict matches BindVerdict::Refuse(message) && message@
                == occupied_text(path@, pid),
        },
{
    match found {
        Found::Nothing => BindVerdict::Bind,
        Found::Stale => BindVerdict::RemoveAndBind,
        Found::Live => {
            let mut who = String::new();
            match pid {
                Some(pid) => {
                    who = " (PID ".to_owned();
                    who.append(decimal_text(pid as u64).as_str());
                    who.append(")");
                },
                None => {
                    assert(who@ =~= seq![]);
                },
            }
            let mut message = "another tickerd".to_owned();
            message.append(who.as_str());
            message.append(" is already listening on ");
            message.append(path);
            message.append(
                "\n\nOne daemon per user is by design — tickerc and tickerctl find it\non their own, so you usually don't need to start a second one.\n\nTo replace the running one (needed after upgrading, since the\ndaemon and clients share a wire protocol):\n\n    pkill tickerd && tickerd &",
            );
            BindVerdict::Refuse(message)
        },
    }
}

/// What to do next on the way to listening. The outcome is handed to the method
/// of [`BindRun`] named there.
#[derive(Debug, Clone)]
pub enum BindStep {
    /// Make a directory and those above it, with this mode, unless it is there;
    /// then [`BindRun::dir_made`].
    MakeDir { dir: String, mode: u32, run: BindRun },
    /// Examine a directory; then [`BindRun::inspected`].
    Inspect { dir: String, run: BindRun },
    /// Give a directory this mode; then [`BindRun::tightened`].
    Tighten { dir: String, mode: u32, run: BindRun },
    /// See what is where the socket belongs; then [`BindRun::probed`].
    Probe { run: BindRun },
    /// Remove what is there; then [`BindRun::removed`].
    Remove { run: BindRun },
    /// Create the socket; then [`BindRun::bound`].
    Bind { run: BindRun },
    /// Give the socket this mode; then [`BindRun::protected`].
    Protect { mode: u32, run: BindRun },
    /// Accept clients.
    Listen,
    /// Give up.
    Fail(String),
}

/// The way to listening at a path.
#[derive(Debug, Clone)]
pub struct BindRun {
    pub path: String,
    /// The directory that holds the socket.
    pub parent: Option<String>,
}

/// Whether it is given up with this message.
pub open spec fn fails(step: BindStep, message: Seq<char>) -> bool {
    step matches BindStep::Fail(m) && m@ == message
}

impl BindRun {
    /// What is done first, or after the directory is made: in `/tmp` the
    /// directory is examined before anything is created in it.
    pub open spec fn after_dir(self) -> BindStep {
        if in_tmp(self.path@) && self.parent is Some {
            BindStep::Inspect { dir: self.parent->0, run: self }
        } else {
            BindStep::Probe { run: self }
        }
    }

    /// Starts: the directory is made private where it has to be made.
    pub fn start(self) -> (step: BindStep)
        ensures
            match self.parent {
                Some(dir) => step == (BindStep::MakeDir { dir, mode: PRIVATE_DIR, run: self }),
                None => step == self.after_dir(),
            },
    {
        match &self.parent {
            Some(dir) => BindStep::MakeDir { dir: dir.clone(), mode: PRIVATE_DIR, run: self },
            None => self.dir_made(),
        }
    }

    /// Goes on once the directory is made, or was there.
    pub fn dir_made(self) -> (step: BindStep)
        ensures
            step == self.after_dir(),
    {
        if is_in_tmp(self.path.as_str()) {
            match &self.parent {
                Some(dir) => {
                    return BindStep::Inspect { dir: dir.clone(), run: self };
                },
                None => {},
            }
        }
        BindStep::Probe { run: self }
    }

    /// What follows once the directory is examined.
    pub open spec fn after_inspection(
        self,
        dir: Seq<char>,
        facts: Option<DirFacts>,
        uid: u32,
        step: BindStep,
    ) -> bool {
        match dir_problem(dir, facts, uid) {
            Some(message) => fails(step, message),
            None => if loose(facts->0.mode) {
                step matches BindStep::Tighten { dir: d, mode, run } && d@ == dir && mode
                    == PRIVATE_DIR && run == self
            } else {
                step == (BindStep::Probe { run: self })
            },
        }
    }

    /// Goes on from what is known of the directory.
    pub fn inspected(self, dir: &str, facts: Option<DirFacts>, uid: u32) -> (step: BindStep)
        ensures
            self.after_inspection(dir@, facts, uid, step),
    {
        match ensure_private_dir(dir, facts, uid) {
            DirVerdict::Keep => BindStep::Probe { run: self },
            DirVerdict::Tighten => BindStep::Tighten {
                dir: dir.to_owned(),
                mode: PRIVATE_DIR,
                run: self,
            },
            DirVerdict::Refuse(message) => BindStep::Fail(message),
        }
    }

    /// Goes on once the directory is tightened, or could not be.
    pub fn tightened(self, dir: &str, done: bool) -> (step: BindStep)
        ensures
            if done {
                step == (BindStep::Probe { run: self })
            } else {
                fails(step, "chmod "@ + dir@)
            },
    {
        if done {
            BindStep::Probe { run: self }
        } else {
            BindStep::Fail("chmod ".to_owned().concat(dir))
        }
    }

    /// Goes on from what is where the socket belongs.
    pub fn probed(self, found: Found, pid: Option<u32>) -> (step: BindStep)
        ensures
            match found {
                Found::Nothing => step == (BindStep::Bind { run: self }),
                Found::Stale => step == (BindStep::Remove { run: self }),
                Found::Live => fails(step, occupied_text(self.path@, pid)),
            },
    {
        match bind_verdict(self.path.as_str(), found, pid) {
            BindVerdict::Bind => BindStep::Bind { run: self },
            BindVerdict::RemoveAndBind => BindStep::Remove { run: self },
            BindVerdict::Refuse(message) => BindStep::Fail(message),
        }
    }

    /// Goes on once what was there is removed; where it could not be, creating
    /// the socket will tell.
    pub fn removed(self) -> (step: BindStep)
        ensures
            step == (BindStep::Bind { run: self }),
    {
        BindStep::Bind { run: self }
    }

    /// Goes on once the socket is created, or could not be.
    pub fn bound(self, done: bool) -> (step: BindStep)
        ensures
            if done {
                step == (BindStep::Protect { mode: PRIVATE_FILE, run: self })
            } else {
                fails(step, "binding "@ + self.path@)
            },
    {
        if done {
            BindStep::Protect { mode: PRIVATE_FILE, run: self }
        } else {
            BindStep::Fail("binding ".to_owned().concat(self.path.as_str()))
        }
    }

    /// Goes on once the socket is protected, or could not be.
    pub fn protected(self, done: bool) -> (step: BindStep)
        ensures
            if done {
                step is Listen
            } else {
                fails(step, "chmod "@ + self.path@)
            },
    {
        if done {
            BindStep::Listen
        } else {
            BindStep::Fail("chmod ".to_owned().concat(self.path.as_str()))
        }
    }
}

/// In `/tmp` nothing is created in a directory of another user, nor in one that
/// is only a link: the directory is examined before the socket's place is
/// looked at, and what follows is giving up unless the directory is a real one
/// of this user.
pub proof fn nothing_is_bound_in_a_directory_of_others(
    run: BindRun,
    dir: Seq<char>,
    facts: Option<DirFacts>,
    uid: u32,
    step: BindStep,
)
    requires
        in_tmp(run.path@),
        run.parent is Some,
        run.after_inspection(dir, facts, uid, step),
    ensures
        run.after_dir() is Inspect,
        step !is Fail ==> facts is Some && facts->0.directory && !facts->0.symlink && facts->0.uid
            == uid,
        step is Probe ==> !loose(facts->0.mode),
{
}

/// The inode that the first line names for the socket at `path`: of its
/// columns, the path is the eighth and the inode the one before.
pub open spec fn inode_in(rows: Seq<Seq<char>>, path: Seq<char>) -> Option<Seq<char>>
    decreases rows.len(),
{
    if rows.len() == 0 {
        None
    } else if fields(rows[0]).len() > 7 && fields(rows[0])[7] == path {
        Some(fields(rows[0])[6])
    } else {
        inode_in(rows.drop_first(), path)
    }
}

/// The inode of the socket at `path`, from the table of Unix sockets that
/// `/proc/net/unix` gives.
pub fn socket_inode(table: &str, path: &str) -> (inode: Option<String>)
    ensures
        optional_text(inode) == inode_in(lines(table@), path@),
{
    let rows = split_lines(table);
    let ghost all = views(rows@);
    let mut i: usize = 0;
    assert(all.skip(0) =~= all);
    while i < rows.len()
        invariant
            i <= rows@.len(),
            all == views(rows@),
            all == lines(table@),
            inode_in(all.skip(i as int), path@) == inode_in(all, path@),
        decreases rows@.len() - i,
    {
        assert(all.skip(i as int)[0] == rows@[i as int]@);
        let columns = split_fields(rows[i].as_str());
        assert(views(columns@).len() == columns@.len());
        if columns.len() > 7 {
            assert(views(columns@)[7] == columns@[7]@);
            assert(views(columns@)[6] == columns@[6]@);
            if same(columns[7].as_str(), path) {
                return Some(columns[6].clone());
            }
        }
        assert(all.skip(i as int).drop_first() =~= all.skip(i + 1));
        i = i + 1;
    }
    None
}

/// An entry of the process table: its name, and what its open files link to.
#[derive(Debug, Clone)]
pub struct Process {
    pub name: String,
    pub links: Vec<String>,
}

/// What an open file links to that is the socket with this inode.
pub open spec fn socket_link(inode: Seq<char>) -> Seq<char> {
    "socket:["@ + inode + "]"@
}

/// The process id that an entry has for its name, if it is another process
/// that holds the socket open.
pub open spec fn holder(p: Process, me: u32, inode: Seq<char>) -> Option<nat> {
    match numeral(p.name@) {
        Some(pid) => if pid <= u32::MAX && pid != me && views(p.links@).contains(
            socket_link(inode),
        ) {
            Some(pid)
        } else {
            None
        },
        None => None,
    }
}

/// The first process that holds the socket open.
pub open spec fn first_holder(procs: Seq<Process>, me: u32, inode: Seq<char>) -> Option<nat>
    decreases procs.len(),
{
    if procs.len() == 0 {
        None
    } else if holder(procs[0], me, inode) is Some {
        holder(procs[0], me, inode)
    } else {
        first_holder(procs.drop_first(), me, inode)
    }
}

fn links_to(links: &Vec<String>, target: &str) -> (b: bool)
    ensures
        b == views(links@).contains(target@),
{
    let mut i: usize = 0;
    while i < links.len()
        invariant
            i <= links@.len(),
            forall|k: int| 0 <= k < i ==> (#[trigger] views(links@)[k]) != target@,
        decreases links@.len() - i,
    {
        assert(views(links@)[i as int] == links@[i as int]@);
        if same(links[i].as_str(), target) {
            return true;
        }
        i = i + 1;
    }
    assert(views(links@).len() == links@.len());
    false
}

/// The process that listens on the socket with this inode, other than `me`:
/// who holds it open, not who has a likely name.
pub fn socket_listener_pid(procs: &Vec<Process>, me: u32, inode: &str) -> (pid: Option<u32>)
    ensures
        match first_holder(procs@, me, inode@) {
            Some(n) => pid is Some && pid->0 as nat == n,
            None => pid is None,
        },
{
    let mut target = "socket:[".to_owned();
    target.append(inode);
    target.append("]");
    let mut i: usize = 0;
    assert(procs@.skip(0) =~= procs@);
    while i < procs.len()
        invariant
            i <= procs@.len(),
            target@ == socket_link(inode@),
            first_holder(procs@.skip(i as int), me, inode@) == first_holder(procs@, me, inode@),
        decreases procs@.len() - i,
    {
        match parse_number(procs[i].name.as_str(), 0xffff_ffff) {
            Some(pid) => {
                if pid as u32 != me && links_to(&procs[i].links, target.as_str()) {
                    return Some(pid as u32);
                }
            },
            None => {},
        }
        assert(procs@.skip(i as int).drop_first() =~= procs@.skip(i + 1));
        i = i + 1;
    }
    None
}

/// How the daemon stands with its provider when it starts.
#[derive(Debug, Clone, Copy, PartialEq, Eq, Structural)]
pub enum Standing {
    /// Prices can be fetched.
    Ready,
    /// A provider is named that is not known.
    Unrecognized,
    /// The selected provider needs a key and has none.
    MissingKey,
    /// No provider is selected.
    Unselected,
}

/// How a configuration stands.
pub open spec fn standing_of(c: ConfigView) -> Standing {
    match c.provider {
        None => Standing::Unselected,
        Some(id) => if c.ready() {
            Standing::Ready
        } else if entry(id) is None {
            Standing::Unrecognized
        } else {
            Standing::MissingKey
        },
    }
}

/// How a configuration stands.
pub fn standing(config: &Config) -> (s: Standing)
    ensures
        s == standing_of(config@),
{
    match &config.provider {
        None => Standing::Unselected,
        Some(id) => if config.is_ready() {
            Standing::Ready
        } else if lookup(id.as_str()).is_none() {
            Standing::Unrecognized
        } else {
            Standing::MissingKey
        },
    }
}

/// The inode that is found stands before the path in the first line that names
/// it; where no line does, none is found.
pub proof fn inodes_stand_before_their_path(rows: Seq<Seq<char>>, path: Seq<char>)
    ensures
        inode_in(rows, path) matches Some(inode) ==> exists|i: int|
            0 <= i < rows.len() && fields(#[trigger] rows[i]).len() > 7 && fields(rows[i])[7]
                == path && fields(rows[i])[6] == inode && forall|j: int|
                0 <= j < i ==> !(fields(#[trigger] rows[j]).len() > 7 && fields(rows[j])[7]
                    == path),
        inode_in(rows, path) is None ==> forall|i: int|
            0 <= i < rows.len() ==> !(fields(#[trigger] rows[i]).len() > 7 && fields(rows[i])[7]
                == path),
    decreases rows.len(),
{
    if rows.len() > 0 {
        let rest = rows.drop_first();
        inodes_stand_before_their_path(rest, path);
        if fields(rows[0]).len() > 7 && fields(rows[0])[7] == path {
            assert(fields(rows[0])[6] == inode_in(rows, path)->0);
        } else if inode_in(rest, path) is Some {
            let k = choose|k: int|
                0 <= k < rest.len() && fields(#[trigger] rest[k]).len() > 7 && fields(rest[k])[7]
                    == path && fields(rest[k])[6] == inode_in(rest, path)->0 && forall|j: int|
                    0 <= j < k ==> !(fields(#[trigger] rest[j]).len() > 7 && fields(rest[j])[7]
                        == path);
            assert(rows[k + 1] == rest[k]);
            assert forall|j: int| 0 <= j < k + 1 implies !(fields(#[trigger] rows[j]).len() > 7
                && fields(rows[j])[7] == path) by {
                if j > 0 {
                    assert(rest[j - 1] == rows[j]);
                }
            }
        } else {
            assert forall|i: int| 0 <= i < rows.len() implies !(fields(
                #[trigger] rows[i],
            ).len() > 7 && fields(rows[i])[7] == path) by {
                if i > 0 {
                    assert(rest[i - 1] == rows[i]);
                }
            }
        }
    }
}

/// The process that is named holds the socket open and is not the one that
/// asks; none that comes before it does. Where none is named, none does.
pub proof fn listeners_hold_the_socket(procs: Seq<Process>, me: u32, inode: Seq<char>)
    ensures
        first_holder(procs, me, inode) matches Some(pid) ==> pid != me && exists|i: int|
            0 <= i < procs.len() && numeral((#[trigger] procs[i]).name@) == Some(pid) && views(
                procs[i].links@,
            ).contains("socket:["@ + inode + "]"@),
        first_holder(procs, me, inode) is None ==> forall|i: int|
            0 <= i < procs.len() && numeral((#[trigger] procs[i]).name@) is Some && numeral(
                procs[i].name@,
            )->0 <= u32::MAX && numeral(procs[i].name@)->0 != me ==> !views(
                procs[i].links@,
            ).contains("socket:["@ + inode + "]"@),
    decreases procs.len(),
{
    if procs.len() > 0 {
        let rest = procs.drop_first();
        listeners_hold_the_socket(rest, me, inode);
        if holder(procs[0], me, inode) is Some {
            assert(numeral(procs[0].name@) == holder(procs[0], me, inode));
        } else if first_holder(rest, me, inode) is Some {
            let k = choose|k: int|
                0 <= k < rest.len() && numeral((#[trigger] rest[k]).name@) == first_holder(
                    rest,
                    me,
                    inode,
                ) && views(rest[k].links@).contains("socket:["@ + inode + "]"@);
            assert(procs[k + 1] == rest[k]);
        } else {
            assert forall|i: int|
                0 <= i < procs.len() && numeral((#[trigger] procs[i]).name@) is Some && numeral(
                    procs[i].name@,
                )->0 <= u32::MAX && numeral(procs[i].name@)->0 != me implies !views(
                procs[i].links@,
            ).contains("socket:["@ + inode + "]"@) by {
                if i > 0 {
                    assert(rest[i - 1] == procs[i]);
                }
            }
        }
    }
}

/// A directory is used only where it is a real one of this user's, and as it is
/// only where its mode lets nobody else in. A refusal names the directory.
pub proof fn directories_are_vetted(
    dir: &str,
    facts: Option<DirFacts>,
    uid: u32,
    verdict: DirVerdict,
)
    requires
        call_ensures(ensure_private_dir, (dir, facts, uid), verdict),
    ensures
        verdict !is Refuse <==> facts is Some && facts->0.directory && !facts->0.symlink
            && facts->0.uid == uid,
        verdict is Keep ==> facts->0.mode % 64 == 0,
        verdict is Tighten ==> facts->0.mode % 64 != 0,
        verdict matches DirVerdict::Refuse(message) ==> holds(message@, dir@),
{
    broadcast use {lemma_parts_hold, lemma_holds_itself};

}

/// Of two daemons the second gives way: a socket that answers is left alone,
/// one that does not is removed, and the refusal names the socket and the
/// process where that is known.
pub proof fn live_sockets_are_left_alone(
    path: &str,
    found: Found,
    pid: Option<u32>,
    verdict: BindVerdict,
)
    requires
        call_ensures(bind_verdict, (path, found, pid), verdict),
    ensures
        verdict is Refuse <==> found is Live,
        verdict is RemoveAndBind <==> found is Stale,
        verdict is Bind <==> found is Nothing,
        verdict matches BindVerdict::Refuse(message) ==> holds(message@, path@) && (pid is Some
            ==> holds(message@, decimal(pid->0 as nat))),
{
    broadcast use {lemma_parts_hold, lemma_holds_itself};

}

/// The laws on sockets and their listeners hold of what is computed.
pub proof fn laws_hold_of_what_listens(
    table: &str,
    path: &str,
    inode: Option<String>,
    procs: &Vec<Process>,
    me: u32,
    socket: &str,
    pid: Option<u32>,
)
    ensures
        call_ensures(socket_inode, (table, path), inode) ==> optional_text(inode) == inode_in(
            lines(table@),
            path@,
        ),
        call_ensures(socket_listener_pid, (procs, me, socket), pid) ==> match first_holder(
            procs@,
            me,
            socket@,
        ) {
            Some(n) => pid is Some && pid->0 as nat == n,
            None => pid is None,
        },
{
}

} // verus!
