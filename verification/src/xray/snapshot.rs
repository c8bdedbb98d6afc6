//! Snapshots of the Xray server kept on the host: the config files, the
//! keys and the binary, under `/data/projects/xray-backup/<tag>/`, and the
//! upgrade of Xray that takes one first.

use vstd::prelude::*;

use crate::b64::{b64_decode_error, decode_base64};
use crate::error::AppError;
use crate::ssh::{combined, CommandOutput};
use crate::steps::{next_is, xray_about, Next, Target, Want};
use crate::text::{
    contains_seq, contains_text, new_string, owned, parse_u64, parse_u64_of, push_str, second_word,
    split_chars, split_on, trim, trim_str, ws_words, chars_of, char_is_ws, is_ws,
};

verus! {

/// Host directory of the snapshots (outside the container).
pub const SNAPSHOT_HOST_DIR: &'static str = "/data/projects/xray-backup";

/// Config directory inside the Xray container.
pub const XRAY_CONFIG_DIR: &'static str = "/opt/amnezia/xray";

/// The command that names a new snapshot after the host's clock.
pub const DATE_COMMAND: &'static str = "date +%Y%m%d-%H%M%S";

/// The command that prints the first line of `xray version` in the
/// container, errors discarded.
pub const QUIET_VERSION_COMMAND: &'static str = "sh -c 'xray version 2>/dev/null | head -1'";

/// The command that prints the first line of `xray version` in the
/// container, errors included.
pub const VERSION_COMMAND: &'static str = "sh -c 'xray version 2>&1 | head -1'";

/// The command that asks GitHub for the tag of the latest Xray release.
pub const LATEST_VERSION_COMMAND: &'static str = "curl -sf --max-time 10 https://api.github.com/repos/XTLS/Xray-core/releases/latest | grep tag_name | cut -d'\"' -f4 | tr -d 'v'";

/// Number of config files a snapshot holds.
pub const SNAPSHOT_FILE_COUNT: usize = 6;

/// A snapshot: its tag, the Xray version it holds and its number of users.
#[derive(Debug, Clone)]
pub struct SnapshotInfo {
    pub tag: String,
    pub version: String,
    pub users_count: usize,
}

/// What an upgrade did.
#[derive(Debug, Clone)]
pub struct UpgradeResult {
    pub old_version: String,
    pub new_version: String,
    pub snapshot_tag: String,
}

/// The config files a snapshot holds, by index.
pub open spec fn snapshot_file(i: int) -> Seq<char> {
    if i == 0 {
        "server.json"@
    } else if i == 1 {
        "clientsTable"@
    } else if i == 2 {
        "xray_private.key"@
    } else if i == 3 {
        "xray_public.key"@
    } else if i == 4 {
        "xray_short_id.key"@
    } else {
        "xray_uuid.key"@
    }
}

fn snapshot_file_name(i: usize) -> (r: &'static str)
    requires
        i < SNAPSHOT_FILE_COUNT,
    ensures
        r@ == snapshot_file(i as int),
{
    if i == 0 {
        "server.json"
    } else if i == 1 {
        "clientsTable"
    } else if i == 2 {
        "xray_private.key"
    } else if i == 3 {
        "xray_public.key"
    } else if i == 4 {
        "xray_short_id.key"
    } else {
        "xray_uuid.key"
    }
}

/// The directory of a snapshot on the host.
pub open spec fn snapshot_dir(tag: Seq<char>) -> Seq<char> {
    SNAPSHOT_HOST_DIR@ + "/"@ + tag
}

pub fn snapshot_path(tag: &str) -> (r: String)
    ensures
        r@ == snapshot_dir(tag@),
{
    let mut s = owned(SNAPSHOT_HOST_DIR);
    push_str(&mut s, "/");
    push_str(&mut s, tag);
    s
}

/// `a` followed by `b`.
fn cat2(a: &str, b: &str) -> (r: String)
    ensures
        r@ == a@ + b@,
{
    let mut s = owned(a);
    push_str(&mut s, b);
    s
}

/// The second word of a line of `xray version` (`Xray 1.8.4 (...)` gives
/// `1.8.4`), or `fallback` where it has none.
pub open spec fn word_or(line: Seq<char>, fallback: Seq<char>) -> Seq<char> {
    if ws_words(line).len() > 1 {
        ws_words(line)[1]
    } else {
        fallback
    }
}

pub fn version_word(line: &str) -> (r: String)
    ensures
        r@ == word_or(line@, "unknown"@),
{
    match second_word(line) {
        Some(w) => w,
        None => owned("unknown"),
    }
}

/// What `s.parse::<usize>()` accepts.
pub open spec fn parse_usize_of(s: Seq<char>) -> Option<usize> {
    match parse_u64_of(s) {
        Some(n) => if n <= usize::MAX {
            Some(n as usize)
        } else {
            None
        },
        None => None,
    }
}

pub fn parse_usize(s: &str) -> (r: Option<usize>)
    ensures
        r == parse_usize_of(s@),
{
    match parse_u64(s) {
        Some(n) => if n <= usize::MAX as u64 {
            Some(n as usize)
        } else {
            None
        },
        None => None,
    }
}

/// The count a command printed, 0 where it printed none or did not run.
pub open spec fn count_of(ev: Result<CommandOutput, AppError>) -> usize {
    match ev {
        Ok(o) => match parse_usize_of(trim(o.stdout@)) {
            Some(n) => n,
            None => 0,
        },
        Err(_) => 0,
    }
}

fn count_from(ev: &Result<CommandOutput, AppError>) -> (r: usize)
    ensures
        r == count_of(*ev),
{
    match ev {
        Ok(o) => match parse_usize(trim_str(o.stdout.as_str()).as_str()) {
            Some(n) => n,
            None => 0,
        },
        Err(_) => 0,
    }
}

/// The trimmed output of a command, `unknown` where it did not run.
pub open spec fn line_of(ev: Result<CommandOutput, AppError>) -> Seq<char> {
    match ev {
        Ok(o) => trim(o.stdout@),
        Err(_) => "unknown"@,
    }
}

fn line_from(ev: &Result<CommandOutput, AppError>) -> (r: String)
    ensures
        r@ == line_of(*ev),
{
    match ev {
        Ok(o) => trim_str(o.stdout.as_str()),
        Err(_) => owned("unknown"),
    }
}

// ---- commands -------------------------------------------------------------

/// Copies a config file of the container into a snapshot.
pub open spec fn copy_out_cmd(container: Seq<char>, tag: Seq<char>, i: int) -> Seq<char> {
    "docker cp "@ + container + ":"@ + XRAY_CONFIG_DIR@ + "/"@ + snapshot_file(i) + " "@ + snapshot_dir(tag)
        + "/"@ + snapshot_file(i) + " 2>/dev/null; true"@
}

/// Copies a config file of a snapshot into the container.
pub open spec fn copy_in_cmd(container: Seq<char>, tag: Seq<char>, i: int) -> Seq<char> {
    "docker cp "@ + snapshot_dir(tag) + "/"@ + snapshot_file(i) + " "@ + container + ":"@ + XRAY_CONFIG_DIR@
        + "/"@ + snapshot_file(i) + " 2>/dev/null; true"@
}

fn copy_command(container: &str, tag: &str, i: usize, outward: bool) -> (r: String)
    requires
        i < SNAPSHOT_FILE_COUNT,
    ensures
        r@ == if outward {
            copy_out_cmd(container@, tag@, i as int)
        } else {
            copy_in_cmd(container@, tag@, i as int)
        },
{
    let file = snapshot_file_name(i);
    let path = snapshot_path(tag);
    let mut inside = owned(container);
    push_str(&mut inside, ":");
    push_str(&mut inside, XRAY_CONFIG_DIR);
    push_str(&mut inside, "/");
    push_str(&mut inside, file);
    let mut outside = owned(path.as_str());
    push_str(&mut outside, "/");
    push_str(&mut outside, file);
    let mut s = owned("docker cp ");
    if outward {
        push_str(&mut s, inside.as_str());
        push_str(&mut s, " ");
        push_str(&mut s, outside.as_str());
    } else {
        push_str(&mut s, outside.as_str());
        push_str(&mut s, " ");
        push_str(&mut s, inside.as_str());
    }
    push_str(&mut s, " 2>/dev/null; true");
    s
}

/// Copies the Xray binary of the container into a snapshot.
pub open spec fn binary_out_cmd(container: Seq<char>, tag: Seq<char>) -> Seq<char> {
    "docker cp "@ + container + ":/usr/bin/xray "@ + snapshot_dir(tag) + "/xray && echo OK"@
}

/// Copies the Xray binary of a snapshot into the container and makes it
/// executable.
pub open spec fn binary_in_cmd(container: Seq<char>, tag: Seq<char>) -> Seq<char> {
    "docker cp "@ + snapshot_dir(tag) + "/xray "@ + container + ":/usr/bin/xray && docker exec "@ + container
        + " chmod +x /usr/bin/xray && echo OK"@
}

/// Records the version line in a snapshot.
pub open spec fn save_version_cmd(line: Seq<char>, tag: Seq<char>) -> Seq<char> {
    "echo '"@ + line + "' > "@ + snapshot_dir(tag) + "/xray_version.txt"@
}

/// Counts the users of a snapshot.
pub open spec fn count_users_cmd(tag: Seq<char>) -> Seq<char> {
    "grep -c 'clientName' "@ + snapshot_dir(tag) + "/clientsTable 2>/dev/null || echo 0"@
}

/// Checks that a snapshot exists.
pub open spec fn exists_cmd(tag: Seq<char>) -> Seq<char> {
    "test -d "@ + snapshot_dir(tag) + " && echo OK"@
}

/// Restarts the container.
pub open spec fn restart_cmd(container: Seq<char>) -> Seq<char> {
    "docker restart "@ + container + " 2>&1"@
}

fn binary_command(container: &str, tag: &str, outward: bool) -> (r: String)
    ensures
        r@ == if outward {
            binary_out_cmd(container@, tag@)
        } else {
            binary_in_cmd(container@, tag@)
        },
{
    let path = snapshot_path(tag);
    let mut s = owned("docker cp ");
    if outward {
        push_str(&mut s, container);
        push_str(&mut s, ":/usr/bin/xray ");
        push_str(&mut s, path.as_str());
        push_str(&mut s, "/xray && echo OK");
    } else {
        push_str(&mut s, path.as_str());
        push_str(&mut s, "/xray ");
        push_str(&mut s, container);
        push_str(&mut s, ":/usr/bin/xray && docker exec ");
        push_str(&mut s, container);
        push_str(&mut s, " chmod +x /usr/bin/xray && echo OK");
    }
    s
}

fn save_version_command(line: &str, tag: &str) -> (r: String)
    ensures
        r@ == save_version_cmd(line@, tag@),
{
    let mut s = owned("echo '");
    push_str(&mut s, line);
    push_str(&mut s, "' > ");
    push_str(&mut s, snapshot_path(tag).as_str());
    push_str(&mut s, "/xray_version.txt");
    s
}

fn count_users_command(tag: &str) -> (r: String)
    ensures
        r@ == count_users_cmd(tag@),
{
    let mut s = owned("grep -c 'clientName' ");
    push_str(&mut s, snapshot_path(tag).as_str());
    push_str(&mut s, "/clientsTable 2>/dev/null || echo 0");
    s
}

fn exists_command(tag: &str) -> (r: String)
    ensures
        r@ == exists_cmd(tag@),
{
    let mut s = owned("test -d ");
    push_str(&mut s, snapshot_path(tag).as_str());
    push_str(&mut s, " && echo OK");
    s
}

fn restart_command(container: &str) -> (r: String)
    ensures
        r@ == restart_cmd(container@),
{
    let mut s = owned("docker restart ");
    push_str(&mut s, container);
    push_str(&mut s, " 2>&1");
    s
}

// ---- taking a snapshot -----------------------------------------------------

/// How far the taking of a snapshot has got: the command whose outcome it
/// waits for.
#[derive(Debug, Clone, Copy, PartialEq, Eq)]
pub enum CreateStage {
    /// The host's clock, read for the tag.
    Tag,
    /// The creation of the snapshot's directory.
    MkDir,
    /// The copy of the config file of this index.
    Copy(usize),
    /// The copy of the Xray binary.
    Binary,
    /// The version line of Xray in the container.
    Version,
    /// The recording of that line in the snapshot.
    SaveVersion,
    /// The count of the users in the snapshot.
    Count,
    /// Nothing: the procedure is over.
    Finished,
}

/// The taking of a snapshot of a container's config files and binary onto
/// the host.
#[derive(Debug)]
pub struct CreateSnapshot {
    pub container: String,
    pub stage: CreateStage,
    pub tag: String,
    pub version_line: String,
    pub version: String,
    pub users_count: usize,
}

/// What the taking of a snapshot has gathered.
pub struct CreateV {
    pub stage: CreateStage,
    pub tag: Seq<char>,
    pub line: Seq<char>,
    pub version: Seq<char>,
    pub users: usize,
}

pub open spec fn create_view(m: CreateSnapshot) -> CreateV {
    CreateV { stage: m.stage, tag: m.tag@, line: m.version_line@, version: m.version@, users: m.users_count }
}

/// One step of taking a snapshot of container `c`: where it goes from `v`
/// once the last command came back as `ev`, and what it asks for.
/// A command that could not run stops it with that error, except the
/// version and count queries, which fall back to `unknown` and 0.
pub open spec fn create_next(c: Seq<char>, v: CreateV, ev: Result<CommandOutput, AppError>) -> (CreateV, Want) {
    let fin = CreateV { stage: CreateStage::Finished, ..v };
    match v.stage {
        CreateStage::Tag => match ev {
            Err(e) => (fin, Want::Pass(e)),
            Ok(o) => {
                let t = trim(o.stdout@);
                if t.len() == 0 {
                    (fin, Want::Xray("failed to generate snapshot tag"@))
                } else {
                    (CreateV { stage: CreateStage::MkDir, tag: t, ..v }, Want::Run(Target::Host, "mkdir -p "@ + snapshot_dir(t)))
                }
            },
        },
        CreateStage::MkDir => match ev {
            Err(e) => (fin, Want::Pass(e)),
            Ok(_) => (CreateV { stage: CreateStage::Copy(0), ..v }, Want::Run(Target::Host, copy_out_cmd(c, v.tag, 0))),
        },
        CreateStage::Copy(i) => match ev {
            Err(e) => (fin, Want::Pass(e)),
            Ok(_) => if i + 1 < SNAPSHOT_FILE_COUNT {
                (CreateV { stage: CreateStage::Copy((i + 1) as usize), ..v }, Want::Run(Target::Host, copy_out_cmd(c, v.tag, i + 1)))
            } else {
                (CreateV { stage: CreateStage::Binary, ..v }, Want::Run(Target::Host, binary_out_cmd(c, v.tag)))
            },
        },
        CreateStage::Binary => match ev {
            Err(e) => (fin, Want::Pass(e)),
            Ok(o) => if contains_seq(o.stdout@, "OK"@) {
                (CreateV { stage: CreateStage::Version, ..v }, Want::Run(Target::Container, QUIET_VERSION_COMMAND@))
            } else {
                (fin, Want::Xray("failed to copy xray binary: "@ + trim(o.stderr@)))
            },
        },
        CreateStage::Version => {
            let line = line_of(ev);
            (CreateV { stage: CreateStage::SaveVersion, line: line, ..v }, Want::Run(Target::Host, save_version_cmd(line, v.tag)))
        },
        CreateStage::SaveVersion => match ev {
            Err(e) => (fin, Want::Pass(e)),
            Ok(_) => (
                CreateV { stage: CreateStage::Count, version: word_or(v.line, "unknown"@), ..v },
                Want::Run(Target::Host, count_users_cmd(v.tag)),
            ),
        },
        CreateStage::Count => (CreateV { stage: CreateStage::Finished, users: count_of(ev), ..v }, Want::Finish),
        CreateStage::Finished => (v, Want::Finish),
    }
}

/// Whether a stage is one a procedure can be in.
pub open spec fn create_stage_ok(st: CreateStage) -> bool {
    st matches CreateStage::Copy(i) ==> i < SNAPSHOT_FILE_COUNT
}

impl CreateSnapshot {
    /// Starts taking a snapshot of `container`: first the host's clock is
    /// read for the tag.
    pub fn start(container: &str) -> (r: (CreateSnapshot, Next))
        ensures
            r.0.container@ == container@,
            create_view(r.0) == fresh_snapshot(),
            next_is(r.1, Want::Run(Target::Host, DATE_COMMAND@)),
    {
        proof {
            reveal_strlit("");
        }
        let m = CreateSnapshot {
            container: owned(container),
            stage: CreateStage::Tag,
            tag: new_string(),
            version_line: new_string(),
            version: new_string(),
            users_count: 0,
        };
        (m, Next::Run(Target::Host, owned(DATE_COMMAND)))
    }

    /// Takes the outcome of the last command and says what comes next.
    pub fn step(&mut self, ev: Result<CommandOutput, AppError>) -> (r: Next)
        requires
            create_stage_ok(old(self).stage),
        ensures
            final(self).container@ == old(self).container@,
            create_stage_ok(final(self).stage),
            create_view(*final(self)) == create_next(old(self).container@, create_view(*old(self)), ev).0,
            next_is(r, create_next(old(self).container@, create_view(*old(self)), ev).1),
    {
        proof {
            reveal_strlit("OK");
        }
        match self.stage {
            CreateStage::Tag => match ev {
                Err(e) => {
                    self.stage = CreateStage::Finished;
                    Next::Fail(e)
                },
                Ok(o) => {
                    let t = trim_str(o.stdout.as_str());
                    if t.as_str().unicode_len() == 0 {
                        self.stage = CreateStage::Finished;
                        Next::Fail(AppError::Xray(owned("failed to generate snapshot tag")))
                    } else {
                        let cmd = cat2("mkdir -p ", snapshot_path(t.as_str()).as_str());
                        self.tag = t;
                        self.stage = CreateStage::MkDir;
                        Next::Run(Target::Host, cmd)
                    }
                },
            },
            CreateStage::MkDir => match ev {
                Err(e) => {
                    self.stage = CreateStage::Finished;
                    Next::Fail(e)
                },
                Ok(_) => {
                    self.stage = CreateStage::Copy(0);
                    Next::Run(Target::Host, copy_command(self.container.as_str(), self.tag.as_str(), 0, true))
                },
            },
            CreateStage::Copy(i) => match ev {
                Err(e) => {
                    self.stage = CreateStage::Finished;
                    Next::Fail(e)
                },
                Ok(_) => {
                    if i + 1 < SNAPSHOT_FILE_COUNT {
                        self.stage = CreateStage::Copy(i + 1);
                        Next::Run(Target::Host, copy_command(self.container.as_str(), self.tag.as_str(), i + 1, true))
                    } else {
                        self.stage = CreateStage::Binary;
                        Next::Run(Target::Host, binary_command(self.container.as_str(), self.tag.as_str(), true))
                    }
                },
            },
            CreateStage::Binary => match ev {
                Err(e) => {
                    self.stage = CreateStage::Finished;
                    Next::Fail(e)
                },
                Ok(o) => {
                    if contains_text(o.stdout.as_str(), "OK") {
                        self.stage = CreateStage::Version;
                        Next::Run(Target::Container, owned(QUIET_VERSION_COMMAND))
                    } else {
                        self.stage = CreateStage::Finished;
                        let m = cat2("failed to copy xray binary: ", trim_str(o.stderr.as_str()).as_str());
                        Next::Fail(AppError::Xray(m))
                    }
                },
            },
            CreateStage::Version => {
                let line = line_from(&ev);
                let cmd = save_version_command(line.as_str(), self.tag.as_str());
                self.version_line = line;
                self.stage = CreateStage::SaveVersion;
                Next::Run(Target::Host, cmd)
            },
            CreateStage::SaveVersion => match ev {
                Err(e) => {
                    self.stage = CreateStage::Finished;
                    Next::Fail(e)
                },
                Ok(_) => {
                    self.version = version_word(self.version_line.as_str());
                    self.stage = CreateStage::Count;
                    Next::Run(Target::Host, count_users_command(self.tag.as_str()))
                },
            },
            CreateStage::Count => {
                self.users_count = count_from(&ev);
                self.stage = CreateStage::Finished;
                Next::Finish
            },
            CreateStage::Finished => Next::Finish,
        }
    }

    /// The snapshot taken: its tag, version and number of users.
    pub fn info(&self) -> (r: SnapshotInfo)
        ensures
            r.tag@ == self.tag@,
            r.version@ == self.version@,
            r.users_count == self.users_count,
    {
        SnapshotInfo {
            tag: owned(self.tag.as_str()),
            version: owned(self.version.as_str()),
            users_count: self.users_count,
        }
    }
}

// ---- listing ---------------------------------------------------------------

/// The command that prints one line `tag|version line|users` per snapshot.
pub open spec fn list_cmd() -> Seq<char> {
    "ls -1d "@ + SNAPSHOT_HOST_DIR@
        + "/*/  2>/dev/null | while read d; do tag=$(basename \"$d\"); ver=$(cat \"$d/xray_version.txt\" 2>/dev/null | head -1 || echo unknown); users=$(grep -c clientName \"$d/clientsTable\" 2>/dev/null || echo 0); echo \"$tag|$ver|$users\"; done"@
}

pub fn list_snapshots_command() -> (r: String)
    ensures
        r@ == list_cmd(),
{
    let mut s = owned("ls -1d ");
    push_str(&mut s, SNAPSHOT_HOST_DIR);
    push_str(
        &mut s,
        "/*/  2>/dev/null | while read d; do tag=$(basename \"$d\"); ver=$(cat \"$d/xray_version.txt\" 2>/dev/null | head -1 || echo unknown); users=$(grep -c clientName \"$d/clientsTable\" 2>/dev/null || echo 0); echo \"$tag|$ver|$users\"; done",
    );
    s
}

/// A snapshot read from a line `tag|version line|users` (a line with at
/// least one `|`): the trimmed tag; the second word of the version line,
/// or the whole trimmed line where it has none; the user count, 0 where
/// the third field is missing or not a number.
pub open spec fn snapshot_of_line(l: Seq<char>) -> (Seq<char>, Seq<char>, usize) {
    let parts = split_on(l, '|');
    let ver_raw = trim(parts[1]);
    (
        trim(parts[0]),
        word_or(ver_raw, ver_raw),
        if parts.len() == 3 {
            match parse_usize_of(trim(parts[2])) {
                Some(n) => n,
                None => 0,
            }
        } else {
            0
        },
    )
}

/// The snapshots listed by lines of output, in order; lines without `|`
/// are skipped.
pub open spec fn snapshots_of_lines(lines: Seq<Seq<char>>) -> Seq<(Seq<char>, Seq<char>, usize)>
    decreases lines.len(),
{
    if lines.len() == 0 {
        Seq::empty()
    } else {
        let prev = snapshots_of_lines(lines.drop_last());
        if split_on(lines.last(), '|').len() > 1 {
            prev.push(snapshot_of_line(lines.last()))
        } else {
            prev
        }
    }
}

pub open spec fn info_view(i: SnapshotInfo) -> (Seq<char>, Seq<char>, usize) {
    (i.tag@, i.version@, i.users_count)
}

fn snapshot_from_line(line: &str) -> (r: Option<SnapshotInfo>)
    ensures
        match r {
            Some(i) => split_on(line@, '|').len() > 1 && info_view(i) == snapshot_of_line(line@),
            None => split_on(line@, '|').len() <= 1,
        },
{
    let parts = split_chars(line, '|');
    proof {
        assert(parts@.map_values(|x: String| x@).len() == parts@.len());
    }
    if parts.len() <= 1 {
        return None;
    }
    proof {
        assert(parts@.map_values(|x: String| x@)[0] == parts@[0]@);
        assert(parts@.map_values(|x: String| x@)[1] == parts@[1]@);
    }
    let tag = trim_str(parts[0].as_str());
    let ver_raw = trim_str(parts[1].as_str());
    let version = match second_word(ver_raw.as_str()) {
        Some(w) => w,
        None => owned(ver_raw.as_str()),
    };
    let users_count = if parts.len() == 3 {
        proof {
            assert(parts@.map_values(|x: String| x@)[2] == parts@[2]@);
        }
        match parse_usize(trim_str(parts[2].as_str()).as_str()) {
            Some(n) => n,
            None => 0,
        }
    } else {
        0
    };
    Some(SnapshotInfo { tag, version, users_count })
}

/// The snapshots listed by the output of `list_snapshots_command`.
pub fn parse_snapshot_list(stdout: &str) -> (r: Vec<SnapshotInfo>)
    ensures
        r@.map_values(|i: SnapshotInfo| info_view(i)) == snapshots_of_lines(split_on(stdout@, '\n')),
{
    let lines = split_chars(stdout, '\n');
    let ghost lv = lines@.map_values(|x: String| x@);
    let mut out: Vec<SnapshotInfo> = Vec::new();
    let mut i: usize = 0;
    while i < lines.len()
        invariant
            i <= lines.len(),
            lv == lines@.map_values(|x: String| x@),
            lv == split_on(stdout@, '\n'),
            out@.map_values(|x: SnapshotInfo| info_view(x)) == snapshots_of_lines(lv.subrange(0, i as int)),
        decreases lines.len() - i,
    {
        assert(lv.subrange(0, i + 1).drop_last() =~= lv.subrange(0, i as int));
        assert(lv.subrange(0, i + 1).last() == lines@[i as int]@);
        let ghost before = out@.map_values(|x: SnapshotInfo| info_view(x));
        match snapshot_from_line(lines[i].as_str()) {
            Some(info) => {
                out.push(info);
                assert(out@.map_values(|x: SnapshotInfo| info_view(x)) =~= before.push(info_view(info)));
            },
            None => {},
        }
        i = i + 1;
    }
    assert(lv.subrange(0, lines.len() as int) =~= lv);
    out
}

// ---- restoring ---------------------------------------------------------------

/// How far the restoring of a snapshot has got.
#[derive(Debug, Clone, Copy, PartialEq, Eq)]
pub enum RestoreStage {
    /// The check that the snapshot exists.
    Check,
    /// The copy of the config file of this index into the container.
    Copy(usize),
    /// The copy of the binary into the container.
    Binary,
    /// The restart of the container.
    Restart,
    /// Nothing: the procedure is over.
    Finished,
}

/// The restoring of a snapshot into a container, which is then restarted.
#[derive(Debug)]
pub struct RestoreSnapshot {
    pub container: String,
    pub tag: String,
    pub stage: RestoreStage,
}

/// One step of restoring snapshot `tag` into container `c`: the next stage
/// once the last command came back as `ev`, and what is asked for.
pub open spec fn restore_next(c: Seq<char>, tag: Seq<char>, st: RestoreStage, ev: Result<CommandOutput, AppError>) -> (RestoreStage, Want) {
    match ev {
        Err(e) => (RestoreStage::Finished, if st is Finished { Want::Finish } else { Want::Pass(e) }),
        Ok(o) => match st {
            RestoreStage::Check => if contains_seq(o.stdout@, "OK"@) {
                (RestoreStage::Copy(0), Want::Run(Target::Host, copy_in_cmd(c, tag, 0)))
            } else {
                (RestoreStage::Finished, Want::Xray("snapshot '"@ + tag + "' not found"@))
            },
            RestoreStage::Copy(i) => if i + 1 < SNAPSHOT_FILE_COUNT {
                (RestoreStage::Copy((i + 1) as usize), Want::Run(Target::Host, copy_in_cmd(c, tag, i + 1)))
            } else {
                (RestoreStage::Binary, Want::Run(Target::Host, binary_in_cmd(c, tag)))
            },
            RestoreStage::Binary => if contains_seq(o.stdout@, "OK"@) {
                (RestoreStage::Restart, Want::Run(Target::Host, restart_cmd(c)))
            } else {
                (RestoreStage::Finished, Want::Xray("failed to restore xray binary: "@ + trim(o.stderr@)))
            },
            RestoreStage::Restart => (RestoreStage::Finished, Want::Finish),
            RestoreStage::Finished => (RestoreStage::Finished, Want::Finish),
        },
    }
}

pub open spec fn restore_stage_ok(st: RestoreStage) -> bool {
    st matches RestoreStage::Copy(i) ==> i < SNAPSHOT_FILE_COUNT
}

impl RestoreSnapshot {
    /// Starts restoring snapshot `tag` into `container`: first its directory
    /// is checked.
    pub fn start(container: &str, tag: &str) -> (r: (RestoreSnapshot, Next))
        ensures
            r.0.container@ == container@,
            r.0.tag@ == tag@,
            r.0.stage == RestoreStage::Check,
            next_is(r.1, Want::Run(Target::Host, exists_cmd(tag@))),
    {
        (
            RestoreSnapshot { container: owned(container), tag: owned(tag), stage: RestoreStage::Check },
            Next::Run(Target::Host, exists_command(tag)),
        )
    }

    /// Takes the outcome of the last command and says what comes next.
    pub fn step(&mut self, ev: Result<CommandOutput, AppError>) -> (r: Next)
        requires
            restore_stage_ok(old(self).stage),
        ensures
            final(self).container@ == old(self).container@,
            final(self).tag@ == old(self).tag@,
            restore_stage_ok(final(self).stage),
            final(self).stage == restore_next(old(self).container@, old(self).tag@, old(self).stage, ev).0,
            next_is(r, restore_next(old(self).container@, old(self).tag@, old(self).stage, ev).1),
    {
        proof {
            reveal_strlit("OK");
        }
        let st = self.stage;
        let o = match ev {
            Err(e) => {
                self.stage = RestoreStage::Finished;
                return match st {
                    RestoreStage::Finished => Next::Finish,
                    _ => Next::Fail(e),
                };
            },
            Ok(o) => o,
        };
        match st {
            RestoreStage::Check => {
                if contains_text(o.stdout.as_str(), "OK") {
                    self.stage = RestoreStage::Copy(0);
                    Next::Run(Target::Host, copy_command(self.container.as_str(), self.tag.as_str(), 0, false))
                } else {
                    self.stage = RestoreStage::Finished;
                    let mut m = owned("snapshot '");
                    push_str(&mut m, self.tag.as_str());
                    push_str(&mut m, "' not found");
                    Next::Fail(AppError::Xray(m))
                }
            },
            RestoreStage::Copy(i) => {
                if i + 1 < SNAPSHOT_FILE_COUNT {
                    self.stage = RestoreStage::Copy(i + 1);
                    Next::Run(Target::Host, copy_command(self.container.as_str(), self.tag.as_str(), i + 1, false))
                } else {
                    self.stage = RestoreStage::Binary;
                    Next::Run(Target::Host, binary_command(self.container.as_str(), self.tag.as_str(), false))
                }
            },
            RestoreStage::Binary => {
                if contains_text(o.stdout.as_str(), "OK") {
                    self.stage = RestoreStage::Restart;
                    Next::Run(Target::Host, restart_command(self.container.as_str()))
                } else {
                    self.stage = RestoreStage::Finished;
                    let m = cat2("failed to restore xray binary: ", trim_str(o.stderr.as_str()).as_str());
                    Next::Fail(AppError::Xray(m))
                }
            },
            RestoreStage::Restart => {
                self.stage = RestoreStage::Finished;
                Next::Finish
            },
            RestoreStage::Finished => Next::Finish,
        }
    }
}

// ---- the latest release ---------------------------------------------------------

/// The latest release's version from the answer of
/// `LATEST_VERSION_COMMAND`: its trimmed output, an error where it is empty
/// or the command could not run.
pub open spec fn latest_of(ev: Result<CommandOutput, AppError>) -> Want {
    match ev {
        Err(e) => Want::XrayAbout("failed to check latest version: "@, e),
        Ok(o) => if trim(o.stdout@).len() == 0 {
            Want::Xray("failed to fetch latest version from GitHub"@)
        } else {
            Want::Finish
        },
    }
}

pub fn latest_version_from(ev: Result<CommandOutput, AppError>) -> (r: Result<String, AppError>)
    ensures
        match r {
            Ok(v) => latest_of(ev) is Finish && (ev matches Ok(o) && v@ == trim(o.stdout@)),
            Err(e) => next_is(Next::Fail(e), latest_of(ev)),
        },
{
    match ev {
        Err(e) => Err(xray_about("failed to check latest version: ", &e)),
        Ok(o) => {
            let v = trim_str(o.stdout.as_str());
            if v.as_str().unicode_len() == 0 {
                Err(AppError::Xray(owned("failed to fetch latest version from GitHub")))
            } else {
                Ok(v)
            }
        },
    }
}

// ---- upgrading ---------------------------------------------------------------

/// Downloads and unpacks the binary of a release on the host.
pub open spec fn download_cmd(version: Seq<char>) -> Seq<char> {
    "curl -sL https://github.com/XTLS/Xray-core/releases/download/v"@ + version
        + "/Xray-linux-64.zip > /tmp/xray-upgrade.zip && python3 -c \"import zipfile; z=zipfile.ZipFile('/tmp/xray-upgrade.zip'); z.extract('xray','/tmp'); z.close()\" && chmod +x /tmp/xray && echo OK"@
}

/// Puts the downloaded binary into the container.
pub open spec fn replace_cmd(container: Seq<char>) -> Seq<char> {
    "docker cp /tmp/xray "@ + container + ":/usr/bin/xray && docker exec "@ + container
        + " chmod +x /usr/bin/xray && echo OK"@
}

fn download_command(version: &str) -> (r: String)
    ensures
        r@ == download_cmd(version@),
{
    let mut s = owned("curl -sL https://github.com/XTLS/Xray-core/releases/download/v");
    push_str(&mut s, version);
    push_str(
        &mut s,
        "/Xray-linux-64.zip > /tmp/xray-upgrade.zip && python3 -c \"import zipfile; z=zipfile.ZipFile('/tmp/xray-upgrade.zip'); z.extract('xray','/tmp'); z.close()\" && chmod +x /tmp/xray && echo OK",
    );
    s
}

fn replace_command(container: &str) -> (r: String)
    ensures
        r@ == replace_cmd(container@),
{
    let mut s = owned("docker cp /tmp/xray ");
    push_str(&mut s, container);
    push_str(&mut s, ":/usr/bin/xray && docker exec ");
    push_str(&mut s, container);
    push_str(&mut s, " chmod +x /usr/bin/xray && echo OK");
    s
}

/// How far an upgrade has got.
#[derive(Debug, Clone, Copy, PartialEq, Eq)]
pub enum UpgradeStage {
    /// The version line of the running Xray.
    Current,
    /// The latest release's version.
    Latest,
    /// The snapshot taken before anything changes.
    Snapshot,
    /// The download of the new binary.
    Download,
    /// Its copy into the container.
    Replace,
    /// The restart of the container.
    Restart,
    /// A pause of two seconds.
    Sleep,
    /// The version line of the new Xray.
    NewVersion,
    /// Nothing: the procedure is over.
    Finished,
}

/// An upgrade of Xray in a container to the latest release, after a
/// snapshot of what runs now.
#[derive(Debug)]
pub struct UpgradeXray {
    pub container: String,
    pub stage: UpgradeStage,
    pub old_version: String,
    pub latest: String,
    pub snapshot: CreateSnapshot,
    pub new_version: String,
}

/// What an upgrade has gathered.
pub struct UpgradeV {
    pub stage: UpgradeStage,
    pub old: Seq<char>,
    pub latest: Seq<char>,
    pub snap: CreateV,
    pub new: Seq<char>,
}

pub open spec fn upgrade_view(m: UpgradeXray) -> UpgradeV {
    UpgradeV {
        stage: m.stage,
        old: m.old_version@,
        latest: m.latest@,
        snap: create_view(m.snapshot),
        new: m.new_version@,
    }
}

/// A snapshot procedure that has not started.
pub open spec fn fresh_snapshot() -> CreateV {
    CreateV {
        stage: CreateStage::Tag,
        tag: Seq::empty(),
        line: Seq::empty(),
        version: Seq::empty(),
        users: 0,
    }
}

/// One step of upgrading Xray in container `c`. It stops with an error
/// where a command cannot run, where the latest release is the running
/// one, or where the download or the copy does not print `OK`; the
/// snapshot's own steps are taken in between.
pub open spec fn upgrade_next(c: Seq<char>, v: UpgradeV, ev: Result<CommandOutput, AppError>) -> (UpgradeV, Want) {
    let fin = UpgradeV { stage: UpgradeStage::Finished, ..v };
    match v.stage {
        UpgradeStage::Current => match ev {
            Err(e) => (fin, Want::Pass(e)),
            Ok(o) => (
                UpgradeV { stage: UpgradeStage::Latest, old: word_or(o.stdout@, "unknown"@), ..v },
                Want::Run(Target::Host, LATEST_VERSION_COMMAND@),
            ),
        },
        UpgradeStage::Latest => match latest_of(ev) {
            Want::Finish => {
                let latest = trim(ev->Ok_0.stdout@);
                if latest == v.old {
                    (fin, Want::Xray("already on latest version v"@ + latest))
                } else {
                    (
                        UpgradeV { stage: UpgradeStage::Snapshot, latest: latest, snap: fresh_snapshot(), ..v },
                        Want::Run(Target::Host, DATE_COMMAND@),
                    )
                }
            },
            w => (fin, w),
        },
        UpgradeStage::Snapshot => {
            let (snap, w) = create_next(c, v.snap, ev);
            match w {
                Want::Finish => (
                    UpgradeV { stage: UpgradeStage::Download, snap: snap, ..v },
                    Want::Run(Target::Host, download_cmd(v.latest)),
                ),
                Want::Run(t, cmd) => (UpgradeV { snap: snap, ..v }, Want::Run(t, cmd)),
                w => (UpgradeV { stage: UpgradeStage::Finished, snap: snap, ..v }, w),
            }
        },
        UpgradeStage::Download => match ev {
            Err(e) => (fin, Want::Pass(e)),
            Ok(o) => if contains_seq(o.stdout@, "OK"@) {
                (UpgradeV { stage: UpgradeStage::Replace, ..v }, Want::Run(Target::Host, replace_cmd(c)))
            } else {
                (fin, Want::Xray("download failed: "@ + combined(o.stdout@, o.stderr@)))
            },
        },
        UpgradeStage::Replace => match ev {
            Err(e) => (fin, Want::Pass(e)),
            Ok(o) => if contains_seq(o.stdout@, "OK"@) {
                (UpgradeV { stage: UpgradeStage::Restart, ..v }, Want::Run(Target::Host, restart_cmd(c)))
            } else {
                (fin, Want::Xray("binary replacement failed: "@ + combined(o.stdout@, o.stderr@)))
            },
        },
        UpgradeStage::Restart => match ev {
            Err(e) => (fin, Want::Pass(e)),
            Ok(_) => (UpgradeV { stage: UpgradeStage::Sleep, ..v }, Want::Run(Target::Host, "sleep 2"@)),
        },
        UpgradeStage::Sleep => match ev {
            Err(e) => (fin, Want::Pass(e)),
            Ok(_) => (
                UpgradeV { stage: UpgradeStage::NewVersion, ..v },
                Want::Run(Target::Container, VERSION_COMMAND@),
            ),
        },
        UpgradeStage::NewVersion => (
            UpgradeV { stage: UpgradeStage::Finished, new: word_or(line_of(ev), "unknown"@), ..v },
            Want::Finish,
        ),
        UpgradeStage::Finished => (v, Want::Finish),
    }
}

pub open spec fn upgrade_ok(m: UpgradeXray) -> bool {
    create_stage_ok(m.snapshot.stage) && m.snapshot.container@ == m.container@
}

impl UpgradeXray {
    /// Starts upgrading Xray in `container`: first the running version is
    /// read.
    pub fn start(container: &str) -> (r: (UpgradeXray, Next))
        ensures
            r.0.container@ == container@,
            upgrade_ok(r.0),
            r.0.stage == UpgradeStage::Current,
            next_is(r.1, Want::Run(Target::Container, VERSION_COMMAND@)),
    {
        let (snap, _) = CreateSnapshot::start(container);
        let m = UpgradeXray {
            container: owned(container),
            stage: UpgradeStage::Current,
            old_version: owned(""),
            latest: owned(""),
            snapshot: snap,
            new_version: owned(""),
        };
        (m, Next::Run(Target::Container, owned(VERSION_COMMAND)))
    }

    /// Takes the outcome of the last command and says what comes next.
    pub fn step(&mut self, ev: Result<CommandOutput, AppError>) -> (r: Next)
        requires
            upgrade_ok(*old(self)),
        ensures
            final(self).container@ == old(self).container@,
            upgrade_ok(*final(self)),
            upgrade_view(*final(self)) == upgrade_next(old(self).container@, upgrade_view(*old(self)), ev).0,
            next_is(r, upgrade_next(old(self).container@, upgrade_view(*old(self)), ev).1),
    {
        proof {
            reveal_strlit("OK");
            reveal_strlit("");
        }
        match self.stage {
            UpgradeStage::Current => match ev {
                Err(e) => {
                    self.stage = UpgradeStage::Finished;
                    Next::Fail(e)
                },
                Ok(o) => {
                    self.old_version = version_word(o.stdout.as_str());
                    self.stage = UpgradeStage::Latest;
                    Next::Run(Target::Host, owned(LATEST_VERSION_COMMAND))
                },
            },
            UpgradeStage::Latest => {
                let ghost evs = ev;
                match latest_version_from(ev) {
                    Err(e) => {
                        self.stage = UpgradeStage::Finished;
                        Next::Fail(e)
                    },
                    Ok(latest) => {
                        if crate::text::str_eq(latest.as_str(), self.old_version.as_str()) {
                            self.stage = UpgradeStage::Finished;
                            Next::Fail(AppError::Xray(cat2("already on latest version v", latest.as_str())))
                        } else {
                            let (snap, first) = CreateSnapshot::start(self.container.as_str());
                            self.snapshot = snap;
                            self.latest = latest;
                            self.stage = UpgradeStage::Snapshot;
                            first
                        }
                    },
                }
            },
            UpgradeStage::Snapshot => {
                let n = self.snapshot.step(ev);
                match n {
                    Next::Finish => {
                        self.stage = UpgradeStage::Download;
                        Next::Run(Target::Host, download_command(self.latest.as_str()))
                    },
                    Next::Fail(e) => {
                        self.stage = UpgradeStage::Finished;
                        Next::Fail(e)
                    },
                    Next::Run(t, cmd) => Next::Run(t, cmd),
                }
            },
            UpgradeStage::Download => match ev {
                Err(e) => {
                    self.stage = UpgradeStage::Finished;
                    Next::Fail(e)
                },
                Ok(o) => {
                    if contains_text(o.stdout.as_str(), "OK") {
                        self.stage = UpgradeStage::Replace;
                        Next::Run(Target::Host, replace_command(self.container.as_str()))
                    } else {
                        self.stage = UpgradeStage::Finished;
                        Next::Fail(AppError::Xray(cat2("download failed: ", o.combined_output().as_str())))
                    }
                },
            },
            UpgradeStage::Replace => match ev {
                Err(e) => {
                    self.stage = UpgradeStage::Finished;
                    Next::Fail(e)
                },
                Ok(o) => {
                    if contains_text(o.stdout.as_str(), "OK") {
                        self.stage = UpgradeStage::Restart;
                        Next::Run(Target::Host, restart_command(self.container.as_str()))
                    } else {
                        self.stage = UpgradeStage::Finished;
                        Next::Fail(AppError::Xray(cat2("binary replacement failed: ", o.combined_output().as_str())))
                    }
                },
            },
            UpgradeStage::Restart => match ev {
                Err(e) => {
                    self.stage = UpgradeStage::Finished;
                    Next::Fail(e)
                },
                Ok(_) => {
                    self.stage = UpgradeStage::Sleep;
                    Next::Run(Target::Host, owned("sleep 2"))
                },
            },
            UpgradeStage::Sleep => match ev {
                Err(e) => {
                    self.stage = UpgradeStage::Finished;
                    Next::Fail(e)
                },
                Ok(_) => {
                    self.stage = UpgradeStage::NewVersion;
                    Next::Run(Target::Container, owned(VERSION_COMMAND))
                },
            },
            UpgradeStage::NewVersion => {
                let line = line_from(&ev);
                self.new_version = version_word(line.as_str());
                self.stage = UpgradeStage::Finished;
                Next::Finish
            },
            UpgradeStage::Finished => Next::Finish,
        }
    }

    /// What the upgrade did: the versions before and after, and the tag of
    /// the snapshot taken first.
    pub fn result(&self) -> (r: UpgradeResult)
        ensures
            r.old_version@ == self.old_version@,
            r.new_version@ == self.new_version@,
            r.snapshot_tag@ == self.snapshot.tag@,
    {
        UpgradeResult {
            old_version: owned(self.old_version.as_str()),
            new_version: owned(self.new_version.as_str()),
            snapshot_tag: owned(self.snapshot.tag.as_str()),
        }
    }
}

// ---- packing -------------------------------------------------------------------

/// Where a snapshot is packed on the host.
pub open spec fn archive_path(tag: Seq<char>) -> Seq<char> {
    "/tmp/snapshot-"@ + tag + ".tar.gz"@
}

/// Packs a snapshot as a gzipped tar and prints it in base64.
pub open spec fn pack_cmd(tag: Seq<char>) -> Seq<char> {
    "cd "@ + snapshot_dir(tag) + " && tar czf "@ + archive_path(tag) + " . && base64 "@ + archive_path(tag)
        + " && rm -f "@ + archive_path(tag)
}

fn pack_command(tag: &str) -> (r: String)
    ensures
        r@ == pack_cmd(tag@),
{
    let archive = cat2(cat2("/tmp/snapshot-", tag).as_str(), ".tar.gz");
    let mut s = owned("cd ");
    push_str(&mut s, snapshot_path(tag).as_str());
    push_str(&mut s, " && tar czf ");
    push_str(&mut s, archive.as_str());
    push_str(&mut s, " . && base64 ");
    push_str(&mut s, archive.as_str());
    push_str(&mut s, " && rm -f ");
    push_str(&mut s, archive.as_str());
    s
}

/// `s` without its whitespace.
pub open spec fn without_ws(s: Seq<char>) -> Seq<char>
    decreases s.len(),
{
    if s.len() == 0 {
        s
    } else if is_ws(s.last()) {
        without_ws(s.drop_last())
    } else {
        without_ws(s.drop_last()).push(s.last())
    }
}

fn strip_whitespace(s: &str) -> (r: String)
    ensures
        r@ == without_ws(s@),
{
    let v = chars_of(s);
    let mut out = new_string();
    let mut i: usize = 0;
    while i < v.len()
        invariant
            i <= v.len(),
            v@ == s@,
            out@ == without_ws(v@.subrange(0, i as int)),
        decreases v.len() - i,
    {
        assert(v@.subrange(0, i + 1).drop_last() =~= v@.subrange(0, i as int));
        if !char_is_ws(v[i]) {
            crate::text::push_char(&mut out, v[i]);
        }
        i = i + 1;
    }
    assert(v@.subrange(0, v.len() as int) =~= v@);
    out
}

/// How far the packing of a snapshot has got.
#[derive(Debug, Clone, Copy, PartialEq, Eq)]
pub enum PackStage {
    /// The check that the snapshot exists.
    Check,
    /// The packing itself.
    Pack,
    /// Nothing: the procedure is over.
    Finished,
}

/// The packing of a snapshot into an archive brought back as bytes.
#[derive(Debug)]
pub struct PackSnapshot {
    pub tag: String,
    pub stage: PackStage,
    pub archive: Vec<u8>,
}

/// One step of packing snapshot `tag`: the next stage, the text the
/// archive was decoded from (once the packing answered in base64), and
/// what is asked for. The archive comes as base64, whitespace aside; where
/// that text is not base64 the procedure fails.
pub open spec fn pack_next(tag: Seq<char>, st: PackStage, ev: Result<CommandOutput, AppError>) -> (PackStage, Option<Seq<char>>, Want) {
    match ev {
        Err(e) => (PackStage::Finished, None, if st is Finished { Want::Finish } else { Want::Pass(e) }),
        Ok(o) => match st {
            PackStage::Check => if contains_seq(o.stdout@, "OK"@) {
                (PackStage::Pack, None, Want::Run(Target::Host, pack_cmd(tag)))
            } else {
                (PackStage::Finished, None, Want::Xray("snapshot '"@ + tag + "' not found"@))
            },
            PackStage::Pack => if trim(o.stdout@).len() == 0 {
                (PackStage::Finished, None, Want::Xray("failed to pack snapshot: "@ + trim(o.stderr@)))
            } else {
                let text = without_ws(o.stdout@);
                if exists|b: Seq<u8>| crate::b64::b64(b) == text {
                    (PackStage::Finished, Some(text), Want::Finish)
                } else {
                    (
                        PackStage::Finished,
                        None,
                        Want::Xray("failed to decode snapshot archive: "@ + b64_decode_error(text)),
                    )
                }
            },
            PackStage::Finished => (PackStage::Finished, None, Want::Finish),
        },
    }
}

impl PackSnapshot {
    /// Starts packing snapshot `tag`: first its directory is checked.
    pub fn start(tag: &str) -> (r: (PackSnapshot, Next))
        ensures
            r.0.tag@ == tag@,
            r.0.stage == PackStage::Check,
            r.0.archive@ == Seq::<u8>::empty(),
            next_is(r.1, Want::Run(Target::Host, exists_cmd(tag@))),
    {
        (
            PackSnapshot { tag: owned(tag), stage: PackStage::Check, archive: Vec::new() },
            Next::Run(Target::Host, exists_command(tag)),
        )
    }

    /// Takes the outcome of the last command and says what comes next.
    pub fn step(&mut self, ev: Result<CommandOutput, AppError>) -> (r: Next)
        ensures
            final(self).tag@ == old(self).tag@,
            final(self).stage == pack_next(old(self).tag@, old(self).stage, ev).0,
            match pack_next(old(self).tag@, old(self).stage, ev).1 {
                Some(text) => crate::b64::b64(final(self).archive@) == text,
                None => final(self).archive@ == old(self).archive@,
            },
            next_is(r, pack_next(old(self).tag@, old(self).stage, ev).2),
    {
        proof {
            reveal_strlit("OK");
        }
        let st = self.stage;
        let o = match ev {
            Err(e) => {
                self.stage = PackStage::Finished;
                return match st {
                    PackStage::Finished => Next::Finish,
                    _ => Next::Fail(e),
                };
            },
            Ok(o) => o,
        };
        match st {
            PackStage::Check => {
                if contains_text(o.stdout.as_str(), "OK") {
                    self.stage = PackStage::Pack;
                    Next::Run(Target::Host, pack_command(self.tag.as_str()))
                } else {
                    self.stage = PackStage::Finished;
                    let mut m = owned("snapshot '");
                    push_str(&mut m, self.tag.as_str());
                    push_str(&mut m, "' not found");
                    Next::Fail(AppError::Xray(m))
                }
            },
            PackStage::Pack => {
                self.stage = PackStage::Finished;
                if trim_str(o.stdout.as_str()).as_str().unicode_len() == 0 {
                    let m = cat2("failed to pack snapshot: ", trim_str(o.stderr.as_str()).as_str());
                    return Next::Fail(AppError::Xray(m));
                }
                let text = strip_whitespace(o.stdout.as_str());
                match decode_base64(text.as_str()) {
                    Ok(bytes) => {
                        self.archive = bytes;
                        Next::Finish
                    },
                    Err(m) => Next::Fail(AppError::Xray(cat2("failed to decode snapshot archive: ", m.as_str()))),
                }
            },
            PackStage::Finished => Next::Finish,
        }
    }
}

} // verus!
