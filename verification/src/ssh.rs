//! Results of remote commands, SSH addresses, and the known-hosts policy.

use vstd::prelude::*;

use crate::b64::{b64, encode_base64};
use crate::text::{
    chars_of, new_string, owned, push_dec, push_str, split_chars, split_on, split_words, starts_with,
    str_eq, string_from_chars, trim, trim_str, ws_words, dec, digits_value, port_digits,
    lemma_digits_value_grows, is_word, is_ws, lemma_ws_words_of_word, lemma_ws_words_then_word,
    lemma_trim_unpadded, lemma_split_on_append, lemma_split_on_push_sep, lemma_split_on_nonempty,
};

verus! {

/// Result of running a command on a host.
#[derive(Debug, Clone)]
pub struct CommandOutput {
    pub stdout: String,
    pub stderr: String,
    pub exit_code: u32,
}

/// stdout and stderr, trimmed, joined by a newline when both are present,
/// otherwise whichever is present.
pub open spec fn combined(out: Seq<char>, err: Seq<char>) -> Seq<char> {
    let o = trim(out);
    let e = trim(err);
    if e.len() > 0 && o.len() > 0 {
        o + "\n"@ + e
    } else if o.len() > 0 {
        o
    } else {
        e
    }
}

impl CommandOutput {
    /// Whether the command exited with status 0.
    pub fn success(&self) -> (b: bool)
        ensures
            b == (self.exit_code == 0),
    {
        self.exit_code == 0
    }

    /// stdout and stderr combined (useful when a command merges them).
    pub fn combined_output(&self) -> (s: String)
        ensures
            s@ == combined(self.stdout@, self.stderr@),
    {
        proof {
            reveal_strlit("\n");
        }
        let o = trim_str(self.stdout.as_str());
        let e = trim_str(self.stderr.as_str());
        let ol = o.as_str().unicode_len();
        let el = e.as_str().unicode_len();
        if el > 0 && ol > 0 {
            let mut s = new_string();
            push_str(&mut s, o.as_str());
            push_str(&mut s, "\n");
            push_str(&mut s, e.as_str());
            s
        } else if ol > 0 {
            o
        } else {
            e
        }
    }
}

/// What became of reading the known-hosts file.
#[derive(Debug)]
pub enum KnownHostsFile {
    /// There is no such file yet.
    Missing,
    /// Its text.
    Text(String),
    /// It exists but could not be read, for this reason.
    Unreadable(String),
}

/// The decision on a server's host key.
#[derive(Debug, PartialEq, Eq)]
pub enum KnownHostVerdict {
    /// Accept the key; nothing is written.
    Accept,
    /// Accept the key on first use, appending this text to the file.
    Pin(String),
    /// Refuse the connection, for this reason.
    Reject(String),
}

/// A verdict as its kind (accept 0, pin 1, reject 2) and its text.
pub open spec fn verdict_view(v: KnownHostVerdict) -> (nat, Seq<char>) {
    match v {
        KnownHostVerdict::Accept => (0, Seq::empty()),
        KnownHostVerdict::Pin(t) => (1, t@),
        KnownHostVerdict::Reject(t) => (2, t@),
    }
}

/// `host` without the brackets around an IPv6 address.
pub open spec fn bare_host(host: Seq<char>) -> Seq<char> {
    if host.len() >= 2 && host[0] == '[' && host.last() == ']' {
        host.subrange(1, host.len() - 1)
    } else {
        host
    }
}

/// How a host is named in known_hosts: the host itself on port 22, else
/// `[host]:port`.
pub open spec fn host_pattern_of(host: Seq<char>, port: u16) -> Seq<char> {
    if port == 22 {
        host
    } else {
        "["@ + bare_host(host) + "]:"@ + dec(port as nat)
    }
}

/// The known_hosts name of a host.
pub fn host_pattern(host: &str, port: u16) -> (r: String)
    ensures
        r@ == host_pattern_of(host@, port),
{
    if port == 22 {
        return owned(host);
    }
    let v = chars_of(host);
    let mut r = owned("[");
    if v.len() >= 2 && v[0] == '[' && v[v.len() - 1] == ']' {
        let inner = string_from_chars(&v, 1, v.len() - 1);
        push_str(&mut r, inner.as_str());
    } else {
        push_str(&mut r, host);
    }
    push_str(&mut r, "]:");
    push_dec(&mut r, port as u64);
    r
}

/// One of the comma-separated host names of a line is `pattern`.
pub open spec fn hosts_match(hosts: Seq<char>, pattern: Seq<char>) -> bool {
    exists|i: int| 0 <= i < split_on(hosts, ',').len() && trim(#[trigger] split_on(hosts, ',')[i]) == pattern
}

/// What the scan has seen so far: hashed entries, @cert-authority
/// entries, a line for the host, a line for the host whose key of the same
/// type differs.
pub struct ScanSeen {
    pub hashed: bool,
    pub cert: bool,
    pub found: bool,
    pub mismatch: bool,
}

pub open spec fn revoked_msg(pattern: Seq<char>, key_type: Seq<char>, path: Seq<char>) -> Seq<char> {
    "HOST KEY REJECTED for '"@ + pattern + "': the server's "@ + key_type
        + " key is explicitly revoked in "@ + path + ". Refusing connection."@
}

pub open spec fn changed_msg(pattern: Seq<char>, key_type: Seq<char>, path: Seq<char>) -> Seq<char> {
    "HOST KEY VERIFICATION FAILED for '"@ + pattern + "': the server's "@ + key_type
        + " key has changed. This could indicate a MITM attack. Remove the old key from "@ + path
        + " to proceed."@
}

pub open spec fn hashed_msg(pattern: Seq<char>, path: Seq<char>) -> Seq<char> {
    path + " contains hashed entries which this tool cannot verify. The host key for '"@ + pattern
        + "' cannot be checked — refusing connection. Add a plaintext entry or use `ssh-keygen -R` and reconnect to re-pin."@
}

pub open spec fn cert_msg(pattern: Seq<char>, path: Seq<char>) -> Seq<char> {
    path + " contains @cert-authority entries which this tool cannot verify. The host key for '"@
        + pattern
        + "' cannot be checked — refusing connection. Add a plaintext host key entry or use ssh-keyscan to pin the key."@
}

/// The verdict once every line has been seen.
pub open spec fn scan_end(
    seen: ScanSeen,
    pattern: Seq<char>,
    key_type: Seq<char>,
    key_b64: Seq<char>,
    path: Seq<char>,
    content: Seq<char>,
) -> (nat, Seq<char>) {
    if seen.mismatch {
        (2, changed_msg(pattern, key_type, path))
    } else if seen.hashed && !seen.found {
        (2, hashed_msg(pattern, path))
    } else if seen.cert && !seen.found {
        (2, cert_msg(pattern, path))
    } else {
        let prefix = if content.len() == 0 || content.last() == '\n' {
            Seq::empty()
        } else {
            "\n"@
        };
        (1, prefix + pattern + " "@ + key_type + " "@ + key_b64 + "\n"@)
    }
}

/// The verdict on the lines of known_hosts from the `i`-th on.
pub open spec fn scan_from(
    lines: Seq<Seq<char>>,
    i: nat,
    seen: ScanSeen,
    pattern: Seq<char>,
    key_type: Seq<char>,
    key_b64: Seq<char>,
    path: Seq<char>,
    content: Seq<char>,
) -> (nat, Seq<char>)
    decreases lines.len() - i,
{
    if i >= lines.len() {
        scan_end(seen, pattern, key_type, key_b64, path, content)
    } else {
        let line = trim(lines[i as int]);
        if line.len() == 0 || line[0] == '#' {
            scan_from(lines, i + 1, seen, pattern, key_type, key_b64, path, content)
        } else if starts_with(line, "|1|"@) {
            scan_from(lines, i + 1, ScanSeen { hashed: true, ..seen }, pattern, key_type, key_b64, path, content)
        } else {
            let ws = ws_words(line);
            if ws.len() > 0 && ws[0] == "@revoked"@ {
                let rp = ws.drop_first();
                if rp.len() >= 3 && hosts_match(rp[0], pattern) && rp[1] == key_type && rp[2] == key_b64 {
                    (2, revoked_msg(pattern, key_type, path))
                } else {
                    scan_from(lines, i + 1, seen, pattern, key_type, key_b64, path, content)
                }
            } else if ws.len() > 0 && ws[0] == "@cert-authority"@ {
                scan_from(lines, i + 1, ScanSeen { cert: true, ..seen }, pattern, key_type, key_b64, path, content)
            } else if ws.len() < 3 || !hosts_match(ws[0], pattern) {
                scan_from(lines, i + 1, seen, pattern, key_type, key_b64, path, content)
            } else if ws[1] != key_type {
                scan_from(lines, i + 1, ScanSeen { found: true, ..seen }, pattern, key_type, key_b64, path, content)
            } else if ws[2] == key_b64 {
                (0, Seq::empty())
            } else {
                scan_from(
                    lines,
                    i + 1,
                    ScanSeen { found: true, mismatch: true, ..seen },
                    pattern,
                    key_type,
                    key_b64,
                    path,
                    content,
                )
            }
        }
    }
}

/// The verdict on a host key given the text of known_hosts: a line for the
/// host with the same key accepts it; a revoked line, a changed key, or
/// entries that cannot be checked refuse it; an unknown host is pinned.
pub open spec fn known_host_verdict(
    host: Seq<char>,
    port: u16,
    key_type: Seq<char>,
    key_b64: Seq<char>,
    path: Seq<char>,
    content: Seq<char>,
) -> (nat, Seq<char>) {
    scan_from(
        split_on(content, '\n'),
        0,
        ScanSeen { hashed: false, cert: false, found: false, mismatch: false },
        host_pattern_of(host, port),
        key_type,
        key_b64,
        path,
        content,
    )
}

/// What a pinned known_hosts line needs to be read back as that same
/// entry: the host pattern, the key type and the key are each one word,
/// the pattern holds no comma, and the line does not read as a comment, a
/// hashed entry or a marker.
pub open spec fn pinnable(pattern: Seq<char>, key_type: Seq<char>, key_b64: Seq<char>) -> bool {
    &&& is_word(pattern)
    &&& is_word(key_type)
    &&& is_word(key_b64)
    &&& forall|i: int| 0 <= i < pattern.len() ==> #[trigger] pattern[i] != ','
    &&& pattern[0] != '#'
    &&& pattern[0] != '|'
    &&& pattern[0] != '@'
}

/// The line that pins `key_type`/`key_b64` for `pattern`.
pub open spec fn pin_line(pattern: Seq<char>, key_type: Seq<char>, key_b64: Seq<char>) -> Seq<char> {
    pattern + " "@ + key_type + " "@ + key_b64
}

/// The scan stops with acceptance at a line that pins the same key.
proof fn lemma_scan_at_pin_line(
    lines: Seq<Seq<char>>,
    k: nat,
    seen: ScanSeen,
    pattern: Seq<char>,
    key_type: Seq<char>,
    key_b64: Seq<char>,
    path: Seq<char>,
    content: Seq<char>,
)
    requires
        k < lines.len(),
        lines[k as int] == pin_line(pattern, key_type, key_b64),
        pinnable(pattern, key_type, key_b64),
    ensures
        scan_from(lines, k, seen, pattern, key_type, key_b64, path, content) == (0nat, Seq::<char>::empty()),
{
    reveal_strlit(" ");
    reveal_strlit("|1|");
    reveal_strlit("@revoked");
    reveal_strlit("@cert-authority");
    let line = lines[k as int];
    let l1 = pattern + seq![' '] + key_type;
    assert(line =~= l1 + seq![' '] + key_b64);
    lemma_ws_words_of_word(pattern);
    lemma_ws_words_then_word(pattern, key_type);
    lemma_ws_words_then_word(l1, key_b64);
    let ws = ws_words(line);
    assert(ws =~= seq![pattern, key_type, key_b64]);
    assert(line[0] == pattern[0]);
    assert(line.last() == key_b64.last());
    assert(!is_ws(pattern[0]));
    assert(!is_ws(key_b64[key_b64.len() - 1]));
    lemma_trim_unpadded(line);
    assert(!starts_with(line, "|1|"@)) by {
        if starts_with(line, "|1|"@) {
            assert(line.subrange(0, 3)[0] == line[0]);
        }
    }
    assert(ws[0] != "@revoked"@) by {
        assert("@revoked"@[0] == '@');
    }
    assert(ws[0] != "@cert-authority"@) by {
        assert("@cert-authority"@[0] == '@');
    }
    assert(hosts_match(ws[0], pattern)) by {
        lemma_split_on_append(Seq::empty(), pattern, ',');
        assert(Seq::<char>::empty() + pattern =~= pattern);
        assert(split_on(Seq::<char>::empty(), ',') =~= seq![Seq::<char>::empty()]);
        assert(split_on(pattern, ',') =~= seq![pattern]);
        assert(pattern.last() == pattern[pattern.len() - 1]);
        lemma_trim_unpadded(pattern);
        assert(trim(split_on(pattern, ',')[0]) == pattern);
    }
}

/// A scan that ends in pinning ends in the line for the key, after the
/// text, on a line of its own.
proof fn lemma_scan_pin_text(
    lines: Seq<Seq<char>>,
    i: nat,
    seen: ScanSeen,
    pattern: Seq<char>,
    key_type: Seq<char>,
    key_b64: Seq<char>,
    path: Seq<char>,
    content: Seq<char>,
)
    requires
        scan_from(lines, i, seen, pattern, key_type, key_b64, path, content).0 == 1,
    ensures
        scan_from(lines, i, seen, pattern, key_type, key_b64, path, content).1 == (if content.len() == 0
            || content.last() == '\n' {
            Seq::empty()
        } else {
            "\n"@
        }) + pattern + " "@ + key_type + " "@ + key_b64 + "\n"@,
    decreases lines.len() - i,
{
    if i < lines.len() {
        let line = trim(lines[i as int]);
        if line.len() == 0 || line[0] == '#' {
            lemma_scan_pin_text(lines, i + 1, seen, pattern, key_type, key_b64, path, content);
        } else if starts_with(line, "|1|"@) {
            lemma_scan_pin_text(lines, i + 1, ScanSeen { hashed: true, ..seen }, pattern, key_type, key_b64, path, content);
        } else {
            let ws = ws_words(line);
            if ws.len() > 0 && ws[0] == "@revoked"@ {
                lemma_scan_pin_text(lines, i + 1, seen, pattern, key_type, key_b64, path, content);
            } else if ws.len() > 0 && ws[0] == "@cert-authority"@ {
                lemma_scan_pin_text(lines, i + 1, ScanSeen { cert: true, ..seen }, pattern, key_type, key_b64, path, content);
            } else if ws.len() < 3 || !hosts_match(ws[0], pattern) {
                lemma_scan_pin_text(lines, i + 1, seen, pattern, key_type, key_b64, path, content);
            } else if ws[1] != key_type {
                lemma_scan_pin_text(lines, i + 1, ScanSeen { found: true, ..seen }, pattern, key_type, key_b64, path, content);
            } else if ws[2] != key_b64 {
                lemma_scan_pin_text(
                    lines,
                    i + 1,
                    ScanSeen { found: true, mismatch: true, ..seen },
                    pattern,
                    key_type,
                    key_b64,
                    path,
                    content,
                );
            }
        }
    }
}

/// Two lists of lines that agree before line `k`, where `longer` pins the
/// key at `k`: a scan of `lines` that runs to its end without a verdict
/// turns, on `longer`, into acceptance.
proof fn lemma_scan_reaches_pin(
    lines: Seq<Seq<char>>,
    longer: Seq<Seq<char>>,
    i: nat,
    k: nat,
    seen: ScanSeen,
    pattern: Seq<char>,
    key_type: Seq<char>,
    key_b64: Seq<char>,
    path: Seq<char>,
    content: Seq<char>,
    content2: Seq<char>,
)
    requires
        i <= k <= lines.len(),
        k < longer.len(),
        forall|j: int| 0 <= j < k ==> #[trigger] longer[j] == lines[j],
        longer[k as int] == pin_line(pattern, key_type, key_b64),
        pinnable(pattern, key_type, key_b64),
        scan_from(lines, i, seen, pattern, key_type, key_b64, path, content).0 == 1,
    ensures
        scan_from(longer, i, seen, pattern, key_type, key_b64, path, content2) == (0nat, Seq::<char>::empty()),
    decreases k - i,
{
    if i == k {
        lemma_scan_at_pin_line(longer, k, seen, pattern, key_type, key_b64, path, content2);
    } else {
        assert(longer[i as int] == lines[i as int]);
        let line = trim(lines[i as int]);
        if line.len() == 0 || line[0] == '#' {
            lemma_scan_reaches_pin(lines, longer, i + 1, k, seen, pattern, key_type, key_b64, path, content, content2);
        } else if starts_with(line, "|1|"@) {
            lemma_scan_reaches_pin(
                lines,
                longer,
                i + 1,
                k,
                ScanSeen { hashed: true, ..seen },
                pattern,
                key_type,
                key_b64,
                path,
                content,
                content2,
            );
        } else {
            let ws = ws_words(line);
            if ws.len() > 0 && ws[0] == "@revoked"@ {
                lemma_scan_reaches_pin(lines, longer, i + 1, k, seen, pattern, key_type, key_b64, path, content, content2);
            } else if ws.len() > 0 && ws[0] == "@cert-authority"@ {
                lemma_scan_reaches_pin(
                    lines,
                    longer,
                    i + 1,
                    k,
                    ScanSeen { cert: true, ..seen },
                    pattern,
                    key_type,
                    key_b64,
                    path,
                    content,
                    content2,
                );
            } else if ws.len() < 3 || !hosts_match(ws[0], pattern) {
                lemma_scan_reaches_pin(lines, longer, i + 1, k, seen, pattern, key_type, key_b64, path, content, content2);
            } else if ws[1] != key_type {
                lemma_scan_reaches_pin(
                    lines,
                    longer,
                    i + 1,
                    k,
                    ScanSeen { found: true, ..seen },
                    pattern,
                    key_type,
                    key_b64,
                    path,
                    content,
                    content2,
                );
            } else if ws[2] != key_b64 {
                lemma_scan_reaches_pin(
                    lines,
                    longer,
                    i + 1,
                    k,
                    ScanSeen { found: true, mismatch: true, ..seen },
                    pattern,
                    key_type,
                    key_b64,
                    path,
                    content,
                    content2,
                );
            }
        }
    }
}

/// Trust on first use: when the verdict on an unknown host's key is to pin
/// it, known_hosts with the pinned entry appended accepts that same key.
pub proof fn lemma_pinned_key_accepted(
    host: Seq<char>,
    port: u16,
    key_type: Seq<char>,
    key_b64: Seq<char>,
    path: Seq<char>,
    content: Seq<char>,
)
    requires
        known_host_verdict(host, port, key_type, key_b64, path, content).0 == 1,
        pinnable(host_pattern_of(host, port), key_type, key_b64),
    ensures
        known_host_verdict(
            host,
            port,
            key_type,
            key_b64,
            path,
            content + known_host_verdict(host, port, key_type, key_b64, path, content).1,
        ) == (0nat, Seq::<char>::empty()),
{
    reveal_strlit(" ");
    reveal_strlit("\n");
    let p = host_pattern_of(host, port);
    let init = ScanSeen { hashed: false, cert: false, found: false, mismatch: false };
    let lines = split_on(content, '\n');
    let entry = known_host_verdict(host, port, key_type, key_b64, path, content).1;
    lemma_scan_pin_text(lines, 0, init, p, key_type, key_b64, path, content);
    let line = pin_line(p, key_type, key_b64);
    assert(line =~= p + seq![' '] + key_type + seq![' '] + key_b64);
    assert forall|i: int| 0 <= i < line.len() implies line[i] != '\n' by {
        assert(is_ws('\n'));
        if i < p.len() {
            assert(line[i] == p[i]);
        } else if i == p.len() {
            assert(line[i] == ' ');
        } else if i < p.len() + 1 + key_type.len() {
            assert(line[i] == key_type[i - p.len() - 1]);
        } else if i == p.len() + 1 + key_type.len() {
            assert(line[i] == ' ');
        } else {
            assert(line[i] == key_b64[i - p.len() - 2 - key_type.len()]);
        }
    }
    let c2 = content + entry;
    let n = lines.len();
    lemma_split_on_nonempty(content, '\n');
    if content.len() == 0 || content.last() == '\n' {
        assert(entry =~= line + "\n"@);
        assert(c2 =~= (content + line).push('\n'));
        lemma_split_on_append(content, line, '\n');
        lemma_split_on_push_sep(content + line, '\n');
        assert(lines.last() =~= Seq::<char>::empty()) by {
            if content.len() > 0 {
                assert(lines == split_on(content.drop_last(), '\n').push(Seq::empty()));
            }
        }
        let longer = split_on(c2, '\n');
        assert(longer =~= lines.update(n - 1, line).push(Seq::empty()));
        lemma_scan_reaches_pin(lines, longer, 0, (n - 1) as nat, init, p, key_type, key_b64, path, content, c2);
    } else {
        assert(entry =~= "\n"@ + line + "\n"@);
        assert(c2 =~= (content.push('\n') + line).push('\n'));
        lemma_split_on_push_sep(content, '\n');
        lemma_split_on_append(content.push('\n'), line, '\n');
        lemma_split_on_push_sep(content.push('\n') + line, '\n');
        let longer = split_on(c2, '\n');
        assert(longer =~= lines.push(line).push(Seq::empty()));
        lemma_scan_reaches_pin(lines, longer, 0, n, init, p, key_type, key_b64, path, content, c2);
    }
}

/// Whether one of the comma-separated names of `hosts` is `pattern`.
fn hosts_match_exec(hosts: &str, pattern: &str) -> (r: bool)
    ensures
        r == hosts_match(hosts@, pattern@),
{
    let parts = split_chars(hosts, ',');
    let ghost ps = split_on(hosts@, ',');
    let mut i: usize = 0;
    while i < parts.len()
        invariant
            i <= parts.len(),
            parts@.map_values(|x: String| x@) == ps,
            ps == split_on(hosts@, ','),
            forall|k: int| 0 <= k < i ==> trim(#[trigger] ps[k]) != pattern@,
        decreases parts.len() - i,
    {
        let t = trim_str(parts[i].as_str());
        assert(ps[i as int] == parts@[i as int]@);
        if str_eq(t.as_str(), pattern) {
            return true;
        }
        i = i + 1;
    }
    false
}

/// Whether `v` starts with `|1|`, the mark of a hashed entry.
fn starts_hashed(v: &Vec<char>) -> (r: bool)
    ensures
        r == starts_with(v@, "|1|"@),
{
    proof {
        reveal_strlit("|1|");
        assert("|1|"@ =~= seq!['|', '1', '|']);
        if v@.len() >= 3 {
            assert(v@.subrange(0, 3) =~= seq![v@[0], v@[1], v@[2]]);
        }
    }
    v.len() >= 3 && v[0] == '|' && v[1] == '1' && v[2] == '|'
}

/// The verdict on a host key of type `key_type`, base64 `key_b64`, given
/// the text of the known_hosts file at `path`.
pub fn known_host_decision(
    host: &str,
    port: u16,
    key_type: &str,
    key_b64: &str,
    path: &str,
    content: &str,
) -> (r: KnownHostVerdict)
    ensures
        verdict_view(r) == known_host_verdict(host@, port, key_type@, key_b64@, path@, content@),
{
    let pattern = host_pattern(host, port);
    let lines = split_chars(content, '\n');
    let ghost ls = split_on(content@, '\n');
    let mut hashed = false;
    let mut cert = false;
    let mut found = false;
    let mut mismatch = false;
    let mut i: usize = 0;
    while i < lines.len()
        invariant
            i <= lines.len(),
            lines@.map_values(|x: String| x@) == ls,
            ls == split_on(content@, '\n'),
            pattern@ == host_pattern_of(host@, port),
            known_host_verdict(host@, port, key_type@, key_b64@, path@, content@) == scan_from(
                ls,
                i as nat,
                ScanSeen { hashed, cert, found, mismatch },
                pattern@,
                key_type@,
                key_b64@,
                path@,
                content@,
            ),
        decreases lines.len() - i,
    {
        assert(ls[i as int] == lines@[i as int]@);
        let line = trim_str(lines[i].as_str());
        let lv = chars_of(line.as_str());
        if lv.len() == 0 || lv[0] == '#' {
        } else if starts_hashed(&lv) {
            hashed = true;
        } else {
            let ws = split_words(line.as_str());
            let ghost wv = ws@.map_values(|x: String| x@);
            assert(ws.len() > 0 ==> wv[0] == ws@[0]@);
            if ws.len() > 0 && str_eq(ws[0].as_str(), "@revoked") {
                if ws.len() >= 4 {
                    assert(wv.drop_first()[0] == ws@[1]@);
                    assert(wv.drop_first()[1] == ws@[2]@);
                    assert(wv.drop_first()[2] == ws@[3]@);
                    if hosts_match_exec(ws[1].as_str(), pattern.as_str()) && str_eq(ws[2].as_str(), key_type)
                        && str_eq(ws[3].as_str(), key_b64) {
                        return KnownHostVerdict::Reject(revoked_message(pattern.as_str(), key_type, path));
                    }
                }
            } else if ws.len() > 0 && str_eq(ws[0].as_str(), "@cert-authority") {
                cert = true;
            } else if ws.len() < 3 || !hosts_match_exec(ws[0].as_str(), pattern.as_str()) {
            } else {
                assert(wv[1] == ws@[1]@);
                assert(wv[2] == ws@[2]@);
                if !str_eq(ws[1].as_str(), key_type) {
                    found = true;
                } else if str_eq(ws[2].as_str(), key_b64) {
                    return KnownHostVerdict::Accept;
                } else {
                    found = true;
                    mismatch = true;
                }
            }
        }
        i = i + 1;
    }
    if mismatch {
        return KnownHostVerdict::Reject(changed_message(pattern.as_str(), key_type, path));
    }
    if hashed && !found {
        let mut m = owned(path);
        push_str(&mut m, " contains hashed entries which this tool cannot verify. The host key for '");
        push_str(&mut m, pattern.as_str());
        push_str(
            &mut m,
            "' cannot be checked — refusing connection. Add a plaintext entry or use `ssh-keygen -R` and reconnect to re-pin.",
        );
        return KnownHostVerdict::Reject(m);
    }
    if cert && !found {
        let mut m = owned(path);
        push_str(&mut m, " contains @cert-authority entries which this tool cannot verify. The host key for '");
        push_str(&mut m, pattern.as_str());
        push_str(
            &mut m,
            "' cannot be checked — refusing connection. Add a plaintext host key entry or use ssh-keyscan to pin the key.",
        );
        return KnownHostVerdict::Reject(m);
    }
    let cv = chars_of(content);
    let mut entry = new_string();
    if cv.len() > 0 && cv[cv.len() - 1] != '\n' {
        push_str(&mut entry, "\n");
    }
    push_str(&mut entry, pattern.as_str());
    push_str(&mut entry, " ");
    push_str(&mut entry, key_type);
    push_str(&mut entry, " ");
    push_str(&mut entry, key_b64);
    push_str(&mut entry, "\n");
    proof {
        if !(cv.len() > 0 && cv@.last() != '\n') {
            assert(entry@ =~= Seq::<char>::empty() + pattern@ + " "@ + key_type@ + " "@ + key_b64@ + "\n"@);
        }
    }
    KnownHostVerdict::Pin(entry)
}

fn revoked_message(pattern: &str, key_type: &str, path: &str) -> (m: String)
    ensures
        m@ == revoked_msg(pattern@, key_type@, path@),
{
    let mut m = owned("HOST KEY REJECTED for '");
    push_str(&mut m, pattern);
    push_str(&mut m, "': the server's ");
    push_str(&mut m, key_type);
    push_str(&mut m, " key is explicitly revoked in ");
    push_str(&mut m, path);
    push_str(&mut m, ". Refusing connection.");
    m
}

fn changed_message(pattern: &str, key_type: &str, path: &str) -> (m: String)
    ensures
        m@ == changed_msg(pattern@, key_type@, path@),
{
    let mut m = owned("HOST KEY VERIFICATION FAILED for '");
    push_str(&mut m, pattern);
    push_str(&mut m, "': the server's ");
    push_str(&mut m, key_type);
    push_str(&mut m, " key has changed. This could indicate a MITM attack. Remove the old key from ");
    push_str(&mut m, path);
    push_str(&mut m, " to proceed.");
    m
}

/// The view of what reading known_hosts gave: missing (0), its text (1),
/// or the reason it could not be read (2).
pub open spec fn file_view(f: KnownHostsFile) -> (nat, Seq<char>) {
    match f {
        KnownHostsFile::Missing => (0, Seq::empty()),
        KnownHostsFile::Text(t) => (1, t@),
        KnownHostsFile::Unreadable(e) => (2, e@),
    }
}

/// The verdict on a host key given where known_hosts is and what reading
/// it gave.
pub open spec fn host_key_verdict(
    host: Seq<char>,
    port: u16,
    key_type: Seq<char>,
    key: Seq<u8>,
    path: Option<Seq<char>>,
    file: (nat, Seq<char>),
) -> (nat, Seq<char>) {
    match path {
        None => (0, Seq::empty()),
        Some(p) => if file.0 == 2 {
            (2, unreadable_msg(p, file.1))
        } else {
            known_host_verdict(host, port, key_type, b64(key), p, if file.0 == 0 {
                Seq::empty()
            } else {
                file.1
            })
        },
    }
}

/// Why known_hosts could not be used.
pub open spec fn unreadable_msg(path: Seq<char>, e: Seq<char>) -> Seq<char> {
    "cannot read "@ + path + ": "@ + e + " — host key verification skipped, refusing connection"@
}

/// The verdict on a server's host key, given its type, its encoding in the
/// SSH wire format, where known_hosts is (none without a home directory)
/// and what reading it gave.
pub fn check_known_host(
    host: &str,
    port: u16,
    key_type: &str,
    key_bytes: &Vec<u8>,
    known_hosts_path: Option<&str>,
    file: &KnownHostsFile,
) -> (r: KnownHostVerdict)
    ensures
        verdict_view(r) == host_key_verdict(
            host@,
            port,
            key_type@,
            key_bytes@,
            match known_hosts_path {
                Some(p) => Some(p@),
                None => None,
            },
            file_view(*file),
        ),
{
    let key_b64 = encode_base64(key_bytes.as_slice());
    let path = match known_hosts_path {
        Some(p) => p,
        None => return KnownHostVerdict::Accept,
    };
    match file {
        KnownHostsFile::Unreadable(e) => {
            let mut m = owned("cannot read ");
            push_str(&mut m, path);
            push_str(&mut m, ": ");
            push_str(&mut m, e.as_str());
            push_str(&mut m, " — host key verification skipped, refusing connection");
            assert(m@ =~= unreadable_msg(path@, e@));
            KnownHostVerdict::Reject(m)
        },
        KnownHostsFile::Missing => {
            proof {
                reveal_strlit("");
            }
            let r = known_host_decision(host, port, key_type, key_b64.as_str(), path, "");
            assert(""@ =~= Seq::<char>::empty());
            assert(verdict_view(r) == host_key_verdict(host@, port, key_type@, key_bytes@, Some(path@), file_view(*file)));
            r
        },
        KnownHostsFile::Text(t) => {
            let r = known_host_decision(host, port, key_type, key_b64.as_str(), path, t.as_str());
            assert(verdict_view(r) == host_key_verdict(host@, port, key_type@, key_bytes@, Some(path@), file_view(*file)));
            r
        },
    }
}

/// Why pinning a host key failed: the file could not be opened
/// (`opened` false) or written.
pub fn pin_failure_message(path: &str, error: &str, opened: bool) -> (m: String)
    ensures
        m@ == if opened {
            "could not write TOFU entry to "@ + path@ + ": "@ + error@
                + " — refusing connection (host key would be unpinned)"@
        } else {
            "could not open "@ + path@ + " for writing: "@ + error@
                + " — refusing connection (host key would be unpinned)"@
        },
{
    let mut m = if opened {
        owned("could not write TOFU entry to ")
    } else {
        owned("could not open ")
    };
    push_str(&mut m, path);
    if opened {
        push_str(&mut m, ": ");
    } else {
        push_str(&mut m, " for writing: ");
    }
    push_str(&mut m, error);
    push_str(&mut m, " — refusing connection (host key would be unpinned)");
    m
}

/// What `s.parse::<u16>()` accepts: an optional `+`, then one or more
/// ASCII digits whose value fits in 16 bits.
pub open spec fn parse_u16(s: Seq<char>) -> Option<u16> {
    let d = port_digits(s);
    if d.len() > 0 && (forall|i: int| 0 <= i < d.len() ==> crate::text::is_ascii_digit(#[trigger] d[i]))
        && digits_value(d) <= u16::MAX {
        Some(digits_value(d) as u16)
    } else {
        None
    }
}

/// Rust's `s.parse::<u16>()` of the characters `v[from..]`.
pub fn parse_port(v: &Vec<char>, from: usize) -> (r: Option<u16>)
    requires
        from <= v.len(),
    ensures
        r == parse_u16(v@.subrange(from as int, v@.len() as int)),
{
    let ghost s = v@.subrange(from as int, v@.len() as int);
    let start: usize = if from < v.len() && v[from] == '+' {
        from + 1
    } else {
        from
    };
    let ghost d = port_digits(s);
    assert(d =~= v@.subrange(start as int, v@.len() as int));
    if start >= v.len() {
        return None;
    }
    let mut val: u32 = 0;
    let mut i: usize = start;
    while i < v.len()
        invariant
            from <= start <= i <= v.len(),
            s == v@.subrange(from as int, v@.len() as int),
            d == port_digits(s),
            d.len() > 0,
            d == v@.subrange(start as int, v@.len() as int),
            val == digits_value(v@.subrange(start as int, i as int)),
            val <= u16::MAX,
            forall|k: int| start <= k < i ==> crate::text::is_ascii_digit(#[trigger] v@[k]),
        decreases v.len() - i,
    {
        let c = v[i];
        if !('0' <= c && c <= '9') {
            assert(!crate::text::is_ascii_digit(d[i - start]));
            return None;
        }
        let digit = (c as u32) - ('0' as u32);
        assert(v@.subrange(start as int, i + 1).drop_last() =~= v@.subrange(start as int, i as int));
        let nv = val * 10 + digit;
        assert(digits_value(v@.subrange(start as int, i + 1)) == nv);
        if nv > u16::MAX as u32 {
            proof {
                assert forall|k: int| 0 <= k < (i + 1 - start) implies crate::text::is_ascii_digit(
                    #[trigger] d.subrange(0, (i + 1 - start) as int)[k],
                ) by {
                    assert(d.subrange(0, (i + 1 - start) as int)[k] == v@[start + k]);
                }
                if forall|k: int| 0 <= k < d.len() ==> crate::text::is_ascii_digit(#[trigger] d[k]) {
                    lemma_digits_value_grows(d, (i + 1 - start) as int);
                }
                assert(d.subrange(0, (i + 1 - start) as int) =~= v@.subrange(start as int, i + 1));
            }
            return None;
        }
        val = nv;
        i = i + 1;
    }
    assert(v@.subrange(start as int, v.len() as int) =~= d);
    Some(val as u16)
}

/// Index of the first `]:` in `s`, or -1.
pub open spec fn bracket_colon(s: Seq<char>) -> int {
    if exists|i: int| 0 <= i < s.len() - 1 && s[i] == ']' && #[trigger] s[i + 1] == ':' {
        choose|i: int|
            0 <= i < s.len() - 1 && s[i] == ']' && #[trigger] s[i + 1] == ':' && forall|j: int|
                0 <= j < i ==> !(#[trigger] s[j] == ']' && s[j + 1] == ':')
    } else {
        -1
    }
}

/// Index of the last `:` in `s`, or -1.
pub open spec fn last_colon(s: Seq<char>) -> int {
    if exists|i: int| 0 <= i < s.len() && #[trigger] s[i] == ':' {
        choose|i: int| 0 <= i < s.len() && #[trigger] s[i] == ':' && forall|j: int| i < j < s.len() ==> s[j] != ':'
    } else {
        -1
    }
}

/// Host and port of an address such as `1.2.3.4:22` or `[::1]:22`; a bare
/// IPv6 address, or a port that does not parse, gives port 22.
pub open spec fn host_port_of(addr: Seq<char>) -> (Seq<char>, u16) {
    let b = bracket_colon(addr);
    if b >= 0 {
        (addr.subrange(0, b + 1), match parse_u16(addr.subrange(b + 2, addr.len() as int)) {
            Some(p) => p,
            None => 22,
        })
    } else {
        let c = last_colon(addr);
        if c < 0 {
            (addr, 22)
        } else if exists|j: int| 0 <= j < c && #[trigger] addr[j] == ':' {
            (addr, 22)
        } else {
            (addr.subrange(0, c), match parse_u16(addr.subrange(c + 1, addr.len() as int)) {
                Some(p) => p,
                None => 22,
            })
        }
    }
}

/// Splits an address into host and port.
pub fn parse_host_port(addr: &str) -> (r: (String, u16))
    ensures
        (r.0@, r.1) == host_port_of(addr@),
{
    let v = chars_of(addr);
    let n = v.len();
    let mut i: usize = 0;
    while n >= 2 && i < n - 1
        invariant
            n == v.len(),
            v@ == addr@,
            i <= n,
            forall|j: int| 0 <= j < i && j < n - 1 ==> !(v@[j] == ']' && #[trigger] v@[j + 1] == ':'),
        decreases n - i,
    {
        if v[i] == ']' && v[i + 1] == ':' {
            proof {
                let k = choose|k: int|
                    0 <= k < v@.len() - 1 && v@[k] == ']' && #[trigger] v@[k + 1] == ':' && forall|j: int|
                        0 <= j < k ==> !(#[trigger] v@[j] == ']' && v@[j + 1] == ':');
                assert(0 <= i < v@.len() - 1 && v@[i as int] == ']' && v@[i + 1] == ':' && forall|j: int|
                    0 <= j < i ==> !(#[trigger] v@[j] == ']' && v@[j + 1] == ':'));
                if k < i {
                    assert(v@[k + 1] == ':');
                } else if k > i {
                    assert(!(v@[i as int] == ']' && v@[i + 1] == ':'));
                }
            }
            let host = string_from_chars(&v, 0, i + 1);
            let port = match parse_port(&v, i + 2) {
                Some(p) => p,
                None => 22,
            };
            return (host, port);
        }
        i = i + 1;
    }
    assert forall|j: int| 0 <= j < v@.len() - 1 implies !(v@[j] == ']' && #[trigger] v@[j + 1] == ':') by {}
    assert(bracket_colon(v@) == -1);
    let mut c: usize = n;
    while c > 0 && v[c - 1] != ':'
        invariant
            c <= n,
            n == v.len(),
            forall|j: int| c <= j < n ==> v@[j] != ':',
        decreases c,
    {
        c = c - 1;
    }
    if c == 0 {
        assert(!(exists|i: int| 0 <= i < v@.len() && #[trigger] v@[i] == ':'));
        return (owned(addr), 22);
    }
    let ci = c - 1;
    proof {
        let k = choose|k: int| 0 <= k < v@.len() && #[trigger] v@[k] == ':' && forall|j: int| k < j < v@.len() ==> v@[j] != ':';
        assert(0 <= ci < v@.len() && v@[ci as int] == ':' && forall|j: int| ci < j < v@.len() ==> v@[j] != ':');
        if k < ci {
            assert(v@[ci as int] == ':');
        } else if k > ci {
            assert(v@[k] == ':');
        }
        assert(last_colon(v@) == ci);
    }
    let mut j: usize = 0;
    while j < ci
        invariant
            j <= ci,
            ci < n,
            n == v.len(),
            v@ == addr@,
            last_colon(v@) == ci,
            bracket_colon(v@) == -1,
            forall|m: int| 0 <= m < j ==> v@[m] != ':',
        decreases ci - j,
    {
        if v[j] == ':' {
            assert(v@[j as int] == ':');
            return (owned(addr), 22);
        }
        j = j + 1;
    }
    let host = string_from_chars(&v, 0, ci);
    let port = match parse_port(&v, ci + 1) {
        Some(p) => p,
        None => 22,
    };
    (host, port)
}

} // verus!
