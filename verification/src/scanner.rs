//! Parsers and table builders for the OS enumeration sources.
//!
//! The socket table builder consumes the text of one batched TCP-connection
//! enumeration (`netstat -ano -p TCP`): it keeps LISTEN-state rows only,
//! extracts the port from the trailing `:port` suffix of the local address
//! (matching on the last colon, so bracketed IPv6 literals parse too),
//! drops process id 0 and ports below 1024, and skips malformed lines. The
//! name resolver consumes the text of one batched process enumeration
//! (`tasklist /FO CSV /NH`), reading exactly the first two quoted fields of
//! each row with quote-aware scanning, so embedded commas in later fields
//! cannot misalign them. Uptime and working-directory tables are built from
//! per-process probe results; a probe that failed leaves its process out.

use crate::tables;
use crate::text;
use vstd::prelude::*;

verus! {

/// Ports a process listens on, keyed by process id.
pub type PortTable = Vec<(u32, Vec<u16>)>;

/// Executable name of each process.
pub type NameTable = Vec<(u32, String)>;

/// Whole seconds each process has been running.
pub type UptimeTable = Vec<(u32, u64)>;

/// Working directory of each process that could be introspected.
pub type CwdTable = Vec<(u32, String)>;

/// A port set is deduplicated and holds non-privileged ports only.
pub open spec fn ports_wf(ps: Seq<u16>) -> bool {
    (forall|k: int| 0 <= k < ps.len() ==> #[trigger] ps[k] >= 1024) && (forall|k: int, l: int|
        0 <= k < l < ps.len() ==> ps[k] != ps[l])
}

/// A port table has unique nonzero process ids, each with a nonempty,
/// deduplicated set of non-privileged ports.
pub open spec fn port_table_wf(t: Seq<(u32, Seq<u16>)>) -> bool {
    tables::unique_keys(t) && (forall|i: int|
        0 <= i < t.len() ==> (#[trigger] t[i]).0 != 0 && t[i].1.len() > 0 && ports_wf(t[i].1))
}

/// Record that `pid` listens on `port`: extend its port set unless the port
/// is already present, or open a new entry.
pub open spec fn spec_add_listener(
    t: Seq<(u32, Seq<u16>)>,
    pid: u32,
    port: u16,
) -> Seq<(u32, Seq<u16>)> {
    match tables::spec_find_key(t, pid) {
        Some(i) => if t[i].1.contains(port) {
            t
        } else {
            t.update(i, (pid, t[i].1.push(port)))
        },
        None => t.push((pid, seq![port])),
    }
}

/// Adding a valid listener preserves table well-formedness.
pub proof fn lemma_add_listener_wf(t: Seq<(u32, Seq<u16>)>, pid: u32, port: u16)
    requires
        port_table_wf(t),
        pid != 0,
        port >= 1024,
    ensures
        port_table_wf(spec_add_listener(t, pid, port)),
{
    tables::lemma_find_key_bounds(t, pid);
    match tables::spec_find_key(t, pid) {
        Some(i) => {
            if !t[i].1.contains(port) {
                let r = t.update(i, (pid, t[i].1.push(port)));
                assert forall|k: int, l: int| 0 <= k < l < r[i].1.len() implies r[i].1[k]
                    != r[i].1[l] by {
                    if l == r[i].1.len() - 1 {
                        assert(t[i].1[k] == r[i].1[k]);
                    }
                }
                assert(port_table_wf(r));
            }
        },
        None => {
            let r = t.push((pid, seq![port]));
            assert(ports_wf(seq![port]));
            assert(port_table_wf(r));
        },
    }
}

/// Whether the port set already holds `port`.
fn contains_port(ps: &Vec<u16>, port: u16) -> (r: bool)
    ensures
        r == ps@.contains(port),
{
    let n = ps.len();
    let mut i: usize = 0;
    while i < n
        invariant
            n == ps@.len(),
            0 <= i <= n,
            forall|j: int| 0 <= j < i ==> ps@[j] != port,
        decreases n - i,
    {
        if ps[i] == port {
            return true;
        }
        i += 1;
    }
    false
}

/// Executable counterpart of [`spec_add_listener`].
fn add_listener(t: &mut PortTable, pid: u32, port: u16)
    ensures
        final(t).deep_view() == spec_add_listener(old(t).deep_view(), pid, port),
{
    let ghost t0 = old(t).deep_view();
    proof {
        assert forall|j: int| 0 <= j < t@.len() implies (#[trigger] t0[j]).0 == t@[j].0 by {}
    }
    match tables::find_key(t, pid) {
        Some(i) => {
            proof {
                tables::lemma_find_key_some(t0, pid, i as int);
                assert(t0[i as int].1 =~= t@[i as int].1@);
            }
            if contains_port(&t[i].1, port) {
                return ;
            }
            let mut entry = t.remove(i);
            entry.1.push(port);
            t.insert(i, entry);
            proof {
                assert(t.deep_view() =~~= t0.update(
                    i as int,
                    (pid, t0[i as int].1.push(port)),
                ));
            }
        },
        None => {
            proof {
                tables::lemma_find_key_none(t0, pid);
            }
            let mut ports: Vec<u16> = Vec::new();
            ports.push(port);
            t.push((pid, ports));
            proof {
                assert(t.deep_view() =~~= t0.push((pid, seq![port])));
            }
        },
    }
}

/// Port of a textual socket address: the decimal suffix after the last
/// colon, so every address form — IPv4, wildcard, bracketed IPv6 — yields
/// its port.
pub open spec fn spec_extract_port(addr: Seq<char>) -> Option<u16> {
    match text::spec_rfind_char(addr, ':') {
        Some(i) => text::spec_parse_u16(addr.subrange(i + 1, addr.len() as int)),
        None => None,
    }
}

/// Executable counterpart of [`spec_extract_port`].
pub fn extract_port(addr: &str) -> (r: Option<u16>)
    ensures
        r == spec_extract_port(addr@),
{
    proof {
        text::lemma_rfind_char(addr@, ':');
    }
    let n = addr.unicode_len();
    match text::rfind_char(addr, ':') {
        Some(i) => text::parse_u16(addr.substring_char(i + 1, n)),
        None => None,
    }
}

/// Effect of one enumeration row on the port table: a trimmed LISTEN-state
/// row with at least five fields contributes its (pid, port) pair when the
/// address has a parsable port >= 1024 and the pid parses nonzero; every
/// other row changes nothing.
pub open spec fn spec_netstat_line(
    t: Seq<(u32, Seq<u16>)>,
    line: Seq<char>,
) -> Seq<(u32, Seq<u16>)> {
    let ln = text::spec_trim(line);
    if !text::spec_contains_seq(ln, "LISTENING"@) {
        t
    } else {
        let fs = text::spec_fields(ln);
        if fs.len() < 5 {
            t
        } else {
            match (spec_extract_port(fs[1]), text::spec_parse_u32(fs[4])) {
                (Some(port), Some(pid)) => if pid != 0 && port >= 1024 {
                    spec_add_listener(t, pid, port)
                } else {
                    t
                },
                _ => t,
            }
        }
    }
}

/// Executable counterpart of [`spec_netstat_line`].
fn netstat_line(t: &mut PortTable, line: &str)
    ensures
        final(t).deep_view() == spec_netstat_line(old(t).deep_view(), line@),
{
    let ln = text::trim(line);
    if !text::contains_str(ln, "LISTENING") {
        return ;
    }
    let fs = text::split_fields(ln);
    if fs.len() < 5 {
        return ;
    }
    proof {
        assert(fs.deep_view()[1] == fs@[1]@);
        assert(fs.deep_view()[4] == fs@[4]@);
    }
    let port = extract_port(fs[1].as_str());
    let pid = text::parse_u32(fs[4].as_str());
    match (port, pid) {
        (Some(p), Some(id)) => {
            if id != 0 && p >= 1024 {
                add_listener(t, id, p);
            }
        },
        _ => {},
    }
}

/// Effect of a whole enumeration text: its lines, split on newlines, folded
/// over the table in order.
pub open spec fn spec_netstat(t: Seq<(u32, Seq<u16>)>, s: Seq<char>) -> Seq<(u32, Seq<u16>)>
    decreases s.len(),
    via spec_netstat_decreases
{
    match text::spec_find_char(s, '\n') {
        Some(i) => spec_netstat(
            spec_netstat_line(t, s.subrange(0, i)),
            s.subrange(i + 1, s.len() as int),
        ),
        None => spec_netstat_line(t, s),
    }
}

#[via_fn]
proof fn spec_netstat_decreases(t: Seq<(u32, Seq<u16>)>, s: Seq<char>) {
    text::lemma_find_char(s, '\n');
}

/// Folding enumeration text over a well-formed table keeps it well-formed.
pub proof fn lemma_netstat_line_wf(t: Seq<(u32, Seq<u16>)>, line: Seq<char>)
    requires
        port_table_wf(t),
    ensures
        port_table_wf(spec_netstat_line(t, line)),
{
    let ln = text::spec_trim(line);
    if text::spec_contains_seq(ln, "LISTENING"@) {
        let fs = text::spec_fields(ln);
        if fs.len() >= 5 {
            match (spec_extract_port(fs[1]), text::spec_parse_u32(fs[4])) {
                (Some(port), Some(pid)) => {
                    if pid != 0 && port >= 1024 {
                        lemma_add_listener_wf(t, pid, port);
                    }
                },
                _ => {},
            }
        }
    }
}

/// See [`lemma_netstat_line_wf`], over a whole text.
pub proof fn lemma_netstat_wf(t: Seq<(u32, Seq<u16>)>, s: Seq<char>)
    requires
        port_table_wf(t),
    ensures
        port_table_wf(spec_netstat(t, s)),
    decreases s.len(),
{
    text::lemma_find_char(s, '\n');
    match text::spec_find_char(s, '\n') {
        Some(i) => {
            lemma_netstat_line_wf(t, s.subrange(0, i));
            lemma_netstat_wf(spec_netstat_line(t, s.subrange(0, i)), s.subrange(i + 1, s.len() as int));
        },
        None => {
            lemma_netstat_line_wf(t, s);
        },
    }
}

/// Executable counterpart of [`spec_netstat`].
fn netstat_lines(t: &mut PortTable, part: &str)
    ensures
        final(t).deep_view() == spec_netstat(old(t).deep_view(), part@),
    decreases part@.len(),
{
    proof {
        text::lemma_find_char(part@, '\n');
    }
    let n = part.unicode_len();
    match text::find_char(part, '\n') {
        Some(i) => {
            netstat_line(t, part.substring_char(0, i));
            netstat_lines(t, part.substring_char(i + 1, n));
        },
        None => {
            netstat_line(t, part);
        },
    }
}

/// Build the port table from the text of one TCP-connection enumeration.
/// A failed enumeration hands in an empty text and yields an empty table.
pub fn parse_netstat_output(output: &str) -> (r: PortTable)
    ensures
        r.deep_view() == spec_netstat(Seq::empty(), output@),
        port_table_wf(r.deep_view()),
{
    let mut t: PortTable = Vec::new();
    proof {
        assert(t.deep_view() =~= Seq::<(u32, Seq<u16>)>::empty());
        lemma_netstat_wf(Seq::empty(), output@);
    }
    netstat_lines(&mut t, output);
    t
}

/// The first two quoted fields of a CSV row, by quote-aware scanning: the
/// row must start with a quoted field, immediately followed by a comma and
/// a second quoted field. Embedded commas inside later fields are harmless
/// because scanning never goes past the second field.
pub open spec fn spec_csv_first_two(line: Seq<char>) -> Option<(Seq<char>, Seq<char>)> {
    let t = text::spec_trim(line);
    if t.len() == 0 || t[0] != '"' {
        None
    } else {
        match text::spec_find_char(t.subrange(1, t.len() as int), '"') {
            None => None,
            Some(e1) => {
                let name = t.subrange(1, 1 + e1);
                let rest = t.subrange(2 + e1, t.len() as int);
                if rest.len() < 2 || rest[0] != ',' || rest[1] != '"' {
                    None
                } else {
                    match text::spec_find_char(rest.subrange(2, rest.len() as int), '"') {
                        None => None,
                        Some(e2) => Some(
                            (name, rest.subrange(2, rest.len() as int).subrange(0, e2)),
                        ),
                    }
                }
            },
        }
    }
}

/// Executable counterpart of [`spec_csv_first_two`].
pub fn parse_csv_first_two(line: &str) -> (r: Option<(String, String)>)
    ensures
        match r {
            Some(p) => spec_csv_first_two(line@) == Some((p.0@, p.1@)),
            None => spec_csv_first_two(line@) is None,
        },
{
    let t = text::trim(line);
    let n = t.unicode_len();
    if n == 0 {
        return None;
    }
    if t.get_char(0) != '"' {
        return None;
    }
    let sub1 = t.substring_char(1, n);
    proof {
        text::lemma_find_char(sub1@, '"');
    }
    match text::find_char(sub1, '"') {
        None => None,
        Some(e1) => {
            let name = t.substring_char(1, 1 + e1);
            let rest = t.substring_char(2 + e1, n);
            let m = rest.unicode_len();
            if m < 2 {
                return None;
            }
            if rest.get_char(0) != ',' {
                return None;
            }
            if rest.get_char(1) != '"' {
                return None;
            }
            let sub2 = rest.substring_char(2, m);
            proof {
                text::lemma_find_char(sub2@, '"');
            }
            match text::find_char(sub2, '"') {
                None => None,
                Some(e2) => Some((name.to_owned(), sub2.substring_char(0, e2).to_owned())),
            }
        },
    }
}

/// Set the name recorded for `pid`, replacing an earlier row's entry.
pub open spec fn spec_add_name(
    t: Seq<(u32, Seq<char>)>,
    pid: u32,
    name: Seq<char>,
) -> Seq<(u32, Seq<char>)> {
    match tables::spec_find_key(t, pid) {
        Some(i) => t.update(i, (pid, name)),
        None => t.push((pid, name)),
    }
}

/// Setting a name preserves key uniqueness.
pub proof fn lemma_add_name_wf(t: Seq<(u32, Seq<char>)>, pid: u32, name: Seq<char>)
    requires
        tables::unique_keys(t),
    ensures
        tables::unique_keys(spec_add_name(t, pid, name)),
{
    tables::lemma_find_key_bounds(t, pid);
}

/// Effect of one process-enumeration row on the name table: a row whose
/// first two quoted fields hold a nonempty name and a parsable pid records
/// that name; every other row changes nothing.
pub open spec fn spec_tasklist_line(
    t: Seq<(u32, Seq<char>)>,
    line: Seq<char>,
) -> Seq<(u32, Seq<char>)> {
    if text::spec_trim(line).len() == 0 {
        t
    } else {
        match spec_csv_first_two(line) {
            Some(p) => match text::spec_parse_u32(p.1) {
                Some(pid) => if p.0.len() > 0 {
                    spec_add_name(t, pid, p.0)
                } else {
                    t
                },
                None => t,
            },
            None => t,
        }
    }
}

/// Executable counterpart of [`spec_tasklist_line`].
fn tasklist_line(t: &mut NameTable, line: &str)
    ensures
        final(t).deep_view() == spec_tasklist_line(old(t).deep_view(), line@),
{
    let ghost t0 = old(t).deep_view();
    if text::trim(line).unicode_len() == 0 {
        return ;
    }
    match parse_csv_first_two(line) {
        Some(p) => {
            match text::parse_u32(p.1.as_str()) {
                Some(pid) => {
                    if p.0.as_str().unicode_len() > 0 {
                        proof {
                            assert forall|j: int| 0 <= j < t@.len() implies (#[trigger] t0[j]).0
                                == t@[j].0 by {}
                        }
                        match tables::find_key(t, pid) {
                            Some(i) => {
                                proof {
                                    tables::lemma_find_key_some(t0, pid, i as int);
                                }
                                let _ = t.remove(i);
                                t.insert(i, (pid, p.0));
                                proof {
                                    assert(t.deep_view() =~~= t0.update(i as int, (pid, p.0@)));
                                }
                            },
                            None => {
                                proof {
                                    tables::lemma_find_key_none(t0, pid);
                                }
                                t.push((pid, p.0));
                                proof {
                                    assert(t.deep_view() =~~= t0.push((pid, p.0@)));
                                }
                            },
                        }
                    }
                },
                None => {},
            }
        },
        None => {},
    }
}

/// Effect of a whole process-enumeration text on the name table.
pub open spec fn spec_tasklist(t: Seq<(u32, Seq<char>)>, s: Seq<char>) -> Seq<(u32, Seq<char>)>
    decreases s.len(),
    via spec_tasklist_decreases
{
    match text::spec_find_char(s, '\n') {
        Some(i) => spec_tasklist(
            spec_tasklist_line(t, s.subrange(0, i)),
            s.subrange(i + 1, s.len() as int),
        ),
        None => spec_tasklist_line(t, s),
    }
}

#[via_fn]
proof fn spec_tasklist_decreases(t: Seq<(u32, Seq<char>)>, s: Seq<char>) {
    text::lemma_find_char(s, '\n');
}

/// Folding enumeration text over a name table keeps its keys unique.
pub proof fn lemma_tasklist_wf(t: Seq<(u32, Seq<char>)>, s: Seq<char>)
    requires
        tables::unique_keys(t),
    ensures
        tables::unique_keys(spec_tasklist(t, s)),
    decreases s.len(),
{
    text::lemma_find_char(s, '\n');
    match text::spec_find_char(s, '\n') {
        Some(i) => {
            let line = s.subrange(0, i);
            lemma_tasklist_line_unique(t, line);
            lemma_tasklist_wf(spec_tasklist_line(t, line), s.subrange(i + 1, s.len() as int));
        },
        None => {
            lemma_tasklist_line_unique(t, s);
        },
    }
}

/// One row's effect keeps keys unique.
proof fn lemma_tasklist_line_unique(t: Seq<(u32, Seq<char>)>, line: Seq<char>)
    requires
        tables::unique_keys(t),
    ensures
        tables::unique_keys(spec_tasklist_line(t, line)),
{
    if text::spec_trim(line).len() != 0 {
        match spec_csv_first_two(line) {
            Some(p) => match text::spec_parse_u32(p.1) {
                Some(pid) => {
                    if p.0.len() > 0 {
                        lemma_add_name_wf(t, pid, p.0);
                    }
                },
                None => {},
            },
            None => {},
        }
    }
}

/// Executable counterpart of [`spec_tasklist`].
fn tasklist_lines(t: &mut NameTable, part: &str)
    ensures
        final(t).deep_view() == spec_tasklist(old(t).deep_view(), part@),
    decreases part@.len(),
{
    proof {
        text::lemma_find_char(part@, '\n');
    }
    let n = part.unicode_len();
    match text::find_char(part, '\n') {
        Some(i) => {
            tasklist_line(t, part.substring_char(0, i));
            tasklist_lines(t, part.substring_char(i + 1, n));
        },
        None => {
            tasklist_line(t, part);
        },
    }
}

/// Build the name table from the text of one bulk process enumeration.
/// A failed enumeration hands in an empty text and yields an empty table.
pub fn parse_tasklist_output(output: &str) -> (r: NameTable)
    ensures
        r.deep_view() == spec_tasklist(Seq::empty(), output@),
        tables::unique_keys(r.deep_view()),
{
    let mut t: NameTable = Vec::new();
    proof {
        assert(t.deep_view() =~= Seq::<(u32, Seq<char>)>::empty());
        lemma_tasklist_wf(Seq::empty(), output@);
    }
    tasklist_lines(&mut t, output);
    t
}

/// Uptime in whole seconds from a creation timestamp and the current time,
/// both in 100-nanosecond intervals of the system epoch. A creation time
/// in the future reads as zero.
pub open spec fn spec_uptime_seconds(creation: u64, now: u64) -> u64 {
    if creation <= now {
        ((now - creation) / 10_000_000) as u64
    } else {
        0
    }
}

/// Record one time probe: a probe with creation time 0 failed and is
/// dropped, and the first probe for a process wins.
pub open spec fn spec_add_uptime(
    t: Seq<(u32, u64)>,
    pid: u32,
    creation: u64,
    now: u64,
) -> Seq<(u32, u64)> {
    if creation == 0 {
        t
    } else {
        match tables::spec_find_key(t, pid) {
            Some(_) => t,
            None => t.push((pid, spec_uptime_seconds(creation, now))),
        }
    }
}

/// The uptime table of a batch of time probes, folded from index `i` on.
pub open spec fn spec_uptimes(
    t: Seq<(u32, u64)>,
    probes: Seq<(u32, u64)>,
    i: int,
    now: u64,
) -> Seq<(u32, u64)>
    decreases probes.len() - i,
{
    if i < 0 || i >= probes.len() {
        t
    } else {
        spec_uptimes(spec_add_uptime(t, probes[i].0, probes[i].1, now), probes, i + 1, now)
    }
}

/// Build the uptime table from per-process creation-time probes, given the
/// current system time. Each entry is (pid, creation time); a probe whose
/// time could not be read carries 0 and leaves its process out. Partial
/// failures are independent: every other probe still contributes.
pub fn get_all_uptimes(probes: &Vec<(u32, u64)>, now: u64) -> (r: UptimeTable)
    ensures
        r@ == spec_uptimes(Seq::empty(), probes@, 0, now),
        tables::unique_keys(r@),
{
    let n = probes.len();
    let mut r: UptimeTable = Vec::new();
    proof {
        assert(r@ =~= Seq::<(u32, u64)>::empty());
    }
    let mut i: usize = 0;
    while i < n
        invariant
            n == probes@.len(),
            0 <= i <= n,
            tables::unique_keys(r@),
            spec_uptimes(r@, probes@, i as int, now) == spec_uptimes(
                Seq::empty(),
                probes@,
                0,
                now,
            ),
        decreases n - i,
    {
        let (pid, creation) = probes[i];
        if creation != 0 {
            match tables::find_key(&r, pid) {
                Some(k) => {
                    proof {
                        tables::lemma_find_key_some(r@, pid, k as int);
                    }
                },
                None => {
                    proof {
                        tables::lemma_find_key_none(r@, pid);
                    }
                    let up = if creation <= now {
                        (now - creation) / 10_000_000
                    } else {
                        0
                    };
                    let ghost r0 = r@;
                    r.push((pid, up));
                    proof {
                        assert forall|a: int, b: int| 0 <= a < b < r@.len() implies (
                        #[trigger] r@[a]).0 != (#[trigger] r@[b]).0 by {
                            if b == r@.len() - 1 {
                                assert(r@[a] == r0[a]);
                            }
                        }
                    }
                },
            }
        }
        i += 1;
    }
    r
}

/// Record one working-directory probe: a failed read leaves its process
/// out, and the first probe for a process wins.
pub open spec fn spec_add_cwd(
    t: Seq<(u32, Seq<char>)>,
    pid: u32,
    cwd: Option<Seq<char>>,
) -> Seq<(u32, Seq<char>)> {
    match cwd {
        None => t,
        Some(c) => match tables::spec_find_key(t, pid) {
            Some(_) => t,
            None => t.push((pid, c)),
        },
    }
}

/// The working-directory table of a batch of probe results, folded from
/// index `i` on.
pub open spec fn spec_cwds(
    t: Seq<(u32, Seq<char>)>,
    results: Seq<(u32, Option<Seq<char>>)>,
    i: int,
) -> Seq<(u32, Seq<char>)>
    decreases results.len() - i,
{
    if i < 0 || i >= results.len() {
        t
    } else {
        spec_cwds(spec_add_cwd(t, results[i].0, results[i].1), results, i + 1)
    }
}

/// Build the working-directory table from per-process introspection
/// results. Each entry is (pid, recovered directory); a process whose
/// directory could not be read carries `None` and is left out, and one
/// failure never aborts the batch.
pub fn get_all_process_cwds(results: &Vec<(u32, Option<String>)>) -> (r: CwdTable)
    ensures
        r.deep_view() == spec_cwds(Seq::empty(), results.deep_view(), 0),
        tables::unique_keys(r.deep_view()),
{
    let n = results.len();
    let mut r: CwdTable = Vec::new();
    proof {
        assert(r.deep_view() =~= Seq::<(u32, Seq<char>)>::empty());
    }
    let mut i: usize = 0;
    while i < n
        invariant
            n == results@.len(),
            0 <= i <= n,
            tables::unique_keys(r.deep_view()),
            spec_cwds(r.deep_view(), results.deep_view(), i as int) == spec_cwds(
                Seq::empty(),
                results.deep_view(),
                0,
            ),
        decreases n - i,
    {
        let ghost r0 = r.deep_view();
        proof {
            assert(results.deep_view()[i as int] == (
                results@[i as int].0,
                results@[i as int].1.deep_view(),
            ));
            assert forall|j: int| 0 <= j < r@.len() implies (#[trigger] r0[j]).0 == r@[j].0 by {}
        }
        let pid = results[i].0;
        match &results[i].1 {
            Some(c) => {
                match tables::find_key(&r, pid) {
                    Some(k) => {
                        proof {
                            tables::lemma_find_key_some(r0, pid, k as int);
                        }
                    },
                    None => {
                        proof {
                            tables::lemma_find_key_none(r0, pid);
                        }
                        r.push((pid, c.clone()));
                        proof {
                            assert(r.deep_view() =~~= r0.push((pid, c@)));
                            assert forall|a: int, b: int|
                                0 <= a < b < r.deep_view().len() implies (
                            #[trigger] r.deep_view()[a]).0 != (#[trigger] r.deep_view()[b]).0 by {
                                if b == r.deep_view().len() - 1 {
                                    assert(r.deep_view()[a] == r0[a]);
                                }
                            }
                        }
                    },
                }
            },
            None => {},
        }
        i += 1;
    }
    r
}

} // verus!
