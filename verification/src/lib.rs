//! Discovery and classification of local TCP listeners.
//!
//! The library is the computational core of a listener monitor: it parses
//! socket- and process-enumeration output into tables, classifies processes,
//! infers the project and web framework behind a development server, models
//! the native working-directory introspection as a step machine, and joins
//! everything into one ordered record per (process, port) pair.

pub mod actions;
pub mod classify;
pub mod cwd;
pub mod detector;
pub mod scanner;
pub mod tables;
pub mod text;

use vstd::multiset::Multiset;
use vstd::prelude::*;

verus! {

/// Rank of a process category when ordering listener records:
/// development tools first, end-user applications next, everything else last.
pub open spec fn spec_category_rank(category: Seq<char>) -> int {
    if category == "dev"@ {
        0
    } else if category == "app"@ {
        1
    } else {
        2
    }
}

/// Executable counterpart of [`spec_category_rank`].
pub fn category_rank(category: &str) -> (r: u8)
    ensures
        r as int == spec_category_rank(category@),
{
    if crate::text::eq_str(category, "dev") {
        0
    } else if crate::text::eq_str(category, "app") {
        1
    } else {
        2
    }
}

/// One listener: a process holding one listening port, joined with
/// everything the pipeline knows about that process. Built fresh on every
/// query, never persisted.
pub struct Server {
    pub pid: u32,
    pub port: u16,
    pub project_name: String,
    pub framework: String,
    pub uptime_seconds: u64,
    pub process_name: String,
    pub category: String,
    pub description: String,
}

/// Mathematical image of a [`Server`].
pub struct ServerData {
    pub pid: u32,
    pub port: u16,
    pub project_name: Seq<char>,
    pub framework: Seq<char>,
    pub uptime_seconds: u64,
    pub process_name: Seq<char>,
    pub category: Seq<char>,
    pub description: Seq<char>,
}

impl View for Server {
    type V = ServerData;

    open spec fn view(&self) -> ServerData {
        ServerData {
            pid: self.pid,
            port: self.port,
            project_name: self.project_name@,
            framework: self.framework@,
            uptime_seconds: self.uptime_seconds,
            process_name: self.process_name@,
            category: self.category@,
            description: self.description@,
        }
    }
}

/// Project name and framework inferred for each development process whose
/// working directory could be recovered.
pub type ProjectTable = Vec<(u32, (String, String))>;

/// The views of a sequence of records.
pub open spec fn views_of(s: Seq<Server>) -> Seq<ServerData> {
    s.map_values(|x: Server| x@)
}

/// Listing order: category rank ascending, then port ascending, the sole
/// sort key.
pub open spec fn spec_record_le(a: ServerData, b: ServerData) -> bool {
    spec_category_rank(a.category) < spec_category_rank(b.category) || (spec_category_rank(
        a.category,
    ) == spec_category_rank(b.category) && a.port <= b.port)
}

/// The sequence is sorted in listing order.
pub open spec fn spec_sorted(s: Seq<ServerData>) -> bool {
    forall|i: int, j: int| 0 <= i < j < s.len() ==> spec_record_le(#[trigger] s[i], #[trigger] s[j])
}

/// Executable counterpart of [`spec_record_le`].
fn record_le(a: &Server, b: &Server) -> (r: bool)
    ensures
        r == spec_record_le(a@, b@),
{
    let ra = category_rank(a.category.as_str());
    let rb = category_rank(b.category.as_str());
    ra < rb || (ra == rb && a.port <= b.port)
}

/// Inserting an element anywhere adds exactly it to the multiset.
proof fn lemma_to_multiset_insert<A>(s: Seq<A>, i: int, x: A)
    requires
        0 <= i <= s.len(),
    ensures
        s.insert(i, x).to_multiset() == s.to_multiset().insert(x),
{
    broadcast use vstd::seq_lib::group_to_multiset_ensures;

    let s1 = s.subrange(0, i);
    let s2 = s.subrange(i, s.len() as int);
    assert(s =~= s1 + s2);
    assert(s.insert(i, x) =~= s1.push(x) + s2);
    vstd::seq_lib::lemma_multiset_commutative(s1, s2);
    vstd::seq_lib::lemma_multiset_commutative(s1.push(x), s2);
    assert(s1.push(x).to_multiset() =~= s1.to_multiset().insert(x));
    assert(s1.to_multiset().insert(x).add(s2.to_multiset()) =~= s1.to_multiset().add(
        s2.to_multiset(),
    ).insert(x));
}

/// Insert one record into a sorted listing, keeping it sorted.
fn sorted_insert(out: &mut Vec<Server>, x: Server)
    requires
        spec_sorted(views_of(old(out)@)),
    ensures
        spec_sorted(views_of(final(out)@)),
        views_of(final(out)@).to_multiset() == views_of(old(out)@).to_multiset().insert(x@),
{
    let ghost vpre = views_of(old(out)@);
    let n = out.len();
    let mut j: usize = 0;
    while j < n && record_le(&out[j], &x)
        invariant
            n == out@.len(),
            0 <= j <= n,
            out@ == old(out)@,
            forall|k: int| 0 <= k < j ==> spec_record_le(#[trigger] views_of(out@)[k], x@),
        decreases n - j,
    {
        j += 1;
    }
    let ghost stopped = j < n;
    proof {
        if stopped {
            assert(!spec_record_le(vpre[j as int], x@));
            assert(spec_record_le(x@, vpre[j as int]));
        }
    }
    out.insert(j, x);
    proof {
        let v = views_of(out@);
        assert(v =~= vpre.insert(j as int, x@));
        assert forall|a: int, b: int| 0 <= a < b < v.len() implies spec_record_le(
            #[trigger] v[a],
            #[trigger] v[b],
        ) by {
            if a < j && b < j {
            } else if a < j && b == j {
            } else if a < j && b > j {
                assert(v[b] == vpre[b - 1]);
            } else if a == j && b > j {
                assert(v[b] == vpre[b - 1]);
                assert(spec_record_le(x@, vpre[j as int]));
                assert(spec_record_le(vpre[j as int], vpre[b - 1]));
            } else {
                assert(v[a] == vpre[a - 1] && v[b] == vpre[b - 1]);
            }
        }
        lemma_to_multiset_insert(vpre, j as int, x@);
    }
}

/// What one record holds for a (process, port) pair: the classification of
/// the process name; for a development process, the project and framework
/// recovered from its working directory, or the process name and "Unknown"
/// when no directory could be read; for any other process, the process name
/// and an empty framework; and the process's uptime, defaulting to zero.
pub open spec fn spec_make_record(
    pid: u32,
    port: u16,
    name: Seq<char>,
    up: Seq<(u32, u64)>,
    pr: Seq<(u32, (Seq<char>, Seq<char>))>,
) -> ServerData {
    let info = classify::spec_classify(name);
    let proj = if info.0 == "dev"@ {
        match tables::spec_assoc(pr, pid) {
            Some(pf) => pf,
            None => (name, "Unknown"@),
        }
    } else {
        (name, Seq::<char>::empty())
    };
    let upt = match tables::spec_assoc(up, pid) {
        Some(u) => u,
        None => 0u64,
    };
    ServerData {
        pid,
        port,
        project_name: proj.0,
        framework: proj.1,
        uptime_seconds: upt,
        process_name: name,
        category: info.0,
        description: info.1,
    }
}

/// The records of one port-table entry: one per port when the process has a
/// name, none otherwise — a process absent from the name table cannot be
/// classified and is dropped entirely.
pub open spec fn spec_entry_records(
    entry: (u32, Seq<u16>),
    name: Option<Seq<char>>,
    up: Seq<(u32, u64)>,
    pr: Seq<(u32, (Seq<char>, Seq<char>))>,
) -> Seq<ServerData> {
    match name {
        Some(nm) => Seq::new(entry.1.len(), |k: int| spec_make_record(entry.0, entry.1[k], nm, up, pr)),
        None => Seq::empty(),
    }
}

/// The unsorted listing: the records of every port-table entry from index
/// `i` on, appended to `acc` in table order.
pub open spec fn spec_records_from(
    acc: Seq<ServerData>,
    p: Seq<(u32, Seq<u16>)>,
    nm: Seq<(u32, Seq<char>)>,
    up: Seq<(u32, u64)>,
    pr: Seq<(u32, (Seq<char>, Seq<char>))>,
    i: int,
) -> Seq<ServerData>
    decreases p.len() - i,
{
    if i < 0 || i >= p.len() {
        acc
    } else {
        spec_records_from(
            acc + spec_entry_records(p[i], tables::spec_assoc(nm, p[i].0), up, pr),
            p,
            nm,
            up,
            pr,
            i + 1,
        )
    }
}

/// The unsorted listing of the whole join.
pub open spec fn spec_records(
    p: Seq<(u32, Seq<u16>)>,
    nm: Seq<(u32, Seq<char>)>,
    up: Seq<(u32, u64)>,
    pr: Seq<(u32, (Seq<char>, Seq<char>))>,
) -> Seq<ServerData> {
    spec_records_from(Seq::empty(), p, nm, up, pr, 0)
}

/// Build one record from the joined tables.
fn make_record(
    pid: u32,
    port: u16,
    name: &String,
    uptimes: &scanner::UptimeTable,
    projects: &ProjectTable,
) -> (r: Server)
    ensures
        r@ == spec_make_record(pid, port, name@, uptimes@, projects.deep_view()),
{
    let ghost prv = projects.deep_view();
    proof {
        assert forall|j: int| 0 <= j < projects@.len() implies (#[trigger] prv[j]).0
            == projects@[j].0 by {}
    }
    let info = classify::lookup_process(name.as_str());
    let is_dev = text::eq_str(info.category.as_str(), "dev");
    let (project_name, framework) = if is_dev {
        match tables::find_key(projects, pid) {
            Some(i) => {
                proof {
                    tables::lemma_find_key_some(prv, pid, i as int);
                    assert(prv[i as int].1 == ((projects@[i as int].1).0@, (projects@[
                        i as int
                    ].1).1@));
                }
                ((projects[i].1).0.clone(), (projects[i].1).1.clone())
            },
            None => {
                proof {
                    tables::lemma_find_key_none(prv, pid);
                }
                (name.clone(), "Unknown".to_owned())
            },
        }
    } else {
        (name.clone(), String::new())
    };
    let uptime = match tables::find_key(uptimes, pid) {
        Some(i) => {
            proof {
                tables::lemma_find_key_some(uptimes@, pid, i as int);
            }
            uptimes[i].1
        },
        None => {
            proof {
                tables::lemma_find_key_none(uptimes@, pid);
            }
            0
        },
    };
    Server {
        pid,
        port,
        project_name,
        framework,
        uptime_seconds: uptime,
        process_name: name.clone(),
        category: info.category,
        description: info.description,
    }
}

/// Join the four tables into one record per (process, port) pair and order
/// the result by category rank, then port.
///
/// The join drops a process absent from the name table, keeps every port of
/// every named process exactly once, and fills each record as
/// [`spec_make_record`] says; the result is exactly the unsorted join
/// reordered into listing order. Every record keeps the port table's
/// guarantees: a nonzero process id and a port of at least 1024.
pub fn get_servers(
    ports: &scanner::PortTable,
    names: &scanner::NameTable,
    uptimes: &scanner::UptimeTable,
    projects: &ProjectTable,
) -> (r: Vec<Server>)
    requires
        scanner::port_table_wf(ports.deep_view()),
        tables::unique_keys(names.deep_view()),
    ensures
        spec_sorted(views_of(r@)),
        views_of(r@).to_multiset() == spec_records(
            ports.deep_view(),
            names.deep_view(),
            uptimes@,
            projects.deep_view(),
        ).to_multiset(),
        forall|k: int| 0 <= k < r@.len() ==> (#[trigger] r@[k]).port >= 1024 && r@[k].pid != 0,
        r@.len() == spec_record_count(ports.deep_view(), names.deep_view(), 0),
{
    let ghost p = ports.deep_view();
    let ghost nm = names.deep_view();
    let ghost up = uptimes@;
    let ghost pr = projects.deep_view();
    proof {
        assert forall|j: int| 0 <= j < ports@.len() implies (#[trigger] p[j]).0 == ports@[j].0
            && p[j].1 =~= ports@[j].1@ by {}
        assert forall|j: int| 0 <= j < names@.len() implies (#[trigger] nm[j]).0 == names@[j].0
            && nm[j].1 == names@[j].1@ by {}
    }
    let mut flat: Vec<Server> = Vec::new();
    let n = ports.len();
    let mut i: usize = 0;
    while i < n
        invariant
            n == ports@.len(),
            0 <= i <= n,
            p == ports.deep_view(),
            nm == names.deep_view(),
            up == uptimes@,
            pr == projects.deep_view(),
            forall|j: int|
                0 <= j < ports@.len() ==> (#[trigger] p[j]).0 == ports@[j].0 && p[j].1
                    == ports@[j].1@,
            spec_records_from(views_of(flat@), p, nm, up, pr, i as int) == spec_records(
                p,
                nm,
                up,
                pr,
            ),
        decreases n - i,
    {
        let ghost acc0 = views_of(flat@);
        let pid = ports[i].0;
        match tables::find_key(names, pid) {
            None => {
                proof {
                    assert forall|j: int| 0 <= j < nm.len() implies (#[trigger] nm[j]).0
                        != pid by {}
                    tables::lemma_find_key_none(nm, pid);
                    assert(acc0 + spec_entry_records(p[i as int], tables::spec_assoc(nm, pid), up, pr)
                        =~= acc0);
                }
            },
            Some(ni) => {
                proof {
                    tables::lemma_find_key_some(nm, pid, ni as int);
                }
                let m = ports[i].1.len();
                let ghost entry_recs = spec_entry_records(
                    p[i as int],
                    tables::spec_assoc(nm, pid),
                    up,
                    pr,
                );
                proof {
                    assert(entry_recs.len() == m);
                }
                let mut k: usize = 0;
                while k < m
                    invariant
                        0 <= k <= m,
                        i < n == ports@.len(),
                        ni < names@.len(),
                        m == ports@[i as int].1@.len(),
                        p == ports.deep_view(),
                        nm == names.deep_view(),
                        up == uptimes@,
                        pr == projects.deep_view(),
                        p[i as int].0 == ports@[i as int].0 == pid,
                        p[i as int].1 == ports@[i as int].1@,
                        nm[ni as int].1 == names@[ni as int].1@,
                        entry_recs == spec_entry_records(
                            p[i as int],
                            tables::spec_assoc(nm, pid),
                            up,
                            pr,
                        ),
                        tables::spec_assoc(nm, pid) == Some(nm[ni as int].1),
                        entry_recs.len() == m,
                        views_of(flat@) == acc0 + entry_recs.subrange(0, k as int),
                    decreases m - k,
                {
                    let port = ports[i].1[k];
                    let ghost flat_before = flat@;
                    let rec = make_record(pid, port, &names[ni].1, uptimes, projects);
                    proof {
                        assert(entry_recs[k as int] == spec_make_record(
                            pid,
                            port,
                            nm[ni as int].1,
                            up,
                            pr,
                        ));
                        assert(rec@ == entry_recs[k as int]);
                    }
                    flat.push(rec);
                    proof {
                        assert(views_of(flat@) =~= views_of(flat_before).push(entry_recs[
                            k as int
                        ]));
                        assert(acc0 + entry_recs.subrange(0, k as int + 1) =~= (acc0
                            + entry_recs.subrange(0, k as int)).push(entry_recs[k as int]));
                        assert(views_of(flat@) == acc0 + entry_recs.subrange(0, k as int + 1));
                    }
                    k += 1;
                }
                proof {
                    assert(entry_recs.subrange(0, m as int) =~= entry_recs);
                }
            },
        }
        i += 1;
    }
    proof {
        assert(spec_records_from(views_of(flat@), p, nm, up, pr, n as int) == views_of(flat@));
        lemma_records_bounds(p, nm, up, pr);
    }
    let mut sorted: Vec<Server> = Vec::new();
    let ghost unsorted = views_of(flat@);
    proof {
        broadcast use vstd::seq_lib::group_to_multiset_ensures;

        assert(views_of(sorted@) =~= Seq::<ServerData>::empty());
        assert(views_of(sorted@).to_multiset() =~= unsorted.subrange(0, 0).to_multiset());
    }
    while flat.len() > 0
        invariant
            spec_sorted(views_of(sorted@)),
            views_of(sorted@).to_multiset().add(views_of(flat@).to_multiset()) == unsorted.to_multiset(),
        decreases flat@.len(),
    {
        let ghost flat0 = views_of(flat@);
        let x = flat.remove(0);
        proof {
            broadcast use vstd::seq_lib::group_to_multiset_ensures;

            assert(views_of(flat@) =~= flat0.remove(0));
            assert(flat0.remove(0).to_multiset() =~= flat0.to_multiset().remove(x@));
            assert(flat0.to_multiset().contains(x@));
        }
        let ghost sorted0 = views_of(sorted@);
        sorted_insert(&mut sorted, x);
        proof {
            assert(sorted0.to_multiset().insert(x@).add(flat0.to_multiset().remove(x@))
                =~= sorted0.to_multiset().add(flat0.to_multiset()));
        }
    }
    proof {
        broadcast use vstd::seq_lib::group_to_multiset_ensures;

        assert(views_of(flat@) =~= Seq::<ServerData>::empty());
        assert(views_of(flat@).to_multiset() =~= Multiset::<ServerData>::empty());
        assert(views_of(sorted@).to_multiset() =~= unsorted.to_multiset());
        assert(views_of(sorted@).len() == views_of(sorted@).to_multiset().len());
        assert(unsorted.len() == unsorted.to_multiset().len());
        lemma_records_from_len(Seq::empty(), p, nm, up, pr, 0);
        lemma_multiset_all_bounds(unsorted, views_of(sorted@));
        assert forall|k: int| 0 <= k < sorted@.len() implies (#[trigger] sorted@[k]).port >= 1024
            && sorted@[k].pid != 0 by {
            assert(views_of(sorted@)[k] == sorted@[k]@);
        }
    }
    sorted
}

/// Every record of the unsorted join carries a nonzero process id and a
/// port of at least 1024, because the port table admits nothing else.
proof fn lemma_records_from_bounds(
    acc: Seq<ServerData>,
    p: Seq<(u32, Seq<u16>)>,
    nm: Seq<(u32, Seq<char>)>,
    up: Seq<(u32, u64)>,
    pr: Seq<(u32, (Seq<char>, Seq<char>))>,
    i: int,
)
    requires
        scanner::port_table_wf(p),
        forall|k: int| 0 <= k < acc.len() ==> (#[trigger] acc[k]).port >= 1024 && acc[k].pid != 0,
    ensures
        forall|k: int|
            0 <= k < spec_records_from(acc, p, nm, up, pr, i).len() ==> (
            #[trigger] spec_records_from(acc, p, nm, up, pr, i)[k]).port >= 1024
                && spec_records_from(acc, p, nm, up, pr, i)[k].pid != 0,
    decreases p.len() - i,
{
    if 0 <= i < p.len() {
        let step = spec_entry_records(p[i], tables::spec_assoc(nm, p[i].0), up, pr);
        assert forall|k: int| 0 <= k < (acc + step).len() implies (#[trigger] (acc + step)[k]).port
            >= 1024 && (acc + step)[k].pid != 0 by {
            if k >= acc.len() {
                assert((acc + step)[k] == step[k - acc.len()]);
                match tables::spec_assoc(nm, p[i].0) {
                    Some(nmv) => {
                        assert(step[k - acc.len()] == spec_make_record(
                            p[i].0,
                            p[i].1[k - acc.len()],
                            nmv,
                            up,
                            pr,
                        ));
                        assert(p[i].0 != 0 && scanner::ports_wf(p[i].1));
                        assert(p[i].1[k - acc.len()] >= 1024);
                    },
                    None => {},
                }
            }
        }
        lemma_records_from_bounds(acc + step, p, nm, up, pr, i + 1);
        let result = spec_records_from(acc, p, nm, up, pr, i);
        assert(result == spec_records_from(acc + step, p, nm, up, pr, i + 1));
        assert forall|k: int| 0 <= k < result.len() implies (#[trigger] result[k]).port >= 1024
            && result[k].pid != 0 by {
            assert(result[k] == spec_records_from(acc + step, p, nm, up, pr, i + 1)[k]);
        }
    } else {
        assert(spec_records_from(acc, p, nm, up, pr, i) == acc);
    }
}

/// See [`lemma_records_from_bounds`], for the whole join.
proof fn lemma_records_bounds(
    p: Seq<(u32, Seq<u16>)>,
    nm: Seq<(u32, Seq<char>)>,
    up: Seq<(u32, u64)>,
    pr: Seq<(u32, (Seq<char>, Seq<char>))>,
)
    requires
        scanner::port_table_wf(p),
    ensures
        forall|k: int|
            0 <= k < spec_records(p, nm, up, pr).len() ==> (#[trigger] spec_records(
                p,
                nm,
                up,
                pr,
            )[k]).port >= 1024 && spec_records(p, nm, up, pr)[k].pid != 0,
{
    lemma_records_from_bounds(Seq::empty(), p, nm, up, pr, 0);
}

/// How many records the join owes: the sum, over the port-table entries
/// from index `i` on whose process has a name, of their port counts.
pub open spec fn spec_record_count(
    p: Seq<(u32, Seq<u16>)>,
    nm: Seq<(u32, Seq<char>)>,
    i: int,
) -> int
    decreases p.len() - i,
{
    if i < 0 || i >= p.len() {
        0
    } else {
        (if tables::spec_assoc(nm, p[i].0) is Some {
            p[i].1.len() as int
        } else {
            0
        }) + spec_record_count(p, nm, i + 1)
    }
}

/// The unsorted join has exactly the owed number of records: no port is
/// silently dropped or duplicated.
proof fn lemma_records_from_len(
    acc: Seq<ServerData>,
    p: Seq<(u32, Seq<u16>)>,
    nm: Seq<(u32, Seq<char>)>,
    up: Seq<(u32, u64)>,
    pr: Seq<(u32, (Seq<char>, Seq<char>))>,
    i: int,
)
    requires
        0 <= i,
    ensures
        spec_records_from(acc, p, nm, up, pr, i).len() == acc.len() + spec_record_count(p, nm, i),
    decreases p.len() - i,
{
    if i < p.len() {
        let step = spec_entry_records(p[i], tables::spec_assoc(nm, p[i].0), up, pr);
        lemma_records_from_len(acc + step, p, nm, up, pr, i + 1);
    }
}

/// Some record of the listing pairs `pid` with `port`.
pub open spec fn spec_pair_listed(s: Seq<ServerData>, pid: u32, port: u16) -> bool {
    exists|k: int| 0 <= k < s.len() && (#[trigger] s[k]).pid == pid && s[k].port == port
}

/// The socket and name tables list `pid` with `port`: some port-table entry
/// from index `i` on pairs them, and the process has a name.
pub open spec fn spec_listed_from(
    p: Seq<(u32, Seq<u16>)>,
    nm: Seq<(u32, Seq<char>)>,
    pid: u32,
    port: u16,
    i: int,
) -> bool {
    (exists|j: int| i <= j < p.len() && (#[trigger] p[j]).0 == pid && p[j].1.contains(port))
        && tables::spec_assoc(nm, pid) is Some
}

/// The pairs of the unsorted join are exactly the pairs the socket and name
/// tables list — whatever the uptime and project tables hold.
proof fn lemma_records_from_pairs(
    acc: Seq<ServerData>,
    p: Seq<(u32, Seq<u16>)>,
    nm: Seq<(u32, Seq<char>)>,
    up: Seq<(u32, u64)>,
    pr: Seq<(u32, (Seq<char>, Seq<char>))>,
    i: int,
    pid: u32,
    port: u16,
)
    requires
        0 <= i,
    ensures
        spec_pair_listed(spec_records_from(acc, p, nm, up, pr, i), pid, port) <==> (
        spec_pair_listed(acc, pid, port) || spec_listed_from(p, nm, pid, port, i)),
    decreases p.len() - i,
{
    if i >= p.len() {
        assert(spec_records_from(acc, p, nm, up, pr, i) == acc);
    } else {
        let step = spec_entry_records(p[i], tables::spec_assoc(nm, p[i].0), up, pr);
        lemma_records_from_pairs(acc + step, p, nm, up, pr, i + 1, pid, port);
        let here = p[i].0 == pid && p[i].1.contains(port) && tables::spec_assoc(nm, pid) is Some;
        assert(spec_pair_listed(acc + step, pid, port) <==> (spec_pair_listed(acc, pid, port)
            || spec_pair_listed(step, pid, port))) by {
            if spec_pair_listed(acc + step, pid, port) {
                let k = choose|k: int|
                    0 <= k < (acc + step).len() && (#[trigger] (acc + step)[k]).pid == pid && (acc
                        + step)[k].port == port;
                if k < acc.len() {
                    assert((acc + step)[k] == acc[k]);
                } else {
                    assert((acc + step)[k] == step[k - acc.len()]);
                }
            }
            if spec_pair_listed(acc, pid, port) {
                let k = choose|k: int|
                    0 <= k < acc.len() && (#[trigger] acc[k]).pid == pid && acc[k].port == port;
                assert((acc + step)[k] == acc[k]);
            }
            if spec_pair_listed(step, pid, port) {
                let k = choose|k: int|
                    0 <= k < step.len() && (#[trigger] step[k]).pid == pid && step[k].port == port;
                assert((acc + step)[k + acc.len()] == step[k]);
            }
        }
        assert(spec_pair_listed(step, pid, port) <==> here) by {
            match tables::spec_assoc(nm, p[i].0) {
                Some(nmv) => {
                    if spec_pair_listed(step, pid, port) {
                        let k = choose|k: int|
                            0 <= k < step.len() && (#[trigger] step[k]).pid == pid && step[k].port
                                == port;
                        assert(step[k] == spec_make_record(p[i].0, p[i].1[k], nmv, up, pr));
                        assert(p[i].1[k] == port);
                    }
                    if here {
                        let k = choose|k: int| 0 <= k < p[i].1.len() && p[i].1[k] == port;
                        assert(step[k] == spec_make_record(p[i].0, p[i].1[k], nmv, up, pr));
                        assert(step[k].pid == pid && step[k].port == port);
                    }
                },
                None => {
                    assert(step.len() == 0);
                    if here {
                        assert(tables::spec_assoc(nm, p[i].0) is Some);
                    }
                },
            }
        }
        assert(spec_listed_from(p, nm, pid, port, i) <==> (here || spec_listed_from(
            p,
            nm,
            pid,
            port,
            i + 1,
        ))) by {
            if spec_listed_from(p, nm, pid, port, i) {
                let j = choose|j: int|
                    i <= j < p.len() && (#[trigger] p[j]).0 == pid && p[j].1.contains(port);
                if j > i {
                    assert(spec_listed_from(p, nm, pid, port, i + 1));
                }
            }
            if here {
                assert(i <= i < p.len() && p[i].0 == pid && p[i].1.contains(port));
            }
            if spec_listed_from(p, nm, pid, port, i + 1) {
                let j = choose|j: int|
                    i + 1 <= j < p.len() && (#[trigger] p[j]).0 == pid && p[j].1.contains(port);
                assert(i <= j < p.len() && p[j].0 == pid && p[j].1.contains(port));
            }
        }
    }
}

/// Pair membership survives any reordering.
proof fn lemma_pair_listed_multiset(s1: Seq<ServerData>, s2: Seq<ServerData>, pid: u32, port: u16)
    requires
        s1.to_multiset() == s2.to_multiset(),
    ensures
        spec_pair_listed(s1, pid, port) <==> spec_pair_listed(s2, pid, port),
{
    broadcast use vstd::seq_lib::group_to_multiset_ensures;

    if spec_pair_listed(s1, pid, port) {
        let k = choose|k: int|
            0 <= k < s1.len() && (#[trigger] s1[k]).pid == pid && s1[k].port == port;
        assert(s1.contains(s1[k]));
        assert(s1.to_multiset().count(s1[k]) > 0);
        assert(s2.to_multiset().count(s1[k]) > 0);
        assert(s2.contains(s1[k]));
        let m = choose|m: int| 0 <= m < s2.len() && s2[m] == s1[k];
        assert(spec_pair_listed(s2, pid, port));
    }
    if spec_pair_listed(s2, pid, port) {
        let k = choose|k: int|
            0 <= k < s2.len() && (#[trigger] s2[k]).pid == pid && s2[k].port == port;
        assert(s2.contains(s2[k]));
        assert(s2.to_multiset().count(s2[k]) > 0);
        assert(s1.to_multiset().count(s2[k]) > 0);
        assert(s1.contains(s2[k]));
        let m = choose|m: int| 0 <= m < s1.len() && s1[m] == s2[k];
        assert(spec_pair_listed(s1, pid, port));
    }
}

/// Idempotence of listing: two listings built from the same socket and
/// process enumerations hold exactly the same (process, port) pairs,
/// whatever drift the uptime and project tables saw between the calls.
pub proof fn lemma_listing_idempotent(
    r1: Seq<ServerData>,
    r2: Seq<ServerData>,
    p: Seq<(u32, Seq<u16>)>,
    nm: Seq<(u32, Seq<char>)>,
    up1: Seq<(u32, u64)>,
    pr1: Seq<(u32, (Seq<char>, Seq<char>))>,
    up2: Seq<(u32, u64)>,
    pr2: Seq<(u32, (Seq<char>, Seq<char>))>,
)
    requires
        r1.to_multiset() == spec_records(p, nm, up1, pr1).to_multiset(),
        r2.to_multiset() == spec_records(p, nm, up2, pr2).to_multiset(),
    ensures
        forall|pid: u32, port: u16|
            spec_pair_listed(r1, pid, port) <==> spec_pair_listed(r2, pid, port),
{
    assert forall|pid: u32, port: u16| spec_pair_listed(r1, pid, port) <==> spec_pair_listed(
        r2,
        pid,
        port,
    ) by {
        lemma_records_from_pairs(Seq::empty(), p, nm, up1, pr1, 0, pid, port);
        lemma_records_from_pairs(Seq::empty(), p, nm, up2, pr2, 0, pid, port);
        lemma_pair_listed_multiset(r1, spec_records(p, nm, up1, pr1), pid, port);
        lemma_pair_listed_multiset(r2, spec_records(p, nm, up2, pr2), pid, port);
    }
}

/// Ordering of the listing: in a sorted listing a "dev" record never
/// appears after anything else — in particular never after a "system"
/// record — because the sort key puts category rank first.
pub proof fn lemma_dev_before_system(s: Seq<ServerData>)
    requires
        spec_sorted(s),
    ensures
        forall|i: int, j: int|
            0 <= i < j < s.len() && (#[trigger] s[j]).category == "dev"@ ==> (
            #[trigger] s[i]).category == "dev"@,
{
    assert forall|i: int, j: int|
        0 <= i < j < s.len() && (#[trigger] s[j]).category == "dev"@ implies (
    #[trigger] s[i]).category == "dev"@ by {
        assert(spec_record_le(s[i], s[j]));
    }
}

/// The record bounds survive any reordering: two sequences with equal
/// multisets have the same elements.
proof fn lemma_multiset_all_bounds(s1: Seq<ServerData>, s2: Seq<ServerData>)
    requires
        s1.to_multiset() == s2.to_multiset(),
        forall|i: int| 0 <= i < s1.len() ==> (#[trigger] s1[i]).port >= 1024 && s1[i].pid != 0,
    ensures
        forall|i: int| 0 <= i < s2.len() ==> (#[trigger] s2[i]).port >= 1024 && s2[i].pid != 0,
{
    broadcast use vstd::seq_lib::group_to_multiset_ensures;

    assert forall|i: int| 0 <= i < s2.len() implies (#[trigger] s2[i]).port >= 1024 && s2[i].pid
        != 0 by {
        assert(s2.contains(s2[i]));
        assert(s2.to_multiset().count(s2[i]) > 0);
        assert(s1.to_multiset().count(s2[i]) > 0);
        assert(s1.contains(s2[i]));
        let k = choose|k: int| 0 <= k < s1.len() && s1[k] == s2[i];
        assert(s1[k].port >= 1024 && s1[k].pid != 0);
    }
}

} // verus!
