//! Process classification: a fixed ordered table from lowercase executable
//! name to category ("dev", "app" or "system") and human description.
//!
//! The lookup is a pure, total function: matching is ASCII-case-insensitive
//! and exact on the whole name, and every unknown name classifies as
//! "system" with an empty description.

use crate::text;
use vstd::prelude::*;

verus! {

/// Category and human description of an executable.
pub struct ProcessInfo {
    pub category: String,
    pub description: String,
}

/// The classification table: (lowercase executable name, category,
/// description), in presentation order. Keys are unique, so order does not
/// affect the result.
pub open spec fn spec_known_processes() -> Seq<(Seq<char>, Seq<char>, Seq<char>)> {
    seq![
        ("node.exe"@, "dev"@, "Node.js"@),
        ("python.exe"@, "dev"@, "Python"@),
        ("python3.exe"@, "dev"@, "Python"@),
        ("ruby.exe"@, "dev"@, "Ruby"@),
        ("java.exe"@, "dev"@, "Java"@),
        ("go.exe"@, "dev"@, "Go"@),
        ("deno.exe"@, "dev"@, "Deno"@),
        ("bun.exe"@, "dev"@, "Bun"@),
        ("cargo.exe"@, "dev"@, "Rust"@),
        ("rustc.exe"@, "dev"@, "Rust"@),
        ("php.exe"@, "dev"@, "PHP"@),
        ("dotnet.exe"@, "dev"@, ".NET"@),
        ("code.exe"@, "app"@, "Visual Studio Code"@),
        ("spotify.exe"@, "app"@, "Spotify"@),
        ("discord.exe"@, "app"@, "Discord"@),
        ("slack.exe"@, "app"@, "Slack"@),
        ("telegram.exe"@, "app"@, "Telegram"@),
        ("chrome.exe"@, "app"@, "Google Chrome"@),
        ("firefox.exe"@, "app"@, "Mozilla Firefox"@),
        ("msedge.exe"@, "app"@, "Microsoft Edge"@),
        ("brave.exe"@, "app"@, "Brave Browser"@),
        ("opera.exe"@, "app"@, "Opera Browser"@),
        ("postman.exe"@, "app"@, "Postman — API"@),
        ("docker desktop.exe"@, "app"@, "Docker Desktop"@),
        ("githubdesktop.exe"@, "app"@, "GitHub Desktop"@),
        ("figma.exe"@, "app"@, "Figma"@),
        ("notion.exe"@, "app"@, "Notion"@),
        ("obsidian.exe"@, "app"@, "Obsidian"@),
        ("windowsterminal.exe"@, "app"@, "Windows Terminal"@),
        ("localdock.exe"@, "app"@, "LocalDock"@),
        ("svchost.exe"@, "system"@, "Windows Service Host"@),
        ("vmms.exe"@, "system"@, "Hyper-V Manager"@),
        ("system"@, "system"@, "Windows System"@),
        ("lsass.exe"@, "system"@, "Windows Security"@),
        ("services.exe"@, "system"@, "Windows Services"@),
        ("spoolsv.exe"@, "system"@, "Print Spooler"@),
        ("searchhost.exe"@, "system"@, "Windows Search"@),
        ("runtimebroker.exe"@, "system"@, "Runtime Broker"@),
        ("dwm.exe"@, "system"@, "Desktop Window Manager"@),
        ("explorer.exe"@, "system"@, "Windows Explorer"@),
        ("dllhost.exe"@, "system"@, "COM Surrogate"@),
        ("conhost.exe"@, "system"@, "Console Host"@),
        ("wmiprvse.exe"@, "system"@, "WMI Provider"@),
        ("mdnsresponder.exe"@, "system"@, "Bonjour (mDNS)"@),
        ("battle.net.exe"@, "system"@, "Battle.net (Blizzard)"@),
        ("agent.exe"@, "system"@, "Battle.net Agent"@),
        ("httpd.exe"@, "system"@, "Apache HTTP Server"@),
        ("nginx.exe"@, "system"@, "Nginx"@),
        ("mysqld.exe"@, "system"@, "MySQL"@),
        ("postgres.exe"@, "system"@, "PostgreSQL"@),
    ]
}

/// First entry of `table` whose key equals `key`, if any.
pub open spec fn spec_lookup(
    table: Seq<(Seq<char>, Seq<char>, Seq<char>)>,
    key: Seq<char>,
) -> Option<(Seq<char>, Seq<char>)>
    decreases table.len(),
{
    if table.len() == 0 {
        None
    } else if table[0].0 == key {
        Some((table[0].1, table[0].2))
    } else {
        spec_lookup(table.subrange(1, table.len() as int), key)
    }
}

/// What [`lookup_process`] returns: the table entry for the lowered name,
/// or ("system", "") when no key matches.
pub open spec fn spec_classify(name: Seq<char>) -> (Seq<char>, Seq<char>) {
    match spec_lookup(spec_known_processes(), text::spec_lower(name)) {
        Some(entry) => entry,
        None => ("system"@, ""@),
    }
}

/// A match at index `i` with no earlier match is what the lookup returns.
proof fn lemma_lookup_at(table: Seq<(Seq<char>, Seq<char>, Seq<char>)>, key: Seq<char>, i: int)
    requires
        0 <= i < table.len(),
        table[i].0 == key,
        forall|j: int| 0 <= j < i ==> table[j].0 != key,
    ensures
        spec_lookup(table, key) == Some((table[i].1, table[i].2)),
    decreases i,
{
    if i > 0 {
        lemma_lookup_at(table.subrange(1, table.len() as int), key, i - 1);
    }
}

/// No matching key anywhere means the lookup returns nothing.
proof fn lemma_lookup_none(table: Seq<(Seq<char>, Seq<char>, Seq<char>)>, key: Seq<char>)
    requires
        forall|j: int| 0 <= j < table.len() ==> table[j].0 != key,
    ensures
        spec_lookup(table, key) is None,
    decreases table.len(),
{
    if table.len() > 0 {
        lemma_lookup_none(table.subrange(1, table.len() as int), key);
    }
}

/// The classification table as an executable value.
pub fn known_processes() -> (r: Vec<(String, String, String)>)
    ensures
        r.deep_view() == spec_known_processes(),
{
    let mut t: Vec<(String, String, String)> = Vec::new();
    t.push(("node.exe".to_owned(), "dev".to_owned(), "Node.js".to_owned()));
    t.push(("python.exe".to_owned(), "dev".to_owned(), "Python".to_owned()));
    t.push(("python3.exe".to_owned(), "dev".to_owned(), "Python".to_owned()));
    t.push(("ruby.exe".to_owned(), "dev".to_owned(), "Ruby".to_owned()));
    t.push(("java.exe".to_owned(), "dev".to_owned(), "Java".to_owned()));
    t.push(("go.exe".to_owned(), "dev".to_owned(), "Go".to_owned()));
    t.push(("deno.exe".to_owned(), "dev".to_owned(), "Deno".to_owned()));
    t.push(("bun.exe".to_owned(), "dev".to_owned(), "Bun".to_owned()));
    t.push(("cargo.exe".to_owned(), "dev".to_owned(), "Rust".to_owned()));
    t.push(("rustc.exe".to_owned(), "dev".to_owned(), "Rust".to_owned()));
    t.push(("php.exe".to_owned(), "dev".to_owned(), "PHP".to_owned()));
    t.push(("dotnet.exe".to_owned(), "dev".to_owned(), ".NET".to_owned()));
    t.push(("code.exe".to_owned(), "app".to_owned(), "Visual Studio Code".to_owned()));
    t.push(("spotify.exe".to_owned(), "app".to_owned(), "Spotify".to_owned()));
    t.push(("discord.exe".to_owned(), "app".to_owned(), "Discord".to_owned()));
    t.push(("slack.exe".to_owned(), "app".to_owned(), "Slack".to_owned()));
    t.push(("telegram.exe".to_owned(), "app".to_owned(), "Telegram".to_owned()));
    t.push(("chrome.exe".to_owned(), "app".to_owned(), "Google Chrome".to_owned()));
    t.push(("firefox.exe".to_owned(), "app".to_owned(), "Mozilla Firefox".to_owned()));
    t.push(("msedge.exe".to_owned(), "app".to_owned(), "Microsoft Edge".to_owned()));
    t.push(("brave.exe".to_owned(), "app".to_owned(), "Brave Browser".to_owned()));
    t.push(("opera.exe".to_owned(), "app".to_owned(), "Opera Browser".to_owned()));
    t.push(("postman.exe".to_owned(), "app".to_owned(), "Postman — API".to_owned()));
    t.push(("docker desktop.exe".to_owned(), "app".to_owned(), "Docker Desktop".to_owned()));
    t.push(("githubdesktop.exe".to_owned(), "app".to_owned(), "GitHub Desktop".to_owned()));
    t.push(("figma.exe".to_owned(), "app".to_owned(), "Figma".to_owned()));
    t.push(("notion.exe".to_owned(), "app".to_owned(), "Notion".to_owned()));
    t.push(("obsidian.exe".to_owned(), "app".to_owned(), "Obsidian".to_owned()));
    t.push(("windowsterminal.exe".to_owned(), "app".to_owned(), "Windows Terminal".to_owned()));
    t.push(("localdock.exe".to_owned(), "app".to_owned(), "LocalDock".to_owned()));
    t.push(("svchost.exe".to_owned(), "system".to_owned(), "Windows Service Host".to_owned()));
    t.push(("vmms.exe".to_owned(), "system".to_owned(), "Hyper-V Manager".to_owned()));
    t.push(("system".to_owned(), "system".to_owned(), "Windows System".to_owned()));
    t.push(("lsass.exe".to_owned(), "system".to_owned(), "Windows Security".to_owned()));
    t.push(("services.exe".to_owned(), "system".to_owned(), "Windows Services".to_owned()));
    t.push(("spoolsv.exe".to_owned(), "system".to_owned(), "Print Spooler".to_owned()));
    t.push(("searchhost.exe".to_owned(), "system".to_owned(), "Windows Search".to_owned()));
    t.push(("runtimebroker.exe".to_owned(), "system".to_owned(), "Runtime Broker".to_owned()));
    t.push(("dwm.exe".to_owned(), "system".to_owned(), "Desktop Window Manager".to_owned()));
    t.push(("explorer.exe".to_owned(), "system".to_owned(), "Windows Explorer".to_owned()));
    t.push(("dllhost.exe".to_owned(), "system".to_owned(), "COM Surrogate".to_owned()));
    t.push(("conhost.exe".to_owned(), "system".to_owned(), "Console Host".to_owned()));
    t.push(("wmiprvse.exe".to_owned(), "system".to_owned(), "WMI Provider".to_owned()));
    t.push(("mdnsresponder.exe".to_owned(), "system".to_owned(), "Bonjour (mDNS)".to_owned()));
    t.push(("battle.net.exe".to_owned(), "system".to_owned(), "Battle.net (Blizzard)".to_owned()));
    t.push(("agent.exe".to_owned(), "system".to_owned(), "Battle.net Agent".to_owned()));
    t.push(("httpd.exe".to_owned(), "system".to_owned(), "Apache HTTP Server".to_owned()));
    t.push(("nginx.exe".to_owned(), "system".to_owned(), "Nginx".to_owned()));
    t.push(("mysqld.exe".to_owned(), "system".to_owned(), "MySQL".to_owned()));
    t.push(("postgres.exe".to_owned(), "system".to_owned(), "PostgreSQL".to_owned()));
    proof {
        assert(t.deep_view() =~= spec_known_processes());
    }
    t
}

/// Classify an executable name: lowercase it, match it exactly against the
/// table, and fall back to "system" with an empty description. Total: every
/// name yields exactly one category and description.
pub fn lookup_process(name: &str) -> (r: ProcessInfo)
    ensures
        r.category@ == spec_classify(name@).0,
        r.description@ == spec_classify(name@).1,
{
    let table = known_processes();
    let n = table.len();
    let ghost key = text::spec_lower(name@);
    let mut i: usize = 0;
    while i < n
        invariant
            n == table@.len(),
            table.deep_view() == spec_known_processes(),
            key == text::spec_lower(name@),
            0 <= i <= n,
            forall|j: int| 0 <= j < i ==> #[trigger] table.deep_view()[j].0 != key,
        decreases n - i,
    {
        let entry = &table[i];
        if text::eq_lowered(name, entry.0.as_str()) {
            proof {
                lemma_lookup_at(table.deep_view(), key, i as int);
            }
            return ProcessInfo { category: entry.1.clone(), description: entry.2.clone() };
        }
        i += 1;
    }
    proof {
        lemma_lookup_none(table.deep_view(), key);
        reveal_strlit("");
    }
    ProcessInfo { category: "system".to_owned(), description: String::new() }
}

} // verus!
