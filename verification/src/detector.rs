//! Project and framework detection for a development server's working
//! directory.
//!
//! The directory is modelled by [`ProjectDir`]: the text of its manifest
//! file (`package.json`), when present and readable, and presence flags for
//! the marker files of other language ecosystems. Framework detection tests
//! an ordered, priority list of dependency markers — most specific first —
//! against the manifest's dependency keys only, never against free text, so
//! a framework named inside a `description` field is not a match.

use crate::text;
use vstd::prelude::*;

verus! {

/// What the detector reads out of a manifest file: the declared package
/// name and the keys of the regular and development dependency sections.
pub struct Manifest {
    pub name: Option<String>,
    pub deps: Vec<String>,
    pub dev_deps: Vec<String>,
}

/// Mathematical image of a [`Manifest`].
pub struct ManifestData {
    pub name: Option<Seq<char>>,
    pub deps: Seq<Seq<char>>,
    pub dev_deps: Seq<Seq<char>>,
}

impl View for Manifest {
    type V = ManifestData;

    open spec fn view(&self) -> ManifestData {
        ManifestData {
            name: match self.name {
                Some(n) => Some(n@),
                None => None,
            },
            deps: self.deps.deep_view(),
            dev_deps: self.dev_deps.deep_view(),
        }
    }
}

/// What parsing a manifest text yields: `None` when the text is not valid
/// JSON, otherwise the declared name (a string `name` field) and the keys
/// of the `dependencies` and `devDependencies` objects, in document order.
/// The result is a function of the text alone.
pub uninterp spec fn manifest_of(text: Seq<char>) -> Option<ManifestData>;

/// Relies on `serde_json::from_str` and the `serde_json::Value` accessors
/// `get`, `as_str` and `as_object`: whether the text parses as JSON, and
/// the `name`, `dependencies` and `devDependencies` fields it declares,
/// depend on the text alone.
#[verifier::external_body]
fn parse_manifest(text: &str) -> (r: Option<Manifest>)
    ensures
        match r {
            Some(m) => manifest_of(text@) == Some(m@),
            None => manifest_of(text@) is None,
        },
{
    let v: serde_json::Value = match serde_json::from_str(text) {
        Ok(v) => v,
        Err(_) => return None,
    };
    let name = v.get("name").and_then(|n| n.as_str()).map(|s| s.to_owned());
    let deps = match v.get("dependencies").and_then(|d| d.as_object()) {
        Some(map) => map.keys().cloned().collect(),
        None => Vec::new(),
    };
    let dev_deps = match v.get("devDependencies").and_then(|d| d.as_object()) {
        Some(map) => map.keys().cloned().collect(),
        None => Vec::new(),
    };
    Some(Manifest { name, deps, dev_deps })
}

/// A project directory as the detector sees it: the directory path, the
/// manifest text when a manifest file exists and could be read, and
/// presence flags for the fixed marker files.
pub struct ProjectDir {
    pub path: String,
    pub manifest_text: Option<String>,
    pub has_requirements_txt: bool,
    pub has_pyproject_toml: bool,
    pub has_manage_py: bool,
    pub has_go_mod: bool,
    pub has_cargo_toml: bool,
}

/// The package occurs among the manifest's dependency or development
/// dependency keys — structured keys only, never free text.
pub open spec fn spec_has_dep(m: ManifestData, pkg: Seq<char>) -> bool {
    m.deps.contains(pkg) || m.dev_deps.contains(pkg)
}

/// Some string of `v` starts with `p`.
pub open spec fn spec_any_prefixed(v: Seq<Seq<char>>, p: Seq<char>) -> bool {
    exists|i: int| 0 <= i < v.len() && text::spec_starts_with(#[trigger] v[i], p)
}

/// Some dependency key lies in the `@vitejs/` plugin namespace.
pub open spec fn spec_has_vite_plugin(m: ManifestData) -> bool {
    spec_any_prefixed(m.deps, "@vitejs/"@) || spec_any_prefixed(m.dev_deps, "@vitejs/"@)
}

/// Framework choice for a parsed manifest: the ordered marker list, most
/// specific framework first, then the Vite family (main package or any
/// `@vitejs/` plugin), then the generic runtime label.
pub open spec fn spec_framework_from_manifest(m: ManifestData) -> Seq<char> {
    if spec_has_dep(m, "next"@) {
        "Next.js"@
    } else if spec_has_dep(m, "nuxt"@) {
        "Nuxt"@
    } else if spec_has_dep(m, "svelte"@) {
        "Svelte"@
    } else if spec_has_dep(m, "astro"@) {
        "Astro"@
    } else if spec_has_dep(m, "react-scripts"@) {
        "CRA"@
    } else if spec_has_dep(m, "express"@) {
        "Express"@
    } else if spec_has_dep(m, "fastify"@) {
        "Fastify"@
    } else if spec_has_dep(m, "vite"@) || spec_has_vite_plugin(m) {
        "Vite"@
    } else {
        "Node.js"@
    }
}

/// Framework choice when no manifest parses: ecosystem marker files in
/// fixed priority order.
pub open spec fn spec_framework_from_markers(d: ProjectDir) -> Seq<char> {
    if d.has_requirements_txt || d.has_pyproject_toml {
        if d.has_manage_py {
            "Django"@
        } else {
            "Python"@
        }
    } else if d.has_go_mod {
        "Go"@
    } else if d.has_cargo_toml {
        "Rust"@
    } else {
        "Unknown"@
    }
}

/// What [`detect_framework`] returns.
pub open spec fn spec_detect_framework(d: ProjectDir) -> Seq<char> {
    match d.manifest_text {
        Some(t) => match manifest_of(t@) {
            Some(m) => spec_framework_from_manifest(m),
            None => spec_framework_from_markers(d),
        },
        None => spec_framework_from_markers(d),
    }
}

/// Whether `s` occurs among the strings of `v`.
fn vec_contains_str(v: &Vec<String>, s: &str) -> (r: bool)
    ensures
        r == v.deep_view().contains(s@),
{
    let n = v.len();
    let mut i: usize = 0;
    while i < n
        invariant
            n == v@.len(),
            0 <= i <= n,
            forall|j: int| 0 <= j < i ==> #[trigger] v.deep_view()[j] != s@,
        decreases n - i,
    {
        if text::eq_str(v[i].as_str(), s) {
            proof {
                assert(v.deep_view()[i as int] == s@);
            }
            return true;
        }
        i += 1;
    }
    proof {
        assert(forall|j: int| 0 <= j < v.deep_view().len() ==> #[trigger] v.deep_view()[j] != s@);
    }
    false
}

/// Whether some string of `v` starts with `p`.
fn vec_any_starts_with(v: &Vec<String>, p: &str) -> (r: bool)
    ensures
        r == spec_any_prefixed(v.deep_view(), p@),
{
    let n = v.len();
    let mut i: usize = 0;
    while i < n
        invariant
            n == v@.len(),
            0 <= i <= n,
            forall|j: int|
                0 <= j < i ==> !text::spec_starts_with(#[trigger] v.deep_view()[j], p@),
        decreases n - i,
    {
        if text::starts_with_str(v[i].as_str(), p) {
            proof {
                assert(text::spec_starts_with(v.deep_view()[i as int], p@));
            }
            return true;
        }
        i += 1;
    }
    false
}

/// Executable counterpart of [`spec_has_dep`].
pub fn has_dependency(m: &Manifest, pkg: &str) -> (r: bool)
    ensures
        r == spec_has_dep(m@, pkg@),
{
    vec_contains_str(&m.deps, pkg) || vec_contains_str(&m.dev_deps, pkg)
}

/// Executable counterpart of [`spec_has_vite_plugin`].
pub fn has_vitejs_plugin(m: &Manifest) -> (r: bool)
    ensures
        r == spec_has_vite_plugin(m@),
{
    vec_any_starts_with(&m.deps, "@vitejs/") || vec_any_starts_with(&m.dev_deps, "@vitejs/")
}

/// Executable counterpart of [`spec_framework_from_manifest`]: the verified
/// decision over a manifest however it was obtained.
pub fn framework_from_manifest(m: &Manifest) -> (r: String)
    ensures
        r@ == spec_framework_from_manifest(m@),
{
    if has_dependency(m, "next") {
        "Next.js".to_owned()
    } else if has_dependency(m, "nuxt") {
        "Nuxt".to_owned()
    } else if has_dependency(m, "svelte") {
        "Svelte".to_owned()
    } else if has_dependency(m, "astro") {
        "Astro".to_owned()
    } else if has_dependency(m, "react-scripts") {
        "CRA".to_owned()
    } else if has_dependency(m, "express") {
        "Express".to_owned()
    } else if has_dependency(m, "fastify") {
        "Fastify".to_owned()
    } else if has_dependency(m, "vite") || has_vitejs_plugin(m) {
        "Vite".to_owned()
    } else {
        "Node.js".to_owned()
    }
}

/// Determine the web framework behind a project directory.
pub fn detect_framework(dir: &ProjectDir) -> (r: String)
    ensures
        r@ == spec_detect_framework(*dir),
{
    if let Some(t) = &dir.manifest_text {
        if let Some(m) = parse_manifest(t.as_str()) {
            return framework_from_manifest(&m);
        }
        return framework_from_markers(dir);
    }
    framework_from_markers(dir)
}

/// Executable counterpart of [`spec_framework_from_markers`].
pub fn framework_from_markers(dir: &ProjectDir) -> (r: String)
    ensures
        r@ == spec_framework_from_markers(*dir),
{
    if dir.has_requirements_txt || dir.has_pyproject_toml {
        if dir.has_manage_py {
            "Django".to_owned()
        } else {
            "Python".to_owned()
        }
    } else if dir.has_go_mod {
        "Go".to_owned()
    } else if dir.has_cargo_toml {
        "Rust".to_owned()
    } else {
        "Unknown".to_owned()
    }
}

/// Path separator, native or universal.
pub open spec fn spec_is_sep(c: char) -> bool {
    c == '\\' || c == '/'
}

/// The last nonempty path segment, or "unknown" when there is none.
pub open spec fn spec_last_segment(p: Seq<char>) -> Seq<char>
    decreases p.len(),
{
    if p.len() == 0 {
        "unknown"@
    } else if spec_is_sep(p[p.len() - 1]) {
        spec_last_segment(p.subrange(0, p.len() - 1))
    } else {
        match spec_rfind_sep(p) {
            Some(i) => p.subrange(i + 1, p.len() as int),
            None => p,
        }
    }
}

/// Index of the last path separator, if any.
pub open spec fn spec_rfind_sep(s: Seq<char>) -> Option<int>
    decreases s.len(),
{
    if s.len() == 0 {
        None
    } else if spec_is_sep(s[s.len() - 1]) {
        Some(s.len() - 1)
    } else {
        spec_rfind_sep(s.subrange(0, s.len() - 1))
    }
}

/// [`spec_rfind_sep`] returns the largest separator index, or `None` when
/// no separator occurs.
proof fn lemma_rfind_sep(s: Seq<char>)
    ensures
        match spec_rfind_sep(s) {
            Some(i) => 0 <= i < s.len() && spec_is_sep(s[i]) && (forall|j: int|
                i < j < s.len() ==> !spec_is_sep(s[j])),
            None => forall|j: int| 0 <= j < s.len() ==> !spec_is_sep(s[j]),
        },
    decreases s.len(),
{
    if s.len() > 0 && !spec_is_sep(s[s.len() - 1]) {
        let sub = s.subrange(0, s.len() - 1);
        lemma_rfind_sep(sub);
        match spec_rfind_sep(sub) {
            Some(i) => {
                assert(s[i] == sub[i]);
                assert forall|j: int| i < j < s.len() implies !spec_is_sep(s[j]) by {
                    if j < s.len() - 1 {
                        assert(sub[j] == s[j]);
                    }
                }
            },
            None => {
                assert forall|j: int| 0 <= j < s.len() implies !spec_is_sep(s[j]) by {
                    if j < s.len() - 1 {
                        assert(sub[j] == s[j]);
                    }
                }
            },
        }
    }
}

/// Executable counterpart of [`spec_rfind_sep`].
fn rfind_sep(s: &str) -> (r: Option<usize>)
    ensures
        match r {
            Some(i) => Some(i as int) == spec_rfind_sep(s@),
            None => spec_rfind_sep(s@) is None,
        },
{
    proof {
        lemma_rfind_sep(s@);
    }
    let n = s.unicode_len();
    let mut i: usize = n;
    while i > 0
        invariant
            n == s@.len(),
            0 <= i <= n,
            forall|j: int| i <= j < n ==> !spec_is_sep(s@[j]),
            match spec_rfind_sep(s@) {
                Some(k) => 0 <= k < s@.len() && spec_is_sep(s@[k]) && (forall|j: int|
                    k < j < s@.len() ==> !spec_is_sep(s@[j])),
                None => forall|j: int| 0 <= j < s@.len() ==> !spec_is_sep(s@[j]),
            },
        decreases i,
    {
        let c = s.get_char(i - 1);
        if c == '\\' || c == '/' {
            return Some(i - 1);
        }
        i -= 1;
    }
    None
}

/// Executable counterpart of [`spec_last_segment`].
pub fn last_segment(p: &str) -> (r: String)
    ensures
        r@ == spec_last_segment(p@),
    decreases p@.len(),
{
    let n = p.unicode_len();
    if n == 0 {
        return "unknown".to_owned();
    }
    let c = p.get_char(n - 1);
    if c == '\\' || c == '/' {
        return last_segment(p.substring_char(0, n - 1));
    }
    proof {
        lemma_rfind_sep(p@);
    }
    match rfind_sep(p) {
        Some(i) => p.substring_char(i + 1, n).to_owned(),
        None => p.to_owned(),
    }
}

/// What [`detect_project_name`] returns: the manifest's declared name when
/// the manifest parses and declares one, otherwise the last path segment.
pub open spec fn spec_detect_project_name(d: ProjectDir) -> Seq<char> {
    match d.manifest_text {
        Some(t) => match manifest_of(t@) {
            Some(m) => match m.name {
                Some(n) => n,
                None => spec_last_segment(d.path@),
            },
            None => spec_last_segment(d.path@),
        },
        None => spec_last_segment(d.path@),
    }
}

/// Determine the project's display name for a project directory.
pub fn detect_project_name(dir: &ProjectDir) -> (r: String)
    ensures
        r@ == spec_detect_project_name(*dir),
{
    if let Some(t) = &dir.manifest_text {
        if let Some(m) = parse_manifest(t.as_str()) {
            if let Some(n) = m.name {
                return n;
            }
        }
    }
    last_segment(dir.path.as_str())
}

} // verus!
