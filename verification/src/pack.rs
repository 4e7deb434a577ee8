//! The bookkeeping of the tool that builds the plugins of the repository,
//! bundles each into an archive and lists them in the repository's index.
use vstd::prelude::*;
use crate::archive::{gzip, gzip_default, sha256, sha256_digest, tar_append, tar_archive, tar_builder, tar_finish, tar_members, tar_refusal};
use crate::model::{opt, string_from};
use crate::sort::{lex_le, same_key, stable_sort, stably_sorted, SortKey};
use crate::text::{
    before, before_exec, chars_of, drop_suffix, drop_suffix_exec, eq_str, pieces, pieces_exec, push_str, replace, replace_exec, rfind, rfind_exec, slice_chars,
    strip_prefix, strip_prefix_exec, trim_start, trim_start_exec,
};
use crate::model::{parse_unsigned, parse_unsigned_exec};

verus! {

/// The target the WebAssembly plugins are built for.
pub const WASM_TARGET: &'static str = "wasm32-wasip2";

// ---------------------------------------------------------------------
// Lines of a manifest
// ---------------------------------------------------------------------

/// `str::lines`: the text split at each `\n`, the `\r` before a `\n`
/// dropped, with no line after a final `\n`.
pub open spec fn text_lines(text: Seq<char>) -> Seq<Seq<char>> {
    let ps = pieces(text, "\n"@);
    let n = ps.len();
    let count: int = if n > 0 && ps[n - 1].len() == 0 {
        n - 1
    } else {
        n as int
    };
    Seq::new(
        count as nat,
        |k: int|
            if k < n - 1 {
                drop_suffix(ps[k], "\r"@)
            } else {
                ps[k]
            },
    )
}

/// The value set on the first line that, once its leading whitespace is
/// dropped, starts with `prefix`: what follows the prefix up to the next `"`.
pub open spec fn quoted_value(lines: Seq<Seq<char>>, prefix: Seq<char>) -> Option<Seq<char>>
    decreases lines.len(),
{
    if lines.len() == 0 {
        None
    } else {
        match strip_prefix(trim_start(lines[0]), prefix) {
            Some(rest) => Some(before(rest, "\""@)),
            None => quoted_value(lines.drop_first(), prefix),
        }
    }
}

/// The value of the first line of `text` that sets `prefix` (a key, ` = `
/// and an opening quote).
pub fn quoted_value_exec(text: &str, prefix: &str) -> (r: Option<String>)
    ensures
        opt(r) == quoted_value(text_lines(text@), prefix@),
{
    let t = chars_of(text);
    let newline = chars_of("\n");
    let cr = chars_of("\r");
    let quote = chars_of("\"");
    let p = chars_of(prefix);
    proof {
        reveal_strlit("\n");
    }
    let ps = pieces_exec(t.as_slice(), newline.as_slice());
    let n = ps.len();
    let count: usize = if n > 0 && ps[n - 1].len() == 0 {
        n - 1
    } else {
        n
    };
    let ghost lines = text_lines(text@);
    assert(lines.len() == count);
    let mut k: usize = 0;
    assert(lines.subrange(0, count as int) =~= lines);
    while k < count
        invariant
            k <= count,
            count <= n,
            n == ps@.len(),
            n == pieces(text@, "\n"@).len(),
            count == lines.len(),
            lines == text_lines(text@),
            cr@ == "\r"@,
            quote@ == "\""@,
            p@ == prefix@,
            forall|j: int| 0 <= j < ps@.len() ==> #[trigger] ps@[j]@ == pieces(text@, "\n"@)[j],
            quoted_value(lines, prefix@) == quoted_value(lines.subrange(k as int, count as int), prefix@),
        decreases count - k,
    {
        let ghost rest_lines = lines.subrange(k as int, count as int);
        assert(rest_lines.drop_first() =~= lines.subrange(k + 1, count as int));
        let line = if k + 1 < n {
            drop_suffix_exec(ps[k].as_slice(), cr.as_slice())
        } else {
            slice_chars(ps[k].as_slice(), 0, ps[k].len())
        };
        assert(line@ == lines[k as int]);
        let lead = trim_start_exec(line.as_slice());
        match strip_prefix_exec(lead.as_slice(), p.as_slice()) {
            Some(rest) => {
                let v = before_exec(rest.as_slice(), quote.as_slice());
                return Some(string_from(v));
            },
            None => {},
        }
        k = k + 1;
    }
    None
}

/// The name of the library a plugin's `Cargo.toml` builds: its package name
/// with `-` written `_`.
pub open spec fn package_spec(cargo_toml: Seq<char>) -> Result<Seq<char>, Seq<char>> {
    match quoted_value(text_lines(cargo_toml), "name = \""@) {
        Some(name) => Ok(replace(name, "-"@, "_"@)),
        None => Err("package name missing"@),
    }
}

/// The name of the library a plugin's `Cargo.toml` builds.
pub fn package_artifact_name(cargo_toml: &str) -> (r: Result<String, String>)
    ensures
        match package_spec(cargo_toml@) {
            Ok(n) => r matches Ok(s) && s@ == n,
            Err(m) => r matches Err(e) && e@ == m,
        },
{
    match quoted_value_exec(cargo_toml, "name = \"") {
        Some(name) => {
            let v = chars_of(name.as_str());
            let dash = chars_of("-");
            let underscore = chars_of("_");
            proof {
                reveal_strlit("-");
            }
            Ok(string_from(replace_exec(v.as_slice(), dash.as_slice(), underscore.as_slice())))
        },
        None => Err(String::from_str("package name missing")),
    }
}

/// The plugin API version a plugin's `plugin.toml` declares.
pub open spec fn plugin_api_spec(plugin_toml: Seq<char>) -> Result<Seq<char>, Seq<char>> {
    match quoted_value(text_lines(plugin_toml), "plugin_api = \""@) {
        Some(v) => Ok(v),
        None => Err("plugin_api missing"@),
    }
}

/// The plugin API version a plugin's `plugin.toml` declares.
pub fn plugin_api(plugin_toml: &str) -> (r: Result<String, String>)
    ensures
        match plugin_api_spec(plugin_toml@) {
            Ok(v) => r matches Ok(s) && s@ == v,
            Err(m) => r matches Err(e) && e@ == m,
        },
{
    match quoted_value_exec(plugin_toml, "plugin_api = \"") {
        Some(v) => Ok(v),
        None => Err(String::from_str("plugin_api missing")),
    }
}

/// The major version of the plugin API a `plugin.toml` declares: the part
/// before the first `.`, read as a number.
pub open spec fn api_major_spec(plugin_toml: Seq<char>) -> Option<nat> {
    match plugin_api_spec(plugin_toml) {
        Ok(v) => parse_unsigned(before(v, "."@), u64::MAX as nat),
        Err(_) => None,
    }
}

/// The major version of the plugin API a `plugin.toml` declares.
pub fn api_major_of(plugin_toml: &str) -> (r: Option<u64>)
    ensures
        match api_major_spec(plugin_toml@) {
            Some(n) => r == Some(n as u64),
            None => r is None,
        },
{
    match plugin_api(plugin_toml) {
        Ok(v) => {
            let t = chars_of(v.as_str());
            let dot = chars_of(".");
            let major = string_from(before_exec(t.as_slice(), dot.as_slice()));
            parse_unsigned_exec(major.as_str(), u64::MAX)
        },
        Err(_) => None,
    }
}

// ---------------------------------------------------------------------
// Sources and builds
// ---------------------------------------------------------------------

/// `Path::extension` of a path whose last component is `name`: what follows
/// the last `.`, unless there is none, or only one that opens the name.
pub open spec fn extension(name: Seq<char>) -> Option<Seq<char>> {
    if name == ".."@ {
        None
    } else {
        match rfind(name, "."@) {
            Some(i) => if i == 0 {
                None
            } else {
                Some(name.subrange(i + 1, name.len() as int))
            },
            None => None,
        }
    }
}

/// A file whose change calls for a new build: Rust code or a TOML manifest.
pub open spec fn source_file(name: Seq<char>) -> bool {
    extension(name) matches Some(e) && (e == "rs"@ || e == "toml"@)
}

/// A file whose change calls for a new build: Rust code or a TOML manifest.
pub fn is_source(name: &str) -> (r: bool)
    ensures
        r == source_file(name@),
{
    if eq_str(name, "..") {
        return false;
    }
    let t = chars_of(name);
    let dot = chars_of(".");
    proof {
        reveal_strlit(".");
    }
    match rfind_exec(t.as_slice(), dot.as_slice()) {
        Some(i) => {
            assert(i + 1 <= t@.len());
            assert(t@.len() == t.len());
            if i == 0 {
                false
            } else {
                let e = string_from(slice_chars(t.as_slice(), i + 1, t.len()));
                eq_str(e.as_str(), "rs") || eq_str(e.as_str(), "toml")
            }
        },
        None => false,
    }
}

/// The search for sources enters a directory unless it is called `target`.
pub fn enters(is_dir: bool, name: Option<&str>) -> (r: bool)
    ensures
        r == (is_dir && (name matches Some(n) && n@ != "target"@)),
{
    match name {
        Some(n) => is_dir && !eq_str(n, "target"),
        None => false,
    }
}

/// The latest modification time of the source files among `files` (name,
/// and modification time when it could be read).
pub open spec fn newest(files: Seq<(String, Option<u128>)>) -> Option<u128>
    decreases files.len(),
{
    if files.len() == 0 {
        None
    } else {
        let rest = newest(files.drop_last());
        let (name, time) = files.last();
        match time {
            Some(t) => if source_file(name@) {
                match rest {
                    Some(u) => Some(if t > u {
                        t
                    } else {
                        u
                    }),
                    None => Some(t),
                }
            } else {
                rest
            },
            None => rest,
        }
    }
}

/// The latest modification time of the source files among `files`.
pub fn newest_source_mtime(files: &Vec<(String, Option<u128>)>) -> (r: Option<u128>)
    ensures
        r == newest(files@),
{
    let mut best: Option<u128> = None;
    let mut i: usize = 0;
    while i < files.len()
        invariant
            i <= files@.len(),
            best == newest(files@.subrange(0, i as int)),
        decreases files.len() - i,
    {
        assert(files@.subrange(0, i + 1).drop_last() =~= files@.subrange(0, i as int));
        let (name, time) = &files[i];
        match time {
            Some(t) => {
                if is_source(name.as_str()) {
                    best = match best {
                        Some(u) => Some(if *t > u {
                            *t
                        } else {
                            u
                        }),
                        None => Some(*t),
                    };
                }
            },
            None => {},
        }
        i = i + 1;
    }
    assert(files@.subrange(0, files@.len() as int) =~= files@);
    best
}

/// The newest source time is the modification time of a source file, and
/// no source file was modified later; there is none exactly when no source
/// file has a modification time.
pub proof fn lemma_newest_is_latest(files: Seq<(String, Option<u128>)>)
    ensures
        newest(files) matches Some(t) ==> exists|i: int|
            0 <= i < files.len() && source_file(#[trigger] files[i].0@) && files[i].1 == Some(t),
        forall|i: int|
            0 <= i < files.len() && source_file(#[trigger] files[i].0@) && files[i].1 is Some
                ==> (newest(files) matches Some(t) && files[i].1->0 <= t),
    decreases files.len(),
{
    if files.len() > 0 {
        let init = files.drop_last();
        lemma_newest_is_latest(init);
        assert forall|i: int|
            0 <= i < files.len() && source_file(#[trigger] files[i].0@) && files[i].1 is Some
                implies (newest(files) matches Some(t) && files[i].1->0 <= t) by {
            if i < files.len() - 1 {
                assert(files[i] == init[i]);
            }
        }
        if newest(files) is Some {
            let t = newest(files)->0;
            if newest(init) == Some(t) && (files.last().1 != Some(t) || !source_file(files.last().0@)) {
                let i = choose|i: int|
                    0 <= i < init.len() && source_file(#[trigger] init[i].0@) && init[i].1 == Some(t);
                assert(files[i] == init[i]);
            } else {
                let i = files.len() - 1;
                assert(source_file(files[i].0@) && files[i].1 == Some(t));
            }
        }
    }
}

/// A plugin is built again when its artifact is missing or older than its
/// newest source; without sources, only when the artifact is missing.
pub open spec fn rebuild(newest: Option<u128>, artifact_exists: bool, artifact_time: Option<u128>) -> bool {
    match newest {
        Some(m) => !artifact_exists || match artifact_time {
            Some(a) => m > a,
            None => true,
        },
        None => !artifact_exists,
    }
}

/// When `needs_build` asks for a build: an artifact that exists and was
/// modified no earlier than the newest source is never built again; a build
/// happens only when the artifact is missing, or there are sources and the
/// artifact has no modification time or is strictly older than the newest
/// of them.
pub proof fn lemma_rebuild_only_when_stale(newest: Option<u128>, artifact_exists: bool, artifact_time: Option<u128>)
    ensures
        (newest is Some && artifact_exists && artifact_time is Some && artifact_time->0
            >= newest->0) ==> !rebuild(newest, artifact_exists, artifact_time),
        rebuild(newest, artifact_exists, artifact_time) ==> (!artifact_exists || (newest is Some
            && (artifact_time is None || artifact_time->0 < newest->0))),
        !artifact_exists ==> rebuild(newest, artifact_exists, artifact_time),
        (newest is Some && artifact_time is None) ==> rebuild(newest, artifact_exists, artifact_time),
        (newest is Some && artifact_time is Some && artifact_time->0 < newest->0) ==> rebuild(
            newest,
            artifact_exists,
            artifact_time,
        ),
{
}

/// A plugin is built again when its artifact is missing or older than its
/// newest source.
pub fn needs_build(newest: Option<u128>, artifact_exists: bool, artifact_time: Option<u128>) -> (r: bool)
    ensures
        r == rebuild(newest, artifact_exists, artifact_time),
{
    match newest {
        Some(m) => !artifact_exists || match artifact_time {
            Some(a) => m > a,
            None => true,
        },
        None => !artifact_exists,
    }
}

/// The file a WebAssembly build of the library `package` leaves in the
/// release directory of its target.
pub fn wasm_file_name(package: &str) -> (r: String)
    ensures
        r@ == package@ + ".wasm"@,
{
    let mut v = chars_of(package);
    push_str(&mut v, ".wasm");
    string_from(v)
}

/// The error of a Lua plugin whose entry point is missing.
pub fn missing_entrypoint(entrypoint: &str) -> (r: String)
    ensures
        r@ == "lua entrypoint "@ + entrypoint@ + " missing"@,
{
    let mut v = chars_of("lua entrypoint ");
    push_str(&mut v, entrypoint);
    push_str(&mut v, " missing");
    string_from(v)
}

// ---------------------------------------------------------------------
// Plugins and their entries in the index
// ---------------------------------------------------------------------

/// How a plugin runs.
#[derive(Debug, Clone, Copy, PartialEq, Eq)]
pub enum Backend {
    Wasm,
    Lua,
}

/// The name of a backend in the index.
pub open spec fn backend_spec(b: Backend) -> Seq<char> {
    match b {
        Backend::Wasm => "wasm"@,
        Backend::Lua => "lua"@,
    }
}

/// The name of a backend in the index.
pub fn backend_name(b: Backend) -> (r: &'static str)
    ensures
        r@ == backend_spec(b),
{
    match b {
        Backend::Wasm => "wasm",
        Backend::Lua => "lua",
    }
}

/// What a plugin's `plugin.toml` declares.
pub struct Manifest {
    pub id: String,
    pub backend: Backend,
    pub entrypoint: String,
    pub version: String,
    pub min_app_version: Option<String>,
}

/// The entry of a plugin in the repository's index.
pub struct RepoEntry {
    pub id: String,
    pub backend: &'static str,
    pub version: String,
    pub plugin_api: String,
    pub min_app_version: Option<String>,
    pub sha256: String,
    pub url: String,
}

/// The file name of a plugin's archive.
pub open spec fn artifact_spec(id: Seq<char>, version: Seq<char>) -> Seq<char> {
    id + "-"@ + version + ".mvplug"@
}

/// The file name of a plugin's archive.
pub fn artifact_name(id: &str, version: &str) -> (r: String)
    ensures
        r@ == artifact_spec(id@, version@),
{
    let mut v = chars_of(id);
    push_str(&mut v, "-");
    push_str(&mut v, version);
    push_str(&mut v, ".mvplug");
    string_from(v)
}

/// A lower-case hexadecimal digit.
pub open spec fn hex_lower(d: int) -> char {
    if d < 10 {
        (d + 48) as char
    } else {
        (d + 87) as char
    }
}

/// Bytes written in lower-case hexadecimal, two digits each.
pub open spec fn hex_spec(bytes: Seq<u8>) -> Seq<char>
    decreases bytes.len(),
{
    if bytes.len() == 0 {
        Seq::empty()
    } else {
        hex_spec(bytes.drop_last()) + seq![
            hex_lower(bytes.last() as int / 16),
            hex_lower(bytes.last() as int % 16),
        ]
    }
}

/// A lower-case hexadecimal digit.
pub open spec fn is_hex_lower(c: char) -> bool {
    ('0' <= c <= '9') || ('a' <= c <= 'f')
}

/// Hexadecimal text has two digits per byte, all lower-case hexadecimal.
pub proof fn lemma_hex_shape(bytes: Seq<u8>)
    ensures
        hex_spec(bytes).len() == 2 * bytes.len(),
        forall|i: int| 0 <= i < hex_spec(bytes).len() ==> is_hex_lower(#[trigger] hex_spec(bytes)[i]),
    decreases bytes.len(),
{
    if bytes.len() > 0 {
        lemma_hex_shape(bytes.drop_last());
        let head = hex_spec(bytes.drop_last());
        let b = bytes.last();
        let tail = seq![hex_lower(b as int / 16), hex_lower(b as int % 16)];
        assert(is_hex_lower(tail[0]) && is_hex_lower(tail[1]));
        assert forall|i: int| 0 <= i < (head + tail).len() implies is_hex_lower(#[trigger] (head + tail)[i]) by {
            if i < head.len() {
                assert((head + tail)[i] == head[i]);
            } else {
                assert((head + tail)[i] == tail[i - head.len()]);
            }
        }
    }
}

fn hex_digit(d: u8) -> (r: char)
    requires
        d < 16,
    ensures
        r == hex_lower(d as int),
{
    if d < 10 {
        (d + 48) as char
    } else {
        (d + 87) as char
    }
}

/// Bytes written in lower-case hexadecimal, two digits each.
pub fn hex_digest(digest: &[u8]) -> (r: String)
    ensures
        r@ == hex_spec(digest@),
{
    let mut v: Vec<char> = Vec::new();
    let mut i: usize = 0;
    while i < digest.len()
        invariant
            i <= digest@.len(),
            v@ == hex_spec(digest@.subrange(0, i as int)),
        decreases digest.len() - i,
    {
        assert(digest@.subrange(0, i + 1).drop_last() =~= digest@.subrange(0, i as int));
        let b = digest[i];
        v.push(hex_digit(b / 16));
        v.push(hex_digit(b % 16));
        i = i + 1;
    }
    assert(digest@.subrange(0, digest@.len() as int) =~= digest@);
    string_from(v)
}

/// The permission bits of the members of an archive.
pub const MEMBER_MODE: u32 = 0o644;

/// The members of a plugin's archive: its `plugin.toml` and its entry point,
/// both under a directory named after the plugin.
pub open spec fn bundle_members(id: Seq<char>, entrypoint: Seq<char>, plugin_toml: Seq<u8>, entry: Seq<u8>) -> Seq<(Seq<char>, Seq<u8>, u32)> {
    seq![
        (id + "/plugin.toml"@, plugin_toml, MEMBER_MODE),
        (id + "/"@ + entrypoint, entry, MEMBER_MODE),
    ]
}

/// The gzip-compressed tar archive of a plugin's `plugin.toml` and entry
/// point; or the message of the first failure: the tar builder refusing a
/// member, finishing the archive, or compressing it.
pub open spec fn bundled(id: Seq<char>, entrypoint: Seq<char>, plugin_toml: Seq<u8>, entry: Seq<u8>) -> Result<Seq<u8>, Seq<char>> {
    let m = bundle_members(id, entrypoint, plugin_toml, entry);
    match tar_refusal(Seq::empty(), m[0].0, m[0].1, m[0].2) {
        Some(e) => Err(e),
        None => match tar_refusal(seq![m[0]], m[1].0, m[1].1, m[1].2) {
            Some(e) => Err(e),
            None => match tar_archive(m) {
                Ok(t) => gzip_default(t),
                Err(e) => Err(e),
            },
        },
    }
}

/// A plugin's archive: the gzip-compressed tar archive of its `plugin.toml`
/// and its entry point (their contents given); an error, with the crate's
/// message, exactly when the tar builder refuses a member or finishing or
/// compressing fails.
pub fn bundle(manifest: &Manifest, plugin_toml: &[u8], entry: &[u8]) -> (r: Result<Vec<u8>, String>)
    ensures
        match bundled(manifest.id@, manifest.entrypoint@, plugin_toml@, entry@) {
            Ok(z) => r matches Ok(x) && x@ == z,
            Err(m) => r matches Err(e) && e@ == m,
        },
{
    let ghost m = bundle_members(manifest.id@, manifest.entrypoint@, plugin_toml@, entry@);
    let mut archive = tar_builder();
    let mut first = chars_of(manifest.id.as_str());
    push_str(&mut first, "/plugin.toml");
    let first = string_from(first);
    assert(first@ == m[0].0);
    match tar_append(&mut archive, first.as_str(), plugin_toml, MEMBER_MODE) {
        Ok(()) => {},
        Err(e) => return Err(e),
    }
    assert(tar_members(archive) =~= seq![m[0]]);
    let mut second = chars_of(manifest.id.as_str());
    push_str(&mut second, "/");
    push_str(&mut second, manifest.entrypoint.as_str());
    let second = string_from(second);
    assert(second@ == m[1].0);
    match tar_append(&mut archive, second.as_str(), entry, MEMBER_MODE) {
        Ok(()) => {},
        Err(e) => return Err(e),
    }
    assert(tar_members(archive) =~= bundle_members(
        manifest.id@,
        manifest.entrypoint@,
        plugin_toml@,
        entry@,
    ));
    let tar_bytes = match tar_finish(archive) {
        Ok(b) => b,
        Err(e) => return Err(e),
    };
    gzip(tar_bytes.as_slice())
}

/// The index entry of a plugin, from its manifest, the text of its
/// `plugin.toml`, the address its archives are published under and the bytes
/// of its archive; an error when `plugin.toml` declares no plugin API.
pub fn repo_entry(manifest: &Manifest, plugin_toml: &str, base_url: &str, archive: &[u8]) -> (r: Result<
    RepoEntry,
    String,
>)
    ensures
        match plugin_api_spec(plugin_toml@) {
            Err(m) => r matches Err(e) && e@ == m,
            Ok(api) => r matches Ok(entry) && {
                &&& entry.id@ == manifest.id@
                &&& entry.backend@ == backend_spec(manifest.backend)
                &&& entry.version@ == manifest.version@
                &&& entry.plugin_api@ == api
                &&& opt(entry.min_app_version) == opt(manifest.min_app_version)
                &&& entry.sha256@ == hex_spec(sha256_digest(archive@))
                &&& entry.sha256@.len() == 64
                &&& forall|i: int| 0 <= i < 64 ==> is_hex_lower(#[trigger] entry.sha256@[i])
                &&& entry.url@ == base_url@ + "/"@ + artifact_spec(manifest.id@, manifest.version@)
            },
        },
{
    let digest = sha256(archive);
    let sha = hex_digest(digest.as_slice());
    proof {
        lemma_hex_shape(digest@);
    }
    let api = match plugin_api(plugin_toml) {
        Ok(a) => a,
        Err(e) => return Err(e),
    };
    let name = artifact_name(manifest.id.as_str(), manifest.version.as_str());
    let mut url = chars_of(base_url);
    push_str(&mut url, "/");
    push_str(&mut url, name.as_str());
    let min_app_version = match &manifest.min_app_version {
        Some(v) => Some(v.clone()),
        None => None,
    };
    Ok(
        RepoEntry {
            id: manifest.id.clone(),
            backend: backend_name(manifest.backend),
            version: manifest.version.clone(),
            plugin_api: api,
            min_app_version,
            sha256: sha,
            url: string_from(url),
        },
    )
}

/// Index entries keyed by their ids.
pub open spec fn by_id(s: Seq<RepoEntry>) -> Seq<(String, RepoEntry)> {
    s.map_values(|e: RepoEntry| (e.id, e))
}

/// The entries of keyed entries.
pub open spec fn unkeyed(k: Seq<(String, RepoEntry)>) -> Seq<RepoEntry> {
    k.map_values(|p: (String, RepoEntry)| p.1)
}

proof fn lemma_key_is_id(t: Seq<(String, RepoEntry)>, s: Seq<RepoEntry>, a: int)
    requires
        stably_sorted(t, by_id(s)),
        0 <= a < t.len(),
    ensures
        t[a].0 == t[a].1.id,
{
    let x = t[a];
    let k = x.0;
    String::lemma_le_total(k, k);
    let p = same_key::<String, RepoEntry>(k);
    t.lemma_filter_contains(p, a);
    assert(t.filter(p) == by_id(s).filter(p));
    by_id(s).lemma_filter_contains_rev(p, x);
    let m = choose|m: int| 0 <= m < by_id(s).len() && by_id(s)[m] == x;
    assert(by_id(s)[m] == (s[m].id, s[m]));
}

/// The index entries ordered by id; entries with the same id keep their
/// order.
pub fn sort_entries(entries: Vec<RepoEntry>) -> (r: Vec<RepoEntry>)
    ensures
        exists|t: Seq<(String, RepoEntry)>| stably_sorted(t, by_id(entries@)) && r@ == unkeyed(t),
        r@.len() == entries@.len(),
        forall|i: int, j: int| 0 <= i < j < r@.len() ==> lex_le((#[trigger] r@[i]).id@, (#[trigger] r@[j]).id@),
{
    let mut v = entries;
    let ghost orig = v@;
    let mut keyed: Vec<(String, RepoEntry)> = Vec::new();
    let ghost mut i: int = 0;
    while v.len() > 0
        invariant
            0 <= i <= orig.len(),
            v@ == orig.subrange(i, orig.len() as int),
            keyed@ == by_id(orig.subrange(0, i)),
        decreases v.len(),
    {
        let e = v.remove(0);
        let k = e.id.clone();
        keyed.push((k, e));
        proof {
            assert(by_id(orig.subrange(0, i + 1)) =~= by_id(orig.subrange(0, i)).push(
                (orig[i].id, orig[i]),
            ));
            i = i + 1;
            assert(v@ =~= orig.subrange(i, orig.len() as int));
        }
    }
    assert(orig.subrange(0, i) =~= orig);
    let mut sorted = stable_sort(keyed);
    let ghost t = sorted@;
    let mut out: Vec<RepoEntry> = Vec::new();
    let ghost mut j: int = 0;
    while sorted.len() > 0
        invariant
            0 <= j <= t.len(),
            sorted@ == t.subrange(j, t.len() as int),
            out@ == unkeyed(t.subrange(0, j)),
        decreases sorted.len(),
    {
        let (_, e) = sorted.remove(0);
        out.push(e);
        proof {
            assert(unkeyed(t.subrange(0, j + 1)) =~= unkeyed(t.subrange(0, j)).push(t[j].1));
            j = j + 1;
            assert(sorted@ =~= t.subrange(j, t.len() as int));
        }
    }
    assert(t.subrange(0, j) =~= t);
    assert forall|a: int, b: int| 0 <= a < b < out@.len() implies lex_le((#[trigger] out@[a]).id@, (#[trigger] out@[b]).id@) by {
        assert(out@[a] == t[a].1 && out@[b] == t[b].1);
        assert(t[a].0.key_le(t[b].0));
        lemma_key_is_id(t, orig, a);
        lemma_key_is_id(t, orig, b);
    }
    out
}

} // verus!
