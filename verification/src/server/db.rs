use sha2::{Digest, Sha256};
use vstd::prelude::*;
use vstd::string::StringSliceAdditionalSpecFns;

use crate::config::Config;
use crate::models::{IconRecord, ManualServiceRecord};
use crate::str_map::StrMap;
use crate::text::{chars_of, joined, slice_range, string_of};

verus! {

/// Directory where uploaded icons are stored on disk.
pub fn icons_dir(config: &Config) -> (r: String)
    ensures
        r == config.icons_dir,
{
    config.icons_dir.clone()
}

/// The login attempt that a provider's callback completes.
#[derive(Clone, Debug)]
pub struct OidcLoginAttempt {
    pub next_path: String,
}

// ── Hashing ──────────────────────────────────────────────────────────────────

/// The SHA-256 digest of `data`, as the `sha2` crate computes it.
pub uninterp spec fn sha256(data: Seq<u8>) -> Seq<u8>;

/// Computes the SHA-256 digest with `sha2::Sha256`.  The contract names the
/// digest `sha256(data@)` and states its length, 32 bytes; it states
/// nothing of the hash function itself.
#[verifier::external_body]
fn sha256_digest(data: &[u8]) -> (r: Vec<u8>)
    ensures
        r@ == sha256(data@),
        r@.len() == 32,
{
    let mut hasher = Sha256::new();
    hasher.update(data);
    hasher.finalize().to_vec()
}

/// The lower-case hexadecimal digit for `n` (below 16).
pub open spec fn hex_digit(n: nat) -> char {
    if n < 10 {
        (48 + n) as char
    } else {
        (87 + n) as char
    }
}

/// The lower-case hexadecimal text of `bytes`: two digits per byte, the
/// high nibble first.
pub open spec fn hex_text(bytes: Seq<u8>) -> Seq<char>
    decreases bytes.len(),
{
    if bytes.len() == 0 {
        Seq::empty()
    } else {
        hex_text(bytes.drop_last()) + seq![
            hex_digit((bytes.last() / 16) as nat),
            hex_digit((bytes.last() % 16) as nat),
        ]
    }
}

/// `hex::encode`: the lower-case hexadecimal text of `bytes`, two digits per
/// byte from the table `0123456789abcdef`, as the crate's source writes it.
#[verifier::external_body]
fn hex_encode(bytes: &[u8]) -> (r: String)
    ensures
        r@ == hex_text(bytes@),
{
    hex::encode(bytes)
}

/// Two hexadecimal digits per byte.
pub proof fn lemma_hex_text_len(bytes: Seq<u8>)
    ensures
        hex_text(bytes).len() == 2 * bytes.len(),
    decreases bytes.len(),
{
    if bytes.len() > 0 {
        lemma_hex_text_len(bytes.drop_last());
    }
}

/// The SHA-256 digest of `data` in lower-case hexadecimal (64 characters).
pub fn sha256_hex(data: &[u8]) -> (r: String)
    ensures
        r@ == hex_text(sha256(data@)),
        r@.len() == 64,
{
    let digest = sha256_digest(data);
    proof {
        lemma_hex_text_len(digest@);
    }
    hex_encode(digest.as_slice())
}

/// What a session cookie's token is stored as: the hexadecimal SHA-256 of
/// its UTF-8 bytes, so that the database never holds the token itself.
pub open spec fn token_hash(token: &str) -> Seq<char> {
    hex_text(sha256(token.spec_bytes()))
}

/// The hash under which a session token is stored and looked up.
pub fn session_token_hash(token: &str) -> (r: String)
    ensures
        r@ == token_hash(token),
{
    sha256_hex(token.as_bytes())
}

// ── Icon files and paths ─────────────────────────────────────────────────────

/// URL prefix under which icons are served by the browser.
pub const ICONS_URL_PREFIX: &'static str = "/icons";

/// The file name of an uploaded icon: the hexadecimal SHA-256 of its bytes,
/// a dot and the extension.  Equal files share one name.
pub fn icon_filename(data: &[u8], extension: &str) -> (r: String)
    ensures
        r@ == hex_text(sha256(data@)) + "."@ + extension@,
{
    let hash = sha256_hex(data);
    let with_dot = joined(hash.as_str(), ".");
    joined(with_dot.as_str(), extension)
}

/// Icon files are content-addressed: the same bytes and extension always
/// give the same file name, the digest's hexadecimal digits (two per byte),
/// a dot and the extension; so storing an identical upload again finds the
/// file already in place.
pub proof fn lemma_icon_filename_content_addressed(data: Seq<u8>, other: Seq<u8>, ext: Seq<char>)
    ensures
        data == other ==> hex_text(sha256(data)) + "."@ + ext == hex_text(sha256(other)) + "."@
            + ext,
        hex_text(sha256(data)).len() == 2 * sha256(data).len(),
{
    lemma_hex_text_len(sha256(data));
}

/// The path under which the browser fetches the icon stored as `filename`.
pub open spec fn icon_path_of(filename: Seq<char>) -> Seq<char> {
    "/icons/"@ + filename
}

/// The URL path of a stored icon file.
pub fn icon_url_path(filename: &str) -> (r: String)
    ensures
        r@ == icon_path_of(filename@),
{
    joined("/icons/", filename)
}

/// The file name in an icon's URL path: the path without its `/icons/`
/// prefix, or the path itself when it lacks that prefix.
pub open spec fn filename_of(path: Seq<char>) -> Seq<char> {
    let prefix = "/icons/"@;
    if path.len() >= prefix.len() && path.subrange(0, prefix.len() as int) == prefix {
        path.subrange(prefix.len() as int, path.len() as int)
    } else {
        path
    }
}

/// The stored file name of an icon, from its URL path.
pub fn stored_filename(path: &str) -> (r: String)
    ensures
        r@ == filename_of(path@),
{
    let p = chars_of(path);
    let prefix = chars_of("/icons/");
    let n = p.len();
    let m = prefix.len();
    if n < m {
        return path.to_owned();
    }
    let mut i: usize = 0;
    while i < m
        invariant
            m <= n,
            n == p@.len(),
            m == prefix@.len(),
            p@ == path@,
            prefix@ == "/icons/"@,
            i <= m,
            forall|k: int| 0 <= k < i ==> p@[k] == prefix@[k],
        decreases m - i,
    {
        if p[i] != prefix[i] {
            assert(p@.subrange(0, m as int)[i as int] != prefix@[i as int]);
            assert(p@.subrange(0, m as int) != prefix@);

            return path.to_owned();
        }
        i += 1;
    }
    assert(p@.subrange(0, m as int) =~= prefix@);
    let rest = slice_range(p.as_slice(), m, n);
    string_of(rest.as_slice())
}

/// Stripping the prefix from an icon's URL path gives back its file name.
pub proof fn lemma_filename_of_icon_path(filename: Seq<char>)
    ensures
        filename_of(icon_path_of(filename)) == filename,
{
    let prefix = "/icons/"@;
    let path = prefix + filename;
    assert(path.subrange(0, prefix.len() as int) == prefix);
    assert(path.subrange(prefix.len() as int, path.len() as int) == filename);
}

// ── Database location ────────────────────────────────────────────────────────

/// `s` starts with `prefix`.
pub open spec fn has_prefix(s: Seq<char>, prefix: Seq<char>) -> bool {
    s.len() >= prefix.len() && s.subrange(0, prefix.len() as int) == prefix
}

/// The characters of `s` before its first `?` (all of `s` when it has none).
pub open spec fn before_query(s: Seq<char>) -> Seq<char>
    decreases s.len(),
{
    if s.len() == 0 {
        s
    } else if s[0] == '?' {
        Seq::empty()
    } else {
        seq![s[0]] + before_query(s.drop_first())
    }
}

/// The file path in a SQLite database URL: what follows `sqlite://` (or
/// else `sqlite:`) up to the first `?`; `None` for other URLs.
pub open spec fn sqlite_path_of(url: Seq<char>) -> Option<Seq<char>> {
    if has_prefix(url, "sqlite://"@) {
        Some(before_query(url.subrange("sqlite://"@.len() as int, url.len() as int)))
    } else if has_prefix(url, "sqlite:"@) {
        Some(before_query(url.subrange("sqlite:"@.len() as int, url.len() as int)))
    } else {
        None
    }
}

fn starts_with(s: &[char], prefix: &[char]) -> (r: bool)
    ensures
        r == has_prefix(s@, prefix@),
{
    let n = s.len();
    let m = prefix.len();
    if n < m {
        return false;
    }
    let mut i: usize = 0;
    while i < m
        invariant
            m <= n == s@.len(),
            m == prefix@.len(),
            i <= m,
            forall|k: int| 0 <= k < i ==> s@[k] == prefix@[k],
        decreases m - i,
    {
        if s[i] != prefix[i] {
            assert(s@.subrange(0, m as int)[i as int] != prefix@[i as int]);
            return false;
        }
        i += 1;
    }
    assert(s@.subrange(0, m as int) =~= prefix@);
    true
}

proof fn lemma_before_query_prefix(s: Seq<char>, i: int)
    requires
        0 <= i <= s.len(),
        forall|k: int| 0 <= k < i ==> s[k] != '?',
        i == s.len() || s[i] == '?',
    ensures
        before_query(s) == s.subrange(0, i),
    decreases i,
{
    if i > 0 {
        lemma_before_query_prefix(s.drop_first(), i - 1);
        assert(seq![s[0]] + s.drop_first().subrange(0, i - 1) == s.subrange(0, i));
    } else if s.len() == 0 {
        assert(s.subrange(0, 0) == s);
    } else {
        assert(s.subrange(0, 0) == Seq::<char>::empty());
    }
}

/// The database file named by a SQLite URL (see `sqlite_path_of`), whose
/// directory is created before connecting.
pub fn sqlite_file_path(database_url: &str) -> (r: Option<String>)
    ensures
        match (r, sqlite_path_of(database_url@)) {
            (Some(a), Some(b)) => a@ == b,
            (None, None) => true,
            _ => false,
        },
{
    let u = chars_of(database_url);
    let long = chars_of("sqlite://");
    let short = chars_of("sqlite:");
    let from = if starts_with(u.as_slice(), long.as_slice()) {
        long.len()
    } else if starts_with(u.as_slice(), short.as_slice()) {
        short.len()
    } else {
        return None;
    };
    let n = u.len();
    let ghost rest = u@.subrange(from as int, n as int);
    let mut j: usize = from;
    while j < n && u[j] != '?'
        invariant
            from <= j <= n == u@.len(),
            rest == u@.subrange(from as int, n as int),
            forall|k: int| from <= k < j ==> u@[k] != '?',
        decreases n - j,
    {
        j += 1;
    }
    proof {
        assert forall|k: int| 0 <= k < j - from implies rest[k] != '?' by {
            assert(rest[k] == u@[k + from]);
        }
        if j < n {
            assert(rest[j - from] == u@[j as int]);
        }
        lemma_before_query_prefix(rest, j - from);
        assert(rest.subrange(0, j - from) == u@.subrange(from as int, j as int));
    }
    let path = slice_range(u.as_slice(), from, j);
    Some(string_of(path.as_slice()))
}

// ── Bundled icons ────────────────────────────────────────────────────────────

/// The names of the SVG icons that ship with the application, seeded into
/// the icon library at start-up from `assets/images/<name>.svg`.
pub fn bundled_icon_names() -> (r: Vec<&'static str>)
    ensures
        r@ == seq![
            "bulb",
            "bus",
            "calendar",
            "comment",
            "cutlery",
            "eye",
            "github",
            "it",
            "kanban",
            "link",
            "microphone",
            "music",
            "pins",
            "question",
            "receipt",
            "ship",
            "shopping-cart",
            "slack",
            "spyglass",
            "spy",
            "tv",
            "water",
            "wiki",
        ],
{
    vec![
        "bulb",
        "bus",
        "calendar",
        "comment",
        "cutlery",
        "eye",
        "github",
        "it",
        "kanban",
        "link",
        "microphone",
        "music",
        "pins",
        "question",
        "receipt",
        "ship",
        "shopping-cart",
        "slack",
        "spyglass",
        "spy",
        "tv",
        "water",
        "wiki",
    ]
}

/// Where a bundled icon's source file lies.
pub fn bundled_icon_source(name: &str) -> (r: String)
    ensures
        r@ == "assets/images/"@ + name@ + ".svg"@,
{
    let a = joined("assets/images/", name);
    joined(a.as_str(), ".svg")
}

// ── Updating an icon ─────────────────────────────────────────────────────────

/// The name and stored file name an icon gets from an update: the new name
/// or the current one; the new file's content-addressed name or the current
/// file name (taken from the current URL path).
pub fn updated_icon_fields(
    current: &IconRecord,
    new_name: Option<&str>,
    new_file: Option<(&[u8], &str)>,
) -> (r: (String, String))
    ensures
        r.0@ == match new_name {
            Some(n) => n@,
            None => current.name@,
        },
        r.1@ == match new_file {
            Some((data, ext)) => hex_text(sha256(data@)) + "."@ + ext@,
            None => filename_of(current.path@),
        },
{
    let name = match new_name {
        Some(n) => n.to_owned(),
        None => current.name.clone(),
    };
    let filename = match new_file {
        Some((data, ext)) => icon_filename(data, ext),
        None => stored_filename(current.path.as_str()),
    };
    (name, filename)
}

// ── Rows ─────────────────────────────────────────────────────────────────────

/// An icon record from its stored row: the file name becomes its URL path.
pub fn icon_record(id: i64, name: String, filename: &str) -> (r: IconRecord)
    ensures
        r.id == id,
        r.name == name,
        r.path@ == icon_path_of(filename@),
{
    IconRecord { id, name, path: icon_url_path(filename) }
}

/// The URL path of the last row named `name`, if any.
pub open spec fn last_path_named(rows: Seq<(String, String)>, name: Seq<char>) -> Option<
    Seq<char>,
>
    decreases rows.len(),
{
    if rows.len() == 0 {
        None
    } else if rows.last().0@ == name {
        Some(icon_path_of(rows.last().1@))
    } else {
        last_path_named(rows.drop_last(), name)
    }
}

/// No two rows bear the same name (icon names are unique in the store).
pub open spec fn names_distinct(rows: Seq<(String, String)>) -> bool {
    forall|i: int, j: int|
        #![trigger rows[i], rows[j]]
        0 <= i < j < rows.len() ==> rows[i].0@ != rows[j].0@
}

/// The listing by name agrees with the list of records: a name is a key
/// exactly when some row bears it, and where no two rows share a name, each
/// row's name maps to the URL path that `icon_record` gives that row.
pub proof fn lemma_paths_by_name_match_records(rows: Seq<(String, String)>)
    ensures
        forall|name: Seq<char>|
            (#[trigger] last_path_named(rows, name) is Some) <==> exists|k: int|
                0 <= k < rows.len() && (#[trigger] rows[k]).0@ == name,
        names_distinct(rows) ==> forall|k: int|
            0 <= k < rows.len() ==> last_path_named(rows, (#[trigger] rows[k]).0@) == Some(
                icon_path_of(rows[k].1@),
            ),
    decreases rows.len(),
{
    if rows.len() > 0 {
        let p = rows.drop_last();
        let x = rows.last();
        lemma_paths_by_name_match_records(p);
        assert forall|name: Seq<char>|
            (#[trigger] last_path_named(rows, name) is Some) <==> exists|k: int|
                0 <= k < rows.len() && (#[trigger] rows[k]).0@ == name by {
            if x.0@ == name {
                assert(rows[rows.len() - 1] == x);
            } else {
                if last_path_named(p, name) is Some {
                    let k = choose|k: int| 0 <= k < p.len() && (#[trigger] p[k]).0@ == name;
                    assert(rows[k] == p[k]);
                }
                if exists|k: int| 0 <= k < rows.len() && (#[trigger] rows[k]).0@ == name {
                    let k = choose|k: int| 0 <= k < rows.len() && (#[trigger] rows[k]).0@ == name;
                    assert(k < p.len());
                    assert(p[k] == rows[k]);
                }
            }
        }
        if names_distinct(rows) {
            assert forall|i: int, j: int|
                #![trigger p[i], p[j]]
                0 <= i < j < p.len() implies p[i].0@ != p[j].0@ by {
                assert(p[i] == rows[i] && p[j] == rows[j]);
            }
            assert forall|k: int| 0 <= k < rows.len() implies last_path_named(
                rows,
                (#[trigger] rows[k]).0@,
            ) == Some(icon_path_of(rows[k].1@)) by {
                if k < rows.len() - 1 {
                    assert(rows[k] == p[k]);
                    assert(rows[rows.len() - 1] == x);
                }
            }
        }
    }
}

/// The icon paths keyed by icon name, from `(name, file name)` rows; a later
/// row replaces an earlier one of the same name.
pub fn icon_paths_by_name(rows: Vec<(String, String)>) -> (r: StrMap<String>)
    ensures
        forall|k: Seq<char>| #[trigger]
            r@.contains_key(k) == (last_path_named(rows@, k) is Some),
        forall|k: Seq<char>| #[trigger]
            r@.contains_key(k) ==> r@[k]@ == last_path_named(rows@, k)->0,
{
    let mut r: StrMap<String> = StrMap::new();
    let n = rows.len();
    for i in 0..n
        invariant
            n == rows@.len(),
            forall|k: Seq<char>| #[trigger]
                r@.contains_key(k) == (last_path_named(rows@.take(i as int), k) is Some),
            forall|k: Seq<char>| #[trigger]
                r@.contains_key(k) ==> r@[k]@ == last_path_named(rows@.take(i as int), k)->0,
    {
        let name = rows[i].0.clone();
        let path = icon_url_path(rows[i].1.as_str());
        r.insert(name, path);
        assert(rows@.take(i + 1).drop_last() == rows@.take(i as int));
        assert(rows@.take(i + 1).last() == rows@[i as int]);
    }
    assert(rows@.take(n as int) == rows@);
    r
}

/// A manual service as stored: its icon as the icon's file name.
#[derive(Debug, Clone, PartialEq)]
pub struct ManualServiceRow {
    pub id: i64,
    pub title: String,
    pub url: String,
    pub description: String,
    pub category: String,
    pub github_url: Option<String>,
    pub icon_id: Option<i64>,
    pub icon_name: Option<String>,
    pub icon_filename: Option<String>,
}

/// The record of a stored manual service, its icon file name turned into
/// the icon's URL path.
pub fn map_manual_service_row(row: ManualServiceRow) -> (r: ManualServiceRecord)
    ensures
        r.id == row.id,
        r.title == row.title,
        r.url == row.url,
        r.description == row.description,
        r.category == row.category,
        r.github_url == row.github_url,
        r.icon_id == row.icon_id,
        r.icon_name == row.icon_name,
        match (r.icon_path, row.icon_filename) {
            (Some(p), Some(f)) => p@ == icon_path_of(f@),
            (None, None) => true,
            _ => false,
        },
{
    let icon_path = match &row.icon_filename {
        Some(f) => Some(icon_url_path(f.as_str())),
        None => None,
    };
    ManualServiceRecord {
        id: row.id,
        title: row.title,
        url: row.url,
        description: row.description,
        category: row.category,
        github_url: row.github_url,
        icon_id: row.icon_id,
        icon_name: row.icon_name,
        icon_path,
    }
}

} // verus!
