use base64::Engine;
use vstd::prelude::*;

use crate::text::{
    ascii_lowered, chars_of, contains, contains_text, is_ascii_char, is_ascii_text, is_ascii_upper,
    joined, lemma_ascii_lower_char, lemma_trim_keeps_ascii,
    lowercase, no_ascii_upper, string_of, to_lowercase, trim, trim_end, trim_start, trim_str,
};

verus! {

// ── Trusted calls into `url` and `base64` ────────────────────────────────────

/// The scheme that `url::Url::parse` finds in `s`, or `None` when it rejects `s`.
pub uninterp spec fn url_scheme(s: Seq<char>) -> Option<Seq<char>>;

/// What `base64`'s standard engine decodes `s` to, or the text of its error.
pub uninterp spec fn base64_standard_decode(s: Seq<char>) -> Result<Seq<u8>, Seq<char>>;

/// Calls `url::Url::parse` and returns the scheme of the parsed URL.  The
/// contract names the result `url_scheme(s@)`; it states nothing of the URL
/// grammar.
#[verifier::external_body]
fn parse_url_scheme(s: &str) -> (r: Option<String>)
    ensures
        r is Some <==> url_scheme(s@) is Some,
        r matches Some(x) ==> x@ == url_scheme(s@)->0,
{
    match url::Url::parse(s) {
        Ok(u) => Some(u.scheme().to_string()),
        Err(_) => None,
    }
}

/// Calls `decode` of `base64::engine::general_purpose::STANDARD` and returns
/// the bytes, or the error's text.  The contract names the outcome
/// `base64_standard_decode(s@)`; it states nothing of the encoding.
#[verifier::external_body]
fn decode_base64(s: &str) -> (r: Result<Vec<u8>, String>)
    ensures
        match (r, base64_standard_decode(s@)) {
            (Ok(b), Ok(c)) => b@ == c,
            (Err(e), Err(c)) => e@ == c,
            _ => false,
        },
{
    match base64::engine::general_purpose::STANDARD.decode(s) {
        Ok(bytes) => Ok(bytes),
        Err(err) => Err(err.to_string()),
    }
}

// ── Errors ───────────────────────────────────────────────────────────────────

/// A required text field of a manual service.
#[derive(Debug, Clone, Copy, PartialEq, Eq)]
pub enum Field {
    Title,
    Description,
    Category,
}

/// Why an admin request was refused.
#[derive(Debug, Clone, PartialEq)]
pub enum AdminError {
    /// The file extension is not one of the allowed image types.
    UnsupportedFileType(String),
    /// A required field is empty after trimming.
    EmptyField(Field),
    /// The service URL is empty.
    EmptyUrl,
    /// The URL's scheme is neither `http` nor `https`.
    UrlScheme,
    /// The URL does not parse.
    InvalidUrl,
    /// The chosen icon was deleted meanwhile.
    MissingIcon,
    /// The icon name is empty.
    EmptyIconName,
    /// The uploaded data is not base64; the decoder's message.
    InvalidBase64(String),
    /// The uploaded file is empty.
    EmptyFileData,
    /// Only one of the new file's data and extension was given.
    IncompleteFileUpdate,
    /// A new icon's name is taken.
    NewIconNameTaken(String),
    /// A renamed icon's name is taken.
    IconNameTaken,
    /// The database failed; its message.
    Database(String),
    /// The request is not signed in.
    AuthenticationRequired,
}

/// The name of a field as messages show it.
pub open spec fn field_label(f: Field) -> Seq<char> {
    match f {
        Field::Title => "Title"@,
        Field::Description => "Description"@,
        Field::Category => "Category"@,
    }
}

/// The message shown for an error.
pub open spec fn error_message(e: AdminError) -> Seq<char> {
    match e {
        AdminError::UnsupportedFileType(ext) => "Unsupported file type: '"@ + ext@
            + "'. Allowed: svg, png, jpg, jpeg, webp, gif, ico"@,
        AdminError::EmptyField(f) => field_label(f) + " must not be empty"@,
        AdminError::EmptyUrl => "URL must not be empty"@,
        AdminError::UrlScheme => "URLs must start with http:// or https://"@,
        AdminError::InvalidUrl => "Please enter a valid URL"@,
        AdminError::MissingIcon => "Selected icon no longer exists"@,
        AdminError::EmptyIconName => "Icon name must not be empty"@,
        AdminError::InvalidBase64(m) => "Invalid base64 data: "@ + m@,
        AdminError::EmptyFileData => "File data must not be empty"@,
        AdminError::IncompleteFileUpdate => "new_data and new_extension must both be provided"@,
        AdminError::NewIconNameTaken(name) => "An icon named '"@ + name@ + "' already exists"@,
        AdminError::IconNameTaken => "An icon with that name already exists"@,
        AdminError::Database(m) => "DB error: "@ + m@,
        AdminError::AuthenticationRequired => "Authentication required"@,
    }
}

impl Field {
    /// The name of the field as messages show it.
    pub fn label(&self) -> (r: &'static str)
        ensures
            r@ == field_label(*self),
    {
        match self {
            Field::Title => "Title",
            Field::Description => "Description",
            Field::Category => "Category",
        }
    }
}

impl AdminError {
    /// The message shown for this error.
    pub fn message(&self) -> (r: String)
        ensures
            r@ == error_message(*self),
    {
        match self {
            AdminError::UnsupportedFileType(ext) => {
                let a = joined("Unsupported file type: '", ext.as_str());
                joined(a.as_str(), "'. Allowed: svg, png, jpg, jpeg, webp, gif, ico")
            },
            AdminError::EmptyField(f) => joined(f.label(), " must not be empty"),
            AdminError::EmptyUrl => "URL must not be empty".to_owned(),
            AdminError::UrlScheme => "URLs must start with http:// or https://".to_owned(),
            AdminError::InvalidUrl => "Please enter a valid URL".to_owned(),
            AdminError::MissingIcon => "Selected icon no longer exists".to_owned(),
            AdminError::EmptyIconName => "Icon name must not be empty".to_owned(),
            AdminError::InvalidBase64(m) => joined("Invalid base64 data: ", m.as_str()),
            AdminError::EmptyFileData => "File data must not be empty".to_owned(),
            AdminError::IncompleteFileUpdate => "new_data and new_extension must both be provided".to_owned(),
            AdminError::NewIconNameTaken(name) => {
                let a = joined("An icon named '", name.as_str());
                joined(a.as_str(), "' already exists")
            },
            AdminError::IconNameTaken => "An icon with that name already exists".to_owned(),
            AdminError::Database(m) => joined("DB error: ", m.as_str()),
            AdminError::AuthenticationRequired => "Authentication required".to_owned(),
        }
    }
}


// ── Validating the admin forms ───────────────────────────────────────────────

/// `s` without its leading dots (`trim_start_matches('.')`).
pub open spec fn strip_leading_dots(s: Seq<char>) -> Seq<char>
    decreases s.len(),
{
    if s.len() > 0 && s[0] == '.' {
        strip_leading_dots(s.drop_first())
    } else {
        s
    }
}

/// The image types that can be uploaded.
pub open spec fn allowed_extension(e: Seq<char>) -> bool {
    e == "svg"@ || e == "png"@ || e == "jpg"@ || e == "jpeg"@ || e == "webp"@ || e == "gif"@
        || e == "ico"@
}

/// The normalised extension: trimmed, without leading dots, lower-cased.
pub open spec fn normalised_extension(ext: Seq<char>) -> Seq<char> {
    lowercase(strip_leading_dots(trim(ext)))
}

fn strip_dots(s: &[char]) -> (r: Vec<char>)
    ensures
        r@ == strip_leading_dots(s@),
{
    let n = s.len();
    let mut i: usize = 0;
    assert(s@.subrange(0, n as int) == s@);
    while i < n && s[i] == '.'
        invariant
            i <= n == s@.len(),
            strip_leading_dots(s@) == strip_leading_dots(s@.subrange(i as int, n as int)),
        decreases n - i,
    {
        assert(s@.subrange(i as int, n as int).drop_first() == s@.subrange(i + 1, n as int));
        i += 1;
    }
    let mut r: Vec<char> = Vec::new();
    let mut k = i;
    while k < n
        invariant
            i <= k <= n == s@.len(),
            r@ == s@.subrange(i as int, k as int),
        decreases n - k,
    {
        r.push(s[k]);
        assert(s@.subrange(i as int, k + 1) == s@.subrange(i as int, k as int).push(s@[k as int]));
        k += 1;
    }
    r
}

/// An allowed extension is its own normal form: nothing to trim, no dot,
/// no capital letter.
proof fn lemma_allowed_extension_is_plain(e: Seq<char>)
    requires
        allowed_extension(e),
    ensures
        strip_leading_dots(trim(e)) == e,
        is_ascii_text(e),
        no_ascii_upper(e),
{
    reveal_strlit("svg");
    reveal_strlit("png");
    reveal_strlit("jpg");
    reveal_strlit("jpeg");
    reveal_strlit("webp");
    reveal_strlit("gif");
    reveal_strlit("ico");
    assert(trim_start(e) == e);
    assert(trim_end(e) == e);
}

proof fn lemma_strip_dots_keeps_ascii(s: Seq<char>)
    requires
        is_ascii_text(s),
    ensures
        is_ascii_text(strip_leading_dots(s)),
    decreases s.len(),
{
    if s.len() > 0 && s[0] == '.' {
        assert forall|k: int| 0 <= k < s.drop_first().len() implies is_ascii_char(
            #[trigger] s.drop_first()[k],
        ) by {
            assert(s.drop_first()[k] == s[k + 1]);
        }
        lemma_strip_dots_keeps_ascii(s.drop_first());
    }
}

/// Validates a file extension and normalises it: `Ok` with the normalised
/// extension when it is one of svg, png, jpg, jpeg, webp, gif, ico.  For an
/// ASCII extension the normal form is the trimmed text without leading dots,
/// lower-cased in ASCII.  An allowed extension comes back unchanged, so the
/// result of a success validates to itself again.
pub fn sanitise_extension(ext: &str) -> (r: Result<String, AdminError>)
    ensures
        match r {
            Ok(e) => e@ == normalised_extension(ext@) && allowed_extension(e@),
            Err(err) => !allowed_extension(normalised_extension(ext@)) && (err matches AdminError::UnsupportedFileType(x)
                && x@ == normalised_extension(ext@)),
        },
        is_ascii_text(ext@) ==> normalised_extension(ext@) == ascii_lowered(
            strip_leading_dots(trim(ext@)),
        ),
        allowed_extension(ext@) ==> (r matches Ok(e) && e@ == ext@),
{
    let t = trim_str(ext);
    let d = strip_dots(chars_of(t.as_str()).as_slice());
    let ds = string_of(d.as_slice());
    proof {
        if is_ascii_text(ext@) {
            lemma_trim_keeps_ascii(ext@);
            lemma_strip_dots_keeps_ascii(trim(ext@));
        }
    }
    let e = to_lowercase(ds.as_str());
    proof {
        if allowed_extension(ext@) {
            lemma_allowed_extension_is_plain(ext@);
            assert(ds@ == ext@);
            assert forall|i: int| 0 <= i < ext@.len() implies #[trigger] e@[i] == ext@[i] by {
                lemma_ascii_lower_char(ext@[i]);
            }
            assert(e@ == ext@);
        }
    }
    let svg = "svg".to_owned();
    let png = "png".to_owned();
    let jpg = "jpg".to_owned();
    let jpeg = "jpeg".to_owned();
    let webp = "webp".to_owned();
    let gif = "gif".to_owned();
    let ico = "ico".to_owned();
    if e == svg || e == png || e == jpg || e == jpeg || e == webp || e == gif || e == ico {
        Ok(e)
    } else {
        Err(AdminError::UnsupportedFileType(e))
    }
}

/// A required field: `Ok` with the trimmed value, `Err` when it is empty.
pub fn normalise_required_field(label: Field, value: String) -> (r: Result<String, AdminError>)
    ensures
        match r {
            Ok(v) => trim(value@).len() > 0 && v@ == trim(value@),
            Err(e) => trim(value@).len() == 0 && e == AdminError::EmptyField(label),
        },
{
    let v = trim_str(value.as_str());
    if v.as_str().is_empty() {
        Err(AdminError::EmptyField(label))
    } else {
        Ok(v)
    }
}

/// What a URL field becomes: the trimmed text when it parses as an `http`
/// or `https` URL; the empty text when it is empty and that is allowed.
pub open spec fn url_check(value: Seq<char>, allow_empty: bool) -> Result<Seq<char>, AdminError> {
    let t = trim(value);
    if t.len() == 0 {
        if allow_empty {
            Ok(Seq::empty())
        } else {
            Err(AdminError::EmptyUrl)
        }
    } else {
        match url_scheme(t) {
            Some(s) => if s == "http"@ || s == "https"@ {
                Ok(t)
            } else {
                Err(AdminError::UrlScheme)
            },
            None => Err(AdminError::InvalidUrl),
        }
    }
}

/// What a URL field is accepted as: a non-blank value is accepted, trimmed,
/// exactly when it parses with the scheme `http` or `https`; one that parses
/// with another scheme is refused for its scheme, one that does not parse
/// as invalid; a blank value gives the empty text when that is allowed and
/// is refused as empty otherwise.
pub proof fn lemma_url_check_accepts_web_urls(value: Seq<char>, allow_empty: bool)
    ensures
        trim(value).len() > 0 && (url_scheme(trim(value)) == Some("http"@) || url_scheme(
            trim(value),
        ) == Some("https"@)) ==> url_check(value, allow_empty) == Ok::<Seq<char>, AdminError>(
            trim(value),
        ),
        trim(value).len() > 0 && url_scheme(trim(value)) is Some && url_scheme(trim(value)) != Some(
            "http"@,
        ) && url_scheme(trim(value)) != Some("https"@) ==> url_check(value, allow_empty) == Err::<
            Seq<char>,
            AdminError,
        >(AdminError::UrlScheme),
        trim(value).len() > 0 && url_scheme(trim(value)) is None ==> url_check(value, allow_empty)
            == Err::<Seq<char>, AdminError>(AdminError::InvalidUrl),
        trim(value).len() == 0 ==> url_check(value, allow_empty) == if allow_empty {
            Ok::<Seq<char>, AdminError>(Seq::empty())
        } else {
            Err::<Seq<char>, AdminError>(AdminError::EmptyUrl)
        },
{
}

/// Validates a URL field (see `url_check`).
pub fn normalise_url(value: String, allow_empty: bool) -> (r: Result<String, AdminError>)
    ensures
        match (r, url_check(value@, allow_empty)) {
            (Ok(v), Ok(w)) => v@ == w,
            (Err(e), Err(f)) => e == f,
            _ => false,
        },
{
    let t = trim_str(value.as_str());
    if t.as_str().is_empty() {
        if allow_empty {
            return Ok(String::new());
        }
        return Err(AdminError::EmptyUrl);
    }
    match parse_url_scheme(t.as_str()) {
        Some(scheme) => {
            let http = "http".to_owned();
            let https = "https".to_owned();
            if scheme == http || scheme == https {
                Ok(t)
            } else {
                Err(AdminError::UrlScheme)
            }
        },
        None => Err(AdminError::InvalidUrl),
    }
}

/// The validated fields of a manual service.
#[derive(Debug, Clone, PartialEq)]
pub struct ServiceInput {
    pub title: String,
    pub url: String,
    pub description: String,
    pub category: String,
    pub github_url: Option<String>,
    pub icon_id: Option<i64>,
}

/// The outcome of validating a manual service's fields, in the order they
/// are checked: title, URL, description, category, GitHub URL.
pub open spec fn service_input_check(
    title: Seq<char>,
    url: Seq<char>,
    description: Seq<char>,
    category: Seq<char>,
    github_url: Option<Seq<char>>,
) -> Result<(Seq<char>, Seq<char>, Seq<char>, Seq<char>, Option<Seq<char>>), AdminError> {
    if trim(title).len() == 0 {
        Err(AdminError::EmptyField(Field::Title))
    } else if url_check(url, false) is Err {
        Err(url_check(url, false)->Err_0)
    } else if trim(description).len() == 0 {
        Err(AdminError::EmptyField(Field::Description))
    } else if trim(category).len() == 0 {
        Err(AdminError::EmptyField(Field::Category))
    } else {
        match github_url {
            Some(g) => match url_check(g, true) {
                Ok(v) => Ok(
                    (
                        trim(title),
                        url_check(url, false)->Ok_0,
                        trim(description),
                        trim(category),
                        Some(v),
                    ),
                ),
                Err(e) => Err(e),
            },
            None => Ok(
                (
                    trim(title),
                    url_check(url, false)->Ok_0,
                    trim(description),
                    trim(category),
                    None,
                ),
            ),
        }
    }
}

impl ServiceInput {
    /// Validates and normalises a manual service's fields.  The icon is
    /// carried as given; `confirm_icon` checks that it still exists.
    pub fn from_parts(
        title: String,
        url: String,
        description: String,
        category: String,
        github_url: Option<String>,
        icon_id: Option<i64>,
    ) -> (r: Result<ServiceInput, AdminError>)
        ensures
            match (
                r,
                service_input_check(
                    title@,
                    url@,
                    description@,
                    category@,
                    match github_url {
                        Some(g) => Some(g@),
                        None => None,
                    },
                ),
            ) {
                (Ok(i), Ok((t, u, d, c, g))) => {
                    &&& i.title@ == t
                    &&& i.url@ == u
                    &&& i.description@ == d
                    &&& i.category@ == c
                    &&& match (i.github_url, g) {
                        (Some(x), Some(y)) => x@ == y,
                        (None, None) => true,
                        _ => false,
                    }
                    &&& i.icon_id == icon_id
                },
                (Err(e), Err(f)) => e == f,
                _ => false,
            },
    {
        let title = normalise_required_field(Field::Title, title)?;
        let url = normalise_url(url, false)?;
        let description = normalise_required_field(Field::Description, description)?;
        let category = normalise_required_field(Field::Category, category)?;
        let github_url = match github_url {
            Some(value) => Some(normalise_url(value, true)?),
            None => None,
        };
        Ok(ServiceInput { title, url, description, category, github_url, icon_id })
    }

    /// The icon to look up before saving, if one was chosen.
    pub fn icon_to_check(&self) -> (r: Option<i64>)
        ensures
            r == self.icon_id,
    {
        self.icon_id
    }

    /// Keeps the input when no icon was chosen or the chosen icon exists.
    pub fn confirm_icon(self, icon_exists: bool) -> (r: Result<ServiceInput, AdminError>)
        ensures
            r == if self.icon_id is Some && !icon_exists {
                Err(AdminError::MissingIcon)
            } else {
                Ok(self)
            },
    {
        if self.icon_id.is_some() && !icon_exists {
            Err(AdminError::MissingIcon)
        } else {
            Ok(self)
        }
    }
}


// ── Icon uploads ─────────────────────────────────────────────────────────────

/// A validated new icon.
#[derive(Debug, Clone, PartialEq)]
pub struct NewIcon {
    pub name: String,
    pub bytes: Vec<u8>,
    pub extension: String,
}

/// A validated change to an icon: a new name, a new file, or both.
#[derive(Debug, Clone, PartialEq)]
pub struct IconUpdate {
    pub name: Option<String>,
    pub file: Option<(Vec<u8>, String)>,
}

/// Decodes uploaded base64 data, refusing an empty file.
fn decode_file(data: &str) -> (r: Result<Vec<u8>, AdminError>)
    ensures
        match (r, base64_standard_decode(data@)) {
            (Ok(b), Ok(c)) => b@ == c && c.len() > 0,
            (Err(e), Ok(c)) => c.len() == 0 && e == AdminError::EmptyFileData,
            (Err(e), Err(m)) => e matches AdminError::InvalidBase64(x) && x@ == m,
            _ => false,
        },
{
    match decode_base64(data) {
        Ok(bytes) => if bytes.len() == 0 {
            Err(AdminError::EmptyFileData)
        } else {
            Ok(bytes)
        },
        Err(message) => Err(AdminError::InvalidBase64(message)),
    }
}

/// Validates a new icon: its name trimmed and lower-cased must not be
/// empty, the extension must be allowed, and the data must decode from
/// base64 to at least one byte; checked in that order.
pub fn prepare_new_icon(name: String, data: String, extension: String) -> (r: Result<
    NewIcon,
    AdminError,
>)
    ensures
        match r {
            Ok(icon) => {
                &&& lowercase(trim(name@)).len() > 0
                &&& icon.name@ == lowercase(trim(name@))
                &&& allowed_extension(normalised_extension(extension@))
                &&& icon.extension@ == normalised_extension(extension@)
                &&& base64_standard_decode(data@) matches Ok(b) && b.len() > 0 && icon.bytes@ == b
            },
            Err(e) => if lowercase(trim(name@)).len() == 0 {
                e == AdminError::EmptyIconName
            } else if !allowed_extension(normalised_extension(extension@)) {
                e matches AdminError::UnsupportedFileType(x) && x@ == normalised_extension(extension@)
            } else {
                match base64_standard_decode(data@) {
                    Ok(b) => b.len() == 0 && e == AdminError::EmptyFileData,
                    Err(m) => e matches AdminError::InvalidBase64(x) && x@ == m,
                }
            },
        },
        is_ascii_text(name@) ==> lowercase(trim(name@)) == ascii_lowered(trim(name@)),
{
    let trimmed = trim_str(name.as_str());
    proof {
        if is_ascii_text(name@) {
            lemma_trim_keeps_ascii(name@);
        }
    }
    let name = to_lowercase(trimmed.as_str());
    if name.as_str().is_empty() {
        return Err(AdminError::EmptyIconName);
    }
    let extension = sanitise_extension(extension.as_str())?;
    let bytes = decode_file(data.as_str())?;
    Ok(NewIcon { name, bytes, extension })
}

/// The new name of an icon: the given name trimmed and lower-cased, unless
/// it is empty after trimming.
pub open spec fn renamed(new_name: Option<Seq<char>>) -> Option<Seq<char>> {
    match new_name {
        Some(n) => if trim(n).len() > 0 {
            Some(lowercase(trim(n)))
        } else {
            None
        },
        None => None,
    }
}

/// Validates a change to an icon.  The new file needs both its data and its
/// extension; the data is decoded before the extension is checked.
pub fn prepare_icon_update(
    new_name: Option<String>,
    new_data: Option<String>,
    new_extension: Option<String>,
) -> (r: Result<IconUpdate, AdminError>)
    ensures
        match r {
            Ok(u) => {
                &&& match (u.name, renamed(
                    match new_name {
                        Some(n) => Some(n@),
                        None => None,
                    },
                )) {
                    (Some(x), Some(y)) => x@ == y,
                    (None, None) => true,
                    _ => false,
                }
                &&& match (new_data, new_extension) {
                    (Some(d), Some(e)) => u.file matches Some((b, x)) && base64_standard_decode(
                        d@,
                    ) matches Ok(c) && b@ == c && c.len() > 0 && allowed_extension(
                        normalised_extension(e@),
                    ) && x@ == normalised_extension(e@),
                    (None, None) => u.file is None,
                    _ => false,
                }
            },
            Err(err) => match (new_data, new_extension) {
                (Some(d), Some(e)) => match base64_standard_decode(d@) {
                    Err(m) => err matches AdminError::InvalidBase64(x) && x@ == m,
                    Ok(c) => if c.len() == 0 {
                        err == AdminError::EmptyFileData
                    } else {
                        !allowed_extension(normalised_extension(e@)) && (
                        err matches AdminError::UnsupportedFileType(x) && x@ == normalised_extension(
                            e@,
                        ))
                    },
                },
                (None, None) => false,
                _ => err == AdminError::IncompleteFileUpdate,
            },
        },
        match new_name {
            Some(n) => trim(n@).len() > 0 && is_ascii_text(n@) ==> lowercase(trim(n@))
                == ascii_lowered(trim(n@)),
            None => true,
        },
{
    let name = match new_name {
        Some(n) => {
            let t = trim_str(n.as_str());
            proof {
                if is_ascii_text(n@) {
                    lemma_trim_keeps_ascii(n@);
                }
            }
            if t.as_str().is_empty() {
                None
            } else {
                Some(to_lowercase(t.as_str()))
            }
        },
        None => None,
    };
    let file = match (new_data, new_extension) {
        (Some(d), Some(e)) => {
            let bytes = decode_file(d.as_str())?;
            let ext = sanitise_extension(e.as_str())?;
            Some((bytes, ext))
        },
        (None, None) => None,
        _ => {
            return Err(AdminError::IncompleteFileUpdate);
        },
    };
    Ok(IconUpdate { name, file })
}

/// The error for a failed insert of a new icon named `name`: a database
/// error whose message mentions `UNIQUE` means the name is taken.
/// `database_message` is the database's own message, when the failure came
/// from the database; `description` is how the failure displays.
pub fn add_icon_failure(name: String, database_message: Option<String>, description: String) -> (r:
    AdminError)
    ensures
        r == if database_message matches Some(m) && contains_text(m@, "UNIQUE"@) {
            AdminError::NewIconNameTaken(name)
        } else {
            AdminError::Database(description)
        },
{
    let unique = match &database_message {
        Some(m) => contains(m.as_str(), "UNIQUE"),
        None => false,
    };
    if unique {
        AdminError::NewIconNameTaken(name)
    } else {
        AdminError::Database(description)
    }
}

/// The error for a failed update of an icon: a database error whose message
/// mentions `UNIQUE` means the new name is taken.
pub fn update_icon_failure(database_message: Option<String>, description: String) -> (r: AdminError)
    ensures
        r == if database_message matches Some(m) && contains_text(m@, "UNIQUE"@) {
            AdminError::IconNameTaken
        } else {
            AdminError::Database(description)
        },
{
    let unique = match &database_message {
        Some(m) => contains(m.as_str(), "UNIQUE"),
        None => false,
    };
    if unique {
        AdminError::IconNameTaken
    } else {
        AdminError::Database(description)
    }
}

} // verus!
