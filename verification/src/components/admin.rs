use vstd::prelude::*;

use crate::number::{i64_to_decimal, lemma_parse_signed_decimal, parse_i64, parse_signed, signed_decimal};
use crate::text::{
    ascii_lowered, chars_of, is_ascii_text, is_white_space, lemma_trim_keeps_ascii, lowercase,
    string_of, to_lowercase, trim, trim_chars, trim_str,
};

verus! {

/// The message for the first empty field of the service form, in the order
/// title, URL, description, category; `None` when none is empty.
pub open spec fn service_form_problem(
    title: Seq<char>,
    url: Seq<char>,
    description: Seq<char>,
    category: Seq<char>,
) -> Option<Seq<char>> {
    if title.len() == 0 {
        Some("Please enter a title."@)
    } else if url.len() == 0 {
        Some("Please enter a service URL."@)
    } else if description.len() == 0 {
        Some("Please enter a description."@)
    } else if category.len() == 0 {
        Some("Please enter a category."@)
    } else {
        None
    }
}

/// Checks that the service form's required fields are filled in.
pub fn validate_service_form(title: &str, url: &str, description: &str, category: &str) -> (r:
    Option<String>)
    ensures
        match (r, service_form_problem(title@, url@, description@, category@)) {
            (Some(a), Some(b)) => a@ == b,
            (None, None) => true,
            _ => false,
        },
{
    if title.is_empty() {
        return Some("Please enter a title.".to_owned());
    }
    if url.is_empty() {
        return Some("Please enter a service URL.".to_owned());
    }
    if description.is_empty() {
        return Some("Please enter a description.".to_owned());
    }
    if category.is_empty() {
        return Some("Please enter a category.".to_owned());
    }
    None
}

/// The message for the first problem of the new-icon form, given the name
/// as it will be sent (trimmed and lower-cased) and whether a file was read
/// and its type found; `None` when the form can be sent.
pub open spec fn new_icon_form_problem(name: Seq<char>, has_file: bool, has_type: bool) -> Option<
    Seq<char>,
> {
    if name.len() == 0 {
        Some("Please enter a name."@)
    } else if !has_file {
        Some("Please choose a file."@)
    } else if !has_type {
        Some("Could not determine file type."@)
    } else {
        None
    }
}

/// Checks the new-icon form before it is sent: the name is trimmed and
/// lower-cased and must not be empty, a file must have been read and its type
/// determined.  `Ok` holds what is sent: the name, the file's base64 data and
/// its extension.
pub fn check_new_icon_form(
    name: &str,
    file_data: Option<String>,
    file_extension: Option<String>,
) -> (r: Result<(String, String, String), String>)
    ensures
        match r {
            Ok((n, d, e)) => {
                &&& new_icon_form_problem(
                    lowercase(trim(name@)),
                    file_data is Some,
                    file_extension is Some,
                ) is None
                &&& n@ == lowercase(trim(name@))
                &&& file_data == Some(d)
                &&& file_extension == Some(e)
            },
            Err(m) => new_icon_form_problem(
                lowercase(trim(name@)),
                file_data is Some,
                file_extension is Some,
            ) == Some(m@),
        },
        is_ascii_text(name@) ==> lowercase(trim(name@)) == ascii_lowered(trim(name@)),
{
    let t = trim_str(name);
    proof {
        if is_ascii_text(name@) {
            lemma_trim_keeps_ascii(name@);
        }
    }
    let n = to_lowercase(t.as_str());
    if n.as_str().is_empty() {
        return Err("Please enter a name.".to_owned());
    }
    let d = match file_data {
        Some(d) => d,
        None => {
            return Err("Please choose a file.".to_owned());
        },
    };
    let e = match file_extension {
        Some(e) => e,
        None => {
            return Err("Could not determine file type.".to_owned());
        },
    };
    Ok((n, d, e))
}

/// Checks the edited name of an icon before it is saved: trimmed and
/// lower-cased, it must not be empty.
pub fn check_icon_name_edit(name: &str) -> (r: Result<String, String>)
    ensures
        match r {
            Ok(n) => lowercase(trim(name@)).len() > 0 && n@ == lowercase(trim(name@)),
            Err(m) => lowercase(trim(name@)).len() == 0 && m@ == "Name must not be empty."@,
        },
        is_ascii_text(name@) ==> lowercase(trim(name@)) == ascii_lowered(trim(name@)),
{
    let t = trim_str(name);
    proof {
        if is_ascii_text(name@) {
            lemma_trim_keeps_ascii(name@);
        }
    }
    let n = to_lowercase(t.as_str());
    if n.as_str().is_empty() {
        Err("Name must not be empty.".to_owned())
    } else {
        Ok(n)
    }
}

/// An optional form field: the trimmed text, or `None` when it is empty.
pub fn optional_string(value: String) -> (r: Option<String>)
    ensures
        match r {
            Some(v) => trim(value@).len() > 0 && v@ == trim(value@),
            None => trim(value@).len() == 0,
        },
{
    let v = trim_str(value.as_str());
    if v.as_str().is_empty() {
        None
    } else {
        Some(v)
    }
}

/// The icon selector's value for an icon id: its decimal text, or the empty
/// text for no icon.
pub open spec fn icon_value(icon_id: Option<i64>) -> Seq<char> {
    match icon_id {
        Some(id) => signed_decimal(id as int),
        None => Seq::empty(),
    }
}

/// The value of the icon selector for the chosen icon.
pub fn selected_icon_value(icon_id: Option<i64>) -> (r: String)
    ensures
        r@ == icon_value(icon_id),
{
    match icon_id {
        Some(id) => string_of(i64_to_decimal(id).as_slice()),
        None => String::new(),
    }
}

/// What an optional number field holds: `None` when it is blank, else what
/// `str::parse::<i64>` makes of the trimmed text.
pub open spec fn optional_i64(value: Seq<char>) -> Option<int> {
    let t = trim(value);
    if t.len() == 0 {
        None
    } else {
        parse_signed(t)
    }
}

/// Reads an optional number field (see `optional_i64`).
pub fn parse_optional_i64(value: &str) -> (r: Option<i64>)
    ensures
        match r {
            Some(v) => optional_i64(value@) == Some(v as int),
            None => optional_i64(value@) is None,
        },
{
    let t = trim_chars(chars_of(value).as_slice());
    if t.len() == 0 {
        None
    } else {
        parse_i64(t.as_slice())
    }
}

/// Reading back the selector's value for an icon gives that icon again.
pub proof fn lemma_icon_value_round_trip(icon_id: Option<i64>)
    ensures
        match optional_i64(icon_value(icon_id)) {
            Some(v) => icon_id == Some(v as i64) && v == icon_id->0 as int,
            None => icon_id is None,
        },
{
    if let Some(id) = icon_id {
        let s = signed_decimal(id as int);
        lemma_parse_signed_decimal(id);
        crate::number::lemma_signed_decimal_not_white(id as int);
        assert(crate::text::trim_start(s) == s);
        assert(crate::text::trim_end(s) == s);
    } else {
        assert(trim(Seq::<char>::empty()) == Seq::<char>::empty());
    }
}

} // verus!
