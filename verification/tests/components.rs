use findit::components::admin::{
    check_icon_name_edit, check_new_icon_form,
    optional_string, parse_optional_i64, selected_icon_value, validate_service_form,
};
use findit::components::category_list::category_anchor_id;
use findit::number::{i64_to_decimal, parse_i64, parse_u16, parse_u64};
use findit::text::{chars_of, joined, contains, string_of, text_less, trim_str};

#[test]
fn anchor_ids_are_slugs() {
    assert_eq!(category_anchor_id("Dev Tools"), "category-dev-tools");
    assert_eq!(category_anchor_id("  --Ops & Infra!! "), "category-ops-infra");
    assert_eq!(category_anchor_id("!!!"), "category");
    assert_eq!(category_anchor_id(""), "category");
    assert_eq!(category_anchor_id("Café"), "category-caf");
    // The Kelvin sign lower-cases to an ASCII 'k'.
    assert_eq!(category_anchor_id("\u{212A}"), "category-k");
}

#[test]
fn service_form_reports_first_empty_field() {
    assert_eq!(validate_service_form("", "", "", "").as_deref(), Some("Please enter a title."));
    assert_eq!(
        validate_service_form("t", "", "d", "c").as_deref(),
        Some("Please enter a service URL.")
    );
    assert_eq!(
        validate_service_form("t", "u", "", "c").as_deref(),
        Some("Please enter a description.")
    );
    assert_eq!(
        validate_service_form("t", "u", "d", "").as_deref(),
        Some("Please enter a category.")
    );
    assert_eq!(validate_service_form("t", "u", "d", "c"), None);
}

#[test]
fn optional_fields() {
    assert_eq!(optional_string("  x ".to_string()).as_deref(), Some("x"));
    assert_eq!(optional_string(" \n ".to_string()), None);
    assert_eq!(selected_icon_value(Some(42)), "42");
    assert_eq!(selected_icon_value(Some(-7)), "-7");
    assert_eq!(selected_icon_value(None), "");
    assert_eq!(parse_optional_i64(" 42 "), Some(42));
    assert_eq!(parse_optional_i64("   "), None);
    assert_eq!(parse_optional_i64("4x"), None);
}

#[test]
fn icon_selector_round_trips() {
    for id in [None, Some(0), Some(1), Some(-1), Some(i64::MAX), Some(i64::MIN), Some(1234567)] {
        assert_eq!(parse_optional_i64(&selected_icon_value(id)), id);
    }
}

#[test]
fn integer_parsing_follows_str_parse() {
    let p = |s: &str| parse_i64(&chars_of(s));
    assert_eq!(p("-9223372036854775808"), Some(i64::MIN));
    assert_eq!(p("9223372036854775807"), Some(i64::MAX));
    assert_eq!(p("9223372036854775808"), None);
    assert_eq!(p("+5"), Some(5));
    assert_eq!(p("-"), None);
    assert_eq!(p("+"), None);
    assert_eq!(p(""), None);
    assert_eq!(p("007"), Some(7));
    assert_eq!(parse_u16(&chars_of("65535")), Some(65535));
    assert_eq!(parse_u16(&chars_of("65536")), None);
    assert_eq!(parse_u16(&chars_of("-0")), None);
    assert_eq!(parse_u64(&chars_of("18446744073709551615")), Some(u64::MAX));
    assert_eq!(parse_u64(&chars_of("18446744073709551616")), None);
    for s in ["0", "12", "-12", "x1", " 1", "1 "] {
        assert_eq!(p(s), s.parse::<i64>().ok());
    }
    assert_eq!(string_of(&i64_to_decimal(i64::MIN)), i64::MIN.to_string());
}

#[test]
fn text_helpers() {
    assert_eq!(trim_str("\u{3000} a b \t"), "a b");
    assert_eq!(joined("ab", "cd"), "abcd");
    assert!(contains("UNIQUE constraint", "UNIQUE"));
    assert!(!contains("unique", "UNIQUE"));
    assert!(contains("x", ""));
    assert!(text_less(&chars_of("Apps"), &chars_of("apps")));
    assert!(text_less(&chars_of("app"), &chars_of("apps")));
    assert!(!text_less(&chars_of("b"), &chars_of("a")));
    assert!(!text_less(&chars_of("a"), &chars_of("a")));
}

#[test]
fn anchor_slugs_are_lower_case_without_stray_dashes() {
    for name in ["Dev Tools", "--A--B--", "x - y", "CI/CD  Pipelines", "Ops & Infra!!", "ABC123", "a", "-"] {
        let id = category_anchor_id(name);
        assert!(id == "category" || id.starts_with("category-"));
        if let Some(slug) = id.strip_prefix("category-") {
            assert!(!slug.is_empty());
            assert!(!slug.starts_with('-') && !slug.ends_with('-'));
            assert!(!slug.contains("--"));
            assert!(slug.chars().all(|c| c.is_ascii_lowercase() || c.is_ascii_digit() || c == '-'));
        }
    }
    assert_eq!(category_anchor_id("--A--B--"), "category-a-b");
    assert_eq!(category_anchor_id("CI/CD  Pipelines"), "category-ci-cd-pipelines");
    assert_eq!(category_anchor_id("-"), "category");
}

#[test]
fn new_icon_form_reports_first_problem() {
    let data = || Some("AAA=".to_string());
    let ext = || Some("svg".to_string());
    assert_eq!(check_new_icon_form("   ", data(), ext()).unwrap_err(), "Please enter a name.");
    assert_eq!(check_new_icon_form("Spark", None, ext()).unwrap_err(), "Please choose a file.");
    assert_eq!(
        check_new_icon_form("Spark", data(), None).unwrap_err(),
        "Could not determine file type."
    );
    assert_eq!(
        check_new_icon_form("  My Spark ", data(), ext()).unwrap(),
        ("my spark".to_string(), "AAA=".to_string(), "svg".to_string())
    );
}

#[test]
fn edited_icon_name_must_not_be_empty() {
    assert_eq!(check_icon_name_edit(" \t ").unwrap_err(), "Name must not be empty.");
    assert_eq!(check_icon_name_edit(" Wiki ").unwrap(), "wiki");
}
