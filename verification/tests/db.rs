use findit::db::{db_path, icons_dir as default_icons_dir_path, ICONS_URL_PREFIX as LEGACY_PREFIX};
use findit::models::IconRecord;
use findit::server::db::{
    bundled_icon_names, bundled_icon_source, icon_filename, icon_paths_by_name, icon_record,
    icon_url_path, map_manual_service_row, session_token_hash, sha256_hex, sqlite_file_path,
    stored_filename, updated_icon_fields, ManualServiceRow, ICONS_URL_PREFIX,
};

const ABC_SHA256: &str = "ba7816bf8f01cfea414140de5dae2223b00361a396177a9cb410ff61f20015ad";

#[test]
fn sha256_hex_matches_known_digest() {
    assert_eq!(sha256_hex(b"abc"), ABC_SHA256);
    assert_eq!(
        sha256_hex(b""),
        "e3b0c44298fc1c149afbf4c8996fb92427ae41e4649b934ca495991b7852b855"
    );
    assert_eq!(session_token_hash("abc"), ABC_SHA256);
    assert_eq!(findit::db::sha256_hex(b"abc"), ABC_SHA256);
}

#[test]
fn icon_files_are_content_addressed() {
    assert_eq!(icon_filename(b"abc", "svg"), format!("{ABC_SHA256}.svg"));
    assert_eq!(icon_filename(b"abc", "png"), format!("{ABC_SHA256}.png"));
}

#[test]
fn icon_paths_round_trip() {
    assert_eq!(ICONS_URL_PREFIX, "/icons");
    assert_eq!(icon_url_path("x.svg"), "/icons/x.svg");
    assert_eq!(stored_filename("/icons/x.svg"), "x.svg");
    assert_eq!(stored_filename("/data/icons/x.svg"), "/data/icons/x.svg");
    assert_eq!(stored_filename("/ico"), "/ico");
    let record = icon_record(3, "spark".to_string(), "h.svg");
    assert_eq!(
        record,
        IconRecord { id: 3, name: "spark".to_string(), path: "/icons/h.svg".to_string() }
    );
}

#[test]
fn icon_update_keeps_or_replaces_fields() {
    let current =
        IconRecord { id: 1, name: "old".to_string(), path: "/icons/f.svg".to_string() };
    let (name, file) = updated_icon_fields(&current, None, None);
    assert_eq!((name.as_str(), file.as_str()), ("old", "f.svg"));
    let data: &[u8] = b"abc";
    let (name, file) = updated_icon_fields(&current, Some("new"), Some((data, "png")));
    assert_eq!(name, "new");
    assert_eq!(file, format!("{ABC_SHA256}.png"));
}

#[test]
fn icon_paths_keyed_by_name() {
    let rows = vec![
        ("spark".to_string(), "a.svg".to_string()),
        ("wiki".to_string(), "b.svg".to_string()),
        ("spark".to_string(), "c.svg".to_string()),
    ];
    let paths = icon_paths_by_name(rows);
    assert_eq!(paths.get("spark").map(String::as_str), Some("/icons/c.svg"));
    assert_eq!(paths.get("wiki").map(String::as_str), Some("/icons/b.svg"));
    assert_eq!(paths.get("bus"), None);
}

#[test]
fn manual_rows_get_icon_paths() {
    let row = ManualServiceRow {
        id: 1,
        title: "T".to_string(),
        url: "https://t.example".to_string(),
        description: "D".to_string(),
        category: "C".to_string(),
        github_url: None,
        icon_id: Some(2),
        icon_name: Some("spark".to_string()),
        icon_filename: Some("h.svg".to_string()),
    };
    let record = map_manual_service_row(row.clone());
    assert_eq!(record.icon_path.as_deref(), Some("/icons/h.svg"));
    assert_eq!(record.icon_name.as_deref(), Some("spark"));
    let record = map_manual_service_row(ManualServiceRow { icon_filename: None, ..row });
    assert_eq!(record.icon_path, None);
}

#[test]
fn sqlite_urls_name_their_file() {
    assert_eq!(
        sqlite_file_path("sqlite://./data/data.db?mode=rwc").as_deref(),
        Some("./data/data.db")
    );
    assert_eq!(sqlite_file_path("sqlite:app.db").as_deref(), Some("app.db"));
    assert_eq!(sqlite_file_path("postgres://db"), None);
}

#[test]
fn bundled_icons_and_legacy_paths() {
    let names = bundled_icon_names();
    assert_eq!(names.len(), 23);
    assert_eq!(names[0], "bulb");
    assert_eq!(names[22], "wiki");
    assert_eq!(bundled_icon_source("bus"), "assets/images/bus.svg");
    assert_eq!(db_path(), "./data/data.db");
    assert_eq!(default_icons_dir_path(), "./data/icons");
    assert_eq!(LEGACY_PREFIX, "/data/icons");
    assert_eq!(findit::db::icon_url_path("x.svg"), "/data/icons/x.svg");
}

#[test]
fn paths_by_name_agree_with_records() {
    let rows = vec![
        ("bus".to_string(), "1.svg".to_string()),
        ("spark".to_string(), "2.png".to_string()),
        ("wiki".to_string(), "3.ico".to_string()),
    ];
    let paths = icon_paths_by_name(rows.clone());
    for (i, (name, file)) in rows.iter().enumerate() {
        let record = icon_record(i as i64, name.clone(), file);
        assert_eq!(paths.get(name), Some(&record.path));
    }
    assert_eq!(paths.get("2.png"), None);
}
