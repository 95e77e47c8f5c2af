use findit::models::{Category, ManualServiceRecord, Service};
use findit::server::services::{
    build_service_from_labels, collect_categories, manual_service_entries,
    services_from_containers,
};
use findit::str_map::StrMap;

fn labels(entries: &[(&str, &str)]) -> StrMap<String> {
    let mut map = StrMap::new();
    for (key, value) in entries {
        map.insert((*key).to_string(), (*value).to_string());
    }
    map
}

fn service(title: &str) -> Service {
    Service {
        title: title.to_string(),
        url: format!("https://{}.example", title.to_lowercase()),
        description: format!("{title} service"),
        github_url: None,
        icon: None,
    }
}

fn titles(category: &Category) -> Vec<String> {
    category.services.iter().map(|s| s.title.clone()).collect()
}

#[test]
fn missing_required_labels_are_skipped() {
    let icon_paths = StrMap::new();
    let labels = labels(&[
        ("findit.title", "Example"),
        ("findit.url", "https://example.invalid"),
        ("findit.description", "Example service"),
    ]);

    assert!(build_service_from_labels(&labels, &icon_paths).is_none());
}

#[test]
fn empty_github_url_becomes_none() {
    let icon_paths = StrMap::new();
    let labels = labels(&[
        ("findit.title", "Example"),
        ("findit.url", "https://example.invalid"),
        ("findit.description", "Example service"),
        ("findit.category", "ops"),
        ("findit.github_url", ""),
    ]);

    let service = build_service_from_labels(&labels, &icon_paths).unwrap();
    assert_eq!(service.1.github_url, None);
}

#[test]
fn icon_is_resolved_from_bulk_map() {
    let mut icon_paths = StrMap::new();
    icon_paths.insert("spark".to_string(), "/icons/spark.svg".to_string());
    let labels = labels(&[
        ("findit.title", "Example"),
        ("findit.url", "https://example.invalid"),
        ("findit.description", "Example service"),
        ("findit.category", "ops"),
        ("findit.icon", "spark"),
    ]);

    let service = build_service_from_labels(&labels, &icon_paths).unwrap();
    assert_eq!(service.1.icon.as_deref(), Some("/icons/spark.svg"));
}

#[test]
fn unknown_icon_name_becomes_none() {
    let icon_paths = StrMap::new();
    let labels = labels(&[
        ("findit.title", "Example"),
        ("findit.url", "https://example.invalid"),
        ("findit.description", "Example service"),
        ("findit.category", "ops"),
        ("findit.icon", "missing"),
    ]);

    let service = build_service_from_labels(&labels, &icon_paths).unwrap();
    assert_eq!(service.1.icon, None);
}

#[test]
fn all_labels_make_a_full_service() {
    let icon_paths = StrMap::new();
    let labels = labels(&[
        ("findit.enable", "true"),
        ("findit.title", "Wiki"),
        ("findit.url", "https://wiki.example"),
        ("findit.description", "Docs"),
        ("findit.category", "Tools"),
        ("findit.github_url", "https://github.com/x/wiki"),
    ]);
    let (category, service) = build_service_from_labels(&labels, &icon_paths).unwrap();
    assert_eq!(category, "Tools");
    assert_eq!(service.title, "Wiki");
    assert_eq!(service.url, "https://wiki.example");
    assert_eq!(service.description, "Docs");
    assert_eq!(service.github_url.as_deref(), Some("https://github.com/x/wiki"));
    assert_eq!(service.icon, None);
}

#[test]
fn later_label_value_replaces_earlier() {
    let mut map = labels(&[("findit.title", "Old")]);
    map.insert("findit.title".to_string(), "New".to_string());
    assert_eq!(map.get("findit.title").map(|s| s.as_str()), Some("New"));
    assert_eq!(map.get("findit.url"), None);
}

#[test]
fn containers_without_labels_are_skipped() {
    let icon_paths = StrMap::new();
    let good = labels(&[
        ("findit.title", "A"),
        ("findit.url", "https://a.example"),
        ("findit.description", "a"),
        ("findit.category", "ops"),
    ]);
    let containers = vec![StrMap::new(), good];
    let services = services_from_containers(&containers, &icon_paths);
    assert_eq!(services.len(), 1);
    assert_eq!(services[0].0, "ops");
    assert_eq!(services[0].1.title, "A");
}

#[test]
fn manual_records_become_services() {
    let record = ManualServiceRecord {
        id: 7,
        title: "Kanban".to_string(),
        url: "https://kanban.example".to_string(),
        description: "Boards".to_string(),
        category: "Tools".to_string(),
        github_url: Some(String::new()),
        icon_id: Some(3),
        icon_name: Some("kanban".to_string()),
        icon_path: Some("/icons/abc.svg".to_string()),
    };
    let entries = manual_service_entries(vec![record]);
    assert_eq!(entries.len(), 1);
    assert_eq!(entries[0].0, "Tools");
    assert_eq!(entries[0].1.github_url, None);
    assert_eq!(entries[0].1.icon.as_deref(), Some("/icons/abc.svg"));
}

#[test]
fn categories_are_grouped_and_sorted_case_insensitively() {
    let docker = vec![
        ("tools".to_string(), service("zebra")),
        ("Apps".to_string(), service("beta")),
        ("tools".to_string(), service("Alpha")),
    ];
    let manual = vec![
        ("Apps".to_string(), service("alpha")),
        ("Zed".to_string(), service("x")),
    ];
    let cats = collect_categories(docker, manual);
    let names: Vec<&str> = cats.iter().map(|c| c.category.as_str()).collect();
    assert_eq!(names, vec!["Apps", "tools", "Zed"]);
    assert_eq!(titles(&cats[0]), vec!["alpha", "beta"]);
    assert_eq!(titles(&cats[1]), vec!["Alpha", "zebra"]);
    assert_eq!(titles(&cats[2]), vec!["x"]);
}

#[test]
fn equal_titles_keep_docker_before_manual() {
    let mut first = service("Same");
    first.url = "https://docker.example".to_string();
    let mut second = service("same");
    second.url = "https://manual.example".to_string();
    let cats = collect_categories(
        vec![("ops".to_string(), first)],
        vec![("ops".to_string(), second)],
    );
    assert_eq!(cats.len(), 1);
    assert_eq!(cats[0].services[0].url, "https://docker.example");
    assert_eq!(cats[0].services[1].url, "https://manual.example");
}

#[test]
fn no_services_give_no_categories() {
    assert!(collect_categories(Vec::new(), Vec::new()).is_empty());
}
