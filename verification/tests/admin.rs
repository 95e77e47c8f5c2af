use findit::server::admin::{
    add_icon_failure, normalise_required_field, normalise_url, prepare_icon_update,
    prepare_new_icon, sanitise_extension, update_icon_failure, AdminError, Field, ServiceInput,
};

#[test]
fn extension_is_trimmed_undotted_and_lowercased() {
    assert_eq!(sanitise_extension(" .PNG ").unwrap(), "png");
    assert_eq!(sanitise_extension("..svg").unwrap(), "svg");
    assert_eq!(sanitise_extension("jpeg").unwrap(), "jpeg");
    assert_eq!(sanitise_extension("ico").unwrap(), "ico");
}

#[test]
fn unsupported_extension_is_refused_with_message() {
    let err = sanitise_extension(".EXE").unwrap_err();
    assert_eq!(err, AdminError::UnsupportedFileType("exe".to_string()));
    assert_eq!(
        err.message(),
        "Unsupported file type: 'exe'. Allowed: svg, png, jpg, jpeg, webp, gif, ico"
    );
}

#[test]
fn required_field_is_trimmed_or_refused() {
    assert_eq!(
        normalise_required_field(Field::Title, "  Wiki ".to_string()).unwrap(),
        "Wiki"
    );
    let err = normalise_required_field(Field::Category, " \t".to_string()).unwrap_err();
    assert_eq!(err, AdminError::EmptyField(Field::Category));
    assert_eq!(err.message(), "Category must not be empty");
}

#[test]
fn urls_must_be_http_or_https() {
    assert_eq!(
        normalise_url(" https://wiki.example/x ".to_string(), false).unwrap(),
        "https://wiki.example/x"
    );
    assert_eq!(
        normalise_url("ftp://files.example".to_string(), false).unwrap_err(),
        AdminError::UrlScheme
    );
    assert_eq!(
        normalise_url("not a url".to_string(), false).unwrap_err(),
        AdminError::InvalidUrl
    );
    assert_eq!(normalise_url("  ".to_string(), false).unwrap_err(), AdminError::EmptyUrl);
    assert_eq!(normalise_url("  ".to_string(), true).unwrap(), "");
    assert_eq!(
        AdminError::UrlScheme.message(),
        "URLs must start with http:// or https://"
    );
    assert_eq!(AdminError::InvalidUrl.message(), "Please enter a valid URL");
    assert_eq!(AdminError::EmptyUrl.message(), "URL must not be empty");
}

#[test]
fn service_input_is_normalised_in_order() {
    let input = ServiceInput::from_parts(
        " Wiki ".to_string(),
        "https://wiki.example".to_string(),
        " Docs ".to_string(),
        " Tools ".to_string(),
        Some(" ".to_string()),
        Some(4),
    )
    .unwrap();
    assert_eq!(input.title, "Wiki");
    assert_eq!(input.description, "Docs");
    assert_eq!(input.category, "Tools");
    assert_eq!(input.github_url.as_deref(), Some(""));
    assert_eq!(input.icon_to_check(), Some(4));
    assert_eq!(
        input.clone().confirm_icon(false).unwrap_err(),
        AdminError::MissingIcon
    );
    assert_eq!(input.confirm_icon(true).unwrap().icon_id, Some(4));

    let err = ServiceInput::from_parts(
        "".to_string(),
        "bad".to_string(),
        "".to_string(),
        "".to_string(),
        None,
        None,
    )
    .unwrap_err();
    assert_eq!(err, AdminError::EmptyField(Field::Title));

    let err = ServiceInput::from_parts(
        "T".to_string(),
        "bad".to_string(),
        "".to_string(),
        "".to_string(),
        None,
        None,
    )
    .unwrap_err();
    assert_eq!(err, AdminError::InvalidUrl);

    let err = ServiceInput::from_parts(
        "T".to_string(),
        "http://x.example".to_string(),
        "D".to_string(),
        "C".to_string(),
        Some("mailto:a@b.c".to_string()),
        None,
    )
    .unwrap_err();
    assert_eq!(err, AdminError::UrlScheme);
    assert_eq!(AdminError::MissingIcon.message(), "Selected icon no longer exists");
}

#[test]
fn new_icon_is_validated() {
    let icon = prepare_new_icon(" Spark ".to_string(), "PHN2Zz4=".to_string(), "SVG".to_string())
        .unwrap();
    assert_eq!(icon.name, "spark");
    assert_eq!(icon.extension, "svg");
    assert_eq!(icon.bytes, b"<svg>".to_vec());

    assert_eq!(
        prepare_new_icon("  ".to_string(), "PHN2Zz4=".to_string(), "svg".to_string()).unwrap_err(),
        AdminError::EmptyIconName
    );
    assert_eq!(
        prepare_new_icon("a".to_string(), "".to_string(), "svg".to_string()).unwrap_err(),
        AdminError::EmptyFileData
    );
    assert!(matches!(
        prepare_new_icon("a".to_string(), "!!".to_string(), "svg".to_string()).unwrap_err(),
        AdminError::InvalidBase64(_)
    ));
    assert!(matches!(
        prepare_new_icon("a".to_string(), "!!".to_string(), "bmp".to_string()).unwrap_err(),
        AdminError::UnsupportedFileType(_)
    ));
    assert_eq!(AdminError::EmptyFileData.message(), "File data must not be empty");
    assert_eq!(AdminError::EmptyIconName.message(), "Icon name must not be empty");
    let err = AdminError::InvalidBase64("bad".to_string());
    assert_eq!(err.message(), "Invalid base64 data: bad");
}

#[test]
fn icon_update_needs_data_and_extension_together() {
    let update = prepare_icon_update(Some("  New ".to_string()), None, None).unwrap();
    assert_eq!(update.name.as_deref(), Some("new"));
    assert!(update.file.is_none());

    let update = prepare_icon_update(Some("   ".to_string()), None, None).unwrap();
    assert!(update.name.is_none());

    assert_eq!(
        prepare_icon_update(None, Some("PHN2Zz4=".to_string()), None).unwrap_err(),
        AdminError::IncompleteFileUpdate
    );
    assert_eq!(
        AdminError::IncompleteFileUpdate.message(),
        "new_data and new_extension must both be provided"
    );

    let update =
        prepare_icon_update(None, Some("PHN2Zz4=".to_string()), Some(".png".to_string())).unwrap();
    assert_eq!(update.file, Some((b"<svg>".to_vec(), "png".to_string())));

    // The data is checked before the extension.
    assert_eq!(
        prepare_icon_update(None, Some(String::new()), Some("exe".to_string())).unwrap_err(),
        AdminError::EmptyFileData
    );
}

#[test]
fn unique_violations_name_the_icon() {
    let err = add_icon_failure(
        "spark".to_string(),
        Some("UNIQUE constraint failed: icons.name".to_string()),
        "error returned from database".to_string(),
    );
    assert_eq!(err.message(), "An icon named 'spark' already exists");
    let err = add_icon_failure("spark".to_string(), None, "disk full".to_string());
    assert_eq!(err.message(), "DB error: disk full");
    let err = update_icon_failure(Some("UNIQUE constraint failed".to_string()), "x".to_string());
    assert_eq!(err.message(), "An icon with that name already exists");
    let err = update_icon_failure(Some("locked".to_string()), "busy".to_string());
    assert_eq!(err, AdminError::Database("busy".to_string()));
    assert_eq!(AdminError::AuthenticationRequired.message(), "Authentication required");
}

#[test]
fn field_messages() {
    assert_eq!(AdminError::EmptyField(Field::Title).message(), "Title must not be empty");
    assert_eq!(
        AdminError::EmptyField(Field::Description).message(),
        "Description must not be empty"
    );
    let err = ServiceInput::from_parts(
        "T".to_string(),
        "https://t.example".to_string(),
        " ".to_string(),
        "C".to_string(),
        None,
        None,
    )
    .unwrap_err();
    assert_eq!(err, AdminError::EmptyField(Field::Description));
}

#[test]
fn sanitised_extension_sanitises_to_itself() {
    for ext in ["svg", "png", "jpg", "jpeg", "webp", "gif", "ico", " .JPG", "..Webp ", "\tGIF"] {
        let once = sanitise_extension(ext).unwrap();
        assert_eq!(sanitise_extension(&once).unwrap(), once);
    }
    assert_eq!(sanitise_extension("webp").unwrap(), "webp");
}
