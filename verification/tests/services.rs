use rustsni::host::host_name;
use rustsni::watcher::{normalize_item_name, parse_service, service_id, unique_names};

#[test]
fn normalize_full_name() {
    let input = "org.freedesktop.StatusNotifierItem-4077-1";
    assert_eq!(normalize_item_name(input), input);
}

#[test]
fn normalize_unique_name() {
    assert_eq!(normalize_item_name(":1.42"), ":1.42");
}

#[test]
fn normalize_pid_id() {
    assert_eq!(
        normalize_item_name("4077-1"),
        "org.freedesktop.StatusNotifierItem-4077-1"
    );
}

#[test]
fn parse_service_uses_sender_for_path_only() {
    let (bus, path) = parse_service(":1.42", "/StatusNotifierItem");
    assert_eq!(bus, ":1.42");
    assert_eq!(path, "/StatusNotifierItem");
}

#[test]
fn parse_service_bus_name_and_path() {
    let (bus, path) = parse_service(":1.42", "com.example.App/SomePath");
    assert_eq!(bus, "com.example.App");
    assert_eq!(path, "/SomePath");
}

#[test]
fn parse_service_just_bus_name() {
    let (bus, path) = parse_service(":1.42", "org.freedesktop.StatusNotifierItem-4077-1");
    assert_eq!(bus, "org.freedesktop.StatusNotifierItem-4077-1");
    assert_eq!(path, "/StatusNotifierItem");
}

#[test]
fn service_id_preserved_on_path_only_registration() {
    // When a path-only registration comes from sender :1.42,
    // the service_id should be sender + path
    let sender = ":1.42";
    let service = "/StatusNotifierItem";
    assert_eq!(service_id(sender, service), format!("{sender}{service}"));
    assert_eq!(service_id(sender, service), ":1.42/StatusNotifierItem");
}

#[test]
fn normalize_freedesktop_exact() {
    assert_eq!(
        normalize_item_name("org.freedesktop.StatusNotifierItem"),
        "org.freedesktop.StatusNotifierItem"
    );
}

#[test]
fn normalize_kde_exact() {
    assert_eq!(
        normalize_item_name("org.kde.StatusNotifierItem"),
        "org.kde.StatusNotifierItem"
    );
}

#[test]
fn normalize_is_idempotent() {
    for name in ["4077-1", "", "com.example.App", ":1.7", "org.kde.StatusNotifierItem-1-1"] {
        let once = normalize_item_name(name);
        assert_eq!(normalize_item_name(&once), once);
    }
    assert_eq!(normalize_item_name(""), "org.freedesktop.StatusNotifierItem-");
}

#[test]
fn parse_service_of_bare_and_empty_names() {
    assert_eq!(
        parse_service(":1.42", "4077-1"),
        (
            "org.freedesktop.StatusNotifierItem-4077-1".to_owned(),
            "/StatusNotifierItem".to_owned()
        )
    );
    assert_eq!(
        parse_service(":1.42", ""),
        ("org.freedesktop.StatusNotifierItem-".to_owned(), "/StatusNotifierItem".to_owned())
    );
    // a name with a dot is a bus name
    assert_eq!(
        parse_service(":1.42", "com.example.App"),
        ("com.example.App".to_owned(), "/StatusNotifierItem".to_owned())
    );
    assert_eq!(
        parse_service(":1.42", ":1.7"),
        (":1.7".to_owned(), "/StatusNotifierItem".to_owned())
    );
    // the first slash counts
    assert_eq!(
        parse_service(":1.42", "a/b/c"),
        ("a".to_owned(), "/b/c".to_owned())
    );
    // characters of more than one byte
    assert_eq!(
        parse_service(":1.42", "ä/ö"),
        ("ä".to_owned(), "/ö".to_owned())
    );
}

#[test]
fn bus_name_and_path_make_up_the_service_id() {
    for service in ["/Path", "com.example.App/SomePath", "a/b/c"] {
        let (bus, path) = parse_service(":1.9", service);
        assert_eq!(format!("{bus}{path}"), service_id(":1.9", service));
    }
    assert_eq!(service_id(":1.9", "com.example.App"), "com.example.App");
}

#[test]
fn only_unique_names_are_discovered() {
    let names: Vec<String> = ["org.freedesktop.DBus", ":1.3", ":2.4", "1.5", ":1.", ":1"]
        .iter()
        .map(|s| s.to_string())
        .collect();
    assert_eq!(unique_names(&names), vec![":1.3".to_owned(), ":1.".to_owned()]);
}

#[test]
fn host_name_holds_the_process_number() {
    assert_eq!(host_name(0), "org.freedesktop.StatusNotifierHost-0");
    assert_eq!(host_name(1234567890), "org.freedesktop.StatusNotifierHost-1234567890");
    assert_eq!(host_name(u32::MAX), "org.freedesktop.StatusNotifierHost-4294967295");
}
