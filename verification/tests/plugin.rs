use applist::{init_config, plugin_info};

#[test]
fn the_plugin_says_who_it_is() {
    let info = plugin_info();
    assert_eq!(info.name, "Application finder");
    assert_eq!(info.version, "1.0.0");
    assert_eq!(info.description, "Find applications on your system");
    assert_eq!(info.author, "Ri");
    assert_eq!(info.default_prefix, "");
}

#[test]
fn a_configuration_is_acknowledged_whatever_it_holds() {
    assert!(init_config(Some("{\"anything\": 1}")));
    assert!(init_config(Some("")));
    assert!(init_config(Some("not json")));
}

#[test]
fn a_missing_configuration_is_refused() {
    assert!(!init_config(None));
}
