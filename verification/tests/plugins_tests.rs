use gdpm::errors::PluginError;
use gdpm::plugins::{Dependency, DependencyHandler, DependencySource, PluginInfo};
use gdpm::settings::{GdSettings, GdValue};

fn s(v: &str) -> GdValue {
    GdValue::String(v.to_string())
}

fn plugin(name: &str, folder: &str) -> PluginInfo {
    PluginInfo {
        name: name.to_string(),
        description: "d".to_string(),
        author: "a".to_string(),
        version: "1.0".to_string(),
        script: "p.gd".to_string(),
        folder_name: folder.to_string(),
    }
}

#[test]
fn test_dependency_source() {
    assert_eq!(DependencySource::from_value("."), DependencySource::Current);
    assert_eq!(
        DependencySource::from_value("https://github.com/a/b"),
        DependencySource::GitHttp("https://github.com/a/b".to_string())
    );
    assert_eq!(
        DependencySource::from_value("git@github.com:a/b.git"),
        DependencySource::GitSsh("git@github.com:a/b.git".to_string())
    );
    assert_eq!(DependencySource::from_value("../other"), DependencySource::Path("../other".to_string()));
    for v in [".", "https://x", "git@y", "../z"] {
        assert_eq!(DependencySource::from_value(v).path(), v);
    }
    assert_eq!(DependencySource::Current.to_string(), "Current");
    assert_eq!(DependencySource::GitHttp("h".to_string()).to_string(), "Git (HTTP): h");
    assert_eq!(DependencySource::GitSsh("g".to_string()).to_string(), "Git (SSH): g");
    assert_eq!(DependencySource::Path("p".to_string()).to_string(), "p");
}

#[test]
fn test_dependency_values() {
    let d = Dependency {
        name: "Gut".to_string(),
        version: "7.0".to_string(),
        checksum: String::new(),
        source: DependencySource::from_value("../gut"),
    };
    let v = d.to_gdvalue();
    assert_eq!(
        v,
        GdValue::Object(vec![
            ("name".to_string(), s("Gut")),
            ("version".to_string(), s("7.0")),
            ("source".to_string(), s("../gut")),
        ])
    );
    let back = Dependency::from_gdvalue("gut", &v).unwrap();
    assert_eq!(back.name, "Gut");
    assert_eq!(back.version, "7.0");
    assert_eq!(back.source, DependencySource::Path("../gut".to_string()));

    match Dependency::from_gdvalue("key", &GdValue::Int(1)) {
        Err(PluginError::MalformedDependency(n)) => assert_eq!(n, "key"),
        other => panic!("unexpected {:?}", other),
    }
    let no_version = GdValue::Object(vec![("name".to_string(), s("Named"))]);
    match Dependency::from_gdvalue("key", &no_version) {
        Err(PluginError::MalformedDependency(n)) => assert_eq!(n, "Named"),
        other => panic!("unexpected {:?}", other),
    }

    colored::control::set_override(false);
    assert_eq!(d.get_verbose_name(), "Gut (v7.0) (source: ../gut)");
    colored::control::unset_override();

    let p = plugin("My Plugin", "my_plugin");
    let dep = Dependency::from_plugin_info(&p);
    assert_eq!(dep.name, "my_plugin");
    assert_eq!(dep.version, "1.0");
    assert_eq!(dep.source, DependencySource::Current);
}

#[test]
fn test_plugin_info_from_addon() {
    let info = PluginInfo::from_project_addon(None, "addon").unwrap();
    assert_eq!(info.name, "addon");
    assert_eq!(info.folder_name, "addon");
    assert_eq!(info.version, "");

    let mut cfg = GdSettings::new();
    for (k, v) in [("name", "N"), ("description", "D"), ("author", "A"), ("version", "V"), ("script", "S")] {
        cfg.set_property("plugin", k, s(v));
    }
    let info = PluginInfo::from_project_addon(Some(cfg), "folder").unwrap();
    assert_eq!((info.name.as_str(), info.script.as_str(), info.folder_name.as_str()), ("N", "S", "folder"));

    let mut cfg = GdSettings::new();
    cfg.set_property("plugin", "name", s("N"));
    match PluginInfo::from_project_addon(Some(cfg), "folder") {
        Err(PluginError::MissingProperty(p)) => assert_eq!(p, "description"),
        other => panic!("unexpected {:?}", other),
    }
}

#[test]
fn test_add_get_remove_dependency() {
    let mut handler = DependencyHandler::new(GdSettings::new());
    let added = handler.add_dependency("Godot Test", "1.0", "https://example.org/gt.git");
    assert_eq!(added.source, DependencySource::GitHttp("https://example.org/gt.git".to_string()));
    assert!(handler.config().get_property("dependencies", "godot-test").is_some());

    let got = handler.get_dependency("godot test").unwrap();
    assert_eq!(got.name, "Godot Test");
    assert!(matches!(handler.get_dependency("other"), Err(PluginError::MissingDependency(_))));
    assert_eq!(handler.list_project_dependencies().unwrap().len(), 1);

    let removed = handler.remove_dependency("Godot Test").unwrap();
    assert_eq!(removed.name, "Godot Test");
    assert!(handler.list_project_dependencies().unwrap().is_empty());
    match handler.remove_dependency("Godot Test") {
        Err(PluginError::MissingDependency(n)) => assert_eq!(n, "godot-test"),
        other => panic!("unexpected {:?}", other),
    }
}

#[test]
fn test_fork_dependency() {
    let mut handler = DependencyHandler::new(GdSettings::new());
    handler.add_dependency("lib", "2.0", "../lib");
    assert!(handler.fork_dependency("missing").unwrap().is_none());
    let before = handler.fork_dependency("lib").unwrap().unwrap();
    assert_eq!(before.source, DependencySource::Path("../lib".to_string()));
    let after = handler.get_dependency("lib").unwrap();
    assert_eq!(after.source, DependencySource::Current);
}

#[test]
fn test_register_and_desync() {
    let mut handler = DependencyHandler::new(GdSettings::new());
    handler.add_dependency("remote", "1.0", "git@host:remote.git");
    let added = handler.register_project_plugins(&vec![plugin("Local One", "local_one"), plugin("remote", "remote")]);
    assert_eq!(added.len(), 1);
    assert_eq!(added[0].name, "local_one");
    // Nothing is added twice, and existing entries stay.
    let again = handler.register_project_plugins(&vec![plugin("Local One", "local_one")]);
    assert!(again.is_empty());
    assert_eq!(handler.get_dependency("remote").unwrap().source, DependencySource::GitSsh("git@host:remote.git".to_string()));

    let only = handler.register_project_plugin(&vec![plugin("A", "a"), plugin("B", "b")], "b");
    assert_eq!(only.len(), 1);
    assert_eq!(only[0].name, "b");

    let targets = handler.desync_project_plugins().unwrap();
    assert_eq!(targets.len(), 1);
    assert_eq!(targets[0].name, "remote");
    assert_eq!(handler.desync_project_plugin("remote").unwrap().name, "remote");
    assert!(matches!(handler.desync_project_plugin("local one"), Err(PluginError::CannotDesync(_))));
    assert!(matches!(handler.desync_project_plugin("nothing"), Err(PluginError::MissingDependency(_))));
    assert_eq!(handler.sync_project_plugin("b").unwrap().name, "b");
    assert!(matches!(handler.sync_project_plugin("zzz"), Err(PluginError::MissingDependency(_))));
}

#[test]
fn test_malformed_dependency_list() {
    let mut settings = GdSettings::new();
    settings.set_property("dependencies", "bad", GdValue::Boolean(true));
    let handler = DependencyHandler::new(settings);
    match handler.list_project_dependencies() {
        Err(PluginError::MalformedDependency(n)) => assert_eq!(n, "bad"),
        other => panic!("unexpected {:?}", other),
    }
}
