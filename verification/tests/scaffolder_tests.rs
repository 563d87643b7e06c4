use gdpm::scaffolder::{ParseError, ProjectInfo, ProjectRenderer, ProjectScaffoldV4, GITIGNORE};
use gdpm::settings::GdValue;

#[test]
fn test_renderer_names() {
    assert_eq!(ProjectRenderer::parse("forward+").unwrap(), ProjectRenderer::ForwardPlus);
    assert_eq!("mobile".parse::<ProjectRenderer>().unwrap(), ProjectRenderer::Mobile);
    assert_eq!(ProjectRenderer::parse("compatibility").unwrap(), ProjectRenderer::Compatibility);
    match ProjectRenderer::parse("vulkan") {
        Err(ParseError::UnknownProjectRenderer(n)) => assert_eq!(n, "vulkan"),
        other => panic!("unexpected {:?}", other),
    }
    assert_eq!(ProjectRenderer::Compatibility.to_full_name(), "GL Compatibility");
    assert_eq!(ProjectRenderer::Compatibility.to_technical_name(), "gl_compatibility");
    assert_eq!(ProjectRenderer::ForwardPlus.to_full_name(), "Forward+");
}

#[test]
fn test_project_settings() {
    let scaffold = ProjectScaffoldV4::new("4.2".to_string(), ProjectInfo::new("Game".to_string(), ProjectRenderer::Mobile));
    let settings = scaffold.project_settings();
    assert_eq!(settings.get_property("", "config_version"), Some(&GdValue::Int(5)));
    assert_eq!(settings.get_property("application", "config/name"), Some(&GdValue::String("Game".to_string())));
    assert_eq!(
        settings.get_property("application", "config/features"),
        Some(&GdValue::ClassInstance(
            "PackedStringArray".to_string(),
            vec![GdValue::String("4.2".to_string()), GdValue::String("Mobile".to_string())],
            vec![]
        ))
    );
    assert_eq!(
        settings.get_property("rendering", "renderer/rendering_method.mobile"),
        Some(&GdValue::String("mobile".to_string()))
    );
    assert_eq!(settings.get_property("engine", "version"), Some(&GdValue::String("4.2".to_string())));
    assert_eq!(GITIGNORE, "# Godot 4+ specific ignores\n.godot/");
}
