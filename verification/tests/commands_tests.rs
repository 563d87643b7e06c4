use gdpm::commands::common::{
    check_engine_version, parse_godot_version_args, CheckEngineResponse, CheckEngineStep, VersionArgsError,
};
use gdpm::commands::engine::{Add, AddPlan, Run, RunPlan};
use gdpm::commands::project::{Edit, EditPlan};
use gdpm::engine::{EngineHandler, EngineInfo};
use gdpm::settings::GdSettings;
use gdpm::types::version::{GodotVersion, SystemVersion};

const SYS: SystemVersion = SystemVersion::LinuxX64;

fn gdv(s: &str) -> GodotVersion {
    GodotVersion::parse(s, SYS).unwrap()
}

fn handler_with(versions: &[&str], default: Option<&str>) -> EngineHandler {
    let mut h = EngineHandler::new(GdSettings::new(), SYS);
    for v in versions {
        h.register(EngineInfo { version: gdv(v), path: format!("/engines/{}", v) }).unwrap();
    }
    match default {
        Some(d) => h.set_as_default(&gdv(d)).unwrap(),
        None => {
            let _ = h.unset_default();
        },
    }
    h
}

#[test]
fn test_check_engine_steps() {
    let h = handler_with(&["4.1", "4.2"], Some("4.1"));
    match check_engine_version(&h, &gdv("4.2"), None, None).unwrap() {
        CheckEngineStep::Respond(CheckEngineResponse::Found(e)) => assert_eq!(e.version, gdv("4.2")),
        other => panic!("unexpected {:?}", other),
    }
    assert!(matches!(check_engine_version(&h, &gdv("3.0"), None, None).unwrap(), CheckEngineStep::AskDownload));
    assert!(matches!(
        check_engine_version(&h, &gdv("3.0"), Some(true), None).unwrap(),
        CheckEngineStep::Respond(CheckEngineResponse::Download(_))
    ));
    match check_engine_version(&h, &gdv("3.0"), Some(false), None).unwrap() {
        CheckEngineStep::AskUseDefault(d) => assert_eq!(d, gdv("4.1")),
        other => panic!("unexpected {:?}", other),
    }
    match check_engine_version(&h, &gdv("3.0"), Some(false), Some(true)).unwrap() {
        CheckEngineStep::Respond(CheckEngineResponse::UseDefault(e)) => assert_eq!(e.path, "/engines/4.1"),
        other => panic!("unexpected {:?}", other),
    }
    assert!(matches!(
        check_engine_version(&h, &gdv("3.0"), Some(false), Some(false)).unwrap(),
        CheckEngineStep::Respond(CheckEngineResponse::Abort)
    ));
    let no_default = handler_with(&["4.1"], None);
    assert!(matches!(
        check_engine_version(&no_default, &gdv("3.0"), Some(false), None).unwrap(),
        CheckEngineStep::Respond(CheckEngineResponse::Abort)
    ));
}

#[test]
fn test_run_plan() {
    let h = handler_with(&["4.1"], Some("4.1"));
    let plan = Run { engine: Some(gdv("4.1")), args: vec![] }.plan(&h).unwrap();
    assert!(matches!(plan, RunPlan::Run(v) if v == gdv("4.1")));
    let plan = Run { engine: Some(gdv("4.1")), args: vec!["--help".to_string()] }.plan(&h).unwrap();
    assert!(matches!(plan, RunPlan::Exec(_, a) if a == vec!["--help".to_string()]));
    let plan = Run { engine: Some(gdv("9.0")), args: vec![] }.plan(&h).unwrap();
    assert!(matches!(plan, RunPlan::UnknownEngine(_)));
    let plan = Run { engine: None, args: vec![] }.plan(&h).unwrap();
    assert!(matches!(plan, RunPlan::Exec(v, a) if v == gdv("4.1") && a.is_empty()));
    let plan = Run { engine: None, args: vec!["x".to_string()] }.plan(&h).unwrap();
    assert!(matches!(plan, RunPlan::Run(_)));
    let none = EngineHandler::new(GdSettings::new(), SYS);
    assert!(matches!(Run { engine: None, args: vec![] }.plan(&none).unwrap(), RunPlan::NoDefault));
}

#[test]
fn test_add_plan() {
    let h = handler_with(&["4.1"], None);
    let add = |engine: &str, overwrite: bool, path: Option<&str>, url: Option<&str>| Add {
        engine: gdv(engine),
        system_version: None,
        target_url: url.map(|u| u.to_string()),
        target_path: path.map(|p| p.to_string()),
        overwrite,
    };
    assert!(matches!(add("4.1", false, None, None).plan(&h), AddPlan::AlreadyInstalled(_)));
    assert!(matches!(add("4.1", true, None, None).plan(&h), AddPlan::DownloadOfficial(_, SystemVersion::LinuxX64)));
    assert!(matches!(add("4.2", false, Some("/g"), Some("http://u")).plan(&h), AddPlan::Register(_, p) if p == "/g"));
    assert!(matches!(add("4.2", false, None, Some("http://u")).plan(&h), AddPlan::DownloadFrom(_, _, u) if u == "http://u"));
    let mut other = add("4.2", false, None, None);
    other.system_version = Some(SystemVersion::Win64);
    assert!(matches!(other.plan(&h), AddPlan::DownloadOfficial(_, SystemVersion::Win64)));
}

#[test]
fn test_edit_plan() {
    let h = handler_with(&["4.1"], Some("4.1"));
    let edit = |engine: Option<&str>| Edit { path: ".".to_string(), engine: engine.map(gdv) };
    assert!(matches!(edit(Some("4.1")).plan(None, &h).unwrap(), EditPlan::RunEngine(_)));
    assert!(matches!(edit(Some("2.0")).plan(None, &h).unwrap(), EditPlan::UnknownEngine(_)));
    let project_engine = gdv("3.5");
    assert!(matches!(edit(None).plan(Some(&project_engine), &h).unwrap(), EditPlan::CheckProjectEngine(v) if v == project_engine));
    assert!(matches!(edit(None).plan(None, &h).unwrap(), EditPlan::OfferDefault(v) if v == gdv("4.1")));
    let none = EngineHandler::new(GdSettings::new(), SYS);
    assert!(matches!(edit(None).plan(None, &none).unwrap(), EditPlan::NoEngine));
}

#[test]
fn test_parse_godot_version_args() {
    let v = gdv("4.2");
    assert_eq!(
        parse_godot_version_args(&v, true, false, SystemVersion::Win64).unwrap_err(),
        VersionArgsError::HeadlessNotLinux
    );
    assert_eq!(
        parse_godot_version_args(&v, false, true, SystemVersion::MacOS).unwrap_err(),
        VersionArgsError::ServerNotLinux
    );
    let (version, system) = parse_godot_version_args(&v, true, true, SystemVersion::LinuxArm64).unwrap();
    assert_eq!((version, system), (v.clone(), SystemVersion::LinuxArm64));
    assert!(parse_godot_version_args(&v, false, false, SystemVersion::Win32).is_ok());
}
