//! Project scaffolding: what a new Godot 4 project holds.
use vstd::prelude::*;

use crate::io;
use crate::settings::{
    entries_view, lemma_entries_view, lemma_values_view, sections_view, settings_wf, values_view, GdSettings, GdValue,
    SettingsModel, ValueModel,
};
use crate::text::chars_of;

verus! {

/// Parse error.
#[derive(Debug)]
pub enum ParseError {
    /// Unknown project version.
    UnknownProjectVersion(String),
    /// Unknown project renderer.
    UnknownProjectRenderer(String),
}

/// Project renderer.
#[derive(Debug, Clone, Copy, PartialEq, Eq, Structural)]
pub enum ProjectRenderer {
    /// Forward+.
    ForwardPlus,
    /// Mobile.
    Mobile,
    /// Compatibility.
    Compatibility,
}

/// The renderer a name stands for.
pub open spec fn renderer_of(s: Seq<char>) -> Option<ProjectRenderer> {
    if s == "forward+"@ {
        Some(ProjectRenderer::ForwardPlus)
    } else if s == "mobile"@ {
        Some(ProjectRenderer::Mobile)
    } else if s == "compatibility"@ {
        Some(ProjectRenderer::Compatibility)
    } else {
        None
    }
}

/// The name shown for a renderer.
pub open spec fn full_name(r: ProjectRenderer) -> Seq<char> {
    match r {
        ProjectRenderer::ForwardPlus => "Forward+"@,
        ProjectRenderer::Compatibility => "GL Compatibility"@,
        ProjectRenderer::Mobile => "Mobile"@,
    }
}

/// The name of a renderer in the project settings.
pub open spec fn technical_name(r: ProjectRenderer) -> Seq<char> {
    match r {
        ProjectRenderer::ForwardPlus => "forward+"@,
        ProjectRenderer::Mobile => "mobile"@,
        ProjectRenderer::Compatibility => "gl_compatibility"@,
    }
}

/// The technical name of a renderer names that renderer: it is the name
/// the renderer is read from, or that name after `gl_` for the
/// compatibility renderer; and distinct renderers have distinct technical
/// and full names.
pub proof fn law_technical_name(r: ProjectRenderer, r2: ProjectRenderer)
    ensures
        r != ProjectRenderer::Compatibility ==> renderer_of(technical_name(r)) == Some(r),
        r == ProjectRenderer::Compatibility ==> exists|n: Seq<char>|
            renderer_of(n) == Some(r) && #[trigger] technical_name(r) == "gl_"@ + n,
        r != r2 ==> technical_name(r) != technical_name(r2),
        r != r2 ==> full_name(r) != full_name(r2),
{
    reveal_strlit("forward+");
    reveal_strlit("mobile");
    reveal_strlit("compatibility");
    reveal_strlit("gl_compatibility");
    reveal_strlit("gl_");
    reveal_strlit("Forward+");
    reveal_strlit("GL Compatibility");
    reveal_strlit("Mobile");
    assert("forward+"@.len() == 8 && "mobile"@.len() == 6 && "compatibility"@.len() == 13);
    assert("gl_compatibility"@.len() == 16);
    assert("Forward+"@.len() == 8 && "Mobile"@.len() == 6 && "GL Compatibility"@.len() == 16);
    assert("forward+"@ != "mobile"@);
    assert("forward+"@ != "compatibility"@);
    assert("mobile"@ != "compatibility"@);
    assert("gl_compatibility"@ =~= "gl_"@ + "compatibility"@);
    assert(renderer_of("compatibility"@) == Some(ProjectRenderer::Compatibility));
}

impl ProjectRenderer {
    /// Reads a renderer name: `forward+`, `mobile` or `compatibility`.
    pub fn parse(s: &str) -> (res: Result<Self, ParseError>)
        ensures
            match renderer_of(s@) {
                Some(r) => res matches Ok(x) && x == r,
                None => res matches Err(ParseError::UnknownProjectRenderer(n)) && n@ == s@,
            },
    {
        let cs = chars_of(s);
        if crate::text::chars_eq_str(cs.as_slice(), "forward+") {
            Ok(ProjectRenderer::ForwardPlus)
        } else if crate::text::chars_eq_str(cs.as_slice(), "mobile") {
            Ok(ProjectRenderer::Mobile)
        } else if crate::text::chars_eq_str(cs.as_slice(), "compatibility") {
            Ok(ProjectRenderer::Compatibility)
        } else {
            Err(ParseError::UnknownProjectRenderer(String::from_str(s)))
        }
    }

    /// The name shown for the renderer.
    pub fn to_full_name(&self) -> (res: &'static str)
        ensures
            res@ == full_name(*self),
    {
        match self {
            ProjectRenderer::ForwardPlus => "Forward+",
            ProjectRenderer::Compatibility => "GL Compatibility",
            ProjectRenderer::Mobile => "Mobile",
        }
    }

    /// The name of the renderer in the project settings.
    pub fn to_technical_name(&self) -> (res: &'static str)
        ensures
            res@ == technical_name(*self),
    {
        match self {
            ProjectRenderer::ForwardPlus => "forward+",
            ProjectRenderer::Mobile => "mobile",
            ProjectRenderer::Compatibility => "gl_compatibility",
        }
    }
}

impl std::str::FromStr for ProjectRenderer {
    type Err = ParseError;

    fn from_str(s: &str) -> (res: Result<Self, ParseError>)
        ensures
            match renderer_of(s@) {
                Some(r) => res matches Ok(x) && x == r,
                None => res matches Err(ParseError::UnknownProjectRenderer(n)) && n@ == s@,
            },
    {
        ProjectRenderer::parse(s)
    }
}

/// Project info: the game's name and renderer.
pub struct ProjectInfo {
    game_name: String,
    renderer: ProjectRenderer,
}

impl ProjectInfo {
    /// The game's name.
    pub closed spec fn name(&self) -> Seq<char> {
        self.game_name@
    }

    /// The renderer.
    pub closed spec fn renderer(&self) -> ProjectRenderer {
        self.renderer
    }

    /// Creates project info.
    pub fn new(game_name: String, renderer: ProjectRenderer) -> (res: Self)
        ensures
            res.name() == game_name@,
            res.renderer() == renderer,
    {
        ProjectInfo { game_name, renderer }
    }
}

/// The contents of `icon.svg` in a new project.
pub const ICON_SVG: &'static str = "<svg height=\"128\" width=\"128\" xmlns=\"http://www.w3.org/2000/svg\"><rect x=\"2\" y=\"2\" width=\"124\" height=\"124\" rx=\"14\" fill=\"#363d52\" stroke=\"#212532\" stroke-width=\"4\"/><g transform=\"scale(.101) translate(122 122)\"><g fill=\"#fff\"><path d=\"M105 673v33q407 354 814 0v-33z\"/><path fill=\"#478cbf\" d=\"m105 673 152 14q12 1 15 14l4 67 132 10 8-61q2-11 15-15h162q13 4 15 15l8 61 132-10 4-67q3-13 15-14l152-14V427q30-39 56-81-35-59-83-108-43 20-82 47-40-37-88-64 7-51 8-102-59-28-123-42-26 43-46 89-49-7-98 0-20-46-46-89-64 14-123 42 1 51 8 102-48 27-88 64-39-27-82-47-48 49-83 108 26 42 56 81zm0 33v39c0 276 813 276 813 0v-39l-134 12-5 69q-2 10-14 13l-162 11q-12 0-16-11l-10-65H447l-10 65q-4 11-16 11l-162-11q-12-3-14-13l-5-69z\"/><path d=\"M483 600c3 34 55 34 58 0v-86c-3-34-55-34-58 0z\"/><circle cx=\"725\" cy=\"526\" r=\"90\"/><circle cx=\"299\" cy=\"526\" r=\"90\"/></g><g fill=\"#414042\"><circle cx=\"307\" cy=\"532\" r=\"60\"/><circle cx=\"717\" cy=\"532\" r=\"60\"/></g></g></svg>";

/// The contents of `.gitignore` in a new project.
pub const GITIGNORE: &'static str = "# Godot 4+ specific ignores\n.godot/";

/// The contents of `.gitattributes` in a new project.
pub const GITATTRIBUTES: &'static str = "# Normalize EOL for all files that Git considers text files.\n* text=auto eol=lf";

/// The settings of a new project: the configuration version, the
/// application's name, features and icon, the renderer, and the engine
/// version.
pub open spec fn project_settings_of(engine_version: Seq<char>, game_name: Seq<char>, r: ProjectRenderer) -> SettingsModel {
    seq![
        (""@, seq![("config_version"@, ValueModel::Int(5))]),
        (
            "application"@,
            seq![
                ("config/name"@, ValueModel::Str(game_name)),
                (
                    "config/features"@,
                    ValueModel::ClassInstance(
                        "PackedStringArray"@,
                        seq![ValueModel::Str(engine_version), ValueModel::Str(full_name(r))],
                        Seq::empty(),
                    ),
                ),
                ("config/icon"@, ValueModel::Str("res://icon.svg"@)),
            ],
        ),
        (
            "rendering"@,
            seq![
                ("renderer/rendering_method"@, ValueModel::Str(technical_name(r))),
                ("renderer/rendering_method.mobile"@, ValueModel::Str(technical_name(r))),
            ],
        ),
        ("engine"@, seq![("version"@, ValueModel::Str(engine_version))]),
    ]
}

/// The settings of a new project have unique section names and keys.
pub proof fn lemma_project_settings_wf(engine_version: Seq<char>, game_name: Seq<char>, r: ProjectRenderer)
    ensures
        settings_wf(project_settings_of(engine_version, game_name, r)),
{
    reveal_strlit("");
    reveal_strlit("application");
    reveal_strlit("rendering");
    reveal_strlit("engine");
    reveal_strlit("config/name");
    reveal_strlit("config/features");
    reveal_strlit("config/icon");
    reveal_strlit("renderer/rendering_method");
    reveal_strlit("renderer/rendering_method.mobile");
    let m = project_settings_of(engine_version, game_name, r);
    assert("config/name"@[7] != "config/icon"@[7]);
    assert(m[0].0 == ""@ && m[1].0 == "application"@ && m[2].0 == "rendering"@ && m[3].0 == "engine"@);
    assert(""@.len() == 0 && "application"@.len() == 11 && "rendering"@.len() == 9 && "engine"@.len() == 6);
    assert(m[2].1[0].0 == "renderer/rendering_method"@ && m[2].1[1].0 == "renderer/rendering_method.mobile"@);
    assert("renderer/rendering_method"@.len() == 25 && "renderer/rendering_method.mobile"@.len() == 32);
    assert(m[1].1[0].0 != m[1].1[2].0);
    assert(m[1].1[0].0 != m[1].1[1].0);
    assert(m[1].1[1].0 != m[1].1[2].0);
    assert(m[2].1[0].0 != m[2].1[1].0);
    assert(m[0].0 != m[1].0 && m[0].0 != m[2].0 && m[0].0 != m[3].0);
    assert(m[1].0 != m[2].0 && m[1].0 != m[3].0 && m[2].0 != m[3].0);
}

/// Godot 4 project scaffold.
pub struct ProjectScaffoldV4 {
    engine_version: String,
    project_info: ProjectInfo,
}

impl ProjectScaffoldV4 {
    /// The engine version.
    pub closed spec fn engine_version(&self) -> Seq<char> {
        self.engine_version@
    }

    /// The project info.
    pub closed spec fn info(&self) -> (Seq<char>, ProjectRenderer) {
        (self.project_info.game_name@, self.project_info.renderer)
    }

    /// Creates a scaffold.
    pub fn new(engine_version: String, project_info: ProjectInfo) -> (res: Self)
        ensures
            res.engine_version() == engine_version@,
            res.info() == (project_info.name(), project_info.renderer()),
    {
        ProjectScaffoldV4 { engine_version, project_info }
    }

    /// The settings written to `project.godot`.
    pub fn project_settings(&self) -> (res: GdSettings)
        ensures
            res@ == project_settings_of(self.engine_version(), self.info().0, self.info().1),
    {
        let r = self.project_info.renderer;
        let global = vec![(String::from_str("config_version"), GdValue::Int(5))];
        let features = vec![
            GdValue::String(self.engine_version.clone()),
            GdValue::String(String::from_str(r.to_full_name())),
        ];
        let no_args: Vec<(String, GdValue)> = Vec::new();
        proof {
            lemma_values_view(features@);
            lemma_entries_view(no_args@);
        }
        assert(values_view(features@) =~= seq![ValueModel::Str(self.engine_version@), ValueModel::Str(full_name(r))]);
        assert(entries_view(no_args@) =~= Seq::<(Seq<char>, ValueModel)>::empty());
        let app = vec![
            (String::from_str("config/name"), GdValue::String(self.project_info.game_name.clone())),
            (
                String::from_str("config/features"),
                GdValue::ClassInstance(String::from_str("PackedStringArray"), features, no_args),
            ),
            (String::from_str("config/icon"), GdValue::String(String::from_str("res://icon.svg"))),
        ];
        let rendering = vec![
            (String::from_str("renderer/rendering_method"), GdValue::String(String::from_str(r.to_technical_name()))),
            (
                String::from_str("renderer/rendering_method.mobile"),
                GdValue::String(String::from_str(r.to_technical_name())),
            ),
        ];
        let engine = vec![(String::from_str("version"), GdValue::String(self.engine_version.clone()))];
        proof {
            lemma_entries_view(global@);
            lemma_entries_view(app@);
            lemma_entries_view(rendering@);
            lemma_entries_view(engine@);
        }
        let ghost expected = project_settings_of(self.engine_version@, self.project_info.game_name@, r);
        assert(entries_view(global@) =~= expected[0].1);
        assert(entries_view(app@) =~= expected[1].1);
        assert(entries_view(rendering@) =~= expected[2].1);
        assert(entries_view(engine@) =~= expected[3].1);
        let sections = vec![
            (String::from_str(""), global),
            (String::from_str("application"), app),
            (String::from_str("rendering"), rendering),
            (String::from_str("engine"), engine),
        ];
        assert(sections_view(sections@) =~= expected);
        proof {
            lemma_project_settings_wf(self.engine_version@, self.project_info.game_name@, r);
        }
        GdSettings::from_sections(sections)
    }
}

/// Scaffolding error.
#[derive(Debug)]
pub enum Error {
    /// I/O error.
    Io(io::Error),
    /// Unknown error.
    Unknown(String),
}

} // verus!
