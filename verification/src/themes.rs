//! The libraries and the resource files of the backstage and of the themes.

use vstd::prelude::*;
use crate::config::{SitesConfig, SitesConfigView};
use crate::page::Theme;
use crate::text::{joined, replace_char, replaced, str_eq};

verus! {

/// The systems that name their libraries differently.
#[derive(Clone, Copy, Debug, PartialEq, Eq, Structural)]
pub enum Platform {
    Linux,
    MacOs,
    Windows,
}

/// Where below its directory the library of the module `name` lies.
pub open spec fn lib_subpath_of(name: Seq<char>, platform: Platform) -> Seq<char> {
    match platform {
        Platform::Linux => "pkg/lib"@ + name + ".so"@,
        Platform::MacOs => "pkg/lib"@ + name + ".dylib"@,
        Platform::Windows => "pkg/"@ + name + ".dll"@,
    }
}

/// Where below its directory the library of the module `name` lies.
pub fn lib_subpath(name: &str, platform: Platform) -> (r: String)
    ensures
        r@ == lib_subpath_of(name@, platform),
{
    match platform {
        Platform::Linux => {
            let a = joined("pkg/lib", name);
            joined(a.as_str(), ".so")
        },
        Platform::MacOs => {
            let a = joined("pkg/lib", name);
            joined(a.as_str(), ".dylib")
        },
        Platform::Windows => {
            let a = joined("pkg/", name);
            joined(a.as_str(), ".dll")
        },
    }
}

/// The module name of a theme: its name with every dash an underline.
pub open spec fn mod_name_of(theme: Seq<char>) -> Seq<char> {
    replaced(theme, '-', '_')
}

/// A module with what belongs to it: its directory, and below it its
/// library, its script and its compiled module.
#[derive(Clone, Debug, PartialEq, Eq)]
pub struct ThemeFiles {
    pub mod_name: String,
    pub dir: String,
    pub library: String,
    pub script: String,
    pub wasm: String,
}

pub struct ThemeFilesView {
    pub mod_name: Seq<char>,
    pub dir: Seq<char>,
    pub library: Seq<char>,
    pub script: Seq<char>,
    pub wasm: Seq<char>,
}

impl View for ThemeFiles {
    type V = ThemeFilesView;

    open spec fn view(&self) -> ThemeFilesView {
        ThemeFilesView {
            mod_name: self.mod_name@,
            dir: self.dir@,
            library: self.library@,
            script: self.script@,
            wasm: self.wasm@,
        }
    }
}

/// The files of the module `mod_name` in `dir`. The library is looked up
/// under `lib_name`.
pub open spec fn files_of(
    mod_name: Seq<char>,
    lib_name: Seq<char>,
    dir: Seq<char>,
    platform: Platform,
) -> ThemeFilesView {
    ThemeFilesView {
        mod_name,
        dir,
        library: lib_subpath_of(lib_name, platform),
        script: "pkg/"@ + mod_name + ".js"@,
        wasm: "pkg/"@ + mod_name + "_bg.wasm"@,
    }
}

/// The module of the backstage.
pub const BACKSTAGE_MODULE: &'static str = "light_letter_backstage";

/// The name under which the backstage is kept.
pub const BACKSTAGE_NAME: &'static str = "backstage";

/// The modules that a configuration needs: the backstage, then every
/// declared theme in the order of declaration.
pub open spec fn modules_of(cfg: SitesConfigView, platform: Platform) -> Seq<ThemeFilesView> {
    seq![
        ThemeFilesView {
            mod_name: BACKSTAGE_NAME@,
            ..files_of(BACKSTAGE_MODULE@, BACKSTAGE_MODULE@, cfg.backstage, platform)
        },
    ] + Seq::new(
        cfg.themes.len(),
        |i: int|
            files_of(
                mod_name_of(cfg.themes[i].0),
                mod_name_of(cfg.themes[i].0),
                cfg.themes[i].1,
                platform,
            ),
    )
}

fn files(mod_name: &str, lib_name: &str, dir: &str, platform: Platform) -> (r: ThemeFiles)
    ensures
        r@ == files_of(mod_name@, lib_name@, dir@, platform),
{
    let a = joined("pkg/", mod_name);
    let script = joined(a.as_str(), ".js");
    let wasm = joined(a.as_str(), "_bg.wasm");
    proof {
        assert(script@ =~= "pkg/"@ + mod_name@ + ".js"@);
        assert(wasm@ =~= "pkg/"@ + mod_name@ + "_bg.wasm"@);
    }
    ThemeFiles {
        mod_name: mod_name.to_owned(),
        dir: dir.to_owned(),
        library: lib_subpath(lib_name, platform),
        script,
        wasm,
    }
}

/// The views of a list of modules.
pub open spec fn files_view(v: Seq<ThemeFiles>) -> Seq<ThemeFilesView> {
    Seq::new(v.len(), |i: int| v[i]@)
}

/// The modules to load for a configuration.
pub fn init(config: &SitesConfig, platform: Platform) -> (r: Vec<ThemeFiles>)
    ensures
        files_view(r@) == modules_of(config@, platform),
{
    let mut r: Vec<ThemeFiles> = Vec::new();
    let mut backstage = files(
        BACKSTAGE_MODULE,
        BACKSTAGE_MODULE,
        config.resource.backstage.as_str(),
        platform,
    );
    backstage.mod_name = BACKSTAGE_NAME.to_owned();
    r.push(backstage);
    let ghost want = modules_of(config@, platform);
    let mut i: usize = 0;
    while i < config.resource.themes.len()
        invariant
            i <= config.resource.themes.len(),
            r.len() == i + 1,
            want == modules_of(config@, platform),
            forall|j: int| 0 <= j < r.len() ==> (#[trigger] r@[j])@ == want[j],
        decreases config.resource.themes.len() - i,
    {
        let name = replace_char(config.resource.themes[i].0.as_str(), '-', '_');
        let f = files(
            name.as_str(),
            name.as_str(),
            config.resource.themes[i].1.as_str(),
            platform,
        );
        assert(f@ == want[i + 1]);
        r.push(f);
        i += 1;
    }
    assert(files_view(r@) =~= want);
    r
}

/// The module of the theme that is built in.
pub const IVY_LEAF_MODULE: &'static str = "light_letter_theme_ivy_leaf";

/// The set of pages that is kept under a module name.
pub open spec fn theme_of(name: Seq<char>) -> Option<Theme> {
    if name == BACKSTAGE_NAME@ {
        Some(Theme::Backstage)
    } else if name == IVY_LEAF_MODULE@ {
        Some(Theme::IvyLeaf)
    } else {
        None
    }
}

/// The set of pages that is kept under a module name, if there is one.
pub fn get(name: &str) -> (r: Option<Theme>)
    ensures
        r == theme_of(name@),
{
    if str_eq(name, BACKSTAGE_NAME) {
        Some(Theme::Backstage)
    } else if str_eq(name, IVY_LEAF_MODULE) {
        Some(Theme::IvyLeaf)
    } else {
        None
    }
}

} // verus!
