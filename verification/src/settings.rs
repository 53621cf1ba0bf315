use vstd::prelude::*;

use crate::text::push_str;

verus! {

/// Settings shared by every plugin instance.
#[derive(Debug)]
pub struct GlobalSettings {
    pub library_path: String,
}

impl GlobalSettings {
    pub fn with_library_path(library_path: &str) -> (s: Self)
        ensures
            s.library_path@ == library_path@,
    {
        let mut p = String::new();
        push_str(&mut p, library_path);
        GlobalSettings { library_path: p }
    }

    pub fn duplicate(&self) -> (s: Self)
        ensures
            s.library_path@ == self.library_path@,
    {
        GlobalSettings { library_path: self.library_path.clone() }
    }
}

/// What the "about" panel shows.
#[derive(Debug)]
pub struct AboutInfo {
    pub plugin_version: String,
    pub mimium_compiler_version: String,
    pub repository_url: String,
}

/// The project's repository.
pub const REPOSITORY_URL: &'static str = "https://github.com/mimium-org/mimium-audio-plugin";

/// The about information for the given plugin version and, when the build recorded one,
/// compiler version (`dev` otherwise).
pub fn plugin_about_info(plugin_version: &str, compiler_version: Option<&str>) -> (a: AboutInfo)
    ensures
        a.plugin_version@ == plugin_version@,
        a.mimium_compiler_version@ == match compiler_version {
            Some(v) => v@,
            None => "dev"@,
        },
        a.repository_url@ == REPOSITORY_URL@,
{
    let mut version = String::new();
    push_str(&mut version, plugin_version);
    let mut compiler = String::new();
    match compiler_version {
        Some(v) => push_str(&mut compiler, v),
        None => push_str(&mut compiler, "dev"),
    }
    let mut url = String::new();
    push_str(&mut url, REPOSITORY_URL);
    AboutInfo { plugin_version: version, mimium_compiler_version: compiler, repository_url: url }
}

} // verus!
