//! The project's configuration, and the paths that follow from it.

use vstd::prelude::*;
use vstd::string::StringExecFns;

verus! {

/// Where a project keeps its sources, where its bundles go, and which module
/// runs first.
#[derive(Clone, Debug)]
pub struct Config {
    pub entry_file: String,
    pub src_dir: String,
    pub out_dir: String,
}

/// The path of a bundle: `<out_dir>/bundle.<variant>.lua`.
pub open spec fn bundle_path_of(out_dir: Seq<char>, variant: Seq<char>) -> Seq<char> {
    out_dir + "/bundle."@ + variant + ".lua"@
}

/// The path of the line map that goes with a bundle: the bundle's, with
/// `.map` after it.
pub open spec fn map_path_of(out_dir: Seq<char>, variant: Seq<char>) -> Seq<char> {
    bundle_path_of(out_dir, variant) + ".map"@
}

/// The path of the development helper: `<src_dir>/.dev.lua`.
pub open spec fn dev_path_of(src_dir: Seq<char>) -> Seq<char> {
    src_dir + "/.dev.lua"@
}

/// The path of the entry module's script: `<src_dir>/<entry_file>.lua`.
pub open spec fn entry_path_of(src_dir: Seq<char>, entry_file: Seq<char>) -> Seq<char> {
    src_dir + "/"@ + entry_file + ".lua"@
}

/// What a new project keeps out of version control: the output directory
/// and the development helper.
pub open spec fn ignore_text(src_dir: Seq<char>, out_dir: Seq<char>) -> Seq<char> {
    "/"@ + out_dir + "\n/"@ + src_dir + "/.dev.lua"@
}

impl Config {
    /// The configuration with the given source directory, output directory
    /// and entry module.
    pub fn new(src_dir: &str, out_dir: &str, entry: &str) -> (config: Self)
        ensures
            config.src_dir@ == src_dir@,
            config.out_dir@ == out_dir@,
            config.entry_file@ == entry@,
    {
        Config {
            entry_file: String::from_str(entry),
            src_dir: String::from_str(src_dir),
            out_dir: String::from_str(out_dir),
        }
    }

    /// Where the bundle of the given variant (`dev` or `build`) is written.
    pub fn bundle_path(&self, variant: &str) -> (path: String)
        ensures
            path@ == bundle_path_of(self.out_dir@, variant@),
    {
        let mut path = self.out_dir.clone();
        path.append("/bundle.");
        path.append(variant);
        path.append(".lua");
        path
    }

    /// Where the line map of the bundle of the given variant is written.
    pub fn map_path(&self, variant: &str) -> (path: String)
        ensures
            path@ == map_path_of(self.out_dir@, variant@),
    {
        let mut path = self.bundle_path(variant);
        path.append(".map");
        path
    }

    /// Where the development helper is looked for.
    pub fn dev_path(&self) -> (path: String)
        ensures
            path@ == dev_path_of(self.src_dir@),
    {
        let mut path = self.src_dir.clone();
        path.append("/.dev.lua");
        path
    }

    /// Where the entry module's script is written when a project is made.
    pub fn entry_path(&self) -> (path: String)
        ensures
            path@ == entry_path_of(self.src_dir@, self.entry_file@),
    {
        let mut path = self.src_dir.clone();
        path.append("/");
        path.append(self.entry_file.as_str());
        path.append(".lua");
        path
    }

    /// The ignore file of a new project.
    pub fn gitignore(&self) -> (text: String)
        ensures
            text@ == ignore_text(self.src_dir@, self.out_dir@),
    {
        let mut text = String::from_str("/");
        text.append(self.out_dir.as_str());
        text.append("\n/");
        text.append(self.src_dir.as_str());
        text.append("/.dev.lua");
        text
    }
}

} // verus!
