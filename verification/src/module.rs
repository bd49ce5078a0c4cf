//! The module locator: which file on disk stands for a module key.

use vstd::prelude::*;
use vstd::string::StringExecFns;

verus! {

/// What kind of file a module is.
#[derive(Clone, Copy, Debug, PartialEq, Eq, Structural)]
pub enum ModuleType {
    /// `<key>/init.lua`: the module is a directory.
    Directory,
    /// `<key>.lua`.
    Lua,
    /// `<key>.json`: data, embedded as a table.
    Json,
}

/// What follows the key in the path of a module of that kind.
pub open spec fn suffix_of(kind: ModuleType) -> Seq<char> {
    match kind {
        ModuleType::Lua => ".lua"@,
        ModuleType::Directory => "/init.lua"@,
        ModuleType::Json => ".json"@,
    }
}

/// The path of the file that holds the module `key` if it is of that kind.
pub open spec fn path_of(src_dir: Seq<char>, key: Seq<char>, kind: ModuleType) -> Seq<char> {
    src_dir + "/"@ + key + suffix_of(kind)
}

/// What the locator answers when no file stands for the key.
pub open spec fn not_found(key: Seq<char>) -> Seq<char> {
    "Module '"@ + key + "' not found"@
}

/// The kind of the first file that exists, taken in the order script,
/// directory, data.
pub open spec fn first_kind(is_lua: bool, is_directory: bool, is_json: bool) -> Option<ModuleType> {
    if is_lua {
        Some(ModuleType::Lua)
    } else if is_directory {
        Some(ModuleType::Directory)
    } else if is_json {
        Some(ModuleType::Json)
    } else {
        None
    }
}

/// A script shadows a directory of the same key, and both shadow a data
/// file: the kind found is `Json` only when neither of the others exists, and
/// `Directory` only when no script does.
pub proof fn lemma_precedence(is_lua: bool, is_directory: bool, is_json: bool)
    ensures
        is_lua ==> first_kind(is_lua, is_directory, is_json) == Some(ModuleType::Lua),
        first_kind(is_lua, is_directory, is_json) == Some(ModuleType::Directory) ==> !is_lua,
        first_kind(is_lua, is_directory, is_json) == Some(ModuleType::Json) ==> !is_lua
            && !is_directory,
        first_kind(is_lua, is_directory, is_json) is None <==> !is_lua && !is_directory
            && !is_json,
{
}

/// The path to probe for the module `file_name` as a module of `kind`.
pub fn candidate_path(src_dir: &str, file_name: &str, kind: ModuleType) -> (path: String)
    ensures
        path@ == path_of(src_dir@, file_name@, kind),
{
    let mut path = String::from_str(src_dir);
    path.append("/");
    path.append(file_name);
    match kind {
        ModuleType::Lua => path.append(".lua"),
        ModuleType::Directory => path.append("/init.lua"),
        ModuleType::Json => path.append(".json"),
    }
    path
}

/// Picks the file that stands for the module `file_name`, given which of its
/// three candidate paths exist: the script first, then the directory's
/// `init`, then the data file. The error names the module.
pub fn get_module_path(
    src_dir: &str,
    file_name: &str,
    is_lua: bool,
    is_directory: bool,
    is_json: bool,
) -> (found: Result<(String, ModuleType), String>)
    ensures
        match found {
            Ok((path, kind)) => first_kind(is_lua, is_directory, is_json) == Some(kind) && path@
                == path_of(src_dir@, file_name@, kind),
            Err(message) => first_kind(is_lua, is_directory, is_json) is None && message@
                == not_found(file_name@),
        },
{
    if is_lua {
        return Ok((candidate_path(src_dir, file_name, ModuleType::Lua), ModuleType::Lua));
    }
    if is_directory {
        return Ok(
            (candidate_path(src_dir, file_name, ModuleType::Directory), ModuleType::Directory),
        );
    }
    if is_json {
        return Ok((candidate_path(src_dir, file_name, ModuleType::Json), ModuleType::Json));
    }
    let mut message = String::from_str("Module '");
    message.append(file_name);
    message.append("' not found");
    Err(message)
}

} // verus!
