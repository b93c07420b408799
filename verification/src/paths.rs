use vstd::prelude::*;

verus! {

use vstd::string::*;

/// The base directory the document files live in: the given one, or the
/// current directory when none was given.
pub fn get_database_path(database_path: Option<String>) -> (r: String)
    ensures
        match database_path {
            Some(p) => r@ == p@,
            None => r@ == "."@,
        },
{
    match database_path {
        Some(p) => p,
        None => String::from_str("."),
    }
}

/// The chat document's file path under the base directory.
pub fn get_chat_database_file_path(database_path: String) -> (r: String)
    ensures
        r@ == database_path@ + "/database.toml"@,
{
    let mut r = database_path;
    r.append("/database.toml");
    r
}

/// The user table's file path under the base directory.
pub fn get_user_database_file_path(database_path: String) -> (r: String)
    ensures
        r@ == database_path@ + "/user.toml"@,
{
    let mut r = database_path;
    r.append("/user.toml");
    r
}

} // verus!
