//! Where Steam keeps its files, and where the game is installed by default.

use vstd::prelude::*;

use crate::text::{all_digits, char_vec, owned, same_text};

verus! {

/// The Steam locations the patcher needs.
#[derive(Debug, Clone)]
pub struct SteamPaths {
    pub userdata: String,
    pub steam_exe: String,
}

pub open spec fn opt_views(v: Option<String>) -> Option<Seq<char>> {
    match v {
        Some(s) => Some(s@),
        None => None,
    }
}

pub fn steam_userdata_path(paths: Option<&SteamPaths>) -> (r: Option<String>)
    ensures
        opt_views(r) == match paths {
            Some(p) => Some(p.userdata@),
            None => None,
        },
{
    match paths {
        Some(p) => Some(p.userdata.clone()),
        None => None,
    }
}

pub fn steam_executable(paths: Option<&SteamPaths>) -> (r: Option<String>)
    ensures
        opt_views(r) == match paths {
            Some(p) => Some(p.steam_exe@),
            None => None,
        },
{
    match paths {
        Some(p) => Some(p.steam_exe.clone()),
        None => None,
    }
}

fn is_user_id(name: &str) -> (r: bool)
    ensures
        r == all_digits(name@),
{
    let v = char_vec(name);
    let mut i: usize = 0;
    while i < v.len()
        invariant
            v@ == name@,
            i <= v.len(),
            all_digits(v@.take(i as int)),
        decreases v.len() - i,
    {
        if !('0' <= v[i] && v[i] <= '9') {
            return false;
        }
        assert(v@.take(i + 1) =~= v@.take(i as int).push(v[i as int]));
        i = i + 1;
    }
    assert(v@.take(v.len() as int) == v@);
    true
}

/// The first of the user-data entry names made of digits alone: the id of
/// a Steam account.
pub fn find_user_id(names: &Vec<String>) -> (r: Option<String>)
    ensures
        r matches Some(id) ==> exists|i: int|
            0 <= i < names.len() && (#[trigger] names@[i])@ == id@ && all_digits(id@) && forall|j: int|
                0 <= j < i ==> !all_digits((#[trigger] names@[j])@),
        r is None ==> forall|j: int| 0 <= j < names.len() ==> !all_digits((#[trigger] names@[j])@),
{
    let mut i: usize = 0;
    while i < names.len()
        invariant
            i <= names.len(),
            forall|j: int| 0 <= j < i ==> !all_digits((#[trigger] names@[j])@),
        decreases names.len() - i,
    {
        if is_user_id(names[i].as_str()) {
            let id = names[i].clone();
            assert(names@[i as int]@ == id@);
            return Some(id);
        }
        i = i + 1;
    }
    None
}

/// The systems that Steam detection knows.
#[derive(Debug, Clone, Copy, PartialEq, Eq, Structural)]
pub enum Platform {
    Windows,
    Linux,
    MacOs,
}

/// The platform an operating-system name stands for.
pub fn platform_of(os: &str) -> (r: Option<Platform>)
    ensures
        r == if os@ == "windows"@ {
            Some(Platform::Windows)
        } else if os@ == "linux"@ {
            Some(Platform::Linux)
        } else if os@ == "macos"@ {
            Some(Platform::MacOs)
        } else {
            None
        },
{
    if same_text(os, "windows") {
        Some(Platform::Windows)
    } else if same_text(os, "linux") {
        Some(Platform::Linux)
    } else if same_text(os, "macos") {
        Some(Platform::MacOs)
    } else {
        None
    }
}

pub const LINUX_GAME_PATH: &'static str = "~/.local/share/Steam/steamapps/common/Call of Duty Black Ops III";

pub const WINDOWS_GAME_PATH: &'static str = "C:/Program Files (x86)/Steam/steamapps/common/Call of Duty Black Ops III";

/// Where the game is installed by default, on Linux or elsewhere.
pub fn default_game_path(linux: bool) -> (r: String)
    ensures
        r@ == if linux {
            LINUX_GAME_PATH@
        } else {
            WINDOWS_GAME_PATH@
        },
{
    if linux {
        owned(LINUX_GAME_PATH)
    } else {
        owned(WINDOWS_GAME_PATH)
    }
}

} // verus!
