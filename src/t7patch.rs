//! The network patch's `key=value` configuration: updating it, and reading
//! its status.

use vstd::prelude::*;

use crate::logging::{LogCategory, Note};
use crate::text::{starts_with, views, has_prefix, owned, push_str};

verus! {

pub const NAME_PREFIX: &'static str = "playername=";

pub const PASSWORD_PREFIX: &'static str = "networkpassword=";

pub const FRIENDS_PREFIX: &'static str = "isfriendsonly=";

/// The configuration file's name, in the game directory.
pub const T7PATCH_CONF: &'static str = "t7patch.conf";

pub open spec fn flag_text(flag: bool) -> Seq<char> {
    if flag {
        "1"@
    } else {
        "0"@
    }
}

/// A line after the update: a line of a key that is being set is replaced
/// by the key's new line; every other line is kept.
pub open spec fn conf_line(
    line: Seq<char>,
    name: Option<Seq<char>>,
    password: Option<Seq<char>>,
    friends_only: Option<bool>,
) -> Seq<char> {
    if name is Some && starts_with(line, NAME_PREFIX@) {
        NAME_PREFIX@ + name->0
    } else if password is Some && starts_with(line, PASSWORD_PREFIX@) {
        PASSWORD_PREFIX@ + password->0
    } else if friends_only is Some && starts_with(line, FRIENDS_PREFIX@) {
        FRIENDS_PREFIX@ + flag_text(friends_only->0)
    } else {
        line
    }
}

pub open spec fn has_key(lines: Seq<Seq<char>>, prefix: Seq<char>) -> bool {
    exists|i: int| 0 <= i < lines.len() && starts_with(#[trigger] lines[i], prefix)
}

/// The line appended for a key that is being set and that no line holds.
pub open spec fn missing_line(lines: Seq<Seq<char>>, prefix: Seq<char>, value: Option<Seq<char>>) -> Seq<Seq<char>> {
    if value is Some && !has_key(lines, prefix) {
        seq![prefix + value->0]
    } else {
        Seq::empty()
    }
}

/// The whole file after the update: each line updated in place, then the
/// lines of keys that were absent, in the order name, password, friends.
pub open spec fn conf_updated(
    lines: Seq<Seq<char>>,
    name: Option<Seq<char>>,
    password: Option<Seq<char>>,
    friends_only: Option<bool>,
) -> Seq<Seq<char>> {
    let flag = match friends_only {
        Some(f) => Some(flag_text(f)),
        None => None,
    };
    lines.map_values(|l: Seq<char>| conf_line(l, name, password, friends_only))
        + missing_line(lines, NAME_PREFIX@, name)
        + missing_line(lines, PASSWORD_PREFIX@, password)
        + missing_line(lines, FRIENDS_PREFIX@, flag)
}

pub open spec fn note_views(notes: Seq<Note>) -> Seq<(LogCategory, Seq<char>)> {
    notes.map_values(|n: Note| (n.category, n.message@))
}

/// What the update reports, one note for each key that is set.
pub open spec fn conf_notes(
    name: Option<Seq<char>>,
    password: Option<Seq<char>>,
    friends_only: Option<bool>,
) -> Seq<(LogCategory, Seq<char>)> {
    (match name {
        Some(n) => seq![(LogCategory::Success, "Updated 'playername' to "@ + n)],
        None => Seq::empty(),
    }) + (match password {
        Some(p) => seq![
            (LogCategory::Success, if p.len() == 0 {
                "Cleared network password"@
            } else {
                "Updated network password"@
            }),
        ],
        None => Seq::empty(),
    }) + (match friends_only {
        Some(f) => seq![
            (LogCategory::Success, "Set 'isfriendsonly' to "@ + if f {
                "On"@
            } else {
                "Off"@
            }),
        ],
        None => Seq::empty(),
    })
}

/// The configuration after an update, and what to report.
pub struct ConfUpdate {
    pub lines: Vec<String>,
    pub notes: Vec<Note>,
}

fn key_line(prefix: &str, value: &str) -> (r: String)
    ensures
        r@ == prefix@ + value@,
{
    let mut r = owned(prefix);
    push_str(&mut r, value);
    r
}

pub open spec fn opt_text(v: Option<&str>) -> Option<Seq<char>> {
    match v {
        Some(s) => Some(s@),
        None => None,
    }
}

/// Sets the keys that are given and keeps every other line: a key's
/// existing line is rewritten in place, an absent key is appended.
pub fn update_t7patch_conf(
    lines: &Vec<String>,
    new_name: Option<&str>,
    new_password: Option<&str>,
    friends_only: Option<bool>,
) -> (r: ConfUpdate)
    ensures
        views(r.lines@) == conf_updated(views(lines@), opt_text(new_name), opt_text(new_password), friends_only),
        note_views(r.notes@) == conf_notes(opt_text(new_name), opt_text(new_password), friends_only),
{
    let ghost ls = views(lines@);
    let ghost name = opt_text(new_name);
    let ghost password = opt_text(new_password);
    let mut out: Vec<String> = Vec::new();
    let mut name_found = false;
    let mut password_found = false;
    let mut friends_found = false;
    let mut i: usize = 0;
    while i < lines.len()
        invariant
            i <= lines.len(),
            ls == views(lines@),
            name == opt_text(new_name),
            password == opt_text(new_password),
            views(out@) == ls.take(i as int).map_values(
                |l: Seq<char>| conf_line(l, name, password, friends_only),
            ),
            name is Some ==> (name_found <==> has_key(ls.take(i as int), NAME_PREFIX@)),
            password is Some ==> (password_found <==> has_key(ls.take(i as int), PASSWORD_PREFIX@)),
            friends_only is Some ==> (friends_found <==> has_key(ls.take(i as int), FRIENDS_PREFIX@)),
        decreases lines.len() - i,
    {
        let line = lines[i].as_str();
        let ghost before = ls.take(i as int);
        let ghost after = ls.take(i + 1);
        assert(after == before.push(line@));
        assert forall|p: Seq<char>| #[trigger] has_key(after, p) <==> (has_key(before, p) || starts_with(line@, p)) by {
            if has_key(after, p) {
                let k = choose|k: int| 0 <= k < after.len() && starts_with(#[trigger] after[k], p);
                if k < i {
                    assert(before[k] == after[k]);
                }
            }
            if has_key(before, p) {
                let k = choose|k: int| 0 <= k < before.len() && starts_with(#[trigger] before[k], p);
                assert(after[k] == before[k]);
            }
            if starts_with(line@, p) {
                assert(after[i as int] == line@);
            }
        }
        let is_name = has_prefix(line, NAME_PREFIX);
        let is_password = has_prefix(line, PASSWORD_PREFIX);
        let is_friends = has_prefix(line, FRIENDS_PREFIX);
        let mut new_line = lines[i].clone();
        let mut replaced = false;
        if let Some(n) = new_name {
            if is_name {
                name_found = true;
                replaced = true;
                new_line = key_line(NAME_PREFIX, n);
            }
        }
        if !replaced {
            if let Some(p) = new_password {
                if is_password {
                    password_found = true;
                    replaced = true;
                    new_line = key_line(PASSWORD_PREFIX, p);
                }
            }
        }
        if !replaced {
            if let Some(f) = friends_only {
                if is_friends {
                    friends_found = true;
                    new_line = key_line(FRIENDS_PREFIX, if f { "1" } else { "0" });
                }
            }
        }
        proof {
            reveal_strlit("playername=");
            reveal_strlit("networkpassword=");
            reveal_strlit("isfriendsonly=");
            assert(NAME_PREFIX@[0] == 'p');
            assert(PASSWORD_PREFIX@[0] == 'n');
            assert(FRIENDS_PREFIX@[0] == 'i');
            if is_name {
                assert(line@.subrange(0, NAME_PREFIX@.len() as int)[0] == line@[0]);
            }
            if is_password {
                assert(line@.subrange(0, PASSWORD_PREFIX@.len() as int)[0] == line@[0]);
            }
            if is_friends {
                assert(line@.subrange(0, FRIENDS_PREFIX@.len() as int)[0] == line@[0]);
            }
            assert(!(is_name && is_password));
            assert(!(is_name && is_friends));
            assert(!(is_password && is_friends));
            if name is Some && is_name {
                assert(new_line@ == conf_line(line@, name, password, friends_only));
            } else if password is Some && is_password {
                assert(new_line@ == conf_line(line@, name, password, friends_only));
            } else if friends_only is Some && is_friends {
                assert(new_line@ == conf_line(line@, name, password, friends_only));
            } else {
                assert(new_line@ == conf_line(line@, name, password, friends_only));
            }
            assert(views(out@.push(new_line)) == views(out@).push(new_line@));
            assert(after.map_values(|l: Seq<char>| conf_line(l, name, password, friends_only))
                =~= before.map_values(|l: Seq<char>| conf_line(l, name, password, friends_only)).push(
                conf_line(line@, name, password, friends_only),
            ));
        }
        out.push(new_line);
        i = i + 1;
    }
    proof {
        assert(ls.take(lines.len() as int) == ls);
    }
    let ghost body = views(out@);
    let mut notes: Vec<Note> = Vec::new();
    if let Some(n) = new_name {
        if !name_found {
            out.push(key_line(NAME_PREFIX, n));
        }
        let mut m = owned("Updated 'playername' to ");
        push_str(&mut m, n);
        notes.push(Note { category: LogCategory::Success, message: m });
    }
    let ghost with_name = views(out@);
    if let Some(p) = new_password {
        if !password_found {
            out.push(key_line(PASSWORD_PREFIX, p));
        }
        let message = if p.unicode_len() == 0 {
            owned("Cleared network password")
        } else {
            owned("Updated network password")
        };
        notes.push(Note { category: LogCategory::Success, message });
    }
    let ghost with_password = views(out@);
    if let Some(f) = friends_only {
        if !friends_found {
            out.push(key_line(FRIENDS_PREFIX, if f { "1" } else { "0" }));
        }
        let mut m = owned("Set 'isfriendsonly' to ");
        push_str(&mut m, if f { "On" } else { "Off" });
        notes.push(Note { category: LogCategory::Success, message: m });
    }
    proof {
        let flag = match friends_only {
            Some(f) => Some(flag_text(f)),
            None => None::<Seq<char>>,
        };
        assert(with_name =~= body + missing_line(ls, NAME_PREFIX@, name));
        assert(with_password =~= with_name + missing_line(ls, PASSWORD_PREFIX@, password));
        assert(views(out@) =~= with_password + missing_line(ls, FRIENDS_PREFIX@, flag));
        assert(note_views(notes@) =~= conf_notes(name, password, friends_only));
    }
    ConfUpdate { lines: out, notes }
}

/// What the configuration says about the player and the session.
#[derive(Debug, Clone)]
pub struct T7PatchStatus {
    pub gamertag: Option<String>,
    /// The gamertag without its colour code.
    pub plain_name: Option<String>,
    /// The two-character colour code (`^` and a character) that begins the
    /// gamertag, if it has one.
    pub color_code: Option<String>,
    pub password: Option<String>,
    pub friends_only: Option<bool>,
}

impl Default for T7PatchStatus {
    fn default() -> (r: T7PatchStatus)
        ensures
            r.gamertag is None && r.plain_name is None && r.color_code is None,
            r.password is None && r.friends_only is None,
    {
        T7PatchStatus { gamertag: None, plain_name: None, color_code: None, password: None, friends_only: None }
    }
}

/// The value of the last line that begins with `prefix`: the text after it.
pub open spec fn last_value(lines: Seq<Seq<char>>, prefix: Seq<char>) -> Option<Seq<char>>
    decreases lines.len(),
{
    if lines.len() == 0 {
        None
    } else if starts_with(lines.last(), prefix) {
        Some(lines.last().skip(prefix.len() as int))
    } else {
        last_value(lines.drop_last(), prefix)
    }
}

pub open spec fn has_color_code(tag: Seq<char>) -> bool {
    tag.len() >= 2 && tag[0] == '^'
}

pub open spec fn opt_views(v: Option<String>) -> Option<Seq<char>> {
    match v {
        Some(s) => Some(s@),
        None => None,
    }
}

/// The status as read from the lines: the last line of each key wins.
pub open spec fn status_read(s: T7PatchStatus, lines: Seq<Seq<char>>) -> bool {
    let tag = last_value(lines, NAME_PREFIX@);
    &&& opt_views(s.gamertag) == tag
    &&& opt_views(s.password) == last_value(lines, PASSWORD_PREFIX@)
    &&& s.friends_only == match last_value(lines, FRIENDS_PREFIX@) {
        Some(v) => Some(v == "1"@),
        None => None,
    }
    &&& opt_views(s.color_code) == match tag {
        Some(t) => if has_color_code(t) {
            Some(t.take(2))
        } else {
            None
        },
        None => None,
    }
    &&& opt_views(s.plain_name) == match tag {
        Some(t) => if has_color_code(t) {
            Some(t.skip(2))
        } else {
            Some(t)
        },
        None => None,
    }
}

fn value_after(line: &str, prefix: &str) -> (r: String)
    requires
        starts_with(line@, prefix@),
    ensures
        r@ == line@.skip(prefix@.len() as int),
{
    let n = line.unicode_len();
    let k = prefix.unicode_len();
    owned(line.substring_char(k, n))
}

/// Reads the player name, password and friends-only flag from the
/// configuration's lines, and splits a colour code off the name.
pub fn check_t7_patch_status(lines: &Vec<String>) -> (r: T7PatchStatus)
    ensures
        status_read(r, views(lines@)),
{
    let ghost ls = views(lines@);
    let mut gamertag: Option<String> = None;
    let mut password: Option<String> = None;
    let mut friends_only: Option<bool> = None;
    let mut i: usize = 0;
    while i < lines.len()
        invariant
            i <= lines.len(),
            ls == views(lines@),
            opt_views(gamertag) == last_value(ls.take(i as int), NAME_PREFIX@),
            opt_views(password) == last_value(ls.take(i as int), PASSWORD_PREFIX@),
            friends_only == match last_value(ls.take(i as int), FRIENDS_PREFIX@) {
                Some(v) => Some(v == "1"@),
                None => None,
            },
        decreases lines.len() - i,
    {
        let line = lines[i].as_str();
        proof {
            let after = ls.take(i + 1);
            assert(after.drop_last() == ls.take(i as int));
            assert(after.last() == line@);
            reveal_strlit("playername=");
            reveal_strlit("networkpassword=");
            reveal_strlit("isfriendsonly=");
            assert(NAME_PREFIX@[0] == 'p');
            assert(PASSWORD_PREFIX@[0] == 'n');
            assert(FRIENDS_PREFIX@[0] == 'i');
            if starts_with(line@, NAME_PREFIX@) {
                assert(line@.subrange(0, NAME_PREFIX@.len() as int)[0] == line@[0]);
            }
            if starts_with(line@, PASSWORD_PREFIX@) {
                assert(line@.subrange(0, PASSWORD_PREFIX@.len() as int)[0] == line@[0]);
            }
            if starts_with(line@, FRIENDS_PREFIX@) {
                assert(line@.subrange(0, FRIENDS_PREFIX@.len() as int)[0] == line@[0]);
            }
        }
        if has_prefix(line, NAME_PREFIX) {
            gamertag = Some(value_after(line, NAME_PREFIX));
        } else if has_prefix(line, PASSWORD_PREFIX) {
            password = Some(value_after(line, PASSWORD_PREFIX));
        } else if has_prefix(line, FRIENDS_PREFIX) {
            let v = value_after(line, FRIENDS_PREFIX);
            friends_only = Some(crate::text::same_text(v.as_str(), "1"));
        }
        i = i + 1;
    }
    proof {
        assert(ls.take(lines.len() as int) == ls);
    }
    let mut color_code: Option<String> = None;
    let mut plain_name: Option<String> = None;
    if let Some(tag) = &gamertag {
        let t = tag.as_str();
        let n = t.unicode_len();
        if n >= 2 && t.get_char(0) == '^' {
            color_code = Some(owned(t.substring_char(0, 2)));
            plain_name = Some(owned(t.substring_char(2, n)));
        } else {
            plain_name = Some(tag.clone());
        }
    }
    T7PatchStatus { gamertag, plain_name, color_code, password, friends_only }
}

} // verus!
