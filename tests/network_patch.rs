use patchops::logging::LogCategory;
use patchops::t7patch::{check_t7_patch_status, update_t7patch_conf};

fn lines(t: &[&str]) -> Vec<String> {
    t.iter().map(|s| s.to_string()).collect()
}

#[test]
fn existing_keys_are_rewritten_in_place() {
    let conf = lines(&["playername=Old", "other=1", "networkpassword=x", "isfriendsonly=0"]);
    let up = update_t7patch_conf(&conf, Some("^1New"), Some(""), Some(true));
    assert_eq!(up.lines, lines(&["playername=^1New", "other=1", "networkpassword=", "isfriendsonly=1"]));
    let notes: Vec<(LogCategory, &str)> = up.notes.iter().map(|n| (n.category, n.message.as_str())).collect();
    assert_eq!(
        notes,
        vec![
            (LogCategory::Success, "Updated 'playername' to ^1New"),
            (LogCategory::Success, "Cleared network password"),
            (LogCategory::Success, "Set 'isfriendsonly' to On"),
        ]
    );
}

#[test]
fn absent_keys_are_appended() {
    let conf = lines(&["other=1"]);
    let up = update_t7patch_conf(&conf, Some("Me"), Some("pw"), Some(false));
    assert_eq!(up.lines, lines(&["other=1", "playername=Me", "networkpassword=pw", "isfriendsonly=0"]));
    assert_eq!(up.notes[1].message, "Updated network password");
    assert_eq!(up.notes[2].message, "Set 'isfriendsonly' to Off");
}

#[test]
fn keys_not_given_are_untouched() {
    let conf = lines(&["playername=Old", "isfriendsonly=1"]);
    let up = update_t7patch_conf(&conf, None, None, Some(false));
    assert_eq!(up.lines, lines(&["playername=Old", "isfriendsonly=0"]));
    assert_eq!(up.notes.len(), 1);
}

#[test]
fn status_splits_color_code() {
    let conf = lines(&["playername=^2Slayer", "networkpassword=secret", "isfriendsonly=1"]);
    let s = check_t7_patch_status(&conf);
    assert_eq!(s.gamertag.as_deref(), Some("^2Slayer"));
    assert_eq!(s.color_code.as_deref(), Some("^2"));
    assert_eq!(s.plain_name.as_deref(), Some("Slayer"));
    assert_eq!(s.password.as_deref(), Some("secret"));
    assert_eq!(s.friends_only, Some(true));
}

#[test]
fn status_without_color_code_or_keys() {
    let s = check_t7_patch_status(&lines(&["playername=^", "isfriendsonly=yes", "playername=Plain"]));
    assert_eq!(s.gamertag.as_deref(), Some("Plain"));
    assert_eq!(s.plain_name.as_deref(), Some("Plain"));
    assert_eq!(s.color_code, None);
    assert_eq!(s.password, None);
    assert_eq!(s.friends_only, Some(false));
    let s = check_t7_patch_status(&lines(&["playername=^"]));
    assert_eq!(s.plain_name.as_deref(), Some("^"));
    assert_eq!(s.color_code, None);
    let empty = check_t7_patch_status(&Vec::new());
    assert!(empty.gamertag.is_none() && empty.plain_name.is_none() && empty.friends_only.is_none());
}
