//! The settings-file engine: first-match line rewriting, single settings,
//! named presets, and the status snapshot read from the same file.

use vstd::prelude::*;

use crate::pattern::{Pattern, escape, escaped, regex_accepts, regex_finds, regex_group_one};
use crate::text::{joined, lines_of, views, split_lines, join_lines, push_str, same_text, owned, i32_of, parse_i32, is_clean_line, lemma_lines_of_joined};

verus! {

/// What went wrong while turning settings into rewrite rules.
#[derive(Debug, Clone, PartialEq, Eq)]
pub enum ConfigError {
    /// No preset of this name is in the table.
    PresetNotFound(String),
    /// regex refused this pattern.
    InvalidPattern(String),
}

/// A rule as text: the pattern's source and the line that replaces a match.
pub type RuleText = (Seq<char>, Seq<char>);

pub open spec fn rule_views(changes: Seq<(Pattern, String)>) -> Seq<RuleText> {
    changes.map_values(|c: (Pattern, String)| (c.0@, c.1@))
}

/// The line that `line` becomes: the replacement of the first rule whose
/// pattern matches it, or the line itself when none does.
pub open spec fn rewritten(rules: Seq<RuleText>, line: Seq<char>) -> Seq<char>
    decreases rules.len(),
{
    if rules.len() == 0 {
        line
    } else if regex_finds(rules[0].0, line) {
        rules[0].1
    } else {
        rewritten(rules.drop_first(), line)
    }
}

pub open spec fn rewritten_lines(rules: Seq<RuleText>, lines: Seq<Seq<char>>) -> Seq<Seq<char>> {
    lines.map_values(|l: Seq<char>| rewritten(rules, l))
}

/// A whole file rewritten: split into lines, each line rewritten, each
/// written back with a line ending.
pub open spec fn rewritten_text(rules: Seq<RuleText>, text: Seq<char>) -> Seq<char> {
    joined(rewritten_lines(rules, lines_of(text)))
}

fn rewrite_line(changes: &[(Pattern, String)], line: &String) -> (r: String)
    ensures
        r@ == rewritten(rule_views(changes@), line@),
{
    let ghost rules = rule_views(changes@);
    let mut j: usize = 0;
    assert(rules.skip(0) == rules);
    while j < changes.len()
        invariant
            j <= changes@.len(),
            rules == rule_views(changes@),
            rewritten(rules, line@) == rewritten(rules.skip(j as int), line@),
        decreases changes@.len() - j,
    {
        let ghost rest = rules.skip(j as int);
        assert(rest[0] == rules[j as int]);
        if changes[j].0.is_match(line.as_str()) {
            return changes[j].1.clone();
        }
        assert(rest.drop_first() == rules.skip(j + 1));
        j = j + 1;
    }
    assert(rules.skip(j as int).len() == 0);
    line.clone()
}

/// Rewrites each line with the first rule that matches it; lines that no
/// rule matches are kept as they are.
pub fn rewrite_lines(lines: &Vec<String>, changes: &[(Pattern, String)]) -> (r: Vec<String>)
    ensures
        views(r@) == rewritten_lines(rule_views(changes@), views(lines@)),
{
    let mut out: Vec<String> = Vec::new();
    let mut i: usize = 0;
    while i < lines.len()
        invariant
            i <= lines.len(),
            views(out@) == rewritten_lines(rule_views(changes@), views(lines@.take(i as int))),
        decreases lines.len() - i,
    {
        let l = rewrite_line(changes, &lines[i]);
        proof {
            assert(views(lines@.take(i + 1)) == views(lines@.take(i as int)).push(lines@[i as int]@));
            assert(views(out@.push(l)) == views(out@).push(l@));
        }
        out.push(l);
        assert(views(out@) =~= rewritten_lines(rule_views(changes@), views(lines@.take(i + 1))));
        i = i + 1;
    }
    assert(lines@.take(lines@.len() as int) == lines@);
    out
}

/// The settings file `contents` after applying `changes`: every line is
/// rewritten by the first rule that matches it and the lines are written
/// back, each with a line ending.
pub fn update_config_values(contents: &str, changes: &[(Pattern, String)]) -> (r: String)
    ensures
        r@ == rewritten_text(rule_views(changes@), contents@),
{
    let lines = split_lines(contents);
    let out = rewrite_lines(&lines, changes);
    join_lines(&out)
}

/// The first rule that matches decides the line: a rule that matches, with
/// no earlier rule matching, gives its replacement, whatever later rules
/// would say.
pub proof fn earliest_rule_wins(rules: Seq<RuleText>, line: Seq<char>, k: int)
    requires
        0 <= k < rules.len(),
        regex_finds(rules[k].0, line),
        forall|j: int| 0 <= j < k ==> !regex_finds(#[trigger] rules[j].0, line),
    ensures
        rewritten(rules, line) == rules[k].1,
    decreases k,
{
    if k > 0 {
        let rest = rules.drop_first();
        assert(!regex_finds(rules[0].0, line));
        assert forall|j: int| 0 <= j < k - 1 implies !regex_finds(#[trigger] rest[j].0, line) by {
            assert(rest[j] == rules[j + 1]);
        }
        earliest_rule_wins(rest, line, k - 1);
    }
}

/// A line that no rule matches is kept.
pub proof fn unmatched_line_kept(rules: Seq<RuleText>, line: Seq<char>)
    requires
        forall|j: int| 0 <= j < rules.len() ==> !regex_finds(#[trigger] rules[j].0, line),
    ensures
        rewritten(rules, line) == line,
    decreases rules.len(),
{
    if rules.len() > 0 {
        let rest = rules.drop_first();
        assert(!regex_finds(rules[0].0, line));
        assert forall|j: int| 0 <= j < rest.len() implies !regex_finds(#[trigger] rest[j].0, line) by {
            assert(rest[j] == rules[j + 1]);
        }
        unmatched_line_kept(rest, line);
    }
}

/// Which rule, if any, rewrites `line`.
proof fn rewritten_by(rules: Seq<RuleText>, line: Seq<char>) -> (k: int)
    ensures
        0 <= k <= rules.len(),
        forall|j: int| 0 <= j < k ==> !regex_finds(#[trigger] rules[j].0, line),
        k < rules.len() ==> regex_finds(rules[k].0, line) && rewritten(rules, line) == rules[k].1,
        k == rules.len() ==> rewritten(rules, line) == line,
    decreases rules.len(),
{
    if rules.len() == 0 {
        0
    } else if regex_finds(rules[0].0, line) {
        0
    } else {
        let rest = rules.drop_first();
        let k = rewritten_by(rest, line);
        assert forall|j: int| 0 <= j < k + 1 implies !regex_finds(#[trigger] rules[j].0, line) by {
            if j > 0 {
                assert(rules[j] == rest[j - 1]);
            }
        }
        k + 1
    }
}

/// Rewriting twice gives what rewriting once gave, when no rule's
/// replacement is matched by another rule's pattern.
pub proof fn rewrite_twice_same(rules: Seq<RuleText>, lines: Seq<Seq<char>>)
    requires
        forall|i: int, j: int|
            0 <= i < rules.len() && 0 <= j < rules.len() && i != j ==> !regex_finds(
                #[trigger] rules[j].0,
                #[trigger] rules[i].1,
            ),
    ensures
        rewritten_lines(rules, rewritten_lines(rules, lines)) == rewritten_lines(rules, lines),
{
    assert forall|n: int| 0 <= n < lines.len() implies #[trigger] rewritten(
        rules,
        rewritten(rules, lines[n]),
    ) == rewritten(rules, lines[n]) by {
        let k = rewritten_by(rules, lines[n]);
        if k < rules.len() {
            let once = rules[k].1;
            let m = rewritten_by(rules, once);
            if m < rules.len() {
                assert(m == k);
            }
        } else {
            rewritten_by(rules, lines[n]);
        }
    }
    assert(rewritten_lines(rules, rewritten_lines(rules, lines)) =~= rewritten_lines(rules, lines));
}

/// The preset key that toggles the stutter-reduction file instead of
/// naming a line of the settings file.
pub const STUTTER_KEY: &'static str = "ReduceStutter";

/// The buffering-count key, and the value of it that means triple buffering.
pub const BUFFER_COUNT_KEY: &'static str = "BackbufferCount";

pub const TRIPLE_BUFFERING: &'static str = "3";

/// The rule that triple buffering adds: v-sync forced on.
pub const VSYNC_PATTERN: &'static str = "^\\s*Vsync\\s*=";

pub const VSYNC_LINE: &'static str = "Vsync = \"1\" // Enabled with triple-buffered V-sync";

/// The pattern for the line of a setting: its key at the start of the line,
/// after optional blanks, then optional blanks and `=`.
pub open spec fn key_pattern(key: Seq<char>) -> Seq<char> {
    "^\\s*"@ + escaped(key) + "\\s*="@
}

/// The line that sets `key`: `key = "value" // comment`.
pub open spec fn setting_line(key: Seq<char>, value: Seq<char>, comment: Seq<char>) -> Seq<char> {
    key + " = \""@ + value + "\" // "@ + comment
}

pub open spec fn setting_rule(key: Seq<char>, value: Seq<char>, comment: Seq<char>) -> RuleText {
    (key_pattern(key), setting_line(key, value, comment))
}

fn key_pattern_text(key: &str) -> (r: String)
    ensures
        r@ == key_pattern(key@),
{
    let mut r = String::new();
    push_str(&mut r, "^\\s*");
    let e = escape(key);
    push_str(&mut r, e.as_str());
    push_str(&mut r, "\\s*=");
    assert(r@ =~= key_pattern(key@));
    r
}

fn setting_line_text(key: &str, value: &str, comment: &str) -> (r: String)
    ensures
        r@ == setting_line(key@, value@, comment@),
{
    let mut r = String::new();
    push_str(&mut r, key);
    push_str(&mut r, " = \"");
    push_str(&mut r, value);
    push_str(&mut r, "\" // ");
    push_str(&mut r, comment);
    assert(r@ =~= setting_line(key@, value@, comment@));
    r
}

/// The rule that sets `key` to `value` with `comment`; `None` exactly when
/// regex refuses the key's pattern.
pub fn setting_change(key: &str, value: &str, comment: &str) -> (r: Option<(Pattern, String)>)
    ensures
        r is Some <==> regex_accepts(key_pattern(key@)),
        r matches Some(c) ==> (c.0@, c.1@) == setting_rule(key@, value@, comment@),
{
    let source = key_pattern_text(key);
    match Pattern::new(source.as_str()) {
        Some(p) => Some((p, setting_line_text(key, value, comment))),
        None => None,
    }
}

/// The settings file `contents` with the line of `key` set to
/// `key = "value" // comment`.
pub fn set_config_value(contents: &str, key: &str, value: &str, comment: &str) -> (r: Result<String, ConfigError>)
    ensures
        r is Ok <==> regex_accepts(key_pattern(key@)),
        r matches Ok(t) ==> t@ == rewritten_text(seq![setting_rule(key@, value@, comment@)], contents@),
        r matches Err(e) ==> e matches ConfigError::InvalidPattern(p) && p@ == key_pattern(key@),
{
    match setting_change(key, value, comment) {
        Some(c) => {
            let changes = vec![c];
            let out = update_config_values(contents, changes.as_slice());
            proof {
                assert(rule_views(changes@) =~= seq![setting_rule(key@, value@, comment@)]);
            }
            Ok(out)
        },
        None => Err(ConfigError::InvalidPattern(key_pattern_text(key))),
    }
}

/// The value and the comment that a preset gives one setting.
#[derive(Debug, Clone)]
pub struct PresetEntry(pub String, pub String);

/// Presets by name; each preset is a list of settings with their entries.
#[derive(Debug, Clone)]
pub struct Presets(pub Vec<(String, Vec<(String, PresetEntry)>)>);

/// A preset entry as text: key, value, comment.
pub type EntryText = (Seq<char>, Seq<char>, Seq<char>);

pub open spec fn entry_views(p: Seq<(String, PresetEntry)>) -> Seq<EntryText> {
    p.map_values(|e: (String, PresetEntry)| (e.0@, e.1.0@, e.1.1@))
}

pub open spec fn is_stutter(e: EntryText) -> bool {
    e.0 == STUTTER_KEY@
}

pub open spec fn is_triple(e: EntryText) -> bool {
    e.0 == BUFFER_COUNT_KEY@ && e.1 == TRIPLE_BUFFERING@
}

pub open spec fn vsync_rule() -> RuleText {
    (VSYNC_PATTERN@, VSYNC_LINE@)
}

/// The rules one entry adds: none for the stutter toggle, the setting's own
/// rule otherwise, followed by the v-sync rule for triple buffering.
pub open spec fn entry_rules(e: EntryText) -> Seq<RuleText> {
    if is_stutter(e) {
        Seq::empty()
    } else if is_triple(e) {
        seq![setting_rule(e.0, e.1, e.2), vsync_rule()]
    } else {
        seq![setting_rule(e.0, e.1, e.2)]
    }
}

pub open spec fn preset_rules(es: Seq<EntryText>) -> Seq<RuleText>
    decreases es.len(),
{
    if es.len() == 0 {
        Seq::empty()
    } else {
        preset_rules(es.drop_last()) + entry_rules(es.last())
    }
}

/// Only the settings' own rules, in order.
pub open spec fn setting_rules(es: Seq<EntryText>) -> Seq<RuleText>
    decreases es.len(),
{
    if es.len() == 0 {
        Seq::empty()
    } else if is_stutter(es.last()) {
        setting_rules(es.drop_last())
    } else {
        setting_rules(es.drop_last()).push(setting_rule(es.last().0, es.last().1, es.last().2))
    }
}

/// The stutter toggles of a preset in order: enable when the value is "1".
pub open spec fn preset_toggles(es: Seq<EntryText>) -> Seq<bool>
    decreases es.len(),
{
    if es.len() == 0 {
        Seq::empty()
    } else if is_stutter(es.last()) {
        preset_toggles(es.drop_last()).push(es.last().1 == "1"@)
    } else {
        preset_toggles(es.drop_last())
    }
}

/// regex compiles every pattern that the entry needs.
pub open spec fn entry_accepted(e: EntryText) -> bool {
    is_stutter(e) || (regex_accepts(key_pattern(e.0)) && (is_triple(e) ==> regex_accepts(
        VSYNC_PATTERN@,
    )))
}

pub open spec fn all_accepted(es: Seq<EntryText>) -> bool {
    forall|i: int| 0 <= i < es.len() ==> entry_accepted(#[trigger] es[i])
}

/// What a preset comes to: the rewrite rules for the settings file, and the
/// stutter toggles to perform, in order.
pub struct PresetPlan {
    pub changes: Vec<(Pattern, String)>,
    pub stutter: Vec<bool>,
}

/// Expands a preset into rewrite rules and stutter toggles.
pub fn preset_changes(preset: &Vec<(String, PresetEntry)>) -> (r: Result<PresetPlan, ConfigError>)
    ensures
        r is Ok <==> all_accepted(entry_views(preset@)),
        r matches Ok(p) ==> rule_views(p.changes@) == preset_rules(entry_views(preset@))
            && p.stutter@ == preset_toggles(entry_views(preset@)),
        r matches Err(e) ==> e is InvalidPattern,
{
    let ghost es = entry_views(preset@);
    let mut changes: Vec<(Pattern, String)> = Vec::new();
    let mut stutter: Vec<bool> = Vec::new();
    let mut i: usize = 0;
    while i < preset.len()
        invariant
            i <= preset.len(),
            es == entry_views(preset@),
            all_accepted(es.take(i as int)),
            rule_views(changes@) == preset_rules(es.take(i as int)),
            stutter@ == preset_toggles(es.take(i as int)),
        decreases preset.len() - i,
    {
        let key = preset[i].0.as_str();
        let value = preset[i].1.0.as_str();
        let comment = preset[i].1.1.as_str();
        let ghost e = es[i as int];
        assert(e == (key@, value@, comment@));
        assert(es.take(i + 1).drop_last() == es.take(i as int));
        assert(es.take(i + 1).last() == e);
        if same_text(key, STUTTER_KEY) {
            stutter.push(same_text(value, "1"));
        } else {
            let ghost before = changes@;
            match setting_change(key, value, comment) {
                Some(c) => changes.push(c),
                None => {
                    assert(!entry_accepted(es[i as int]));
                    return Err(ConfigError::InvalidPattern(key_pattern_text(key)));
                },
            }
            if same_text(key, BUFFER_COUNT_KEY) && same_text(value, TRIPLE_BUFFERING) {
                match Pattern::new(VSYNC_PATTERN) {
                    Some(p) => changes.push((p, owned(VSYNC_LINE))),
                    None => {
                        assert(!entry_accepted(es[i as int]));
                        return Err(ConfigError::InvalidPattern(owned(VSYNC_PATTERN)));
                    },
                }
            }
            assert(rule_views(changes@) =~= rule_views(before) + entry_rules(e));
        }
        assert(all_accepted(es.take(i + 1))) by {
            assert forall|j: int| 0 <= j < i + 1 implies entry_accepted(#[trigger] es.take(i + 1)[j]) by {
                if j < i {
                    assert(es.take(i + 1)[j] == es.take(i as int)[j]);
                }
            }
        }
        i = i + 1;
    }
    assert(es.take(preset.len() as int) == es);
    Ok(PresetPlan { changes, stutter })
}

/// `i` is the first entry called `name`.
pub open spec fn first_named<T>(ps: Seq<(String, T)>, name: Seq<char>, i: int) -> bool {
    &&& 0 <= i < ps.len()
    &&& ps[i].0@ == name
    &&& forall|j: int| 0 <= j < i ==> (#[trigger] ps[j]).0@ != name
}

pub open spec fn has_named<T>(ps: Seq<(String, T)>, name: Seq<char>) -> bool {
    exists|j: int| 0 <= j < ps.len() && (#[trigger] ps[j]).0@ == name
}

/// No two entries share a name.
pub open spec fn names_unique<T>(ps: Seq<(String, T)>) -> bool {
    forall|i: int, j: int|
        0 <= i < ps.len() && 0 <= j < ps.len() && i != j ==> (#[trigger] ps[i]).0@ != (#[trigger] ps[j]).0@
}

fn position_of<T>(ps: &Vec<(String, T)>, name: &str) -> (r: Option<usize>)
    ensures
        r matches Some(i) ==> first_named(ps@, name@, i as int),
        r is None <==> !has_named(ps@, name@),
{
    let mut i: usize = 0;
    while i < ps.len()
        invariant
            i <= ps@.len(),
            forall|j: int| 0 <= j < i ==> (#[trigger] ps@[j]).0@ != name@,
        decreases ps@.len() - i,
    {
        if same_text(ps[i].0.as_str(), name) {
            return Some(i);
        }
        i = i + 1;
    }
    None
}

/// Sets `name` to `value`, as a map does: an entry of that name is
/// replaced in place, otherwise the pair is appended. Distinct names stay
/// distinct.
fn put<T>(ps: &mut Vec<(String, T)>, name: String, value: T)
    ensures
        names_unique(old(ps)@) ==> names_unique(final(ps)@),
        forall|j: int| #[trigger] first_named(old(ps)@, name@, j) ==> final(ps)@ == old(ps)@.update(j, (name, value)),
        !has_named(old(ps)@, name@) ==> final(ps)@ == old(ps)@.push((name, value)),
        forall|i: int|
            0 <= i < final(ps)@.len() ==> #[trigger] final(ps)@[i] == (name, value) || (i < old(ps)@.len()
                && final(ps)@[i] == old(ps)@[i]),
{
    match position_of(ps, name.as_str()) {
        Some(i) => {
            proof {
                assert forall|j: int| #[trigger] first_named(old(ps)@, name@, j) implies j == i by {
                    if j < i {
                        assert(old(ps)@[j].0@ != name@);
                    } else if j > i {
                        assert(old(ps)@[i as int].0@ != name@);
                    }
                }
            }
            let ghost n = name@;
            ps.set(i, (name, value));
            proof {
                if names_unique(old(ps)@) {
                    assert forall|a: int, b: int|
                        0 <= a < ps@.len() && 0 <= b < ps@.len() && a != b implies (#[trigger] ps@[a]).0@
                        != (#[trigger] ps@[b]).0@ by {
                        if a != i && b != i {
                            assert(ps@[a] == old(ps)@[a] && ps@[b] == old(ps)@[b]);
                        } else if a == i {
                            assert(ps@[b] == old(ps)@[b]);
                            assert(old(ps)@[i as int].0@ == n);
                        } else {
                            assert(ps@[a] == old(ps)@[a]);
                            assert(old(ps)@[i as int].0@ == n);
                        }
                    }
                }
            }
        },
        None => {
            ps.push((name, value));
            proof {
                if names_unique(old(ps)@) {
                    assert forall|a: int, b: int|
                        0 <= a < ps@.len() && 0 <= b < ps@.len() && a != b implies (#[trigger] ps@[a]).0@
                        != (#[trigger] ps@[b]).0@ by {
                        let last = old(ps)@.len() as int;
                        if a == last {
                            assert(ps@[b] == old(ps)@[b]);
                        } else if b == last {
                            assert(ps@[a] == old(ps)@[a]);
                        } else {
                            assert(ps@[a] == old(ps)@[a] && ps@[b] == old(ps)@[b]);
                        }
                    }
                }
            }
        },
    }
}

/// Sets one setting of a preset: an entry for `key` is replaced, otherwise
/// the entry is appended. Keys that were distinct stay distinct.
pub fn insert_setting(preset: &mut Vec<(String, PresetEntry)>, key: String, entry: PresetEntry)
    ensures
        names_unique(old(preset)@) ==> names_unique(final(preset)@),
        forall|j: int| #[trigger] first_named(old(preset)@, key@, j) ==> final(preset)@ == old(preset)@.update(j, (key, entry)),
        !has_named(old(preset)@, key@) ==> final(preset)@ == old(preset)@.push((key, entry)),
{
    put(preset, key, entry)
}

impl Presets {
    /// The table holds each preset name once, and each preset holds each
    /// setting key once, as a map of maps does.
    pub open spec fn wf(&self) -> bool {
        &&& names_unique(self.0@)
        &&& forall|i: int| 0 <= i < self.0@.len() ==> names_unique((#[trigger] self.0@[i]).1@)
    }

    /// An empty table.
    pub fn new() -> (r: Presets)
        ensures
            r.wf(),
            r.0@.len() == 0,
    {
        Presets(Vec::new())
    }

    /// Sets the preset called `name`: a preset of that name is replaced,
    /// otherwise it is appended. The table stays well formed when the
    /// preset's keys are distinct.
    pub fn insert(&mut self, name: String, preset: Vec<(String, PresetEntry)>)
        ensures
            old(self).wf() && names_unique(preset@) ==> final(self).wf(),
            forall|j: int| #[trigger] first_named(old(self).0@, name@, j) ==> final(self).0@ == old(self).0@.update(j, (name, preset)),
            !has_named(old(self).0@, name@) ==> final(self).0@ == old(self).0@.push((name, preset)),
    {
        let ghost p = preset;
        put(&mut self.0, name, preset);
        proof {
            if old(self).wf() && names_unique(p@) {
                assert forall|i: int| 0 <= i < self.0@.len() implies names_unique((#[trigger] self.0@[i]).1@) by {
                    if i < old(self).0@.len() && self.0@[i] != (name, p) {
                        assert(self.0@[i] == old(self).0@[i]);
                    }
                }
            }
        }
    }
}

/// The position of the first preset called `name`; in a well-formed table
/// it is the only one.
pub fn find_preset(presets: &Presets, name: &str) -> (r: Option<usize>)
    ensures
        r matches Some(i) ==> first_named(presets.0@, name@, i as int),
        r is None <==> !has_named(presets.0@, name@),
        presets.wf() && r is Some ==> forall|j: int|
            0 <= j < presets.0@.len() && j != r->0 ==> (#[trigger] presets.0@[j]).0@ != name@,
{
    position_of(&presets.0, name)
}

/// A preset applied to the text of a settings file.
pub struct AppliedPreset {
    /// The rewritten file.
    pub contents: String,
    /// The stutter toggles the preset asks for, in order.
    pub stutter: Vec<bool>,
}

/// Applies the preset called `preset_name` to the settings file `contents`,
/// in one rewriting pass.
pub fn apply_preset(contents: &str, preset_name: &str, presets: &Presets) -> (r: Result<AppliedPreset, ConfigError>)
    ensures
        !has_named(presets.0@, preset_name@) <==> r matches Err(ConfigError::PresetNotFound(_)),
        r matches Err(ConfigError::PresetNotFound(n)) ==> n@ == preset_name@,
        forall|i: int| #[trigger] first_named(presets.0@, preset_name@, i) ==> {
            let es = entry_views(presets.0@[i].1@);
            &&& (r is Ok <==> all_accepted(es))
            &&& (r matches Ok(a) ==> a.contents@ == rewritten_text(preset_rules(es), contents@)
                && a.stutter@ == preset_toggles(es))
        },
{
    match find_preset(presets, preset_name) {
        None => Err(ConfigError::PresetNotFound(owned(preset_name))),
        Some(i) => {
            proof {
                assert forall|k: int| #[trigger] first_named(presets.0@, preset_name@, k) implies k == i by {
                    if k < i {
                        assert(presets.0@[k].0@ != preset_name@);
                    } else if k > i {
                        assert(presets.0@[i as int].0@ != preset_name@);
                    }
                }
            }
            match preset_changes(&presets.0[i].1) {
                Ok(plan) => Ok(AppliedPreset {
                    contents: update_config_values(contents, plan.changes.as_slice()),
                    stutter: plan.stutter,
                }),
                Err(e) => Err(e),
            }
        },
    }
}

/// Triple buffering brings the v-sync rule: when an entry sets the
/// buffering count to "3", the expanded rules hold the fixed v-sync rule
/// right after that entry's own rule.
pub proof fn triple_buffering_adds_vsync(es: Seq<EntryText>, i: int)
    requires
        0 <= i < es.len(),
        is_triple(es[i]),
    ensures
        exists|k: int|
            0 <= k && k + 1 < preset_rules(es).len() && preset_rules(es)[k] == setting_rule(
                es[i].0,
                es[i].1,
                es[i].2,
            ) && #[trigger] preset_rules(es)[k + 1] == vsync_rule(),
    decreases es.len(),
{
    reveal_strlit("ReduceStutter");
    reveal_strlit("BackbufferCount");
    assert(STUTTER_KEY@[0] != BUFFER_COUNT_KEY@[0]);
    assert(!is_stutter(es[i]));
    if i == es.len() - 1 {
        let k = preset_rules(es.drop_last()).len() as int;
        assert(preset_rules(es)[k] == entry_rules(es.last())[0]);
        assert(preset_rules(es)[k + 1] == entry_rules(es.last())[1]);
    } else {
        let front = es.drop_last();
        assert(front[i] == es[i]);
        triple_buffering_adds_vsync(front, i);
        let k = choose|k: int|
            0 <= k && k + 1 < preset_rules(front).len() && preset_rules(front)[k] == setting_rule(
                front[i].0,
                front[i].1,
                front[i].2,
            ) && #[trigger] preset_rules(front)[k + 1] == vsync_rule();
        assert(preset_rules(es)[k] == preset_rules(front)[k]);
        assert(preset_rules(es)[k + 1] == preset_rules(front)[k + 1]);
    }
}

/// Without triple buffering nothing is added: the expanded rules are
/// exactly the settings' own rules, in order.
pub proof fn no_vsync_without_triple(es: Seq<EntryText>)
    requires
        forall|i: int| 0 <= i < es.len() ==> !is_triple(#[trigger] es[i]),
    ensures
        preset_rules(es) == setting_rules(es),
    decreases es.len(),
{
    if es.len() > 0 {
        let front = es.drop_last();
        assert forall|i: int| 0 <= i < front.len() implies !is_triple(#[trigger] front[i]) by {
            assert(front[i] == es[i]);
        }
        no_vsync_without_triple(front);
        assert(!is_triple(es[es.len() - 1]));
        if !is_stutter(es.last()) {
            assert(preset_rules(es) =~= setting_rules(es));
        } else {
            assert(preset_rules(es) =~= setting_rules(es));
        }
    }
}

pub const MAX_FPS_PATTERN: &'static str = r#"MaxFPS\s*=\s*"([^"]+)""#;

pub const FOV_PATTERN: &'static str = r#"FOV\s*=\s*"([^"]+)""#;

pub const DISPLAY_MODE_PATTERN: &'static str = r#"FullScreenMode\s*=\s*"([^"]+)""#;

pub const RESOLUTION_PATTERN: &'static str = r#"WindowSize\s*=\s*"([^"]+)""#;

pub const REFRESH_RATE_PATTERN: &'static str = r#"RefreshRate\s*=\s*"([^"]+)""#;

pub const VSYNC_VALUE_PATTERN: &'static str = r#"Vsync\s*=\s*"([^"]+)""#;

pub const DRAW_FPS_PATTERN: &'static str = r#"DrawFPS\s*=\s*"([^"]+)""#;

pub const ALL_SETTINGS_PATTERN: &'static str = r#"RestrictGraphicsOptions\s*=\s*"([^"]+)""#;

pub const SMOOTH_PATTERN: &'static str = r#"SmoothFramerate\s*=\s*"([^"]+)""#;

pub const VIDEO_MEMORY_PATTERN: &'static str = r#"VideoMemory\s*=\s*"([^"]+)""#;

pub const STREAM_MIN_PATTERN: &'static str = r#"StreamMinResident\s*=\s*"([^"]+)""#;

pub const LATENCY_PATTERN: &'static str = r#"MaxFrameLatency\s*=\s*"([^"]+)""#;

pub const REDUCE_CPU_PATTERN: &'static str = r#"SerializeRender\s*=\s*"([^"]+)""#;

/// Defaults of the fields whose key is absent or unreadable.
pub const DEFAULT_RESOLUTION: &'static str = "2560x1440";

pub const DEFAULT_REFRESH_RATE: &'static str = "165";

pub const DEFAULT_VIDEO_MEMORY: &'static str = "1";

pub const DEFAULT_STREAM_MIN: &'static str = "0";

/// The value that `pattern` captures in `content`, when regex compiles it.
pub open spec fn captured(pattern: Seq<char>, content: Seq<char>) -> Option<Seq<char>> {
    if regex_accepts(pattern) {
        regex_group_one(pattern, content)
    } else {
        None
    }
}

pub open spec fn int_field(pattern: Seq<char>, content: Seq<char>, default: i32) -> i32 {
    match captured(pattern, content) {
        Some(t) => match i32_of(t) {
            Some(v) => v,
            None => default,
        },
        None => default,
    }
}

/// A flag is on when its value is exactly "1".
pub open spec fn bool_field(pattern: Seq<char>, content: Seq<char>, default: bool) -> bool {
    match captured(pattern, content) {
        Some(t) => t == "1"@,
        None => default,
    }
}

pub open spec fn text_field(pattern: Seq<char>, content: Seq<char>, default: Seq<char>) -> Seq<char> {
    match captured(pattern, content) {
        Some(t) => t,
        None => default,
    }
}

/// The video-memory setting differs from its baseline: the raw flag is not
/// "1", or the stream-resident minimum is not "0".
pub open spec fn vram_override(video_memory: Seq<char>, stream_min: Seq<char>) -> bool {
    !(video_memory == "1"@ && stream_min == "0"@)
}

fn capture(content: &str, pattern: &str) -> (r: Option<String>)
    ensures
        r is Some <==> captured(pattern@, content@) is Some,
        r matches Some(t) ==> captured(pattern@, content@) == Some(t@),
{
    match Pattern::new(pattern) {
        Some(p) => p.group_one(content),
        None => None,
    }
}

fn capture_int(content: &str, pattern: &str, default: i32) -> (r: i32)
    ensures
        r == int_field(pattern@, content@, default),
{
    match capture(content, pattern) {
        Some(t) => match parse_i32(t.as_str()) {
            Some(v) => v,
            None => default,
        },
        None => default,
    }
}

fn capture_bool(content: &str, pattern: &str, default: bool) -> (r: bool)
    ensures
        r == bool_field(pattern@, content@, default),
{
    match capture(content, pattern) {
        Some(t) => same_text(t.as_str(), "1"),
        None => default,
    }
}

fn capture_string(content: &str, pattern: &str, default: &str) -> (r: String)
    ensures
        r@ == text_field(pattern@, content@, default@),
{
    match capture(content, pattern) {
        Some(t) => t,
        None => owned(default),
    }
}

/// The commonly inspected settings, as read from the settings file.
/// Fractional values are kept as the text the file holds.
#[derive(Debug, Clone)]
pub struct EssentialStatus {
    pub max_fps: i32,
    pub fov: i32,
    pub display_mode: i32,
    pub resolution: String,
    /// The refresh rate's text.
    pub refresh_rate: String,
    pub vsync: bool,
    pub draw_fps: bool,
    pub all_settings: bool,
    pub smooth: bool,
    pub vram: bool,
    /// The video-memory setting's text.
    pub vram_value: String,
    pub latency: i32,
    pub reduce_cpu: bool,
    pub skip_intro: bool,
}

/// Every settings field at its own default, as when no key is in the file.
pub open spec fn has_default_settings(s: EssentialStatus) -> bool {
    &&& s.max_fps == 165 && s.fov == 80 && s.display_mode == 1 && s.latency == 1
    &&& s.resolution@ == DEFAULT_RESOLUTION@
    &&& s.refresh_rate@ == DEFAULT_REFRESH_RATE@
    &&& s.vram_value@ == DEFAULT_VIDEO_MEMORY@
    &&& s.vsync && !s.draw_fps && !s.all_settings && !s.smooth && !s.reduce_cpu
    &&& !s.vram
}

/// Each field read from `content` on its own, with its own default.
pub open spec fn status_read(s: EssentialStatus, content: Seq<char>, intro_backup_exists: bool) -> bool {
    let video_memory = text_field(VIDEO_MEMORY_PATTERN@, content, DEFAULT_VIDEO_MEMORY@);
    let stream_min = text_field(STREAM_MIN_PATTERN@, content, DEFAULT_STREAM_MIN@);
    &&& s.max_fps == int_field(MAX_FPS_PATTERN@, content, 165)
    &&& s.fov == int_field(FOV_PATTERN@, content, 80)
    &&& s.display_mode == int_field(DISPLAY_MODE_PATTERN@, content, 1)
    &&& s.resolution@ == text_field(RESOLUTION_PATTERN@, content, DEFAULT_RESOLUTION@)
    &&& s.refresh_rate@ == text_field(REFRESH_RATE_PATTERN@, content, DEFAULT_REFRESH_RATE@)
    &&& s.vsync == bool_field(VSYNC_VALUE_PATTERN@, content, true)
    &&& s.draw_fps == bool_field(DRAW_FPS_PATTERN@, content, false)
    &&& s.all_settings == bool_field(ALL_SETTINGS_PATTERN@, content, false)
    &&& s.smooth == bool_field(SMOOTH_PATTERN@, content, false)
    &&& s.vram == vram_override(video_memory, stream_min)
    &&& s.vram_value@ == video_memory
    &&& s.latency == int_field(LATENCY_PATTERN@, content, 1)
    &&& s.reduce_cpu == bool_field(REDUCE_CPU_PATTERN@, content, false)
    &&& s.skip_intro == intro_backup_exists
}

impl Default for EssentialStatus {
    /// Every field at its own default; the intro is not skipped.
    fn default() -> (r: EssentialStatus)
        ensures
            has_default_settings(r),
            !r.skip_intro,
    {
        proof {
            reveal_strlit("1");
            reveal_strlit("0");
        }
        EssentialStatus {
            max_fps: 165,
            fov: 80,
            display_mode: 1,
            resolution: owned(DEFAULT_RESOLUTION),
            refresh_rate: owned(DEFAULT_REFRESH_RATE),
            vsync: true,
            draw_fps: false,
            all_settings: false,
            smooth: false,
            vram: false,
            vram_value: owned(DEFAULT_VIDEO_MEMORY),
            latency: 1,
            reduce_cpu: false,
            skip_intro: false,
        }
    }
}

/// Reads the status snapshot from the settings file's text. Without a file
/// every settings field takes its own default. The intro-skip flag is
/// whether the intro video's backup exists, in either case.
pub fn check_essential_status(content: Option<&str>, intro_backup_exists: bool) -> (r: EssentialStatus)
    ensures
        content is None ==> has_default_settings(r) && r.skip_intro == intro_backup_exists,
        content matches Some(c) ==> status_read(r, c@, intro_backup_exists),
{
    match content {
        None => {
            let mut s = EssentialStatus::default();
            s.skip_intro = intro_backup_exists;
            s
        },
        Some(c) => {
            let video_memory = capture_string(c, VIDEO_MEMORY_PATTERN, DEFAULT_VIDEO_MEMORY);
            let stream_min = capture_string(c, STREAM_MIN_PATTERN, DEFAULT_STREAM_MIN);
            let vram = !(same_text(video_memory.as_str(), "1") && same_text(stream_min.as_str(), "0"));
            EssentialStatus {
                max_fps: capture_int(c, MAX_FPS_PATTERN, 165),
                fov: capture_int(c, FOV_PATTERN, 80),
                display_mode: capture_int(c, DISPLAY_MODE_PATTERN, 1),
                resolution: capture_string(c, RESOLUTION_PATTERN, DEFAULT_RESOLUTION),
                refresh_rate: capture_string(c, REFRESH_RATE_PATTERN, DEFAULT_REFRESH_RATE),
                vsync: capture_bool(c, VSYNC_VALUE_PATTERN, true),
                draw_fps: capture_bool(c, DRAW_FPS_PATTERN, false),
                all_settings: capture_bool(c, ALL_SETTINGS_PATTERN, false),
                smooth: capture_bool(c, SMOOTH_PATTERN, false),
                vram,
                vram_value: video_memory,
                latency: capture_int(c, LATENCY_PATTERN, 1),
                reduce_cpu: capture_bool(c, REDUCE_CPU_PATTERN, false),
                skip_intro: intro_backup_exists,
            }
        },
    }
}

/// A key that the file does not hold leaves its field at the field's own
/// default, whatever the other keys hold.
pub proof fn missing_key_gives_default(pattern: Seq<char>, content: Seq<char>)
    requires
        captured(pattern, content) is None,
    ensures
        forall|d: i32| #[trigger] int_field(pattern, content, d) == d,
        forall|d: bool| #[trigger] bool_field(pattern, content, d) == d,
        forall|d: Seq<char>| #[trigger] text_field(pattern, content, d) == d,
{
}

/// The video-memory override is off exactly when the raw flag is "1" and
/// the stream-resident minimum is "0".
pub proof fn vram_override_iff(video_memory: Seq<char>, stream_min: Seq<char>)
    ensures
        !vram_override(video_memory, stream_min) <==> (video_memory == "1"@ && stream_min == "0"@),
{
}

/// Rewriting a settings file twice gives what rewriting it once gave, when
/// no rule's replacement is matched by another rule's pattern and the
/// rewritten lines read back as they were written (none holds a line break
/// or ends in a carriage return).
pub proof fn rewrite_file_twice_same(rules: Seq<RuleText>, text: Seq<char>)
    requires
        forall|i: int, j: int|
            0 <= i < rules.len() && 0 <= j < rules.len() && i != j ==> !regex_finds(
                #[trigger] rules[j].0,
                #[trigger] rules[i].1,
            ),
        forall|n: int|
            0 <= n < lines_of(text).len() ==> is_clean_line(
                #[trigger] rewritten_lines(rules, lines_of(text))[n],
            ),
    ensures
        rewritten_text(rules, rewritten_text(rules, text)) == rewritten_text(rules, text),
{
    let once = rewritten_lines(rules, lines_of(text));
    lemma_lines_of_joined(once);
    rewrite_twice_same(rules, lines_of(text));
}

/// Where a rule of an expanded preset comes from: the own rule of a
/// setting, or the v-sync rule of a triple-buffering entry.
pub open spec fn rule_from(es: Seq<EntryText>, r: RuleText, m: int) -> bool {
    &&& 0 <= m < es.len()
    &&& !is_stutter(es[m])
    &&& (r == setting_rule(es[m].0, es[m].1, es[m].2) || (r == vsync_rule() && is_triple(es[m])))
}

proof fn lemma_rule_origin(es: Seq<EntryText>, k: int)
    requires
        0 <= k < preset_rules(es).len(),
    ensures
        exists|m: int| #[trigger] rule_from(es, preset_rules(es)[k], m),
    decreases es.len(),
{
    let front = es.drop_last();
    let n = preset_rules(front).len() as int;
    if k < n {
        lemma_rule_origin(front, k);
        let m = choose|m: int| #[trigger] rule_from(front, preset_rules(front)[k], m);
        assert(front[m] == es[m]);
        assert(preset_rules(es)[k] == preset_rules(front)[k]);
        assert(rule_from(es, preset_rules(es)[k], m));
    } else {
        let m = es.len() - 1;
        assert(preset_rules(es)[k] == entry_rules(es.last())[k - n]);
        assert(rule_from(es, preset_rules(es)[k], m));
    }
}

/// A line that matches the v-sync pattern and none of a triple-buffering
/// preset's setting patterns is rewritten to the fixed v-sync line.
pub proof fn triple_buffering_writes_vsync(es: Seq<EntryText>, i: int, line: Seq<char>)
    requires
        0 <= i < es.len(),
        is_triple(es[i]),
        regex_finds(VSYNC_PATTERN@, line),
        forall|m: int| 0 <= m < es.len() && !is_stutter(es[m]) ==> !regex_finds(key_pattern(#[trigger] es[m].0), line),
    ensures
        rewritten(preset_rules(es), line) == VSYNC_LINE@,
{
    let rules = preset_rules(es);
    triple_buffering_adds_vsync(es, i);
    let k0 = choose|k: int|
        0 <= k && k + 1 < preset_rules(es).len() && preset_rules(es)[k] == setting_rule(
            es[i].0,
            es[i].1,
            es[i].2,
        ) && #[trigger] preset_rules(es)[k + 1] == vsync_rule();
    let k = rewritten_by(rules, line);
    if k == rules.len() {
        assert(!regex_finds(rules[k0 + 1].0, line));
    }
    lemma_rule_origin(es, k);
    let m = choose|m: int| #[trigger] rule_from(es, rules[k], m);
    if rules[k] == setting_rule(es[m].0, es[m].1, es[m].2) {
        assert(!regex_finds(key_pattern(es[m].0), line));
    }
}

/// Without triple buffering, a line that matches none of the preset's
/// setting patterns is kept, v-sync line or not.
pub proof fn no_triple_keeps_unmatched(es: Seq<EntryText>, line: Seq<char>)
    requires
        forall|i: int| 0 <= i < es.len() ==> !is_triple(#[trigger] es[i]),
        forall|m: int| 0 <= m < es.len() && !is_stutter(es[m]) ==> !regex_finds(key_pattern(#[trigger] es[m].0), line),
    ensures
        rewritten(preset_rules(es), line) == line,
{
    let rules = preset_rules(es);
    assert forall|k: int| 0 <= k < rules.len() implies !regex_finds(#[trigger] rules[k].0, line) by {
        lemma_rule_origin(es, k);
        let m = choose|m: int| #[trigger] rule_from(es, rules[k], m);
        assert(!is_triple(es[m]));
    }
    unmatched_line_kept(rules, line);
}

/// A preset of one ordinary setting rewrites exactly the lines that the
/// setting's pattern matches, each to `key = "value" // comment`, and keeps
/// every other line and the number of lines.
pub proof fn single_setting_rewrite(e: EntryText, lines: Seq<Seq<char>>)
    requires
        !is_stutter(e),
        !is_triple(e),
    ensures
        preset_rules(seq![e]) == seq![setting_rule(e.0, e.1, e.2)],
        rewritten_lines(preset_rules(seq![e]), lines).len() == lines.len(),
        forall|n: int|
            0 <= n < lines.len() ==> #[trigger] rewritten_lines(preset_rules(seq![e]), lines)[n]
                == if regex_finds(key_pattern(e.0), lines[n]) {
                setting_line(e.0, e.1, e.2)
            } else {
                lines[n]
            },
{
    let es = seq![e];
    assert(es.drop_last().len() == 0);
    assert(es.last() == e);
    assert(preset_rules(es.drop_last()) == Seq::<RuleText>::empty());
    assert(entry_rules(e) == seq![setting_rule(e.0, e.1, e.2)]);
    assert(preset_rules(es) == preset_rules(es.drop_last()) + entry_rules(e));
    assert(preset_rules(es) =~= seq![setting_rule(e.0, e.1, e.2)]);
    let rules = preset_rules(es);
    assert forall|n: int| 0 <= n < lines.len() implies #[trigger] rewritten_lines(rules, lines)[n]
        == if regex_finds(key_pattern(e.0), lines[n]) {
        setting_line(e.0, e.1, e.2)
    } else {
        lines[n]
    } by {
        assert(rules.drop_first().len() == 0);
        assert(rewritten(rules.drop_first(), lines[n]) == lines[n]);
        assert(rewritten_lines(rules, lines)[n] == rewritten(rules, lines[n]));
    }
}

} // verus!
