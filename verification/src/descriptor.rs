//! Application records and the parser that reads one from a descriptor's text.
//!
//! A descriptor is a text of lines. Only the lines of the `[Desktop Entry]`
//! section count; there a line `Key = Value` assigns a value to a key, and a
//! later assignment to the same key replaces an earlier one.

use crate::text::{
    chars_of, eq_ignore_ascii_case, find_in_range, lemma_line_at, lemma_split_lines_nonempty,
    offset_of, range_is, range_is_ignore_ascii_case, split_lines, trim, trim_range,
};
use vstd::prelude::*;

verus! {

/// One launchable application, as read from its descriptor.
#[derive(Debug, Clone, PartialEq, Eq)]
pub struct AppInfo {
    /// Display name; the key by which a catalog tells applications apart.
    pub name: String,
    /// Human-readable comment, where the descriptor has one.
    pub description: Option<String>,
    /// Path of the descriptor; also the value by which a selection is reported.
    pub path: String,
    /// Icon name or path, passed on as written.
    pub icon: Option<String>,
    /// Emoji; no descriptor provides one.
    pub emoji: Option<String>,
    /// Whether the application has to run inside a terminal emulator.
    pub terminal: bool,
}

/// The mathematical value of an [`AppInfo`].
pub struct AppModel {
    pub name: Seq<char>,
    pub description: Option<Seq<char>>,
    pub path: Seq<char>,
    pub icon: Option<Seq<char>>,
    pub emoji: Option<Seq<char>>,
    pub terminal: bool,
}

/// The characters of an optional text.
pub open spec fn text_of(t: Option<String>) -> Option<Seq<char>> {
    match t {
        Some(s) => Some(s@),
        None => None,
    }
}

impl View for AppInfo {
    type V = AppModel;

    open spec fn view(&self) -> AppModel {
        AppModel {
            name: self.name@,
            description: text_of(self.description),
            path: self.path@,
            icon: text_of(self.icon),
            emoji: text_of(self.emoji),
            terminal: self.terminal,
        }
    }
}

/// A copy of an optional text.
pub fn copy_text(t: &Option<String>) -> (c: Option<String>)
    ensures
        text_of(c) == text_of(*t),
{
    match t {
        Some(s) => Some(s.clone()),
        None => None,
    }
}

impl AppInfo {
    /// A record of the same value.
    pub fn duplicate(&self) -> (copy: AppInfo)
        ensures
            copy@ == self@,
    {
        AppInfo {
            name: self.name.clone(),
            description: copy_text(&self.description),
            path: self.path.clone(),
            icon: copy_text(&self.icon),
            emoji: copy_text(&self.emoji),
            terminal: self.terminal,
        }
    }
}

/// The models of a list of records, in order.
pub open spec fn models(apps: Seq<AppInfo>) -> Seq<AppModel> {
    apps.map_values(|a: AppInfo| a@)
}

/// The line that opens the section of a descriptor that is read, the entry section.
pub open spec fn entry_header() -> Seq<char> {
    "[Desktop Entry]"@
}

/// The key of the display name.
pub open spec fn key_name() -> Seq<char> {
    "Name"@
}

/// The key of the icon.
pub open spec fn key_icon() -> Seq<char> {
    "Icon"@
}

/// The key of the comment.
pub open spec fn key_comment() -> Seq<char> {
    "Comment"@
}

/// The key that keeps an application out of listings.
pub open spec fn key_no_display() -> Seq<char> {
    "NoDisplay"@
}

/// The key that marks an application as removed.
pub open spec fn key_hidden() -> Seq<char> {
    "Hidden"@
}

/// The key that asks for a terminal emulator.
pub open spec fn key_terminal() -> Seq<char> {
    "Terminal"@
}

/// The word that sets a flag, in any letter case.
pub open spec fn word_true() -> Seq<char> {
    "true"@
}

/// The lines of a descriptor as the parser reads them: each without the
/// whitespace around it.
pub open spec fn descriptor_lines(content: Seq<char>) -> Seq<Seq<char>> {
    split_lines(content).map_values(|l: Seq<char>| trim(l))
}

/// Whether `line` opens a section, the read one or any other.
pub open spec fn opens_section(line: Seq<char>) -> bool {
    line.len() > 0 && line.first() == '['
}

/// Whether the entry section is open once the first `n` lines have gone by:
/// the last section opened among them is `[Desktop Entry]`.
pub open spec fn entry_section_open(lines: Seq<Seq<char>>, n: int) -> bool
    decreases n,
{
    if n <= 0 {
        false
    } else if lines[n - 1] == entry_header() {
        true
    } else if opens_section(lines[n - 1]) {
        false
    } else {
        entry_section_open(lines, n - 1)
    }
}

/// Whether `line` has the shape `Key = Value`: it holds a `=`.
pub open spec fn is_assignment(line: Seq<char>) -> bool {
    offset_of(line, '=') < line.len()
}

/// The key of an assignment: what stands before the first `=`, trimmed.
pub open spec fn assigned_key(line: Seq<char>) -> Seq<char> {
    trim(line.take(offset_of(line, '=')))
}

/// The value of an assignment: what stands after the first `=`, trimmed.
pub open spec fn assigned_value(line: Seq<char>) -> Seq<char> {
    trim(line.skip(offset_of(line, '=') + 1))
}

/// Whether line `i` assigns a value to `key` inside the entry section.
pub open spec fn assigns(lines: Seq<Seq<char>>, i: int, key: Seq<char>) -> bool {
    &&& 0 <= i < lines.len()
    &&& entry_section_open(lines, i)
    &&& !opens_section(lines[i])
    &&& is_assignment(lines[i])
    &&& assigned_key(lines[i]) == key
}

/// The value that `key` has once the first `n` lines have gone by: that of
/// the last of them that assigns one.
pub open spec fn value_after(lines: Seq<Seq<char>>, key: Seq<char>, n: int) -> Option<Seq<char>>
    decreases n,
{
    if n <= 0 {
        None
    } else if assigns(lines, n - 1, key) {
        Some(assigned_value(lines[n - 1]))
    } else {
        value_after(lines, key, n - 1)
    }
}

/// The value that `key` has in the whole descriptor.
pub open spec fn value_of(lines: Seq<Seq<char>>, key: Seq<char>) -> Option<Seq<char>> {
    value_after(lines, key, lines.len() as int)
}

/// Whether a value sets a flag: it is `true` in any letter case.
pub open spec fn sets_flag(value: Option<Seq<char>>) -> bool {
    value matches Some(t) && eq_ignore_ascii_case(t, word_true())
}

/// The record that a descriptor of text `content`, found at `path`, stands for.
///
/// None where the descriptor sets `NoDisplay` or `Hidden`, whatever else it
/// holds, and none where it lacks a `Name` or an `Icon`.
pub open spec fn parsed(content: Seq<char>, path: Seq<char>) -> Option<AppModel> {
    let lines = descriptor_lines(content);
    if sets_flag(value_of(lines, key_no_display())) || sets_flag(value_of(lines, key_hidden())) {
        None
    } else {
        match (value_of(lines, key_name()), value_of(lines, key_icon())) {
            (Some(name), Some(icon)) => Some(
                AppModel {
                    name,
                    description: value_of(lines, key_comment()),
                    path,
                    icon: Some(icon),
                    emoji: None,
                    terminal: sets_flag(value_of(lines, key_terminal())),
                },
            ),
            _ => None,
        }
    }
}

/// A key has a value exactly when some line assigns one.
pub proof fn lemma_value_after_some(lines: Seq<Seq<char>>, key: Seq<char>, n: int)
    ensures
        value_after(lines, key, n) is Some <==> exists|i: int| 0 <= i < n && assigns(lines, i, key),
    decreases n,
{
    if n > 0 {
        lemma_value_after_some(lines, key, n - 1);
        if assigns(lines, n - 1, key) {
        } else if value_after(lines, key, n - 1) is Some {
            let i = choose|i: int| 0 <= i < n - 1 && assigns(lines, i, key);
            assert(0 <= i < n && assigns(lines, i, key));
        } else {
            assert forall|i: int| 0 <= i < n implies !assigns(lines, i, key) by {
                if i < n - 1 {
                    assert(!(0 <= i < n - 1 && assigns(lines, i, key)));
                }
            }
        }
    }
}

/// The value of a key is that of the last line that assigns one.
pub proof fn lemma_value_after_last(lines: Seq<Seq<char>>, key: Seq<char>, n: int, i: int)
    requires
        0 <= i < n,
        assigns(lines, i, key),
        forall|j: int| i < j < n ==> !assigns(lines, j, key),
    ensures
        value_after(lines, key, n) == Some(assigned_value(lines[i])),
    decreases n,
{
    if i < n - 1 {
        lemma_value_after_last(lines, key, n - 1, i);
    }
}

/// A descriptor in whose read section no line assigns a `Name`, or none
/// assigns an `Icon`, stands for no record.
pub proof fn lemma_missing_name_or_icon(content: Seq<char>, path: Seq<char>)
    requires
        ({
            let lines = descriptor_lines(content);
            ||| forall|i: int| !assigns(lines, i, key_name())
            ||| forall|i: int| !assigns(lines, i, key_icon())
        }),
    ensures
        parsed(content, path) is None,
{
    let lines = descriptor_lines(content);
    lemma_value_after_some(lines, key_name(), lines.len() as int);
    lemma_value_after_some(lines, key_icon(), lines.len() as int);
}

/// A descriptor whose last assignment to `key` inside the entry section has
/// the value `true` in any letter case, `key` being `Hidden` or `NoDisplay`,
/// stands for no record, whatever name and icon it has.
pub proof fn lemma_hidden_or_no_display(
    content: Seq<char>,
    path: Seq<char>,
    key: Seq<char>,
    i: int,
)
    requires
        key == key_hidden() || key == key_no_display(),
        assigns(descriptor_lines(content), i, key),
        forall|j: int|
            i < j < descriptor_lines(content).len() ==> !assigns(descriptor_lines(content), j, key),
        eq_ignore_ascii_case(assigned_value(descriptor_lines(content)[i]), word_true()),
    ensures
        parsed(content, path) is None,
{
    let lines = descriptor_lines(content);
    lemma_value_after_last(lines, key, lines.len() as int, i);
}

/// The header of the entry section is itself a line that opens a section.
proof fn lemma_header_opens_section()
    ensures
        opens_section(entry_header()),
{
    reveal_strlit("[Desktop Entry]");
}

/// What a slot of the parser holds: the bounds of the value within the text, if any.
spec fn slot_holds(v: Seq<char>, slot: Option<(usize, usize)>, value: Option<Seq<char>>) -> bool {
    match slot {
        Some((a, b)) => a <= b <= v.len() && value == Some(v.subrange(a as int, b as int)),
        None => value is None,
    }
}

/// The text of a slot, cut out of the descriptor.
fn slot_text(content: &str, slot: Option<(usize, usize)>) -> (r: Option<String>)
    requires
        slot matches Some((a, b)) ==> a <= b <= content@.len(),
    ensures
        match slot {
            Some((a, b)) => text_of(r) == Some(content@.subrange(a as int, b as int)),
            None => r is None,
        },
{
    match slot {
        Some((a, b)) => Some(content.substring_char(a, b).to_owned()),
        None => None,
    }
}

/// Reads the record of one descriptor.
///
/// `content` is the descriptor's whole text, `path` the place it was found
/// at, which becomes the record's `path` as it is. The result is the record
/// that [`parsed`] describes: none for a descriptor that sets `NoDisplay` or
/// `Hidden`, none for one without `Name` or `Icon`. Lines that are no
/// assignment, and keys that are not known, are passed over.
pub fn parse_desktop_file(content: &str, path: &str) -> (r: Option<AppInfo>)
    ensures
        match r {
            Some(app) => parsed(content@, path@) == Some(app@),
            None => parsed(content@, path@) is None,
        },
{
    let v = chars_of(content);
    let header = chars_of("[Desktop Entry]");
    let k_name = chars_of("Name");
    let k_icon = chars_of("Icon");
    let k_comment = chars_of("Comment");
    let k_no_display = chars_of("NoDisplay");
    let k_hidden = chars_of("Hidden");
    let k_terminal = chars_of("Terminal");
    let w_true = chars_of("true");

    let ghost raw = split_lines(v@);
    let ghost lines = descriptor_lines(v@);

    let mut name: Option<(usize, usize)> = None;
    let mut icon: Option<(usize, usize)> = None;
    let mut comment: Option<(usize, usize)> = None;
    let mut no_display: bool = false;
    let mut hidden: bool = false;
    let mut terminal: bool = false;
    let mut in_entry: bool = false;

    let mut pos: usize = 0;
    let mut more: bool = true;
    let ghost mut k: int = 0;
    proof {
        lemma_split_lines_nonempty(v@);
        assert(v@.skip(0) =~= v@);
    }
    while more
        invariant
            v@ == content@,
            header@ == entry_header(),
            k_name@ == key_name(),
            k_icon@ == key_icon(),
            k_comment@ == key_comment(),
            k_no_display@ == key_no_display(),
            k_hidden@ == key_hidden(),
            k_terminal@ == key_terminal(),
            w_true@ == word_true(),
            raw == split_lines(v@),
            lines == descriptor_lines(v@),
            pos <= v.len(),
            0 <= k <= raw.len(),
            more ==> k < raw.len() && raw.skip(k) == split_lines(v@.skip(pos as int)),
            !more ==> k == raw.len(),
            in_entry == entry_section_open(lines, k),
            slot_holds(v@, name, value_after(lines, key_name(), k)),
            slot_holds(v@, icon, value_after(lines, key_icon(), k)),
            slot_holds(v@, comment, value_after(lines, key_comment(), k)),
            no_display == sets_flag(value_after(lines, key_no_display(), k)),
            hidden == sets_flag(value_after(lines, key_hidden(), k)),
            terminal == sets_flag(value_after(lines, key_terminal(), k)),
        decreases v.len() - pos + (if more { 1int } else { 0int }),
    {
        proof {
            lemma_line_at(v@, pos as int, k);
        }
        let end = find_in_range(&v, pos, v.len(), '\n');
        let (a, b) = trim_range(&v, pos, end);
        let ghost line = v@.subrange(a as int, b as int);

        if range_is(&v, a, b, &header) {
            proof {
                lemma_header_opens_section();
            }
            in_entry = true;
        } else if a < b && v[a] == '[' {
            in_entry = false;
        } else if in_entry {
            let eq = find_in_range(&v, a, b, '=');
            if eq < b {
                let (ka, kb) = trim_range(&v, a, eq);
                let (va, vb) = trim_range(&v, eq + 1, b);
                proof {
                    assert(line.take(eq - a) =~= v@.subrange(a as int, eq as int));
                    assert(line.skip(eq - a + 1) =~= v@.subrange(eq + 1, b as int));
                }
                if range_is(&v, ka, kb, &k_name) {
                    name = Some((va, vb));
                }
                if range_is(&v, ka, kb, &k_icon) {
                    icon = Some((va, vb));
                }
                if range_is(&v, ka, kb, &k_comment) {
                    comment = Some((va, vb));
                }
                if range_is(&v, ka, kb, &k_no_display) {
                    no_display = range_is_ignore_ascii_case(&v, va, vb, &w_true);
                }
                if range_is(&v, ka, kb, &k_hidden) {
                    hidden = range_is_ignore_ascii_case(&v, va, vb, &w_true);
                }
                if range_is(&v, ka, kb, &k_terminal) {
                    terminal = range_is_ignore_ascii_case(&v, va, vb, &w_true);
                }
            }
        }
        if end < v.len() {
            pos = end + 1;
        } else {
            more = false;
        }
        proof {
            k = k + 1;
        }
    }

    if no_display || hidden {
        return None;
    }
    let name_text = slot_text(content, name);
    let icon_text = slot_text(content, icon);
    match (name_text, icon_text) {
        (Some(name), Some(icon)) => Some(
            AppInfo {
                name,
                description: slot_text(content, comment),
                path: path.to_owned(),
                icon: Some(icon),
                emoji: None,
                terminal,
            },
        ),
        _ => None,
    }
}

} // verus!
