//! Listing: the records of a catalog that match a query, as the entries
//! that are handed to the host.
//!
//! A query matches a record when the record's name, in small letters, holds
//! the query, in small letters, as a contiguous part. The empty query matches
//! every record. Nothing is ranked: the entries keep the catalog's order.

use crate::descriptor::{copy_text, models, text_of, AppInfo, AppModel};
use crate::text::{chars_of, contains, contains_chars};
use vstd::prelude::*;

verus! {

/// One listed application, as the host sees it.
#[derive(Debug, Clone, PartialEq, Eq)]
pub struct Entry {
    /// The display name.
    pub name: String,
    /// A description, where there is one.
    pub description: Option<String>,
    /// The value that the host hands back when this entry is selected: the
    /// path of the descriptor.
    pub value: String,
    /// The icon, where there is one.
    pub icon: Option<String>,
    /// The emoji; always absent.
    pub emoji: Option<String>,
}

/// The mathematical value of an [`Entry`].
pub struct EntryModel {
    pub name: Seq<char>,
    pub description: Option<Seq<char>>,
    pub value: Seq<char>,
    pub icon: Option<Seq<char>>,
    pub emoji: Option<Seq<char>>,
}

impl View for Entry {
    type V = EntryModel;

    open spec fn view(&self) -> EntryModel {
        EntryModel {
            name: self.name@,
            description: text_of(self.description),
            value: self.value@,
            icon: text_of(self.icon),
            emoji: text_of(self.emoji),
        }
    }
}

/// The entries of one listing, with their number.
#[derive(Debug, Clone, PartialEq, Eq)]
pub struct EntryList {
    pub entries: Vec<Entry>,
    pub length: usize,
}

/// The models of a list of entries, in order.
pub open spec fn entry_models(entries: Seq<Entry>) -> Seq<EntryModel> {
    entries.map_values(|e: Entry| e@)
}

/// `s` in small letters, as `str::to_lowercase` of the standard library
/// gives it: the Unicode mapping, which is not written out here.
pub uninterp spec fn lowercase(s: Seq<char>) -> Seq<char>;

/// Calls `str::to_lowercase`. Believed: the result depends on the text
/// alone, so it is the named [`lowercase`] of it.
#[verifier::external_body]
pub(crate) fn to_lowercase(s: &str) -> (lower: String)
    ensures
        lower@ == lowercase(s@),
{
    s.to_lowercase()
}

/// The text of a query: nothing where there is no query.
pub open spec fn query_text(query: Option<&str>) -> Seq<char> {
    match query {
        Some(q) => q@,
        None => Seq::empty(),
    }
}

/// Whether the query `query` matches a record of the name `name`.
pub open spec fn matches_query(name: Seq<char>, query: Seq<char>) -> bool {
    query.len() == 0 || contains(lowercase(name), lowercase(query))
}

/// The records of `apps` that `query` matches, in the order of `apps`.
pub open spec fn listed(apps: Seq<AppModel>, query: Seq<char>) -> Seq<AppModel> {
    apps.filter(|a: AppModel| matches_query(a.name, query))
}

/// The entry that stands for a record.
pub open spec fn entry_of(app: AppModel) -> EntryModel {
    EntryModel {
        name: app.name,
        description: app.description,
        value: app.path,
        icon: app.icon,
        emoji: None,
    }
}

/// The entries that stand for the records `apps`, in order.
pub open spec fn entries_of(apps: Seq<AppModel>) -> Seq<EntryModel> {
    apps.map_values(|a: AppModel| entry_of(a))
}

/// The empty query lists every record, in the catalog's order.
pub proof fn lemma_empty_query_lists_all(apps: Seq<AppModel>)
    ensures
        listed(apps, Seq::empty()) == apps,
        listed(apps, query_text(None)) == apps,
        forall|q: &str| q@.len() == 0 ==> listed(apps, #[trigger] query_text(Some(q))) == apps,
    decreases apps.len(),
{
    reveal(Seq::filter);
    if apps.len() > 0 {
        lemma_empty_query_lists_all(apps.drop_last());
    }
}

/// A listing holds exactly the records that the query matches, each as
/// often as the catalog holds it, and in the catalog's order: what is listed
/// of a catalog with one more record at its end is what was listed before,
/// with that record at its end if the query matches it.
pub proof fn lemma_listed_push(apps: Seq<AppModel>, app: AppModel, query: Seq<char>)
    ensures
        listed(apps.push(app), query) == if matches_query(app.name, query) {
            listed(apps, query).push(app)
        } else {
            listed(apps, query)
        },
        forall|i: int|
            0 <= i < listed(apps, query).len() ==> matches_query(
                (#[trigger] listed(apps, query)[i]).name,
                query,
            ),
        forall|i: int|
            0 <= i < apps.len() && matches_query((#[trigger] apps[i]).name, query) ==> listed(
                apps,
                query,
            ).contains(apps[i]),
{
    reveal(Seq::filter);
    let pred = |a: AppModel| matches_query(a.name, query);
    assert(apps.push(app).drop_last() =~= apps);
    assert forall|i: int| 0 <= i < listed(apps, query).len() implies matches_query(
        (#[trigger] listed(apps, query)[i]).name,
        query,
    ) by {
        apps.lemma_filter_pred(pred, i);
    }
    assert forall|i: int|
        0 <= i < apps.len() && matches_query((#[trigger] apps[i]).name, query) implies listed(
        apps,
        query,
    ).contains(apps[i]) by {
        apps.lemma_filter_contains(pred, i);
    }
}

/// Whether a name, already in small letters, holds a query, already in
/// small letters, as a contiguous part.
pub fn name_holds(lowered_name: &str, lowered_query: &str) -> (b: bool)
    ensures
        b == contains(lowered_name@, lowered_query@),
{
    let hay = chars_of(lowered_name);
    let needle = chars_of(lowered_query);
    contains_chars(&hay, &needle)
}

/// Decides [`matches_query`].
pub fn query_matches(name: &str, query: &str) -> (b: bool)
    ensures
        b == matches_query(name@, query@),
{
    if query.unicode_len() == 0 {
        return true;
    }
    let lowered_name = to_lowercase(name);
    let lowered_query = to_lowercase(query);
    name_holds(lowered_name.as_str(), lowered_query.as_str())
}

/// The records of `apps` that `query` matches, in the order of `apps`.
/// No query, and the empty query, match every record.
pub fn filter_applications(apps: &Vec<AppInfo>, query: Option<&str>) -> (kept: Vec<AppInfo>)
    ensures
        models(kept@) == listed(models(apps@), query_text(query)),
{
    let text: &str = match query {
        Some(q) => q,
        None => "",
    };
    proof {
        reveal_strlit("");
    }
    let mut kept: Vec<AppInfo> = Vec::new();
    let mut i: usize = 0;
    proof {
        reveal(Seq::filter);
    }
    while i < apps.len()
        invariant
            i <= apps.len(),
            text@ == query_text(query),
            models(kept@) == listed(models(apps@).take(i as int), text@),
        decreases apps.len() - i,
    {
        proof {
            let all = models(apps@);
            assert(all.take(i + 1) =~= all.take(i as int).push(apps@[i as int]@));
            lemma_listed_push(all.take(i as int), apps@[i as int]@, text@);
        }
        if query_matches(apps[i].name.as_str(), text) {
            kept.push(apps[i].duplicate());
        }
        i += 1;
    }
    proof {
        assert(models(apps@).take(i as int) =~= models(apps@));
    }
    kept
}

/// The entry that stands for a record: see [`entry_of`].
pub fn to_entry(app: &AppInfo) -> (entry: Entry)
    ensures
        entry@ == entry_of(app@),
{
    Entry {
        name: app.name.clone(),
        description: copy_text(&app.description),
        value: app.path.clone(),
        icon: copy_text(&app.icon),
        emoji: None,
    }
}

/// Lists the applications of the catalog `apps` that `query` matches: one
/// entry for each, in the catalog's order, and their number.
pub fn get_entries(apps: &Vec<AppInfo>, query: Option<&str>) -> (list: EntryList)
    ensures
        entry_models(list.entries@) == entries_of(listed(models(apps@), query_text(query))),
        list.length == list.entries@.len(),
        list.length == listed(models(apps@), query_text(query)).len(),
{
    let kept = filter_applications(apps, query);
    let mut entries: Vec<Entry> = Vec::new();
    let mut i: usize = 0;
    while i < kept.len()
        invariant
            i <= kept.len(),
            entries.len() == i,
            forall|j: int| 0 <= j < i ==> (#[trigger] entries@[j])@ == entry_of(kept@[j]@),
        decreases kept.len() - i,
    {
        entries.push(to_entry(&kept[i]));
        i += 1;
    }
    let length = entries.len();
    EntryList { entries, length }
}

} // verus!
