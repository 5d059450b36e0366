//! Entries of the navigation menu.

use vstd::prelude::*;

use crate::text::{concatenated, owned, str_eq};

verus! {

/// An entry of the navigation menu.
pub struct MenuEntry {
    pub link: String,
    pub icon: String,
    pub name: String,
}

/// The link, icon and name of the menu entry called `s`, if there is one.
pub open spec fn menu_entry_of(s: Seq<char>) -> Option<(Seq<char>, Seq<char>, Seq<char>)> {
    if s == "collections"@ {
        Some(("/collections"@, "fa-dropbox"@, "Collections"@))
    } else if s == "progress"@ {
        Some(("/progress"@, "fa-spinner"@, "Progress"@))
    } else if s == "logs"@ {
        Some(("/logs"@, "fa-file-text-o"@, "Logs"@))
    } else if s == "translations"@ {
        Some(("/translations"@, "fa-language"@, "Translations"@))
    } else if s == "upload"@ {
        Some(("/upload"@, "fa-plus-square"@, "Upload"@))
    } else if s == "reviews"@ {
        Some(("/reviews"@, "fa-stethoscope"@, "Reviews"@))
    } else if s == "chores1"@ {
        Some(("/chores"@, "fa-medkit"@, "Chores"@))
    } else if s == "chores2"@ {
        Some(("/chores"@, "fa-textpattern"@, "Chores"@))
    } else {
        None
    }
}

/// The view of a menu entry: link, icon, name.
pub open spec fn entry_view(e: MenuEntry) -> (Seq<char>, Seq<char>, Seq<char>) {
    (e.link@, e.icon@, e.name@)
}

fn entry(link: &str, icon: &str, name: &str) -> (res: MenuEntry)
    ensures
        entry_view(res) == (link@, icon@, name@),
{
    MenuEntry { link: owned(link), icon: owned(icon), name: owned(name) }
}

impl MenuEntry {
    /// The menu entry called `s`, or the error message naming it.
    pub fn from_str(s: &str) -> (res: Result<MenuEntry, String>)
        ensures
            match menu_entry_of(s@) {
                Some(v) => res matches Ok(e) && entry_view(e) == v,
                None => res matches Err(m) && m@ == "Unknown menu entry: "@ + s@,
            },
    {
        if str_eq(s, "collections") {
            Ok(entry("/collections", "fa-dropbox", "Collections"))
        } else if str_eq(s, "progress") {
            Ok(entry("/progress", "fa-spinner", "Progress"))
        } else if str_eq(s, "logs") {
            Ok(entry("/logs", "fa-file-text-o", "Logs"))
        } else if str_eq(s, "translations") {
            Ok(entry("/translations", "fa-language", "Translations"))
        } else if str_eq(s, "upload") {
            Ok(entry("/upload", "fa-plus-square", "Upload"))
        } else if str_eq(s, "reviews") {
            Ok(entry("/reviews", "fa-stethoscope", "Reviews"))
        } else if str_eq(s, "chores1") {
            Ok(entry("/chores", "fa-medkit", "Chores"))
        } else if str_eq(s, "chores2") {
            Ok(entry("/chores", "fa-textpattern", "Chores"))
        } else {
            Err(concatenated("Unknown menu entry: ", s))
        }
    }
}

/// Template function returning one menu entry, by its `name` argument.
pub struct EntryFn;

/// Template function returning the menu entries named in its `entries` argument.
pub struct MenuFn;

impl EntryFn {
    /// The entry named by the `name` argument (`None` when the argument is
    /// missing or not a string), or the error message.
    pub fn call(&self, name: Option<String>) -> (res: Result<MenuEntry, String>)
        ensures
            match name {
                None => res matches Err(m) && m@ == "`` requires a `name` argument with a string value"@,
                Some(n) => match menu_entry_of(n@) {
                    Some(v) => res matches Ok(e) && entry_view(e) == v,
                    None => res matches Err(m) && m@ == "Unknown menu entry: "@ + n@,
                },
            },
    {
        match name {
            None => Err(owned("`` requires a `name` argument with a string value")),
            Some(n) => MenuEntry::from_str(n.as_str()),
        }
    }
}

impl MenuFn {
    /// The entries named by the `entries` argument (`None` when the argument
    /// is missing or not a list of strings), or the error message. Every name
    /// must be a known entry.
    pub fn call(&self, entries: Option<Vec<String>>) -> (res: Result<Vec<MenuEntry>, String>)
        requires
            entries matches Some(names) ==> forall|i: int| 0 <= i < names@.len() ==> (#[trigger] menu_entry_of(names@[i]@)) is Some,
        ensures
            match entries {
                None => res matches Err(m) && m@ == "`` requires an `entries` argument with a list of string values"@,
                Some(names) => res matches Ok(es) && es@.len() == names@.len()
                    && forall|i: int| 0 <= i < names@.len() ==> Some(entry_view(#[trigger] es@[i])) == menu_entry_of(names@[i]@),
            },
    {
        match entries {
            None => Err(owned("`` requires an `entries` argument with a list of string values")),
            Some(names) => {
                let mut out: Vec<MenuEntry> = Vec::new();
                let mut i: usize = 0;
                while i < names.len()
                    invariant
                        i <= names@.len(),
                        out@.len() == i,
                        forall|k: int| 0 <= k < names@.len() ==> (#[trigger] menu_entry_of(names@[k]@)) is Some,
                        forall|k: int| 0 <= k < i ==> Some(entry_view(#[trigger] out@[k])) == menu_entry_of(names@[k]@),
                    decreases names@.len() - i,
                {
                    let ghost n = names@[i as int]@;
                    assert(menu_entry_of(n) is Some);
                    match MenuEntry::from_str(names[i].as_str()) {
                        Ok(e) => {
                            out.push(e);
                        },
                        Err(_) => {
                            assert(false);
                        },
                    }
                    i = i + 1;
                }
                Ok(out)
            },
        }
    }
}

} // verus!
