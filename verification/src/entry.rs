//! The data model of the vault: entries, metadata, and the in-memory store.

use vstd::prelude::*;

verus! {

/// The kind of secret an entry holds.
#[derive(Clone, Copy, PartialEq, Eq, Structural, Debug)]
pub enum EntryType {
    ClassicPassword,
    EnvironmentVariable,
}

/// A file attached to an entry.  `content` carries the file's bytes in a
/// base64 text encoding.
#[derive(Clone, Debug)]
pub struct CustomFile {
    pub content: String,
    pub comment: String,
    pub name: String,
}

/// One credential record.
///
/// `id` is assigned once at creation and never reassigned; it is the only
/// stable handle for lookup, update and removal.  List position must never
/// be used as identity across operations that can reorder or shrink the set.
#[derive(Clone, Debug)]
pub struct PasswordEntry {
    pub id: String,
    pub title: String,
    /// A username or an environment-variable name.
    pub name: String,
    /// The secret itself.
    pub value: String,
    pub url: String,
    pub comment: String,
    pub entry_type: EntryType,
    pub last_modified: String,
    pub files: Vec<CustomFile>,
}

/// Vault-level metadata.
#[derive(Clone, Debug)]
pub struct Config {
    pub comment: String,
    pub author: String,
}

/// The decrypted vault held in memory for one session.
///
/// `password` is the passphrase the vault was opened (or created) with; it
/// is used again to re-encrypt on save and is never part of the serialized
/// payload itself.
#[derive(Clone, Debug)]
pub struct DatabaseFile {
    pub entries: Vec<PasswordEntry>,
    pub config: Config,
    pub last_access: String,
    pub password: String,
}

/// Mathematical image of a [`CustomFile`].
pub struct FileView {
    pub content: Seq<char>,
    pub comment: Seq<char>,
    pub name: Seq<char>,
}

/// Mathematical image of a [`PasswordEntry`].
pub struct EntryView {
    pub id: Seq<char>,
    pub title: Seq<char>,
    pub name: Seq<char>,
    pub value: Seq<char>,
    pub url: Seq<char>,
    pub comment: Seq<char>,
    pub entry_type: EntryType,
    pub last_modified: Seq<char>,
    pub files: Seq<FileView>,
}

/// Mathematical image of a [`Config`].
pub struct ConfigView {
    pub comment: Seq<char>,
    pub author: Seq<char>,
}

/// Mathematical image of a [`DatabaseFile`].
pub struct DbView {
    pub entries: Seq<EntryView>,
    pub config: ConfigView,
    pub last_access: Seq<char>,
    pub password: Seq<char>,
}

/// The views of a list of attached files.
pub open spec fn files_view(fs: Seq<CustomFile>) -> Seq<FileView> {
    fs.map_values(|f: CustomFile| f@)
}

/// The views of a list of entries.
pub open spec fn entries_view(es: Seq<PasswordEntry>) -> Seq<EntryView> {
    es.map_values(|e: PasswordEntry| e@)
}

impl View for CustomFile {
    type V = FileView;

    open spec fn view(&self) -> FileView {
        FileView { content: self.content@, comment: self.comment@, name: self.name@ }
    }
}

impl View for PasswordEntry {
    type V = EntryView;

    open spec fn view(&self) -> EntryView {
        EntryView {
            id: self.id@,
            title: self.title@,
            name: self.name@,
            value: self.value@,
            url: self.url@,
            comment: self.comment@,
            entry_type: self.entry_type,
            last_modified: self.last_modified@,
            files: files_view(self.files@),
        }
    }
}

impl View for Config {
    type V = ConfigView;

    open spec fn view(&self) -> ConfigView {
        ConfigView { comment: self.comment@, author: self.author@ }
    }
}

impl View for DatabaseFile {
    type V = DbView;

    open spec fn view(&self) -> DbView {
        DbView {
            entries: entries_view(self.entries@),
            config: self.config@,
            last_access: self.last_access@,
            password: self.password@,
        }
    }
}

} // verus!
