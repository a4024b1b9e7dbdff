use vstd::prelude::*;
use crate::files::{file_count, folder_count, get_icon, icon_for, shows_file, shows_folder,
    size_label, DirEntryInfo, EntryKind};
use crate::json::{array, error_json, json_array, json_member, json_object, json_string, member,
    object, object2, object3, string_member, unreadable_path_message, unreadable_path_response};
use crate::paths::{components, is_absolute, lemma_join_starts_with_base, path_join,
    path_starts_with, starts_with};
use crate::text::{opt_view, replace_all, replaced};

verus! {

/// How `htmlescape::encode_minimal` writes one character: `"`, `&`, `'`,
/// `<` and `>` become entities, every other character stays.
pub open spec fn html_escape_char(c: char) -> Seq<char> {
    if c == '"' {
        seq!['&', 'q', 'u', 'o', 't', ';']
    } else if c == '&' {
        seq!['&', 'a', 'm', 'p', ';']
    } else if c == '\'' {
        seq!['&', '#', 'x', '2', '7', ';']
    } else if c == '<' {
        seq!['&', 'l', 't', ';']
    } else if c == '>' {
        seq!['&', 'g', 't', ';']
    } else {
        seq![c]
    }
}

/// `s` with every character written by `html_escape_char`.
pub open spec fn html_escaped(s: Seq<char>) -> Seq<char>
    decreases s.len(),
{
    if s.len() == 0 {
        Seq::empty()
    } else {
        html_escaped(s.drop_last()) + html_escape_char(s.last())
    }
}

/// Escaped text holds no `<`, `>`, `"` or `'`: a name shown in the page
/// cannot open a tag or close an attribute.
pub proof fn law_html_escaped_safe(s: Seq<char>)
    ensures
        forall|k: int|
            0 <= k < html_escaped(s).len() ==> {
                let c = #[trigger] html_escaped(s)[k];
                c != '<' && c != '>' && c != '"' && c != '\''
            },
    decreases s.len(),
{
    if s.len() > 0 {
        law_html_escaped_safe(s.drop_last());
        let p = html_escaped(s.drop_last());
        let e = html_escape_char(s.last());
        assert(html_escaped(s) == p + e);
        assert forall|k: int| 0 <= k < html_escaped(s).len() implies {
            let c = #[trigger] html_escaped(s)[k];
            c != '<' && c != '>' && c != '"' && c != '\''
        } by {
            if k < p.len() {
                assert(html_escaped(s)[k] == p[k]);
            } else {
                assert(html_escaped(s)[k] == e[k - p.len()]);
            }
        }
    }
}

/// `htmlescape::encode_minimal`: replaces the five characters of its
/// `MINIMAL_ENTITIES` table (`"`, `&`, `'`, `<`, `>`) by their entities and
/// copies every other character.
#[verifier::external_body]
pub(crate) fn encode_minimal(s: &str) -> (r: String)
    ensures
        r@ == html_escaped(s@),
{
    htmlescape::encode_minimal(s)
}

/// Why two paths could not be joined securely.
#[derive(Clone, Copy, Debug, PartialEq, Eq, Structural)]
pub enum JoinError {
    /// The joined path could not be resolved (it does not exist, or cannot be read).
    Unresolved,
    /// The resolved path lies outside the first path.
    Traversal,
}

/// The outcome of joining a path securely onto a base, from the canonical
/// form of the base and the canonical form of the joined path (`None` where
/// either could not be resolved): the joined path when it lies inside the
/// base.
pub open spec fn join_outcome(canonical_first: Option<Seq<char>>, canonical_joined: Option<Seq<char>>) -> Result<Seq<char>, JoinError> {
    match (canonical_first, canonical_joined) {
        (Some(f), Some(c)) => if path_starts_with(c, f) {
            Ok(c)
        } else {
            Err(JoinError::Traversal)
        },
        _ => Err(JoinError::Unresolved),
    }
}

/// A secure join succeeds exactly when the canonical joined path lies
/// inside the canonical base, at any depth below it: its components are
/// those of the base followed by any others. Then it gives the canonical
/// joined path; otherwise it reports a traversal. Where either canonical path
/// is unknown, the joined path could not be resolved.
pub proof fn law_secure_join(base: Seq<char>, joined: Seq<char>)
    ensures
        join_outcome(Some(base), Some(joined)) is Ok <==> exists|rest: Seq<Seq<char>>|
            components(joined) == components(base) + rest,
        (exists|rest: Seq<Seq<char>>| components(joined) == components(base) + rest)
            ==> join_outcome(Some(base), Some(joined)) == Ok::<Seq<char>, JoinError>(joined),
        !(exists|rest: Seq<Seq<char>>| components(joined) == components(base) + rest)
            ==> join_outcome(Some(base), Some(joined)) == Err::<Seq<char>, JoinError>(
            JoinError::Traversal,
        ),
        join_outcome(None, Some(joined)) == Err::<Seq<char>, JoinError>(JoinError::Unresolved),
        join_outcome(Some(base), None) == Err::<Seq<char>, JoinError>(JoinError::Unresolved),
        join_outcome(None, None) == Err::<Seq<char>, JoinError>(JoinError::Unresolved),
{
    let cb = components(base);
    let cj = components(joined);
    if path_starts_with(joined, base) {
        let rest = cj.skip(cb.len() as int);
        assert(cj == cb + rest);
    }
    assert forall|rest: Seq<Seq<char>>| cj == cb + rest implies path_starts_with(joined, base) by {
        assert((cb + rest).take(cb.len() as int) == cb);
    }
}

/// A relative path joined onto the base (`docs`, `docs/2020`, at any
/// depth) that resolves to the joined path itself is accepted, and the
/// joined path is the result.
pub proof fn law_secure_join_below(base: Seq<char>, relative: Seq<char>)
    requires
        !is_absolute(relative),
    ensures
        join_outcome(Some(base), Some(path_join(base, relative))) == Ok::<Seq<char>, JoinError>(
            path_join(base, relative),
        ),
{
    lemma_join_starts_with_base(base, relative);
}

/// A first path joined with a second one, checked against path traversal.
/// `canonical_first` is the canonical form of the first path and
/// `canonical_joined` that of the two joined (`join_path`, then
/// `Path::canonicalize`); `None` where one could not be resolved. The result
/// is the canonical joined path, and only when it lies inside the first.
pub fn secure_join(canonical_first: Option<String>, canonical_joined: Option<String>) -> (r: Result<String, JoinError>)
    ensures
        match join_outcome(opt_view(canonical_first), opt_view(canonical_joined)) {
            Ok(c) => r matches Ok(p) && p@ == c,
            Err(e) => r == Err::<String, JoinError>(e),
        },
        r matches Ok(p) ==> canonical_first matches Some(f) && path_starts_with(p@, f@),
{
    match (canonical_first, canonical_joined) {
        (Some(f), Some(c)) => {
            if starts_with(c.as_str(), f.as_str()) {
                Ok(c)
            } else {
                Err(JoinError::Traversal)
            }
        },
        _ => Err(JoinError::Unresolved),
    }
}

/// A folder in a listing.
pub struct FolderItem {
    pub name: String,
}

/// A file in a listing.
pub struct FileItem {
    pub name: String,
    pub size: String,
    pub category: String,
}

/// A listing of a directory.
pub struct FileRespond {
    pub action: String,
    pub path: String,
    pub folders: Vec<FolderItem>,
    pub files: Vec<FileItem>,
}

impl FolderItem {
    /// A folder of the given name, HTML-escaped.
    pub fn from_name(folder_name: &str) -> (r: FolderItem)
        ensures
            r.name@ == html_escaped(folder_name@),
    {
        FolderItem { name: encode_minimal(folder_name) }
    }

    /// The JSON text of this folder.
    pub fn to_json(&self) -> (r: String)
        ensures
            r@ == json_object(seq![json_member("name"@, json_string(self.name@))]),
    {
        let mut members: Vec<String> = Vec::new();
        members.push(string_member("name", self.name.as_str()));
        assert(members.deep_view() =~= seq![json_member("name"@, json_string(self.name@))]);
        object(&members)
    }
}

impl FileItem {
    /// A file of the given name (HTML-escaped) and size (`size_text` as
    /// `pretty_bytes` writes the number of bytes), with its category.
    pub fn from(file_name: &str, size_text: &str) -> (r: FileItem)
        ensures
            r.category@ == icon_for(file_name@),
            r.name@ == html_escaped(file_name@),
            r.size@ == size_label(size_text@),
    {
        proof {
            reveal_strlit(" B");
        }
        FileItem {
            category: get_icon(file_name),
            name: encode_minimal(file_name),
            size: replace_all(size_text, " B", " bytes"),
        }
    }

    /// A file whose size could not be read.
    pub fn from_name(file_name: &str) -> (r: FileItem)
        ensures
            r.category@ == icon_for(file_name@),
            r.name@ == html_escaped(file_name@),
            r.size@ == Seq::<char>::empty(),
    {
        FileItem {
            category: get_icon(file_name),
            name: encode_minimal(file_name),
            size: String::new(),
        }
    }

    /// The JSON text of this file.
    pub fn to_json(&self) -> (r: String)
        ensures
            r@ == item_json(self.name@, self.size@, self.category@),
    {
        object3(
            string_member("name", self.name.as_str()),
            string_member("size", self.size.as_str()),
            string_member("category", self.category.as_str()),
        )
    }
}

/// `{"name":<name>,"size":<size>,"category":<category>}`.
pub open spec fn item_json(name: Seq<char>, size: Seq<char>, category: Seq<char>) -> Seq<char> {
    json_object(
        seq![
            json_member("name"@, json_string(name)),
            json_member("size"@, json_string(size)),
            json_member("category"@, json_string(category)),
        ],
    )
}

/// The JSON text of a listing.
pub open spec fn listing(path: Seq<char>, folders: Seq<Seq<char>>, files: Seq<Seq<char>>) -> Seq<
    char,
> {
    json_object(
        seq![
            json_member("action"@, json_string("sendFilelist"@)),
            json_member("path"@, json_string(path)),
            json_member("folders"@, json_array(folders)),
            json_member("files"@, json_array(files)),
        ],
    )
}

impl FileRespond {
    /// An empty listing of `path_name`, HTML-escaped.
    pub fn from_path(path_name: &str) -> (r: FileRespond)
        ensures
            r.action@ == "sendFilelist"@,
            r.path@ == html_escaped(path_name@),
            r.folders@.len() == 0,
            r.files@.len() == 0,
    {
        FileRespond {
            action: String::from_str("sendFilelist"),
            path: encode_minimal(path_name),
            folders: Vec::new(),
            files: Vec::new(),
        }
    }
}

/// The folder an entry adds to a listing, if any.
pub open spec fn entry_folder(e: DirEntryInfo) -> Seq<Seq<char>> {
    if e.kind == Some(EntryKind::Directory) && e.name is Some {
        seq![json_object(seq![json_member("name"@, json_string(html_escaped(e.name->Some_0@)))])]
    } else {
        Seq::empty()
    }
}

/// The size shown for a file entry.
pub open spec fn entry_size(e: DirEntryInfo) -> Seq<char> {
    match e.size_text {
        Some(t) => size_label(t@),
        None => Seq::empty(),
    }
}

/// The file an entry adds to a listing, if any.
pub open spec fn entry_file(e: DirEntryInfo) -> Seq<Seq<char>> {
    if e.kind == Some(EntryKind::File) && e.name is Some {
        seq![
            item_json(
                html_escaped(e.name->Some_0@),
                entry_size(e),
                icon_for(e.name->Some_0@),
            ),
        ]
    } else {
        Seq::empty()
    }
}

/// The folders of a listing, in the order the entries came.
pub open spec fn listed_folders(es: Seq<DirEntryInfo>) -> Seq<Seq<char>>
    decreases es.len(),
{
    if es.len() == 0 {
        Seq::empty()
    } else {
        listed_folders(es.drop_last()) + entry_folder(es.last())
    }
}

/// The files of a listing, in the order the entries came.
pub open spec fn listed_files(es: Seq<DirEntryInfo>) -> Seq<Seq<char>>
    decreases es.len(),
{
    if es.len() == 0 {
        Seq::empty()
    } else {
        listed_files(es.drop_last()) + entry_file(es.last())
    }
}

/// Every entry shown as a file adds exactly one file to the listing and
/// every entry shown as a folder exactly one folder, whatever its size: the
/// listing holds as many files and folders as there are such entries.
pub proof fn law_listing_counts(es: Seq<DirEntryInfo>)
    ensures
        listed_files(es).len() == file_count(es),
        listed_folders(es).len() == folder_count(es),
    decreases es.len(),
{
    if es.len() > 0 {
        law_listing_counts(es.drop_last());
    }
}

/// The file entry at position `i` is shown, in the order of the entries,
/// with its name HTML-escaped, its size (with `B` written as `bytes`, or
/// nothing where it is unknown) and the category of its name.
pub proof fn law_file_entry_listed(es: Seq<DirEntryInfo>, i: int)
    requires
        0 <= i < es.len(),
        shows_file(es[i]),
    ensures
        file_count(es.take(i)) < listed_files(es).len(),
        listed_files(es)[file_count(es.take(i)) as int] == json_object(
            seq![
                json_member("name"@, json_string(html_escaped(es[i].name->Some_0@))),
                json_member(
                    "size"@,
                    json_string(
                        if es[i].size_text is Some {
                            replaced(es[i].size_text->Some_0@, " B"@, " bytes"@)
                        } else {
                            Seq::empty()
                        },
                    ),
                ),
                json_member("category"@, json_string(icon_for(es[i].name->Some_0@))),
            ],
        ),
    decreases es.len(),
{
    let dl = es.drop_last();
    law_listing_counts(es);
    law_listing_counts(dl);
    if i == es.len() - 1 {
        assert(es.take(i) == dl);
    } else {
        assert(dl.take(i) == es.take(i));
        assert(dl[i] == es[i]);
        law_file_entry_listed(dl, i);
    }
}

/// The folder entry at position `i` is shown, in the order of the entries,
/// with its name HTML-escaped.
pub proof fn law_folder_entry_listed(es: Seq<DirEntryInfo>, i: int)
    requires
        0 <= i < es.len(),
        shows_folder(es[i]),
    ensures
        folder_count(es.take(i)) < listed_folders(es).len(),
        listed_folders(es)[folder_count(es.take(i)) as int] == json_object(
            seq![json_member("name"@, json_string(html_escaped(es[i].name->Some_0@)))],
        ),
    decreases es.len(),
{
    let dl = es.drop_last();
    law_listing_counts(es);
    law_listing_counts(dl);
    if i == es.len() - 1 {
        assert(es.take(i) == dl);
    } else {
        assert(dl.take(i) == es.take(i));
        assert(dl[i] == es[i]);
        law_folder_entry_listed(dl, i);
    }
}

/// The answer to a request for the listing of `path_end`: `entries` is what
/// reading the securely joined directory gave, `None` when the path could
/// not be joined securely or the directory could not be read. Names and the
/// path are HTML-escaped.
pub fn get_file_respond(path_end: &str, entries: Option<&Vec<DirEntryInfo>>) -> (r: String)
    ensures
        r@ == match entries {
            None => error_json(unreadable_path_message(path_end@)),
            Some(es) => listing(html_escaped(path_end@), listed_folders(es@), listed_files(es@)),
        },
{
    let entries = match entries {
        None => {
            return unreadable_path_response(path_end);
        },
        Some(es) => es,
    };
    let respond = FileRespond::from_path(path_end);
    let mut folders: Vec<String> = Vec::new();
    let mut files: Vec<String> = Vec::new();
    let n = entries.len();
    for i in 0..n
        invariant
            n == entries@.len(),
            folders.deep_view() == listed_folders(entries@.take(i as int)),
            files.deep_view() == listed_files(entries@.take(i as int)),
    {
        let ghost es = entries@.take(i + 1);
        assert(es.drop_last() == entries@.take(i as int));
        assert(es.last() == entries@[i as int]);
        let ghost fb = folders.deep_view();
        let ghost gb = files.deep_view();
        let e = &entries[i];
        match (&e.kind, &e.name) {
            (Some(kind), Some(name)) => {
                assert(e.kind == Some(*kind) && e.name == Some(*name));
                if *kind == EntryKind::Directory {
                    let f = FolderItem::from_name(name.as_str());
                    let t = f.to_json();
                    folders.push(t);
                    assert(folders.deep_view() =~= fb.push(t@));
                    assert(entry_folder(es.last()) == seq![t@]);
                    assert(entry_file(es.last()) =~= Seq::<Seq<char>>::empty());
                } else {
                    let item = match &e.size_text {
                        Some(t) => {
                            assert(e.size_text == Some(*t));
                            FileItem::from(name.as_str(), t.as_str())
                        },
                        None => FileItem::from_name(name.as_str()),
                    };
                    let t = item.to_json();
                    files.push(t);
                    assert(files.deep_view() =~= gb.push(t@));
                    assert(item.size@ == entry_size(es.last()));
                    assert(entry_file(es.last()) == seq![t@]);
                    assert(entry_folder(es.last()) =~= Seq::<Seq<char>>::empty());
                }
            },
            _ => {
                assert(entry_file(es.last()) =~= Seq::<Seq<char>>::empty());
                assert(entry_folder(es.last()) =~= Seq::<Seq<char>>::empty());
            },
        }
    }
    assert(entries@.take(n as int) == entries@);
    let fa = array(&folders);
    let ga = array(&files);
    let mut members: Vec<String> = Vec::new();
    members.push(string_member("action", respond.action.as_str()));
    members.push(string_member("path", respond.path.as_str()));
    members.push(member("folders", fa.as_str()));
    members.push(member("files", ga.as_str()));
    assert(members.deep_view() =~= seq![
        json_member("action"@, json_string("sendFilelist"@)),
        json_member("path"@, json_string(html_escaped(path_end@))),
        json_member("folders"@, json_array(listed_folders(entries@))),
        json_member("files"@, json_array(listed_files(entries@))),
    ]);
    object(&members)
}

/// What became of a request for a new folder.
#[derive(Clone, Debug)]
pub enum FolderCreation {
    /// The parent of the requested folder could not be joined securely with
    /// the shared directory.
    InvalidPath,
    /// Creating the folder failed, with the error's message.
    Failed(String),
    /// The folder was created.
    Created,
}

/// The answer to a request for a new folder.
pub open spec fn new_folder_json(outcome: FolderCreation) -> Seq<char> {
    match outcome {
        FolderCreation::InvalidPath => json_object(
            seq![
                json_member("action"@, json_string("sendNewFolder"@)),
                json_member("created"@, "false"@),
                json_member(
                    "message"@,
                    json_string("Cannot create new folder, because the path is invalid"@),
                ),
            ],
        ),
        FolderCreation::Failed(e) => json_object(
            seq![
                json_member("action"@, json_string("sendNewFolder"@)),
                json_member("created"@, "false"@),
                json_member(
                    "message"@,
                    json_string("Cannot create new folder.<br<br>Exact Error: "@ + e@),
                ),
            ],
        ),
        FolderCreation::Created => json_object(
            seq![
                json_member("action"@, json_string("sendNewFolder"@)),
                json_member("created"@, "true"@),
            ],
        ),
    }
}

/// The answer that tells whether the requested folder was created.
pub fn get_new_folder_respond(outcome: &FolderCreation) -> (r: String)
    ensures
        r@ == new_folder_json(*outcome),
{
    match outcome {
        FolderCreation::InvalidPath => object3(
            string_member("action", "sendNewFolder"),
            member("created", "false"),
            string_member("message", "Cannot create new folder, because the path is invalid"),
        ),
        FolderCreation::Failed(e) => {
            let mut m = String::from_str("Cannot create new folder.<br<br>Exact Error: ");
            m.append(e.as_str());
            object3(
                string_member("action", "sendNewFolder"),
                member("created", "false"),
                string_member("message", m.as_str()),
            )
        },
        FolderCreation::Created => object2(
            string_member("action", "sendNewFolder"),
            member("created", "true"),
        ),
    }
}

} // verus!

verus! {

/// The answer to a listing request, from what reading the directory gave
/// (`None` when it could not be read).
pub open spec fn listing_reply(path_end: Seq<char>, entries: Option<Seq<DirEntryInfo>>) -> Seq<char> {
    match entries {
        None => error_json(unreadable_path_message(path_end)),
        Some(es) => listing(html_escaped(path_end), listed_folders(es), listed_files(es)),
    }
}

/// The entries of an optional listing.
pub open spec fn entries_view(entries: Option<&Vec<DirEntryInfo>>) -> Option<Seq<DirEntryInfo>> {
    match entries {
        Some(es) => Some(es@),
        None => None,
    }
}

/// The answer to a request for the listing of `path_end` inside the shared
/// directory: the path is joined securely (from the canonical form of the
/// shared directory and of the joined path), and only a directory inside the
/// shared one is listed; `entries` is what reading it gave.
pub fn browse_answer(
    path_end: &str,
    canonical_base: Option<String>,
    canonical_joined: Option<String>,
    entries: Option<&Vec<DirEntryInfo>>,
) -> (r: String)
    ensures
        r@ == match join_outcome(opt_view(canonical_base), opt_view(canonical_joined)) {
            Ok(_) => listing_reply(path_end@, entries_view(entries)),
            Err(_) => error_json(unreadable_path_message(path_end@)),
        },
{
    match secure_join(canonical_base, canonical_joined) {
        Ok(_) => get_file_respond(path_end, entries),
        Err(_) => unreadable_path_response(path_end),
    }
}

/// The answer to a request for a new folder: the folder is created only when
/// the parent of the requested path joins securely onto the shared directory
/// (from the canonical form of the shared directory and of the joined
/// parent); `created` is what creating it gave, with the error's message.
pub fn new_folder_answer(
    canonical_base: Option<String>,
    canonical_parent: Option<String>,
    created: Result<(), String>,
) -> (r: String)
    ensures
        r@ == if join_outcome(opt_view(canonical_base), opt_view(canonical_parent)) is Ok {
            match created {
                Ok(()) => new_folder_json(FolderCreation::Created),
                Err(e) => new_folder_json(FolderCreation::Failed(e)),
            }
        } else {
            new_folder_json(FolderCreation::InvalidPath)
        },
{
    let outcome = match secure_join(canonical_base, canonical_parent) {
        Err(_) => FolderCreation::InvalidPath,
        Ok(_) => match created {
            Ok(()) => FolderCreation::Created,
            Err(e) => FolderCreation::Failed(e),
        },
    };
    get_new_folder_respond(&outcome)
}

} // verus!
