use vstd::prelude::*;
use crate::json::{array, json_array, json_member, json_object, json_string, member, object,
    string_member, unreadable_path_message, unreadable_path_response, error_json};
use crate::text::{last_index_of, lemma_replaced_skips, lowercase, replace_all, replaced,
    rfind_char, str_eq, to_lowercase};

pub mod browse;

verus! {

// ---------------------------------------------------------------------------
// File categories
// ---------------------------------------------------------------------------

/// The extensions of each category, in the order they are tried.
pub open spec fn icon_table() -> Seq<(Seq<char>, Seq<Seq<char>>)> {
    seq![
        ("audio"@, seq!["test"@]),
        ("archive"@, seq!["test"@]),
        ("code"@, seq!["test"@]),
        ("default"@, seq!["test"@]),
        ("document"@, seq!["test"@]),
        ("image"@, seq!["png"@]),
        ("presentation"@, seq!["test"@]),
        ("pdf"@, seq!["test"@]),
        ("spreedsheet"@, seq!["test"@]),
        ("video"@, seq!["test"@]),
    ]
}

/// The first category of `table` that lists `ext`, else `default`.
pub open spec fn category_in(ext: Seq<char>, table: Seq<(Seq<char>, Seq<Seq<char>>)>) -> Seq<char>
    decreases table.len(),
{
    if table.len() == 0 {
        "default"@
    } else if table[0].1.contains(ext) {
        table[0].0
    } else {
        category_in(ext, table.drop_first())
    }
}

/// The icon of a file: from the lower-cased text after its last `.`, or
/// `default` when it has none.
pub open spec fn icon_for(file_name: Seq<char>) -> Seq<char> {
    match last_index_of(file_name, '.') {
        None => "default"@,
        Some(i) => category_in(lowercase(file_name.skip(i + 1)), icon_table()),
    }
}

/// The categories `get_icon` can answer.
pub open spec fn is_icon(s: Seq<char>) -> bool {
    ||| s == "audio"@
    ||| s == "archive"@
    ||| s == "code"@
    ||| s == "default"@
    ||| s == "document"@
    ||| s == "image"@
    ||| s == "presentation"@
    ||| s == "pdf"@
    ||| s == "spreedsheet"@
    ||| s == "video"@
}

proof fn lemma_category_in_table(ext: Seq<char>, table: Seq<(Seq<char>, Seq<Seq<char>>)>)
    requires
        forall|k: int| 0 <= k < table.len() ==> is_icon(#[trigger] table[k].0),
    ensures
        is_icon(category_in(ext, table)),
    decreases table.len(),
{
    if table.len() > 0 {
        assert(is_icon(table[0].0));
        assert forall|k: int| 0 <= k < table.drop_first().len() implies is_icon(
            #[trigger] table.drop_first()[k].0,
        ) by {
            assert(table.drop_first()[k] == table[k + 1]);
        }
        lemma_category_in_table(ext, table.drop_first());
    }
}

/// Every file gets one of the listed categories: audio, archive, code,
/// default, document, image, presentation, pdf, spreedsheet or video.
pub proof fn lemma_icon_is_listed(file_name: Seq<char>)
    ensures
        is_icon(icon_for(file_name)),
{
    let t = icon_table();
    assert forall|k: int| 0 <= k < t.len() implies is_icon(#[trigger] t[k].0) by {}
    match last_index_of(file_name, '.') {
        None => {},
        Some(i) => lemma_category_in_table(lowercase(file_name.skip(i + 1)), t),
    }
}

/// With no `.` after it, the `.` after `p` is the last `.` of the name.
proof fn lemma_last_dot(p: Seq<char>, q: Seq<char>)
    requires
        !q.contains('.'),
    ensures
        last_index_of(p.push('.') + q, '.') == Some(p.len() as int),
    decreases q.len(),
{
    let s = p.push('.') + q;
    if q.len() == 0 {
        assert(s == p.push('.'));
    } else {
        assert(s.last() == q.last());
        assert(q.last() != '.') by {
            if q.last() == '.' {
                assert(q.contains('.'));
            }
        }
        assert(!q.drop_last().contains('.')) by {
            if q.drop_last().contains('.') {
                let k = choose|k: int| 0 <= k < q.drop_last().len() && q.drop_last()[k] == '.';
                assert(q[k] == '.');
            }
        }
        assert(s.drop_last() == p.push('.') + q.drop_last());
        lemma_last_dot(p, q.drop_last());
    }
}

/// A name without `.` has no last `.`.
proof fn lemma_no_dot(s: Seq<char>)
    requires
        !s.contains('.'),
    ensures
        last_index_of(s, '.') is None,
    decreases s.len(),
{
    if s.len() > 0 {
        assert(s.last() != '.') by {
            if s.last() == '.' {
                assert(s[s.len() - 1] == '.');
            }
        }
        assert(!s.drop_last().contains('.')) by {
            if s.drop_last().contains('.') {
                let k = choose|k: int| 0 <= k < s.drop_last().len() && s.drop_last()[k] == '.';
                assert(s[k] == '.');
            }
        }
        lemma_no_dot(s.drop_last());
    }
}

/// The icon of a file depends only on the text after its last `.`: two
/// names that end in the same extension get the same icon.
pub proof fn lemma_icon_by_extension(p1: Seq<char>, p2: Seq<char>, q: Seq<char>)
    requires
        !q.contains('.'),
    ensures
        icon_for(p1.push('.') + q) == icon_for(p2.push('.') + q),
{
    lemma_last_dot(p1, q);
    lemma_last_dot(p2, q);
    assert((p1.push('.') + q).skip(p1.len() as int + 1) == q);
    assert((p2.push('.') + q).skip(p2.len() as int + 1) == q);
}

/// The category table: an extension `png` is an image, an extension `test`
/// is audio (the first category that lists it), and every other extension
/// (`jpg`, `txt`, none at all) falls back to `default`.
pub proof fn law_category_of_extension(ext: Seq<char>)
    ensures
        category_in(ext, icon_table()) == if ext == "png"@ {
            "image"@
        } else if ext == "test"@ {
            "audio"@
        } else {
            "default"@
        },
{
    reveal_with_fuel(category_in, 11);
    assert(seq!["test"@].contains(ext) <==> ext == "test"@) by {
        if seq!["test"@].contains(ext) {
            let k = choose|k: int| 0 <= k < 1 && seq!["test"@][k] == ext;
            assert(k == 0);
        }
        if ext == "test"@ {
            assert(seq!["test"@][0] == ext);
        }
    }
    assert(seq!["png"@].contains(ext) <==> ext == "png"@) by {
        if seq!["png"@].contains(ext) {
            let k = choose|k: int| 0 <= k < 1 && seq!["png"@][k] == ext;
            assert(k == 0);
        }
        if ext == "png"@ {
            assert(seq!["png"@][0] == ext);
        }
    }
    assert("png"@ != "test"@) by {
        reveal_strlit("png");
        reveal_strlit("test");
        assert("png"@[0] != "test"@[0]);
    }
}

/// A file gets the category of the lower-cased text after its last `.`
/// (`holiday.jpg` gets `default`, `photo.PNG` gets `image` where `png` is
/// the lower case of `PNG`), and a name with no `.` gets `default`.
pub proof fn law_icon_of_name(stem: Seq<char>, ext: Seq<char>, plain: Seq<char>)
    requires
        !ext.contains('.'),
        !plain.contains('.'),
    ensures
        icon_for(stem.push('.') + ext) == category_in(lowercase(ext), icon_table()),
        icon_for(plain) == "default"@,
{
    lemma_last_dot(stem, ext);
    assert((stem.push('.') + ext).skip(stem.len() as int + 1) == ext);
    lemma_no_dot(plain);
}

/// The table as values.
fn icon_table_exec() -> (t: Vec<(&'static str, Vec<&'static str>)>)
    ensures
        t@.len() == icon_table().len(),
        forall|k: int|
            0 <= k < t@.len() ==> (#[trigger] t@[k]).0@ == icon_table()[k].0 && t@[k].1@.len()
                == icon_table()[k].1.len() && forall|j: int|
                0 <= j < t@[k].1@.len() ==> (#[trigger] t@[k].1@[j])@ == icon_table()[k].1[j],
{
    let mut t: Vec<(&'static str, Vec<&'static str>)> = Vec::new();
    t.push(("audio", vec!["test"]));
    t.push(("archive", vec!["test"]));
    t.push(("code", vec!["test"]));
    t.push(("default", vec!["test"]));
    t.push(("document", vec!["test"]));
    t.push(("image", vec!["png"]));
    t.push(("presentation", vec!["test"]));
    t.push(("pdf", vec!["test"]));
    t.push(("spreedsheet", vec!["test"]));
    t.push(("video", vec!["test"]));
    t
}

/// The category of a file, from its extension, as the web page uses it to
/// choose an icon.
pub fn get_icon(file_name: &str) -> (r: String)
    ensures
        r@ == icon_for(file_name@),
{
    let idx = rfind_char(file_name, '.');
    match idx {
        None => String::from_str("default"),
        Some(i) => {
            let v = crate::text::chars_of(file_name);
            assert(i < v@.len());
            let ext_chars = crate::text::string_between(&v, i + 1, v.len());
            proof {
                assert(v@.subrange(i + 1, v@.len() as int) == file_name@.skip(i + 1));
                assert(icon_for(file_name@) == category_in(lowercase(file_name@.skip(i + 1)), icon_table()));
            }
            let ext = to_lowercase(ext_chars.as_str());
            let lists = icon_table_exec();
            let ghost table = icon_table();
            let n = lists.len();
            assert(table.skip(0) == table);
            for k in 0..n
                invariant
                    n == lists@.len(),
                    n == table.len(),
                    table == icon_table(),
                    forall|q: int|
                        0 <= q < lists@.len() ==> (#[trigger] lists@[q]).0@ == table[q].0
                            && lists@[q].1@.len() == table[q].1.len() && forall|j: int|
                            0 <= j < lists@[q].1@.len() ==> (#[trigger] lists@[q].1@[j])@
                                == table[q].1[j],
                    category_in(ext@, table) == category_in(ext@, table.skip(k as int)),
                    icon_for(file_name@) == category_in(ext@, table),
            {
                let ghost rest = table.skip(k as int);
                assert(rest[0] == table[k as int]);
                assert(rest.drop_first() == table.skip(k + 1));
                let entries = &lists[k].1;
                let m = entries.len();
                for j in 0..m
                    invariant
                        m == entries@.len(),
                        m == table[k as int].1.len(),
                        forall|q: int| 0 <= q < m ==> (#[trigger] entries@[q])@ == table[k as int].1[q],
                        forall|q: int| 0 <= q < j ==> table[k as int].1[q] != ext@,
                        category_in(ext@, table) == category_in(ext@, table.skip(k as int)),
                        rest == table.skip(k as int),
                        rest[0] == table[k as int],
                        table == icon_table(),
                        k < table.len(),
                        n == table.len(),
                        n == lists@.len(),
                        *entries == lists@[k as int].1,
                        lists@[k as int].0@ == table[k as int].0,
                        icon_for(file_name@) == category_in(ext@, table),
                {
                    if str_eq(ext.as_str(), entries[j]) {
                        assert(table[k as int].1[j as int] == ext@);
                        assert(rest[0].1.contains(ext@));
                        return String::from_str(lists[k].0);
                    }
                }
                assert(!rest[0].1.contains(ext@));
            }
            assert(table.skip(n as int).len() == 0);
            String::from_str("default")
        },
    }
}

// ---------------------------------------------------------------------------
// Directory listing
// ---------------------------------------------------------------------------

/// What the file system said of one directory entry.
#[derive(Clone, Copy, Debug, PartialEq, Eq, Structural)]
pub enum EntryKind {
    Directory,
    File,
}

/// One entry of a directory as read from the file system.
#[derive(Clone, Debug)]
pub struct DirEntryInfo {
    /// The entry's name; `None` when it is not valid UTF-8.
    pub name: Option<String>,
    /// The kind of entry; `None` when the entry or its type could not be read.
    pub kind: Option<EntryKind>,
    /// The size of a file as `pretty_bytes` writes it (such as `1.5 kB` or
    /// `12 B`); `None` when its metadata could not be read.
    pub size_text: Option<String>,
}

/// A folder in a listing.
pub struct FolderItem {
    pub name: String,
}

/// A file in a listing.
pub struct FileItem {
    pub name: String,
    pub size: String,
    pub icon: String,
}

/// A listing of a directory.
pub struct FileRespond {
    pub action: String,
    pub path: String,
    pub folders: Vec<FolderItem>,
    pub files: Vec<FileItem>,
}

/// The size shown for a file: `B` becomes `bytes`.
pub open spec fn size_label(size_text: Seq<char>) -> Seq<char> {
    replaced(size_text, " B"@, " bytes"@)
}

/// pretty_bytes writes a size as a number, a space and a unit. A size in
/// bytes (`0 B`, `512 B`) is shown as `0 bytes`, `512 bytes`; a size in
/// another unit (`1.5 kB`) is shown as it is.
pub proof fn law_size_label(number: Seq<char>, unit: Seq<char>)
    requires
        !number.contains(' '),
        !unit.contains(' '),
        unit.len() > 0,
    ensures
        size_label(number + " B"@) == number + " bytes"@,
        unit[0] != 'B' ==> size_label(number + seq![' '] + unit) == number + seq![' '] + unit,
{
    reveal_strlit(" B");
    reveal_strlit(" bytes");
    let pat = " B"@;
    let rep = " bytes"@;
    let e: Seq<char> = Seq::empty();
    lemma_replaced_skips(number, pat, pat, rep);
    assert(pat.take(2) == pat);
    assert(pat.skip(2) == e);
    assert(replaced(pat, pat, rep) == rep + replaced(e, pat, rep));
    assert(rep + e == rep);
    if unit[0] != 'B' {
        let t = seq![' '] + unit;
        lemma_replaced_skips(number, t, pat, rep);
        if 2 <= t.len() {
            assert(t.take(2)[1] == unit[0]);
            assert(t.take(2) != pat);
        }
        assert(t.drop_first() == unit);
        assert(!unit.contains(pat[0]));
        lemma_replaced_skips(unit, e, pat, rep);
        assert(unit + e == unit);
        assert(seq![' '] + unit == t);
        assert(number + seq![' '] + unit == number + t);
    }
}

impl FolderItem {
    /// A folder of the given name.
    pub fn from_name(folder_name: String) -> (r: FolderItem)
        ensures
            r.name@ == folder_name@,
    {
        FolderItem { name: folder_name }
    }
}

impl FileItem {
    /// A file of the given name and size (`size_text` as `pretty_bytes`
    /// writes the number of bytes).
    pub fn from(file_name: String, size_text: &str) -> (r: FileItem)
        ensures
            r.name@ == file_name@,
            r.icon@ == icon_for(file_name@),
            r.size@ == size_label(size_text@),
    {
        proof {
            reveal_strlit(" B");
        }
        FileItem {
            icon: get_icon(file_name.as_str()),
            name: file_name,
            size: replace_all(size_text, " B", " bytes"),
        }
    }

    /// A file whose size could not be read.
    pub fn from_name(file_name: String) -> (r: FileItem)
        ensures
            r.name@ == file_name@,
            r.size@ == Seq::<char>::empty(),
            r.icon@ == "default"@,
    {
        FileItem { name: file_name, size: String::new(), icon: String::from_str("default") }
    }
}

/// `{"name":<name>}`.
pub open spec fn folder_json(f: FolderItem) -> Seq<char> {
    json_object(seq![json_member("name"@, json_string(f.name@))])
}

/// `{"name":<name>,"size":<size>,"icon":<icon>}`.
pub open spec fn file_json(f: FileItem) -> Seq<char> {
    json_object(
        seq![
            json_member("name"@, json_string(f.name@)),
            json_member("size"@, json_string(f.size@)),
            json_member("icon"@, json_string(f.icon@)),
        ],
    )
}

/// The JSON text of a listing, its members in declaration order.
pub open spec fn respond_json(r: FileRespond) -> Seq<char> {
    json_object(
        seq![
            json_member("action"@, json_string(r.action@)),
            json_member("path"@, json_string(r.path@)),
            json_member(
                "folders"@,
                json_array(Seq::new(r.folders@.len(), |i: int| folder_json(r.folders@[i]))),
            ),
            json_member(
                "files"@,
                json_array(Seq::new(r.files@.len(), |i: int| file_json(r.files@[i]))),
            ),
        ],
    )
}

impl FolderItem {
    /// The JSON text of this folder.
    pub fn to_json(&self) -> (r: String)
        ensures
            r@ == folder_json(*self),
    {
        let mut members: Vec<String> = Vec::new();
        members.push(string_member("name", self.name.as_str()));
        assert(members.deep_view() =~= seq![json_member("name"@, json_string(self.name@))]);
        object(&members)
    }
}

impl FileItem {
    /// The JSON text of this file.
    pub fn to_json(&self) -> (r: String)
        ensures
            r@ == file_json(*self),
    {
        crate::json::object3(
            string_member("name", self.name.as_str()),
            string_member("size", self.size.as_str()),
            string_member("icon", self.icon.as_str()),
        )
    }
}

impl FileRespond {
    /// An empty listing.
    pub fn new() -> (r: FileRespond)
        ensures
            r.action@ == "sendFilelist"@,
            r.path@ == Seq::<char>::empty(),
            r.folders@.len() == 0,
            r.files@.len() == 0,
    {
        FileRespond {
            action: String::from_str("sendFilelist"),
            path: String::new(),
            folders: Vec::new(),
            files: Vec::new(),
        }
    }

    /// The JSON text of this listing.
    pub fn to_json(&self) -> (r: String)
        ensures
            r@ == respond_json(*self),
    {
        let ghost fj = Seq::new(self.folders@.len(), |i: int| folder_json(self.folders@[i]));
        let ghost gj = Seq::new(self.files@.len(), |i: int| file_json(self.files@[i]));
        let mut folders: Vec<String> = Vec::new();
        let n = self.folders.len();
        for i in 0..n
            invariant
                n == self.folders@.len(),
                fj == Seq::new(self.folders@.len(), |i: int| folder_json(self.folders@[i])),
                folders.deep_view() == fj.take(i as int),
        {
            let t = self.folders[i].to_json();
            let ghost before = folders.deep_view();
            folders.push(t);
            assert(folders.deep_view() =~= before.push(t@));
            assert(fj.take(i + 1) =~= fj.take(i as int).push(fj[i as int]));
        }
        assert(fj.take(n as int) == fj);
        let mut files: Vec<String> = Vec::new();
        let m = self.files.len();
        for i in 0..m
            invariant
                m == self.files@.len(),
                gj == Seq::new(self.files@.len(), |i: int| file_json(self.files@[i])),
                files.deep_view() == gj.take(i as int),
        {
            let t = self.files[i].to_json();
            let ghost before = files.deep_view();
            files.push(t);
            assert(files.deep_view() =~= before.push(t@));
            assert(gj.take(i + 1) =~= gj.take(i as int).push(gj[i as int]));
        }
        assert(gj.take(m as int) == gj);
        let mut members: Vec<String> = Vec::new();
        members.push(string_member("action", self.action.as_str()));
        members.push(string_member("path", self.path.as_str()));
        let fa = array(&folders);
        members.push(member("folders", fa.as_str()));
        let ga = array(&files);
        members.push(member("files", ga.as_str()));
        assert(members.deep_view() =~= seq![
            json_member("action"@, json_string(self.action@)),
            json_member("path"@, json_string(self.path@)),
            json_member("folders"@, json_array(fj)),
            json_member("files"@, json_array(gj)),
        ]);
        object(&members)
    }
}

/// The folder an entry adds to a listing, if any.
pub open spec fn entry_folder(e: DirEntryInfo) -> Seq<Seq<char>> {
    if e.kind == Some(EntryKind::Directory) && e.name is Some {
        seq![json_object(seq![json_member("name"@, json_string(e.name->Some_0@))])]
    } else {
        Seq::empty()
    }
}

/// The size shown for a file: `size_label` of its size, or nothing where
/// the size is unknown.
pub open spec fn size_shown(size_text: Option<Seq<char>>) -> Seq<char> {
    match size_text {
        Some(t) => size_label(t),
        None => Seq::empty(),
    }
}

/// The icon shown for a file: from its name, or `default` where its size is
/// unknown.
pub open spec fn icon_shown(name: Seq<char>, size_text: Option<Seq<char>>) -> Seq<char> {
    match size_text {
        Some(_) => icon_for(name),
        None => "default"@,
    }
}

/// The JSON text of a file entry.
pub open spec fn file_entry_json(name: Seq<char>, size_text: Option<Seq<char>>) -> Seq<char> {
    json_object(
        seq![
            json_member("name"@, json_string(name)),
            json_member("size"@, json_string(size_shown(size_text))),
            json_member("icon"@, json_string(icon_shown(name, size_text))),
        ],
    )
}

/// The file an entry adds to a listing, if any.
pub open spec fn entry_file(e: DirEntryInfo) -> Seq<Seq<char>> {
    if e.kind == Some(EntryKind::File) && e.name is Some {
        seq![
            file_entry_json(
                e.name->Some_0@,
                match e.size_text {
                    Some(t) => Some(t@),
                    None => None,
                },
            ),
        ]
    } else {
        Seq::empty()
    }
}

/// The folders of a listing, in the order the entries came.
pub open spec fn listed_folders(es: Seq<DirEntryInfo>) -> Seq<Seq<char>>
    decreases es.len(),
{
    if es.len() == 0 {
        Seq::empty()
    } else {
        listed_folders(es.drop_last()) + entry_folder(es.last())
    }
}

/// The files of a listing, in the order the entries came.
pub open spec fn listed_files(es: Seq<DirEntryInfo>) -> Seq<Seq<char>>
    decreases es.len(),
{
    if es.len() == 0 {
        Seq::empty()
    } else {
        listed_files(es.drop_last()) + entry_file(es.last())
    }
}

/// The listing of a directory read from the file system.
pub open spec fn listing_json(path_name: Seq<char>, es: Seq<DirEntryInfo>) -> Seq<char> {
    json_object(
        seq![
            json_member("action"@, json_string("sendFilelist"@)),
            json_member("path"@, json_string(path_name)),
            json_member("folders"@, json_array(listed_folders(es))),
            json_member("files"@, json_array(listed_files(es))),
        ],
    )
}

/// An entry that a listing shows as a file: its type is a file and its name
/// is readable, whatever its size.
pub open spec fn shows_file(e: DirEntryInfo) -> bool {
    e.kind == Some(EntryKind::File) && e.name is Some
}

/// An entry that a listing shows as a folder.
pub open spec fn shows_folder(e: DirEntryInfo) -> bool {
    e.kind == Some(EntryKind::Directory) && e.name is Some
}

/// How many of the entries are shown as files.
pub open spec fn file_count(es: Seq<DirEntryInfo>) -> nat
    decreases es.len(),
{
    if es.len() == 0 {
        0
    } else {
        file_count(es.drop_last()) + if shows_file(es.last()) {
            1nat
        } else {
            0nat
        }
    }
}

/// How many of the entries are shown as folders.
pub open spec fn folder_count(es: Seq<DirEntryInfo>) -> nat
    decreases es.len(),
{
    if es.len() == 0 {
        0
    } else {
        folder_count(es.drop_last()) + if shows_folder(es.last()) {
            1nat
        } else {
            0nat
        }
    }
}

/// A listing shows one file for every file entry with a readable name and
/// one folder for every such directory entry: nothing is left out and
/// nothing added.
pub proof fn law_listing_counts(es: Seq<DirEntryInfo>)
    ensures
        listed_files(es).len() == file_count(es),
        listed_folders(es).len() == folder_count(es),
    decreases es.len(),
{
    if es.len() > 0 {
        law_listing_counts(es.drop_last());
    }
}

/// The file entry at position `i` is shown, in the order of the entries,
/// with its name, its size (with `B` written as `bytes`, or nothing where it
/// is unknown) and its icon (`default` where its size is unknown).
pub proof fn law_file_entry_listed(es: Seq<DirEntryInfo>, i: int)
    requires
        0 <= i < es.len(),
        shows_file(es[i]),
    ensures
        file_count(es.take(i)) < listed_files(es).len(),
        listed_files(es)[file_count(es.take(i)) as int] == json_object(
            seq![
                json_member("name"@, json_string(es[i].name->Some_0@)),
                json_member(
                    "size"@,
                    json_string(
                        if es[i].size_text is Some {
                            replaced(es[i].size_text->Some_0@, " B"@, " bytes"@)
                        } else {
                            Seq::empty()
                        },
                    ),
                ),
                json_member(
                    "icon"@,
                    json_string(
                        if es[i].size_text is Some {
                            icon_for(es[i].name->Some_0@)
                        } else {
                            "default"@
                        },
                    ),
                ),
            ],
        ),
    decreases es.len(),
{
    let dl = es.drop_last();
    law_listing_counts(es);
    law_listing_counts(dl);
    if i == es.len() - 1 {
        assert(es.take(i) == dl);
        let e = es[i];
        let opt: Option<Seq<char>> = match e.size_text {
            Some(t) => Some(t@),
            None => None,
        };
        assert(entry_file(es.last()) == seq![file_entry_json(e.name->Some_0@, opt)]);
    } else {
        assert(dl.take(i) == es.take(i));
        assert(dl[i] == es[i]);
        law_file_entry_listed(dl, i);
    }
}

/// The folder entry at position `i` is shown, in the order of the entries,
/// with its name.
pub proof fn law_folder_entry_listed(es: Seq<DirEntryInfo>, i: int)
    requires
        0 <= i < es.len(),
        shows_folder(es[i]),
    ensures
        folder_count(es.take(i)) < listed_folders(es).len(),
        listed_folders(es)[folder_count(es.take(i)) as int] == json_object(
            seq![json_member("name"@, json_string(es[i].name->Some_0@))],
        ),
    decreases es.len(),
{
    let dl = es.drop_last();
    law_listing_counts(es);
    law_listing_counts(dl);
    if i == es.len() - 1 {
        assert(es.take(i) == dl);
    } else {
        assert(dl.take(i) == es.take(i));
        assert(dl[i] == es[i]);
        law_folder_entry_listed(dl, i);
    }
}

/// The answer to a request for the listing of `path_name`: `entries` is
/// what reading the directory gave, `None` when it could not be read.
pub fn get_file_respond(path_name: &str, entries: Option<&Vec<DirEntryInfo>>) -> (r: String)
    ensures
        r@ == match entries {
            None => error_json(unreadable_path_message(path_name@)),
            Some(es) => listing_json(path_name@, es@),
        },
{
    let entries = match entries {
        None => {
            return unreadable_path_response(path_name);
        },
        Some(es) => es,
    };
    let mut respond = FileRespond::new();
    respond.path = String::from_str(path_name);
    let n = entries.len();
    for i in 0..n
        invariant
            n == entries@.len(),
            respond.action@ == "sendFilelist"@,
            respond.path@ == path_name@,
            Seq::new(respond.folders@.len(), |k: int| folder_json(respond.folders@[k]))
                == listed_folders(entries@.take(i as int)),
            Seq::new(respond.files@.len(), |k: int| file_json(respond.files@[k]))
                == listed_files(entries@.take(i as int)),
    {
        let ghost es = entries@.take(i + 1);
        assert(es.drop_last() == entries@.take(i as int));
        assert(es.last() == entries@[i as int]);
        let ghost fb = Seq::new(respond.folders@.len(), |k: int| folder_json(respond.folders@[k]));
        let ghost gb = Seq::new(respond.files@.len(), |k: int| file_json(respond.files@[k]));
        let e = &entries[i];
        match (&e.kind, &e.name) {
            (Some(kind), Some(name)) => {
                assert(e.kind == Some(*kind) && e.name == Some(*name));
                if *kind == EntryKind::Directory {
                    let f = FolderItem::from_name(name.clone());
                    let ghost fjs = folder_json(f);
                    respond.folders.push(f);
                    assert(Seq::new(respond.folders@.len(), |k: int| folder_json(respond.folders@[k]))
                        =~= fb.push(fjs));
                    assert(Seq::new(respond.files@.len(), |k: int| file_json(respond.files@[k]))
                        =~= gb);
                } else {
                    let item = match &e.size_text {
                        Some(t) => {
                            assert(e.size_text == Some(*t));
                            FileItem::from(name.clone(), t.as_str())
                        },
                        None => FileItem::from_name(name.clone()),
                    };
                    let ghost gjs = file_json(item);
                    let ghost opt: Option<Seq<char>> = match es.last().size_text {
                        Some(t) => Some(t@),
                        None => None,
                    };
                    assert(item.size@ == size_shown(opt));
                    assert(gjs == file_entry_json(name@, opt));
                    assert(entry_file(es.last()) == seq![gjs]);
                    respond.files.push(item);
                    assert(Seq::new(respond.files@.len(), |k: int| file_json(respond.files@[k]))
                        =~= gb.push(gjs));
                    assert(Seq::new(respond.folders@.len(), |k: int| folder_json(respond.folders@[k]))
                        =~= fb);
                }
            },
            _ => {
                assert(listed_files(es) == listed_files(entries@.take(i as int)));
                assert(listed_folders(es) == listed_folders(entries@.take(i as int)));
            },
        }
    }
    assert(entries@.take(n as int) == entries@);
    respond.to_json()
}

} // verus!
