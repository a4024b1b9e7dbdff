use thumbcloud::files::browse::{self, secure_join, FolderCreation, JoinError};
use thumbcloud::files::{get_file_respond, get_icon, DirEntryInfo, EntryKind, FileItem, FileRespond, FolderItem};

fn entry(name: &str, kind: Option<EntryKind>, size: Option<&str>) -> DirEntryInfo {
    DirEntryInfo { name: Some(name.to_string()), kind, size_text: size.map(|s| s.to_string()) }
}

#[test]
fn icons_by_extension() {
    assert_eq!(get_icon("photo.PNG"), "image");
    assert_eq!(get_icon(".png"), "image");
    assert_eq!(get_icon("a.test"), "audio");
    assert_eq!(get_icon("archive.tar"), "default");
    assert_eq!(get_icon("noext"), "default");
    assert_eq!(get_icon("a.png.txt"), "default");
}

#[test]
fn items_and_sizes() {
    let sz = pretty_bytes::converter::convert(12.0);
    let f = FileItem::from("a.png".to_string(), &sz);
    assert_eq!(f.size, "12 bytes");
    assert_eq!(f.icon, "image");
    let g = FileItem::from("b".to_string(), &pretty_bytes::converter::convert(1500.0));
    assert_eq!(g.size, "1.5 kB");
    let h = FileItem::from_name("c.png".to_string());
    assert_eq!((h.size.as_str(), h.icon.as_str()), ("", "default"));
    assert_eq!(FolderItem::from_name("d".to_string()).to_json(), "{\"name\":\"d\"}");
    let r = FileRespond::new();
    assert_eq!(r.to_json(), "{\"action\":\"sendFilelist\",\"path\":\"\",\"folders\":[],\"files\":[]}");
}

#[test]
fn listing_answer() {
    let entries = vec![
        entry("sub", Some(EntryKind::Directory), None),
        entry("a.png", Some(EntryKind::File), Some("1 kB")),
        entry("b.txt", Some(EntryKind::File), None),
        entry("broken", None, None),
        DirEntryInfo { name: None, kind: Some(EntryKind::File), size_text: None },
    ];
    assert_eq!(
        get_file_respond("docs", Some(&entries)),
        "{\"action\":\"sendFilelist\",\"path\":\"docs\",\"folders\":[{\"name\":\"sub\"}],\"files\":[{\"name\":\"a.png\",\"size\":\"1 kB\",\"icon\":\"image\"},{\"name\":\"b.txt\",\"size\":\"\",\"icon\":\"default\"}]}"
    );
    assert_eq!(
        get_file_respond("docs", None),
        "{\"action\":\"sendError\",\"message\":\"Cannot read the given path: \\\"docs\\\"\"}"
    );
}

fn some(s: &str) -> Option<String> {
    Some(s.to_string())
}

#[test]
fn secure_join_examples() {
    // secure_join("/home/", "flo") joins; secure_join("/home/", "../bin") does not.
    assert_eq!(secure_join(some("/home"), some("/home/flo")), Ok("/home/flo".to_string()));
    assert_eq!(secure_join(some("/home"), some("/bin")), Err(JoinError::Traversal));
    assert_eq!(secure_join(some("/home"), None), Err(JoinError::Unresolved));
    assert_eq!(secure_join(None, some("/home/flo")), Err(JoinError::Unresolved));
    assert_eq!(secure_join(some("/home"), some("/homes")), Err(JoinError::Traversal));
    // A share given as "." is compared in its canonical form.
    assert_eq!(secure_join(some("/work"), some("/work/src")), Ok("/work/src".to_string()));
}

#[test]
fn browse_answer_lists_only_inside() {
    let entries = vec![entry("a", Some(EntryKind::Directory), None)];
    assert_eq!(
        browse::browse_answer("x", some("/srv"), some("/srv/x"), Some(&entries)),
        "{\"action\":\"sendFilelist\",\"path\":\"x\",\"folders\":[{\"name\":\"a\"}],\"files\":[]}"
    );
    assert_eq!(
        browse::browse_answer("../etc", some("/srv"), some("/etc"), Some(&entries)),
        "{\"action\":\"sendError\",\"message\":\"Cannot read the given path: \\\"../etc\\\"\"}"
    );
    assert_eq!(
        browse::browse_answer("x", some("/srv"), some("/srv/x"), None),
        "{\"action\":\"sendError\",\"message\":\"Cannot read the given path: \\\"x\\\"\"}"
    );
}

#[test]
fn new_folder_answer_checks_the_parent() {
    assert_eq!(
        browse::new_folder_answer(some("/srv"), some("/srv/a"), Ok(())),
        "{\"action\":\"sendNewFolder\",\"created\":true}"
    );
    assert_eq!(
        browse::new_folder_answer(some("/srv"), some("/"), Ok(())),
        "{\"action\":\"sendNewFolder\",\"created\":false,\"message\":\"Cannot create new folder, because the path is invalid\"}"
    );
    assert_eq!(
        browse::new_folder_answer(some("/srv"), some("/srv"), Err("boom".to_string())),
        "{\"action\":\"sendNewFolder\",\"created\":false,\"message\":\"Cannot create new folder.<br<br>Exact Error: boom\"}"
    );
}

#[test]
fn html_escaping() {
    assert_eq!(browse::FolderItem::from_name("<em>Hej!</em>").name, "&lt;em&gt;Hej!&lt;/em&gt;");
    assert_eq!(browse::FolderItem::from_name("a&b'\"c").name, "a&amp;b&#x27;&quot;c");
}

#[test]
fn escaped_listing_answer() {
    let entries = vec![
        entry("<dir>", Some(EntryKind::Directory), None),
        entry("x&y.png", Some(EntryKind::File), Some("3 B")),
        entry("z", Some(EntryKind::File), None),
    ];
    assert_eq!(
        browse::get_file_respond("a<b", Some(&entries)),
        "{\"action\":\"sendFilelist\",\"path\":\"a&lt;b\",\"folders\":[{\"name\":\"&lt;dir&gt;\"}],\"files\":[{\"name\":\"x&amp;y.png\",\"size\":\"3 bytes\",\"category\":\"image\"},{\"name\":\"z\",\"size\":\"\",\"category\":\"default\"}]}"
    );
    let e = browse::get_file_respond("..", None);
    assert_eq!(e, "{\"action\":\"sendError\",\"message\":\"Cannot read the given path: \\\"..\\\"\"}");
}

#[test]
fn new_folder_answers() {
    assert_eq!(
        browse::get_new_folder_respond(&FolderCreation::Created),
        "{\"action\":\"sendNewFolder\",\"created\":true}"
    );
    assert_eq!(
        browse::get_new_folder_respond(&FolderCreation::InvalidPath),
        "{\"action\":\"sendNewFolder\",\"created\":false,\"message\":\"Cannot create new folder, because the path is invalid\"}"
    );
    assert_eq!(
        browse::get_new_folder_respond(&FolderCreation::Failed("File exists (os error 17)".to_string())),
        "{\"action\":\"sendNewFolder\",\"created\":false,\"message\":\"Cannot create new folder.<br<br>Exact Error: File exists (os error 17)\"}"
    );
}

#[test]
fn icons_are_always_listed_categories() {
    let listed = ["audio", "archive", "code", "default", "document", "image", "presentation", "pdf", "spreedsheet", "video"];
    for n in ["a.png", "b.TEST", "c", "d.", ".e", "f.g.h", "Ω.PNG"].iter() {
        assert!(listed.contains(&get_icon(n).as_str()));
    }
}

#[test]
fn icon_depends_only_on_the_extension() {
    for q in ["png", "PNG", "test", "txt", ""].iter() {
        for p in ["", "a", "x.y", "dir/file", "é"].iter() {
            assert_eq!(get_icon(&format!("{}.{}", p, q)), get_icon(&format!("x.{}", q)));
        }
    }
}
