use vstd::prelude::*;
use vstd::utf8::{decode_utf8, valid_utf8};
use std::string::FromUtf8Error;
use crate::files::browse::{join_outcome, secure_join, JoinError};
use crate::paths::{components, is_absolute, is_plain_name, join_path, last_component, last_name,
    lemma_body_no_sep, lemma_join_components, lemma_join_starts_with_base, lemma_starts_with_trans, parent_components, parent_or_empty,
    path_join, path_starts_with, plain_name};
use crate::text::{opt_view, str_eq, trim, trimmed};

verus! {

/// `std::string::FromUtf8Error`: carried, never looked into.
#[verifier::external_type_specification]
#[verifier::external_body]
pub struct ExFromUtf8Error(FromUtf8Error);

/// `String::from_utf8`: succeeds exactly on valid UTF-8, with the characters
/// the bytes encode.
#[verifier::external_body]
fn string_from_utf8(bytes: Vec<u8>) -> (r: Result<String, FromUtf8Error>)
    ensures
        r is Ok <==> valid_utf8(bytes@),
        r matches Ok(s) ==> s@ == decode_utf8(bytes@),
{
    String::from_utf8(bytes)
}

/// A parameter of the `Content-Disposition` header of an uploaded part.
#[derive(Clone, Debug)]
pub enum DispositionParam {
    /// `filename`, as raw bytes.
    Filename(Vec<u8>),
    /// Another parameter, by name and value.
    Ext(String, String),
}

/// Why an uploaded part cannot be saved.
#[derive(Debug)]
pub enum UploadError {
    /// The part names no file.
    NoValidFile,
    /// The file name is not valid UTF-8.
    NotUtf8(FromUtf8Error),
    /// The directory to save into does not exist.
    MissingDirectory,
    /// The file would land outside the shared directory.
    Traversal,
}

/// Where an uploaded part goes, before its directory is resolved.
pub struct UploadPlan {
    /// The shared directory joined with the directory the part names, joined
    /// with the file name.
    pub target: String,
    /// The directory the file lands in: the parent of `target`.
    pub parent: String,
    /// The last component of `target`: the name the file gets.
    pub name: String,
}

/// The bytes of the last `filename` parameter, or none.
pub open spec fn file_name_bytes(params: Seq<DispositionParam>) -> Seq<u8>
    decreases params.len(),
{
    if params.len() == 0 {
        Seq::empty()
    } else {
        match params.last() {
            DispositionParam::Filename(b) => b@,
            _ => file_name_bytes(params.drop_last()),
        }
    }
}

/// The directory of the last `name` parameter, trimmed, or none.
pub open spec fn upload_dir(params: Seq<DispositionParam>) -> Seq<char>
    decreases params.len(),
{
    if params.len() == 0 {
        Seq::empty()
    } else {
        match params.last() {
            DispositionParam::Ext(n, p) => if n@ == "name"@ {
                trimmed(p@)
            } else {
                upload_dir(params.drop_last())
            },
            _ => upload_dir(params.drop_last()),
        }
    }
}

/// A parameter that names the directory to save into.
pub open spec fn names_dir(p: DispositionParam) -> bool {
    p matches DispositionParam::Ext(n, _) && n@ == "name"@
}

/// The directory a part is saved into is the whole value of its last `name`
/// parameter, trimmed, however many components it has: whatever came before
/// it, and whatever follows that names no directory.
pub proof fn law_upload_dir_last(
    before: Seq<DispositionParam>,
    name: String,
    dir: String,
    after: Seq<DispositionParam>,
)
    requires
        name@ == "name"@,
        forall|k: int| 0 <= k < after.len() ==> !names_dir(#[trigger] after[k]),
    ensures
        upload_dir(before.push(DispositionParam::Ext(name, dir)) + after) == trimmed(dir@),
    decreases after.len(),
{
    let ps = before.push(DispositionParam::Ext(name, dir)) + after;
    if after.len() == 0 {
        assert(ps == before.push(DispositionParam::Ext(name, dir)));
        assert(ps.drop_last() == before);
    } else {
        assert(!names_dir(after.last()));
        assert(ps.last() == after.last());
        assert(ps.drop_last() == before.push(DispositionParam::Ext(name, dir)) + after.drop_last());
        assert forall|k: int| 0 <= k < after.drop_last().len() implies !names_dir(
            #[trigger] after.drop_last()[k],
        ) by {
            assert(after.drop_last()[k] == after[k]);
        }
        law_upload_dir_last(before, name, dir, after.drop_last());
    }
}

/// The name of the saved file is the value of the last `filename`
/// parameter, whatever came before it and whatever follows it.
pub proof fn law_file_name_last(
    before: Seq<DispositionParam>,
    bytes: Vec<u8>,
    after: Seq<DispositionParam>,
)
    requires
        forall|k: int| 0 <= k < after.len() ==> !(#[trigger] after[k] is Filename),
    ensures
        file_name_bytes(before.push(DispositionParam::Filename(bytes)) + after) == bytes@,
    decreases after.len(),
{
    let ps = before.push(DispositionParam::Filename(bytes)) + after;
    if after.len() == 0 {
        assert(ps == before.push(DispositionParam::Filename(bytes)));
    } else {
        assert(!(after.last() is Filename));
        assert(ps.last() == after.last());
        assert(ps.drop_last() == before.push(DispositionParam::Filename(bytes)) + after.drop_last());
        assert forall|k: int| 0 <= k < after.drop_last().len() implies !(
        #[trigger] after.drop_last()[k] is Filename) by {
            assert(after.drop_last()[k] == after[k]);
        }
        law_file_name_last(before, bytes, after.drop_last());
    }
}

/// What an uploaded part asks for: the shared directory `base` joined with
/// the directory of the `name` parameter, joined with the `filename`; with
/// the parent of that path and its last component.
pub fn upload_target(params: Option<&Vec<DispositionParam>>, base: &str) -> (r: Result<
    UploadPlan,
    UploadError,
>)
    ensures
        params is None ==> (r matches Err(UploadError::NoValidFile)),
        params matches Some(ps) ==> {
            let bytes = file_name_bytes(ps@);
            &&& bytes.len() == 0 ==> (r matches Err(UploadError::NoValidFile))
            &&& bytes.len() > 0 && !valid_utf8(bytes) ==> (r matches Err(UploadError::NotUtf8(_)))
            &&& bytes.len() > 0 && valid_utf8(bytes) ==> (r matches Ok(plan) && plan.target@
                == path_join(path_join(base@, upload_dir(ps@)), decode_utf8(bytes)) && components(
                plan.parent@,
            ) == parent_components(components(plan.target@)) && plan.name@ == last_name(
                plan.target@,
            ))
        },
{
    let params = match params {
        None => {
            return Err(UploadError::NoValidFile);
        },
        Some(ps) => ps,
    };
    let mut file_name: Vec<u8> = Vec::new();
    let mut file_path = String::new();
    let n = params.len();
    for i in 0..n
        invariant
            n == params@.len(),
            file_name@ == file_name_bytes(params@.take(i as int)),
            file_path@ == upload_dir(params@.take(i as int)),
    {
        let ghost ps = params@.take(i + 1);
        assert(ps.drop_last() == params@.take(i as int));
        assert(ps.last() == params@[i as int]);
        match &params[i] {
            DispositionParam::Filename(a) => {
                file_name = a.clone();
                assert(file_name@ == a@);
            },
            DispositionParam::Ext(name, path) => {
                if str_eq(name.as_str(), "name") {
                    file_path = trim(path.as_str());
                }
            },
        }
    }
    assert(params@.take(n as int) == params@);
    if file_name.len() == 0 {
        return Err(UploadError::NoValidFile);
    }
    let file_name = match string_from_utf8(file_name) {
        Ok(s) => s,
        Err(e) => {
            return Err(UploadError::NotUtf8(e));
        },
    };
    let dir = join_path(base, file_path.as_str());
    let target = join_path(dir.as_str(), file_name.as_str());
    let parent = parent_or_empty(target.as_str());
    let name = last_component(target.as_str());
    Ok(UploadPlan { target, parent, name })
}

/// A file is saved directly inside the resolved directory: its path has the
/// components of the directory followed by its own name, which is a real
/// name (not `.`, not `..`, no separator), so it never climbs out of the
/// directory.
pub proof fn law_saved_below_dir(dir: Seq<char>, name: Seq<char>)
    requires
        dir.len() > 0,
        is_plain_name(name),
    ensures
        components(path_join(dir, name)) == components(dir).push(name),
        last_name(path_join(dir, name)) == name,
        name != seq!['.', '.'] && name != seq!['.'] && name.len() > 0 && !name.contains('/'),
{
    assert(!is_absolute(name)) by {
        if is_absolute(name) {
            assert(name.contains('/'));
        }
    }
    lemma_join_components(dir, name);
    lemma_body_no_sep(name, Seq::empty());
    assert(Seq::<char>::empty() + name == name);
}

/// Where an uploaded part is saved, from the canonical form of the shared
/// directory and of the planned parent directory (`None` where one could not
/// be resolved): the file gets its last name in the canonical parent, and
/// only when that directory lies inside the shared one. A last name that is
/// no plain name (`..`, `.` or the root) names no file that can be created.
pub fn upload_destination(
    plan: &UploadPlan,
    canonical_base: Option<String>,
    canonical_dir: Option<String>,
) -> (r: Result<String, UploadError>)
    ensures
        match join_outcome(opt_view(canonical_base), opt_view(canonical_dir)) {
            Ok(d) => if is_plain_name(plan.name@) {
                r matches Ok(p) && p@ == path_join(d, plan.name@)
            } else {
                r matches Err(UploadError::Traversal)
            },
            Err(JoinError::Unresolved) => r matches Err(UploadError::MissingDirectory),
            Err(JoinError::Traversal) => r matches Err(UploadError::Traversal),
        },
        r matches Ok(p) ==> canonical_base matches Some(b) && path_starts_with(p@, b@),
{
    let base = canonical_base.clone();
    match secure_join(canonical_base, canonical_dir) {
        Err(JoinError::Unresolved) => Err(UploadError::MissingDirectory),
        Err(JoinError::Traversal) => Err(UploadError::Traversal),
        Ok(d) => {
            if plain_name(plan.name.as_str()) {
                let p = join_path(d.as_str(), plan.name.as_str());
                proof {
                    let n = plan.name@;
                    assert(!is_absolute(n)) by {
                        if is_absolute(n) {
                            assert(n.contains('/'));
                        }
                    }
                    lemma_join_starts_with_base(d@, n);
                    lemma_starts_with_trans(p@, d@, base->Some_0@);
                }
                Ok(p)
            } else {
                Err(UploadError::Traversal)
            }
        },
    }
}

/// The number of bytes written once a chunk of `chunk_len` bytes is written
/// after `acc` bytes.
pub fn written_total(acc: i64, chunk_len: usize) -> (r: i64)
    requires
        acc + chunk_len <= i64::MAX,
        chunk_len <= i64::MAX,
    ensures
        r == acc + chunk_len,
{
    acc + chunk_len as i64
}

} // verus!
