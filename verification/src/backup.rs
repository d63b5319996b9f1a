//! Backups of configuration files: where a copy of each file is kept, and the
//! report of a backup.

use vstd::prelude::*;
use crate::json::{
    JsonField, JsonValue, JsonView, NumberView, field, fields_view, insert_member, jnum, jstr, object,
    put_member, string_array, string_views,
};
use crate::text::{chars_of, concat2, decimal, decimal_spec, owned, replace_char, replace_char_spec, string_of};

verus! {

/// `/var/lib/ports/backups/{scope}/{ts}`: the directory of a backup taken at
/// `ts` seconds since the epoch.
pub open spec fn backup_dir_spec(scope: Seq<char>, ts: nat) -> Seq<char> {
    "/var/lib/ports/backups/"@ + scope + "/"@ + decimal_spec(ts)
}

pub fn backup_dir(scope: &str, ts: u64) -> (r: String)
    ensures
        r@ == backup_dir_spec(scope@, ts as nat),
{
    let mut r = concat2("/var/lib/ports/backups/", scope);
    r.append("/");
    let d = decimal(ts);
    r.append(d.as_str());
    r
}

/// The name under which a file is kept in a backup directory: its path with
/// each `/` written as `__`.
pub open spec fn stored_path_spec(dir: Seq<char>, path: Seq<char>) -> Seq<char> {
    dir + "/"@ + replace_char_spec(path, '/', "__"@)
}

pub fn stored_path(dir: &str, path: &str) -> (r: String)
    ensures
        r@ == stored_path_spec(dir@, path@),
{
    let p = chars_of(path);
    let rep = chars_of("__");
    let name = replace_char(p.as_slice(), '/', rep.as_slice());
    let name_s = string_of(name.as_slice());
    let mut r = concat2(dir, "/");
    r.append(name_s.as_str());
    r
}

/// The views of `(path, size)` pairs.
pub open spec fn sizes_view(v: Seq<(String, u64)>) -> Seq<(Seq<char>, nat)> {
    v.map_values(|e: (String, u64)| (e.0@, e.1 as nat))
}

/// The `checksums` member: for each copied file, in order, `{size}` under its
/// path; a path copied twice keeps its place and takes the later size.
pub open spec fn checksums_spec(copied: Seq<(Seq<char>, nat)>) -> Seq<(Seq<char>, JsonView)>
    decreases copied.len(),
{
    if copied.len() == 0 {
        seq![]
    } else {
        put_member(
            checksums_spec(copied.drop_last()),
            copied.last().0,
            JsonView::Object(seq![("size"@, JsonView::Number(NumberView::PosInt(copied.last().1)))]),
        )
    }
}

/// The size of the last copy of `path` among the copies made, if any.
pub open spec fn last_size(copied: Seq<(Seq<char>, nat)>, path: Seq<char>) -> Option<nat>
    decreases copied.len(),
{
    if copied.len() == 0 {
        None
    } else if copied.last().0 == path {
        Some(copied.last().1)
    } else {
        last_size(copied.drop_last(), path)
    }
}

/// The `checksums` of a backup report give, for each file, the size of its
/// last copy, and nothing for a file that was not copied.
pub proof fn law_checksums_give_last_size(copied: Seq<(Seq<char>, nat)>, path: Seq<char>)
    ensures
        crate::json::field_lookup(checksums_spec(copied), path) == match last_size(copied, path) {
            Some(n) => Some(JsonView::Object(seq![("size"@, JsonView::Number(NumberView::PosInt(n)))])),
            None => None::<JsonView>,
        },
    decreases copied.len(),
{
    if copied.len() > 0 {
        let prev = copied.drop_last();
        law_checksums_give_last_size(prev, path);
        crate::json::lemma_put_member_lookup(
            checksums_spec(prev),
            copied.last().0,
            JsonView::Object(seq![("size"@, JsonView::Number(NumberView::PosInt(copied.last().1)))]),
            path,
        );
    }
}

/// The report of a backup: its scope, its directory, the paths asked for, and
/// the size of each copy that was made.
pub open spec fn created_spec(
    scope: Seq<char>,
    dir: Seq<char>,
    paths: Seq<Seq<char>>,
    copied: Seq<(Seq<char>, nat)>,
) -> JsonView {
    JsonView::Object(
        seq![
            ("scope"@, JsonView::Str(scope)),
            ("remotePath"@, JsonView::Str(dir)),
            ("paths"@, JsonView::Array(paths.map_values(|s: Seq<char>| JsonView::Str(s)))),
            ("checksums"@, JsonView::Object(checksums_spec(copied))),
        ],
    )
}

fn size_entry(size: u64) -> (r: JsonValue)
    ensures
        r@ == JsonView::Object(seq![("size"@, JsonView::Number(NumberView::PosInt(size as nat)))]),
{
    let fs = vec![field("size", jnum(size))];
    let r = object(fs);
    assert(fields_view(fs@) =~= seq![("size"@, JsonView::Number(NumberView::PosInt(size as nat)))]);
    r
}

/// The report of a backup of `paths` into `dir`; `copied` holds, in order,
/// each file that was copied with the size of its copy.
pub fn create(scope: &str, dir: &str, paths: &Vec<String>, copied: &Vec<(String, u64)>) -> (r: JsonValue)
    ensures
        r@ == created_spec(scope@, dir@, string_views(paths@), sizes_view(copied@)),
{
    let mut sums: Vec<JsonField> = Vec::new();
    let n = copied.len();
    let mut i: usize = 0;
    while i < n
        invariant
            n == copied@.len(),
            i <= n,
            fields_view(sums@) == checksums_spec(sizes_view(copied@).subrange(0, i as int)),
        decreases n - i,
    {
        let ghost before = sizes_view(copied@).subrange(0, i as int);
        let ghost after = sizes_view(copied@).subrange(0, i + 1);
        assert(after.drop_last() =~= before);
        let entry = size_entry(copied[i].1);
        insert_member(&mut sums, copied[i].0.as_str(), entry);
        i = i + 1;
    }
    assert(sizes_view(copied@).subrange(0, n as int) =~= sizes_view(copied@));
    let ghost sv = fields_view(sums@);
    let fs = vec![
        field("scope", jstr(scope)),
        field("remotePath", jstr(dir)),
        field("paths", string_array(paths)),
        field("checksums", object(sums)),
    ];
    let r = object(fs);
    assert(fields_view(fs@) =~= seq![
        ("scope"@, JsonView::Str(scope@)),
        ("remotePath"@, JsonView::Str(dir@)),
        ("paths"@, JsonView::Array(string_views(paths@).map_values(|s: Seq<char>| JsonView::Str(s)))),
        ("checksums"@, JsonView::Object(sv)),
    ]);
    r
}

/// The copies a backup into `dir` makes: for each path, in order, the path
/// and its copy in `dir`, under the name a restore from `dir` reads it back
/// from. A path that does not exist is skipped.
pub fn copies(dir: &str, paths: &Vec<String>) -> (r: Vec<(String, String)>)
    ensures
        r@.len() == paths@.len(),
        forall|i: int| 0 <= i < paths@.len() ==> (#[trigger] r@[i]).0@ == paths@[i]@
            && r@[i].1@ == stored_path_spec(dir@, paths@[i]@),
{
    let mut r: Vec<(String, String)> = Vec::new();
    let n = paths.len();
    let mut i: usize = 0;
    while i < n
        invariant
            n == paths@.len(),
            i <= n,
            r@.len() == i,
            forall|k: int| 0 <= k < i ==> (#[trigger] r@[k]).0@ == paths@[k]@
                && r@[k].1@ == stored_path_spec(dir@, paths@[k]@),
        decreases n - i,
    {
        let dest = stored_path(dir, paths[i].as_str());
        r.push((owned(paths[i].as_str()), dest));
        i = i + 1;
    }
    r
}

/// The copies a restore makes: for each path, in order, its copy in the
/// backup at `remote_path` and the path itself. A copy that does not exist
/// is skipped.
pub fn restore(remote_path: &str, paths: &Vec<String>) -> (r: Vec<(String, String)>)
    ensures
        r@.len() == paths@.len(),
        forall|i: int| 0 <= i < paths@.len() ==> (#[trigger] r@[i]).0@ == stored_path_spec(remote_path@, paths@[i]@)
            && r@[i].1@ == paths@[i]@,
{
    let mut r: Vec<(String, String)> = Vec::new();
    let n = paths.len();
    let mut i: usize = 0;
    while i < n
        invariant
            n == paths@.len(),
            i <= n,
            r@.len() == i,
            forall|k: int| 0 <= k < i ==> (#[trigger] r@[k]).0@ == stored_path_spec(remote_path@, paths@[k]@)
                && r@[k].1@ == paths@[k]@,
        decreases n - i,
    {
        let src = stored_path(remote_path, paths[i].as_str());
        r.push((src, owned(paths[i].as_str())));
        i = i + 1;
    }
    r
}

/// The report of a restore.
pub fn restored() -> (r: JsonValue)
    ensures
        r@ == JsonView::Object(seq![("status"@, JsonView::Str("restored"@))]),
{
    let fs = vec![field("status", jstr("restored"))];
    let r = object(fs);
    assert(fields_view(fs@) =~= seq![("status"@, JsonView::Str("restored"@))]);
    r
}

} // verus!
