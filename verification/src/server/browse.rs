//! Picking files through the engine, which knows their real paths.

use vstd::prelude::*;

use crate::json::{Json, JsonNumber, JsonView, ObjectBuilder};
use crate::order::sort_by_text;
use crate::text::{blank, cat, from_chars, same, to_chars, to_lower};
#[allow(unused_imports)]
use crate::{json, order, text};

verus! {

/// Where to look.
#[derive(Debug)]
pub struct BrowseQuery {
    pub path: Option<String>,
}

/// What a look at the file system starts with.
#[derive(Debug, Clone, Copy, PartialEq, Eq, Structural)]
pub enum BrowsePlan {
    /// No path yet: offer the entry points.
    Roots,
    /// Look into the directory at the path.
    Directory,
}

/// Whether a query names a path.
pub open spec fn names_a_path(q: BrowseQuery) -> bool {
    q.path matches Some(p) && !text::is_blank(p@)
}

/// Decides where to look.
pub fn browse_plan(q: &BrowseQuery) -> (r: BrowsePlan)
    ensures
        r == (if names_a_path(*q) {
            BrowsePlan::Directory
        } else {
            BrowsePlan::Roots
        }),
{
    match &q.path {
        Some(p) => if blank(p.as_str()) {
            BrowsePlan::Roots
        } else {
            BrowsePlan::Directory
        },
        None => BrowsePlan::Roots,
    }
}

// ------------------------------------------------------------------ extensions

/// Position of the last dot that has something before it; `None` where there is none.
pub open spec fn last_dot(name: Seq<char>) -> Option<int>
    decreases name.len(),
{
    if name.len() <= 1 {
        None
    } else if name.last() == '.' {
        Some(name.len() - 1)
    } else {
        last_dot(name.drop_last())
    }
}

/// What is behind the last dot of a file name.
pub open spec fn extension_of(name: Seq<char>) -> Seq<char> {
    match last_dot(name) {
        Some(i) => name.skip(i + 1),
        None => Seq::empty(),
    }
}

/// What is before it.
pub open spec fn stem_before(name: Seq<char>) -> Seq<char> {
    match last_dot(name) {
        Some(i) => name.take(i),
        None => name,
    }
}

fn find_last_dot(v: &Vec<char>) -> (r: Option<usize>)
    ensures
        match r {
            Some(i) => last_dot(v@) == Some(i as int) && 0 < i < v@.len(),
            None => last_dot(v@) is None,
        },
{
    let mut n: usize = v.len();
    assert(v@.take(n as int) =~= v@);
    while n > 1
        invariant
            n <= v@.len(),
            last_dot(v@) == last_dot(v@.take(n as int)),
        decreases n,
    {
        if v[n - 1] == '.' {
            return Some(n - 1);
        }
        assert(v@.take(n as int).drop_last() =~= v@.take(n - 1));
        n = n - 1;
    }
    None
}

/// The stem and the extension of a file name.
pub fn split_name(name: &str) -> (r: (String, String))
    ensures
        r.0@ == stem_before(name@),
        r.1@ == extension_of(name@),
{
    let v = to_chars(name);
    match find_last_dot(&v) {
        Some(i) => {
            assert(i < v.len());
            let stem = from_chars(&v, 0, i);
            let ext = from_chars(&v, i + 1, v.len());
            assert(stem@ =~= v@.take(i as int));
            assert(ext@ =~= v@.skip(i + 1));
            (stem, ext)
        },
        None => {
            let none = String::new();
            assert(none@ =~= Seq::<char>::empty());
            (name.to_owned(), none)
        },
    }
}

/// The extensions of media files.
pub open spec fn is_media_ext(ext: Seq<char>) -> bool {
    ||| ext == "mp4"@
    ||| ext == "mkv"@
    ||| ext == "mov"@
    ||| ext == "avi"@
    ||| ext == "ts"@
    ||| ext == "mxf"@
    ||| ext == "mpg"@
    ||| ext == "mpeg"@
    ||| ext == "flv"@
    ||| ext == "wmv"@
    ||| ext == "webm"@
    ||| ext == "m4v"@
    ||| ext == "mp3"@
    ||| ext == "wav"@
    ||| ext == "aac"@
    ||| ext == "flac"@
}

/// The extensions of images.
pub open spec fn is_image_ext(ext: Seq<char>) -> bool {
    ||| ext == "png"@
    ||| ext == "jpg"@
    ||| ext == "jpeg"@
    ||| ext == "bmp"@
    ||| ext == "gif"@
    ||| ext == "webp"@
}

/// Whether OBS can play a file of this (lower-case) extension.
pub open spec fn is_playable_ext(ext: Seq<char>) -> bool {
    is_media_ext(ext) || is_image_ext(ext)
}

/// Whether OBS can play a file of this (lower-case) extension.
pub fn playable_ext(ext: &str) -> (r: bool)
    ensures
        r == is_playable_ext(ext@),
{
    same(ext, "mp4") || same(ext, "mkv") || same(ext, "mov") || same(ext, "avi") || same(ext, "ts")
        || same(ext, "mxf") || same(ext, "mpg") || same(ext, "mpeg") || same(ext, "flv") || same(
        ext,
        "wmv",
    ) || same(ext, "webm") || same(ext, "m4v") || same(ext, "mp3") || same(ext, "wav") || same(
        ext,
        "aac",
    ) || same(ext, "flac") || same(ext, "png") || same(ext, "jpg") || same(ext, "jpeg") || same(
        ext,
        "bmp",
    ) || same(ext, "gif") || same(ext, "webp")
}

/// The extension of a file name in lower case.
pub open spec fn lower_ext(name: Seq<char>) -> Seq<char> {
    text::lowercase(extension_of(name))
}

/// The extension of a file name in lower case.
pub fn ext_of(name: &str) -> (r: String)
    ensures
        r@ == lower_ext(name@),
{
    let (_, ext) = split_name(name);
    to_lower(ext.as_str())
}

// -------------------------------------------------------------------- listings

/// An entry of a directory.
#[derive(Debug)]
pub struct DirItem {
    pub name: String,
    pub path: String,
    pub is_dir: bool,
    pub size: u64,
}

/// The directories.
pub open spec fn a_dir() -> spec_fn(DirItem) -> bool {
    |e: DirItem| e.is_dir
}

/// The files that OBS can play.
pub open spec fn a_playable() -> spec_fn(DirItem) -> bool {
    |e: DirItem| !e.is_dir && is_playable_ext(lower_ext(e.name@))
}

/// The name of an entry.
pub open spec fn item_name() -> spec_fn(DirItem) -> Option<Seq<char>> {
    |e: DirItem| Some(e.name@)
}

/// How a directory is listed.
pub open spec fn dir_view(e: DirItem) -> JsonView {
    JsonView::Object(seq![("name"@, JsonView::Text(e.name@)), ("path"@, JsonView::Text(e.path@))])
}

/// How a file is listed.
pub open spec fn file_view(e: DirItem) -> JsonView {
    JsonView::Object(
        seq![
            ("name"@, JsonView::Text(e.name@)),
            ("path"@, JsonView::Text(e.path@)),
            ("size"@, JsonView::Number(JsonNumber::Unsigned(e.size))),
        ],
    )
}

/// How some directories are listed.
pub open spec fn dirs_view(s: Seq<DirItem>) -> JsonView {
    JsonView::Array(Seq::new(s.len(), |i: int| dir_view(s[i])))
}

/// How some files are listed.
pub open spec fn files_view(s: Seq<DirItem>) -> JsonView {
    JsonView::Array(Seq::new(s.len(), |i: int| file_view(s[i])))
}

/// A listing.
pub open spec fn listing_view(
    path: Seq<char>,
    parent: JsonView,
    dirs: JsonView,
    files: JsonView,
) -> JsonView {
    JsonView::Object(
        seq![
            ("path"@, JsonView::Text(path)),
            ("parent"@, parent),
            ("dirs"@, dirs),
            ("files"@, files),
        ],
    )
}

fn listing_of(path: &str, parent: Json, dirs: Json, files: Json) -> (r: ObjectBuilder)
    ensures
        JsonView::Object(r@) == listing_view(path@, parent@, dirs@, files@),
{
    let b = ObjectBuilder::new().with_text("path", path).with("parent", parent).with(
        "dirs",
        dirs,
    ).with("files", files);
    assert(b@ =~= listing_view(path@, parent@, dirs@, files@)->Object_0);
    b
}

fn empty_array() -> (r: Json)
    ensures
        r@ == JsonView::Array(Seq::empty()),
{
    let v: Vec<Json> = Vec::new();
    proof {
        json::array_view(v);
        assert(json::elements_view(v@) =~= Seq::empty());
    }
    Json::Array(v)
}

fn dir_array(items: &Vec<DirItem>) -> (r: Json)
    ensures
        r@ == dirs_view(items@),
{
    let mut out: Vec<Json> = Vec::new();
    let mut i: usize = 0;
    while i < items.len()
        invariant
            i <= items@.len(),
            out@.len() == i,
            forall|j: int| 0 <= j < i ==> (#[trigger] out@[j])@ == dir_view(items@[j]),
        decreases items@.len() - i,
    {
        let e = &items[i];
        let b = ObjectBuilder::new().with_text("name", e.name.as_str()).with_text(
            "path",
            e.path.as_str(),
        );
        assert(b@ =~= dir_view(*e)->Object_0);
        out.push(b.build());
        i = i + 1;
    }
    proof {
        json::array_view(out);
        assert(json::elements_view(out@) =~= dirs_view(items@)->Array_0);
    }
    Json::Array(out)
}

fn file_array(items: &Vec<DirItem>) -> (r: Json)
    ensures
        r@ == files_view(items@),
{
    let mut out: Vec<Json> = Vec::new();
    let mut i: usize = 0;
    while i < items.len()
        invariant
            i <= items@.len(),
            out@.len() == i,
            forall|j: int| 0 <= j < i ==> (#[trigger] out@[j])@ == file_view(items@[j]),
        decreases items@.len() - i,
    {
        let e = &items[i];
        let b = ObjectBuilder::new().with_text("name", e.name.as_str()).with_text(
            "path",
            e.path.as_str(),
        ).with_unsigned("size", e.size);
        assert(b@ =~= file_view(*e)->Object_0);
        out.push(b.build());
        i = i + 1;
    }
    proof {
        json::array_view(out);
        assert(json::elements_view(out@) =~= files_view(items@)->Array_0);
    }
    Json::Array(out)
}

/// An entry point under its own path.
pub open spec fn root_view(path: Seq<char>) -> JsonView {
    JsonView::Object(seq![("name"@, JsonView::Text(path)), ("path"@, JsonView::Text(path))])
}

/// Offers the entry points.
pub fn roots_listing(roots: &Vec<String>) -> (r: Json)
    ensures
        r@ == listing_view(
            ""@,
            JsonView::Null,
            JsonView::Array(Seq::new(roots@.len(), |i: int| root_view(roots@[i]@))),
            JsonView::Array(Seq::empty()),
        ),
{
    let mut out: Vec<Json> = Vec::new();
    let mut i: usize = 0;
    while i < roots.len()
        invariant
            i <= roots@.len(),
            out@.len() == i,
            forall|j: int| 0 <= j < i ==> (#[trigger] out@[j])@ == root_view(roots@[j]@),
        decreases roots@.len() - i,
    {
        let p = roots[i].as_str();
        let b = ObjectBuilder::new().with_text("name", p).with_text("path", p);
        assert(b@ =~= root_view(p@)->Object_0);
        out.push(b.build());
        i = i + 1;
    }
    proof {
        json::array_view(out);
        assert(json::elements_view(out@) =~= Seq::new(
            roots@.len(),
            |i: int| root_view(roots@[i]@),
        ));
    }
    listing_of("", Json::Null, Json::Array(out), empty_array()).build()
}

/// Says that a path is no directory.
pub fn invalid_listing(path: &str) -> (r: Json)
    ensures
        r@ == JsonView::Object(
            listing_view(
                path@,
                JsonView::Null,
                JsonView::Array(Seq::empty()),
                JsonView::Array(Seq::empty()),
            )->Object_0.push(("error"@, JsonView::Text("不是有效目录"@))),
        ),
{
    let b = listing_of(path, Json::Null, empty_array(), empty_array());
    b.with_text("error", "不是有效目录").build()
}

/// The directory above, where there is one.
pub open spec fn parent_view(parent: Option<String>) -> JsonView {
    json::opt_text_view(parent)
}

fn parent_json(parent: Option<String>) -> (r: Json)
    ensures
        r@ == parent_view(parent),
{
    match parent {
        Some(p) => Json::Text(p),
        None => Json::Null,
    }
}

fn sorted_by_name(items: Vec<DirItem>) -> (r: Vec<DirItem>)
    ensures
        order::text_sorted(items@, r@, item_name(), false),
{
    let mut keys: Vec<Option<String>> = Vec::new();
    let mut i: usize = 0;
    while i < items.len()
        invariant
            i <= items@.len(),
            keys@.len() == i,
            forall|j: int|
                0 <= j < i ==> text::opt_text(keys@[j]) == item_name()(#[trigger] items@[j]),
        decreases items@.len() - i,
    {
        keys.push(Some(items[i].name.clone()));
        i = i + 1;
    }
    sort_by_text(items, &keys, false)
}

/// Lists a directory: its directories, and of its files those that OBS can play, each
/// by name.
pub fn listing(path: &str, parent: Option<String>, entries: Vec<DirItem>) -> (r: Json)
    ensures
        exists|dirs: Seq<DirItem>, files: Seq<DirItem>|
            {
                &&& order::text_sorted(entries@.filter(a_dir()), dirs, item_name(), false)
                &&& order::text_sorted(entries@.filter(a_playable()), files, item_name(), false)
                &&& r@ == #[trigger] listing_view(
                    path@,
                    parent_view(parent),
                    dirs_view(dirs),
                    files_view(files),
                )
            },
{
    let ghost src = entries@;
    let mut rest = entries;
    let mut dirs: Vec<DirItem> = Vec::new();
    let mut files: Vec<DirItem> = Vec::new();
    let ghost mut n: int = 0;
    proof {
        assert(src.take(0) =~= Seq::<DirItem>::empty());
        assert(src.skip(0) =~= src);
        reveal(Seq::filter);
    }
    while rest.len() > 0
        invariant
            0 <= n <= src.len(),
            rest@ == src.skip(n),
            dirs@ == src.take(n).filter(a_dir()),
            files@ == src.take(n).filter(a_playable()),
        decreases rest@.len(),
    {
        let e = rest.remove(0);
        proof {
            assert(e == src[n]);
            assert(src.take(n + 1).drop_last() =~= src.take(n));
            assert(src.take(n + 1).last() == e);
            reveal(Seq::filter);
            assert(rest@ =~= src.skip(n + 1));
            n = n + 1;
        }
        if e.is_dir {
            dirs.push(e);
        } else if playable_ext(ext_of(e.name.as_str()).as_str()) {
            files.push(e);
        }
    }
    proof {
        assert(src.take(n) =~= src);
    }
    let dirs = sorted_by_name(dirs);
    let files = sorted_by_name(files);
    let out = listing_of(path, parent_json(parent), dir_array(&dirs), file_array(&files)).build();
    assert(out@ == listing_view(
        path@,
        parent_view(parent),
        dirs_view(dirs@),
        files_view(files@),
    ));
    out
}

/// The letters that a drive of a Windows machine can have.
pub open spec fn drive_letters() -> Seq<char> {
    "CDEFGHIJKLMNOPQRSTUVWXYZ"@
}

/// The drives that a Windows machine can have, as entry points.
pub fn drive_candidates() -> (r: Vec<String>)
    ensures
        r@.len() == drive_letters().len(),
        forall|i: int|
            0 <= i < r@.len() ==> (#[trigger] r@[i])@ == seq![drive_letters()[i]] + ":\\"@,
{
    let letters = to_chars("CDEFGHIJKLMNOPQRSTUVWXYZ");
    let mut out: Vec<String> = Vec::new();
    let mut i: usize = 0;
    while i < letters.len()
        invariant
            i <= letters@.len(),
            letters@ == drive_letters(),
            out@.len() == i,
            forall|j: int|
                0 <= j < i ==> (#[trigger] out@[j])@ == seq![drive_letters()[j]] + ":\\"@,
        decreases letters@.len() - i,
    {
        assert(i < letters.len());
        let letter = from_chars(&letters, i, i + 1);
        assert(letter@ =~= seq![letters@[i as int]]);
        out.push(cat(letter.as_str(), ":\\"));
        i = i + 1;
    }
    out
}

} // verus!
