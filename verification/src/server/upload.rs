//! Taking in a media file that was picked in the browser.
//!
//! A browser never reveals where a file is, so the file itself is sent and stored next
//! to the configuration: a path that is known to exist.

use vstd::prelude::*;
use vstd::utf8::{decode_utf8, valid_utf8};

use super::browse::{ext_of, playable_ext, split_name};
use super::{
    header_text, ok_answer, require_token, Refusal, BAD_REQUEST, PAYLOAD_TOO_LARGE,
};
use crate::json::{Json, JsonNumber, JsonView};
use crate::paths::{beside_config, join};
use crate::text::{blank, fmt_u64};
#[allow(unused_imports)]
use super::browse;
#[allow(unused_imports)]
use crate::{paths, server, text};

verus! {

// ------------------------------------------------------------ percent-decoding

/// The value of a hexadecimal digit.
pub open spec fn hex_value(c: u8) -> Option<u8> {
    if 48 <= c <= 57 {
        Some((c - 48) as u8)
    } else if 97 <= c <= 102 {
        Some((c - 87) as u8)
    } else if 65 <= c <= 70 {
        Some((c - 55) as u8)
    } else {
        None
    }
}

/// The value of a hexadecimal digit.
pub fn hex_val(c: u8) -> (r: Option<u8>)
    ensures
        r == hex_value(c),
{
    if 48 <= c && c <= 57 {
        Some(c - 48)
    } else if 97 <= c && c <= 102 {
        Some(c - 87)
    } else if 65 <= c && c <= 70 {
        Some(c - 55)
    } else {
        None
    }
}

/// The bytes that a percent-encoded text stands for. What is no escape stands for
/// itself.
pub open spec fn unescaped(b: Seq<u8>) -> Seq<u8>
    decreases b.len(),
{
    if b.len() == 0 {
        Seq::empty()
    } else if b[0] == 37 && b.len() > 2 && hex_value(b[1]) is Some && hex_value(b[2]) is Some {
        seq![(hex_value(b[1])->0 * 16 + hex_value(b[2])->0) as u8] + unescaped(b.skip(3))
    } else {
        seq![b[0]] + unescaped(b.skip(1))
    }
}

/// The text that some bytes stand for.
pub uninterp spec fn lossy_text(bytes: Seq<u8>) -> Seq<char>;

/// `String::from_utf8_lossy`: the text depends on the bytes alone; where they are valid
/// UTF-8 it is the text that they encode.
#[verifier::external_body]
fn from_utf8_lossy(bytes: &[u8]) -> (r: String)
    ensures
        r@ == lossy_text(bytes@),
        valid_utf8(bytes@) ==> r@ == decode_utf8(bytes@),
{
    String::from_utf8_lossy(bytes).to_string()
}

fn unescape(b: &[u8]) -> (r: Vec<u8>)
    ensures
        r@ == unescaped(b@),
{
    let mut out: Vec<u8> = Vec::new();
    let mut i: usize = 0;
    assert(b@.skip(0) =~= b@);
    assert(out@ + unescaped(b@) =~= unescaped(b@));
    while i < b.len()
        invariant
            i <= b@.len(),
            out@ + unescaped(b@.skip(i as int)) == unescaped(b@),
        decreases b@.len() - i,
    {
        let ghost before = out@;
        let ghost rest = b@.skip(i as int);
        if b[i] == 37 && b.len() - i > 2 {
            if let (Some(h), Some(l)) = (hex_val(b[i + 1]), hex_val(b[i + 2])) {
                out.push(h * 16 + l);
                proof {
                    assert(rest[1] == b@[i + 1]);
                    assert(rest[2] == b@[i + 2]);
                    assert(rest.skip(3) =~= b@.skip(i + 3));
                    assert(out@ + unescaped(rest.skip(3)) =~= before + unescaped(rest));
                }
                i = i + 3;
                continue ;
            }
        }
        out.push(b[i]);
        proof {
            assert(rest[0] == b@[i as int]);
            assert(rest.len() > 2 ==> rest[1] == b@[i + 1] && rest[2] == b@[i + 2]);
            assert(rest.skip(1) =~= b@.skip(i + 1));
            assert(out@ + unescaped(rest.skip(1)) =~= before + unescaped(rest));
        }
        i = i + 1;
    }
    assert(b@.skip(i as int) =~= Seq::<u8>::empty());
    assert(out@ + Seq::<u8>::empty() =~= out@);
    out
}

/// The text that a percent-encoded header stands for.
pub open spec fn percent_decoded(s: Seq<char>) -> Seq<char> {
    let bytes = unescaped(vstd::utf8::encode_utf8(s));
    if valid_utf8(bytes) {
        decode_utf8(bytes)
    } else {
        lossy_text(bytes)
    }
}

/// Percent-decoding for the header with the file name, which can hold no other letters
/// than plain ones.
pub fn percent_decode(s: &str) -> (r: String)
    ensures
        r@ == percent_decoded(s@),
{
    let bytes = unescape(s.as_bytes());
    from_utf8_lossy(bytes.as_slice())
}

/// A hexadecimal digit.
pub open spec fn hex_digit(n: int) -> u8 {
    if n < 10 {
        (48 + n) as u8
    } else {
        (55 + n) as u8
    }
}

/// Some bytes with every one of them escaped.
pub open spec fn escaped(b: Seq<u8>) -> Seq<u8>
    decreases b.len(),
{
    if b.len() == 0 {
        Seq::empty()
    } else {
        seq![37u8, hex_digit(b[0] as int / 16), hex_digit(b[0] as int % 16)] + escaped(b.skip(1))
    }
}

/// Decoding gives back what was encoded.
pub proof fn escapes_are_undone(b: Seq<u8>)
    ensures
        unescaped(escaped(b)) == b,
    decreases b.len(),
{
    if b.len() > 0 {
        let e = escaped(b);
        escapes_are_undone(b.skip(1));
        assert(e.skip(3) =~= escaped(b.skip(1)));
        assert(e[0] == 37);
        assert(e[1] == hex_digit(b[0] as int / 16));
        assert(e[2] == hex_digit(b[0] as int % 16));
        assert(seq![b[0]] + b.skip(1) =~= b);
    } else {
        assert(b =~= Seq::empty());
    }
}

/// A text without a percent sign stands for itself.
pub proof fn plain_text_is_kept(b: Seq<u8>)
    requires
        !b.contains(37),
    ensures
        unescaped(b) == b,
    decreases b.len(),
{
    if b.len() > 0 {
        assert(b.contains(b[0]));
        let rest = b.skip(1);
        assert forall|i: int| 0 <= i < rest.len() implies rest[i] != 37 by {
            assert(b.contains(b[i + 1]));
        }
        plain_text_is_kept(rest);
        assert(seq![b[0]] + rest =~= b);
    } else {
        assert(b =~= Seq::empty());
    }
}

// ---------------------------------------------------------------------- checks

/// The largest file that is taken in: the whole of it is held in memory.
pub const MAX_UPLOAD_BYTES: u64 = 4_294_967_296;

/// What is behind the last slash of a path.
pub open spec fn last_part(path: Seq<char>) -> Seq<char>
    decreases path.len(),
{
    if path.len() == 0 || path.last() == '/' {
        Seq::empty()
    } else {
        last_part(path.drop_last()).push(path.last())
    }
}

/// A path without what stands for nothing at its end: slashes, and dots behind a slash.
pub open spec fn without_idle_end(path: Seq<char>) -> Seq<char>
    decreases path.len(),
{
    if path.len() > 0 && path.last() == '/' {
        without_idle_end(path.drop_last())
    } else if path.len() > 1 && path.last() == '.' && path[path.len() - 2] == '/' {
        without_idle_end(path.drop_last())
    } else {
        path
    }
}

/// What is behind the last slash of a path, once nothing idle is at its end. The root, a
/// lone dot and a path that ends in two dots have no name.
pub open spec fn plain_name(path: Seq<char>) -> Option<Seq<char>> {
    let p = without_idle_end(path);
    if p.len() == 0 || p == "."@ || last_part(p) == ".."@ {
        None
    } else {
        Some(last_part(p))
    }
}

/// A path with slashes in the place of backslashes.
pub open spec fn slashed(path: Seq<char>) -> Seq<char> {
    path.map_values(
        |c: char|
            if c == '\\' {
                '/'
            } else {
                c
            },
    )
}

/// Whether a path starts with a drive: a letter and a colon.
pub open spec fn has_drive(path: Seq<char>) -> bool {
    path.len() > 1 && path[1] == ':' && ('a' <= path[0] <= 'z' || 'A' <= path[0] <= 'Z')
}

/// Whether `name` can be the file name of a path on Windows, where a backslash parts
/// components as a slash does and a drive is none. Two slashes in front can start the name
/// of a server and its share, which is no file.
pub open spec fn names_file_on_windows(path: Seq<char>, name: Option<Seq<char>>) -> bool {
    let p = slashed(path);
    if p.len() > 1 && p[0] == '/' && p[1] == '/' {
        name is None || name == plain_name(p)
    } else if has_drive(p) {
        name == plain_name(p.skip(2))
    } else {
        name == plain_name(p)
    }
}

/// Whether `name` can be the file name of `path`. It is a part of the path and not empty,
/// slashes alone have none, and it is what one platform or the other makes of the path. A
/// path without a backslash, a drive and two slashes in front means the same on all of them.
pub open spec fn names_file(path: Seq<char>, name: Option<Seq<char>>) -> bool {
    &&& name matches Some(n) ==> n.len() > 0 && text::has_part(path, n)
    &&& (forall|i: int| 0 <= i < path.len() ==> #[trigger] path[i] == '/') ==> name is None
    &&& !paths::is_verbatim(path) ==> name == plain_name(path) || names_file_on_windows(path, name)
}

/// `std::path::Path::file_name`: the last component of a path, and nothing for the root,
/// for `.` and for a path that ends in `..`. Slashes and `/.` at the end do not count.
/// Whether a backslash parts components, and whether a drive or a server is one, rests on
/// the platform. Of a path with the verbatim prefix of Windows only is said that the name is
/// a part of it.
#[verifier::external_body]
fn file_name(path: &str) -> (r: Option<String>)
    ensures
        names_file(path@, text::opt_text(r)),
{
    std::path::Path::new(path).file_name().map(|s| s.to_string_lossy().to_string())
}

/// The name, or nothing.
pub open spec fn name_or_nothing(name: Option<Seq<char>>) -> Seq<char> {
    match name {
        Some(n) => n,
        None => ""@,
    }
}

/// Why a file of this name and size is not taken in; `None` where it is.
pub open spec fn upload_problem(name: Option<Seq<char>>, size: u64) -> Option<(u16, Seq<char>)> {
    let n = name_or_nothing(name);
    if text::is_blank(n) {
        Some((BAD_REQUEST, "缺少文件名 (X-File-Name)"@))
    } else if !browse::is_playable_ext(browse::lower_ext(n)) {
        Some(
            (
                BAD_REQUEST,
                "不支持的文件类型："@ + browse::lower_ext(n) + "（仅支持视频/图片/音频）"@,
            ),
        )
    } else if size > MAX_UPLOAD_BYTES {
        Some((PAYLOAD_TOO_LARGE, "文件过大（上限 4GB）"@))
    } else {
        None
    }
}

/// Whether `r` is the answer to a file of this name and size.
pub open spec fn answers_upload(
    r: Result<String, Refusal>,
    name: Option<Seq<char>>,
    size: u64,
) -> bool {
    match r {
        Ok(n) => upload_problem(name, size) is None && n@ == name_or_nothing(name),
        Err(e) => upload_problem(name, size) == Some((e.status, e.message@)),
    }
}

/// Decides whether a file is taken in, and under which name. Only what OBS can play
/// goes into the folder that it plays from.
pub fn check_upload(name: Option<String>, size: u64) -> (r: Result<String, Refusal>)
    ensures
        answers_upload(r, text::opt_text(name), size),
{
    let name: String = match name {
        Some(n) => n,
        None => "".to_string(),
    };
    if blank(name.as_str()) {
        return Err(
            Refusal { status: BAD_REQUEST, message: "缺少文件名 (X-File-Name)".to_string() },
        );
    }
    let ext = ext_of(name.as_str());
    if !playable_ext(ext.as_str()) {
        let mut msg = "不支持的文件类型：".to_string();
        msg.append(ext.as_str());
        msg.append("（仅支持视频/图片/音频）");
        return Err(Refusal { status: BAD_REQUEST, message: msg });
    }
    if size > MAX_UPLOAD_BYTES {
        return Err(
            Refusal { status: PAYLOAD_TOO_LARGE, message: "文件过大（上限 4GB）".to_string() },
        );
    }
    Ok(name)
}

/// Checks an upload: the token, and what the headers say of the file. A path that the
/// browser sends is never trusted; only its last component is kept.
pub fn upload_media(
    issued: &Option<String>,
    token: Option<&str>,
    name_header: &str,
    size: u64,
) -> (r: Result<String, Refusal>)
    ensures
        !server::admitted(text::opt_text(*issued), header_text(token)) ==> (r matches Err(e)
            && server::is_unauthorized(e)),
        server::admitted(text::opt_text(*issued), header_text(token)) ==> exists|
            name: Option<Seq<char>>,
        | names_file(percent_decoded(name_header@), name) && #[trigger] answers_upload(r, name, size),
{
    if let Err(e) = require_token(issued, token) {
        return Err(e);
    }
    let decoded = percent_decode(name_header);
    let name = file_name(decoded.as_str());
    let ghost seen = text::opt_text(name);
    let r = check_upload(name, size);
    assert(names_file(decoded@, seen) && answers_upload(r, seen, size));
    r
}

/// The answer once the file has been stored.
pub fn upload_answer(path: &str, name: &str, size: u64) -> (r: Json)
    ensures
        r@ == server::ok_view(
            seq![
                ("path"@, JsonView::Text(path@)),
                ("name"@, JsonView::Text(name@)),
                ("size"@, JsonView::Number(JsonNumber::Unsigned(size))),
            ],
        ),
{
    let b = ok_answer().with_text("path", path).with_text("name", name).with_unsigned("size", size);
    assert(b@ =~= seq![("ok"@, JsonView::Bool(true))] + seq![
        ("path"@, JsonView::Text(path@)),
        ("name"@, JsonView::Text(name@)),
        ("size"@, JsonView::Number(JsonNumber::Unsigned(size))),
    ]);
    b.build()
}

// --------------------------------------------------------------------- storage

/// The directory of the media files, next to the configuration. `config_dir` is the
/// directory of the configuration in use, if its path has one.
pub fn media_dir(config_dir: Option<&str>) -> (r: String)
    ensures
        paths::is_inside(paths::dir_or_dot(config_dir), "media"@, r@),
{
    beside_config(config_dir, "media")
}

/// Where a file of this name is stored in the directory of the media files.
pub fn stored_path(media_dir: &str, name: &str) -> (r: String)
    ensures
        paths::is_inside(media_dir@, name@, r@),
{
    join(media_dir, name)
}

/// The `n`-th name that is tried for a file: its own, then with a number behind the
/// stem.
pub open spec fn candidate(name: Seq<char>, n: u64) -> Seq<char> {
    let stem = browse::stem_before(name);
    let ext = browse::extension_of(name);
    if n == 0 {
        name
    } else if ext.len() == 0 {
        stem + "-"@ + text::decimal(n as nat)
    } else {
        stem + "-"@ + text::decimal(n as nat) + "."@ + ext
    }
}

/// The `n`-th name that is tried for a file.
pub fn candidate_name(name: &str, n: u64) -> (r: String)
    ensures
        r@ == candidate(name@, n),
{
    if n == 0 {
        return name.to_owned();
    }
    let (stem, ext) = split_name(name);
    let mut out = stem;
    out.append("-");
    out.append(fmt_u64(n).as_str());
    if ext.as_str().unicode_len() > 0 {
        out.append(".");
        out.append(ext.as_str());
    }
    out
}

/// What to do with a name that was tried.
#[derive(Debug, Clone, Copy, PartialEq, Eq, Structural)]
pub enum UniqueStep {
    /// Store the file under the `n`-th name, which is free.
    Take(u64),
    /// Try the `n`-th name.
    Look(u64),
    /// There is no name left to try.
    Refuse,
}

/// What comes of the `n`-th name.
pub open spec fn step_from(n: u64, exists: bool) -> UniqueStep {
    if !exists {
        UniqueStep::Take(n)
    } else if n < u64::MAX {
        UniqueStep::Look((n + 1) as u64)
    } else {
        UniqueStep::Refuse
    }
}

/// Goes on from the `n`-th name, knowing whether there is a file of that name. Only a name
/// that is free is taken.
pub fn unique_step(n: u64, exists: bool) -> (r: UniqueStep)
    ensures
        r == step_from(n, exists),
        r matches UniqueStep::Take(m) ==> m == n && !exists,
{
    if !exists {
        UniqueStep::Take(n)
    } else if n < u64::MAX {
        UniqueStep::Look(n + 1)
    } else {
        UniqueStep::Refuse
    }
}

/// The name that the steps from the `n`-th on lead to; `taken` says which there are files
/// of.
pub open spec fn name_found(taken: spec_fn(u64) -> bool, n: u64) -> Option<u64>
    decreases u64::MAX - n,
{
    match step_from(n, taken(n)) {
        UniqueStep::Take(m) => Some(m),
        UniqueStep::Look(m) => if m > n {
            name_found(taken, m)
        } else {
            None
        },
        UniqueStep::Refuse => None,
    }
}

proof fn lemma_name_found(taken: spec_fn(u64) -> bool, n: u64)
    ensures
        match name_found(taken, n) {
            Some(m) => n <= m && !taken(m) && forall|j: u64| n <= j < m ==> #[trigger] taken(j),
            None => forall|j: u64| n <= j ==> #[trigger] taken(j),
        },
    decreases u64::MAX - n,
{
    if taken(n) && n < u64::MAX {
        lemma_name_found(taken, (n + 1) as u64);
        assert forall|j: u64| n <= j && name_found(taken, n) is None implies #[trigger] taken(j) by {
            if j > n {
                assert(taken(j));
            }
        }
    }
}

/// No file is overwritten: the name that is found is free, and it is the first one that
/// is. A file whose own name is free keeps it, and the search only fails where every name
/// is taken.
pub proof fn uploads_never_overwrite(taken: spec_fn(u64) -> bool)
    ensures
        match name_found(taken, 0) {
            Some(n) => !taken(n) && forall|j: u64| j < n ==> #[trigger] taken(j),
            None => forall|j: u64| #[trigger] taken(j),
        },
{
    lemma_name_found(taken, 0);
}

/// No name is tried twice.
pub proof fn candidates_differ(name: Seq<char>, m: u64, n: u64)
    requires
        m < n,
    ensures
        candidate(name, m) != candidate(name, n),
{
    let stem = browse::stem_before(name);
    let ext = browse::extension_of(name);
    reveal_strlit("-");
    reveal_strlit(".");
    let a = candidate(name, m);
    let b = candidate(name, n);
    let dn = text::decimal(n as nat);
    assert(dn.len() > 0) by {
        reveal_with_fuel(text::decimal, 2);
    }
    lemma_name_is_stem_and_ext(name);
    if m > 0 && a == b {
        let dm = text::decimal(m as nat);
        let tail = if ext.len() == 0 {
            0
        } else {
            1 + ext.len() as int
        };
        assert(a.len() == stem.len() + 1 + dm.len() + tail);
        assert(b.len() == stem.len() + 1 + dn.len() + tail);
        let from = stem.len() as int + 1;
        assert(dm =~= a.subrange(from, from + dm.len()));
        assert(dn =~= b.subrange(from, from + dn.len()));
        text::decimal_is_injective(m, n);
    }
}

proof fn lemma_last_dot_in_range(name: Seq<char>)
    ensures
        browse::last_dot(name) matches Some(i) ==> 0 < i < name.len(),
    decreases name.len(),
{
    if name.len() > 1 && name.last() != '.' {
        lemma_last_dot_in_range(name.drop_last());
    }
}

proof fn lemma_name_is_stem_and_ext(name: Seq<char>)
    ensures
        browse::extension_of(name).len() > 0 ==> name.len() == browse::stem_before(name).len() + 1
            + browse::extension_of(name).len(),
        browse::extension_of(name).len() == 0 ==> name.len() <= browse::stem_before(name).len() + 1,
{
    lemma_last_dot_in_range(name);
}

proof fn lemma_last_part_has_no_slash(path: Seq<char>)
    ensures
        !last_part(path).contains('/'),
    decreases path.len(),
{
    if path.len() > 0 && path.last() != '/' {
        lemma_last_part_has_no_slash(path.drop_last());
        let rest = last_part(path.drop_last());
        let all = last_part(path);
        assert forall|i: int| 0 <= i < all.len() implies all[i] != '/' by {
            if i < rest.len() {
                assert(rest.contains(rest[i]));
            }
        }
    }
}

/// An upload stays in its directory: of whatever path the browser sent, the name it is
/// stored under is a part without a slash and not `..`, and no name that is tried for it
/// holds a slash. The path has to be one without the verbatim prefix of Windows.
pub proof fn uploads_stay_in_their_directory(
    path: Seq<char>,
    r: Result<String, Refusal>,
    name: Option<Seq<char>>,
    size: u64,
    n: u64,
)
    requires
        !paths::is_verbatim(path),
        names_file(path, name),
        answers_upload(r, name, size),
        r is Ok,
    ensures
        r->Ok_0@ != ".."@,
        text::has_part(path, r->Ok_0@),
        !candidate(r->Ok_0@, n).contains('/'),
        browse::is_playable_ext(browse::lower_ext(r->Ok_0@)),
        size <= MAX_UPLOAD_BYTES,
{
    let own = r->Ok_0@;
    reveal_strlit("");
    reveal_strlit("-");
    reveal_strlit(".");
    reveal_strlit("..");
    assert(text::is_blank(""@)) by {
        assert(""@ =~= Seq::<char>::empty());
    }
    assert(name is Some && own == name->0);
    assert(!own.contains('/')) by {
        lemma_last_part_has_no_slash(without_idle_end(path));
        lemma_last_part_has_no_slash(without_idle_end(slashed(path)));
        lemma_last_part_has_no_slash(without_idle_end(slashed(path).skip(2)));
    }
    let stem = browse::stem_before(own);
    let ext = browse::extension_of(own);
    let d = text::decimal(n as nat);
    lemma_last_dot_in_range(own);
    assert forall|i: int| 0 <= i < stem.len() implies stem[i] != '/' by {
        assert(own.contains(own[i]));
    }
    assert forall|i: int| 0 <= i < ext.len() implies ext[i] != '/' by {
        let at = browse::last_dot(own)->0 + 1 + i;
        assert(ext[i] == own[at]);
        assert(own.contains(own[at]));
    }
    lemma_decimal_has_no_slash(n as nat);
    let c = candidate(own, n);
    if n > 0 {
        assert forall|i: int| 0 <= i < c.len() implies c[i] != '/' by {
            if i < stem.len() {
                assert(c[i] == stem[i]);
            } else if i == stem.len() {
                assert(c[i] == '-');
            } else if i < stem.len() + 1 + d.len() {
                assert(c[i] == d[i - stem.len() - 1]);
            } else if i == stem.len() + 1 + d.len() {
                assert(c[i] == '.');
            } else {
                assert(c[i] == ext[i - stem.len() - 2 - d.len()]);
            }
        }
    }
}

proof fn lemma_decimal_has_no_slash(n: nat)
    ensures
        forall|i: int| 0 <= i < text::decimal(n).len() ==> #[trigger] text::decimal(n)[i] != '/',
    decreases n,
{
    if n >= 10 {
        lemma_decimal_has_no_slash(n / 10);
    }
    let d = text::decimal(n);
    assert forall|i: int| 0 <= i < d.len() implies #[trigger] d[i] != '/' by {
        if n >= 10 && i < d.len() - 1 {
            assert(d[i] == text::decimal(n / 10)[i]);
        }
    }
}

} // verus!
