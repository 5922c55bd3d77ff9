//! Presets, uploads, browsing and what the server hands out.

use vstd::prelude::*;

#[allow(unused_imports)]
use crate::config::{ClockConfig, ProgramEntry, SchedulerConfig};
#[allow(unused_imports)]
use crate::json::{JsonNumber, JsonView};
#[allow(unused_imports)]
use crate::presets::{Preset, PresetSummary};
#[allow(unused_imports)]
use crate::server::bootstrap::{self, SchedulerPatch};
#[allow(unused_imports)]
use crate::server::browse::{self, BrowseQuery, DirItem};
#[allow(unused_imports)]
use crate::server::upload::{self, UniqueStep};
#[allow(unused_imports)]
use crate::server::{self, Refusal};
#[allow(unused_imports)]
use crate::{laws, order, paths, presets, text};

verus! {

// ------------------------------------------------------------------------ presets

/// Whether no file name can hold a character.
pub open spec fn is_forbidden(c: char) -> bool {
    c == '/' || c == '\\' || c == ':' || c == '*' || c == '?' || c == '"' || c == '<' || c == '>'
        || c == '|' || c as int <= 0x1f || 0x7f <= c as int <= 0x9f
}

/// The file of a preset is called as the preset is, but that an underscore takes the place of
/// each character that no file name can hold and white space at the ends is dropped; it has at
/// most 80 characters, and a name of which nothing is left is `preset`.
pub proof fn presets_are_called_by_their_name(name: Seq<char>, clean: Seq<char>)
    requires
        clean.len() == name.len(),
        forall|i: int|
            0 <= i < name.len() ==> #[trigger] clean[i] == (if is_forbidden(name[i]) {
                '_'
            } else {
                name[i]
            }),
    ensures
        ({
            let t = text::trimmed(clean);
            let nothing = t.len() == 0 || t == "."@ || t == ".."@;
            &&& nothing ==> presets::stem(name) == "preset"@
            &&& !nothing && t.len() <= 80 ==> presets::stem(name) == t
            &&& !nothing && t.len() > 80 ==> presets::stem(name) == t.take(80)
        }),
{
    assert(name.map_values(|c: char| presets::safe_char(c)) =~= clean);
    reveal_strlit("preset");
}

/// Names that can be file names as they are keep apart: two presets of different names have
/// different files.
pub proof fn plain_names_have_files_of_their_own(a: Seq<char>, b: Seq<char>)
    requires
        is_plain_name(a),
        is_plain_name(b),
        a != b,
    ensures
        presets::stem(a) == a,
        presets::stem(a) != presets::stem(b),
{
    lemma_plain_stem(a);
    lemma_plain_stem(b);
}

/// Whether a name can be that of a file as it is.
pub open spec fn is_plain_name(name: Seq<char>) -> bool {
    &&& 0 < name.len() <= 80
    &&& forall|i: int| 0 <= i < name.len() ==> !is_forbidden(#[trigger] name[i])
    &&& !text::is_white(name[0])
    &&& !text::is_white(name.last())
    &&& name != "."@
    &&& name != ".."@
}

proof fn lemma_plain_stem(name: Seq<char>)
    requires
        is_plain_name(name),
    ensures
        presets::stem(name) == name,
{
    presets_are_called_by_their_name(name, name);
    let none = Seq::<char>::empty();
    laws::words::trimming_takes_off_white_space(none, name, none);
    assert(none + name + none =~= name);
}

/// A file is a preset where its name ends in `.json` and is more than that.
pub proof fn preset_files_end_in_json(front: Seq<char>, name: Seq<char>)
    ensures
        front.len() > 0 ==> presets::names_a_preset(front + ".json"@),
        presets::names_a_preset(name) ==> name.len() > 5 && name == name.take(name.len() - 5)
            + ".json"@,
        !presets::names_a_preset(".json"@),
        presets::KIND@ == "tvbs-playlist-preset"@,
{
    reveal_strlit(".json");
    laws::words::tails_stand_at_the_end(name, front, ".json"@);
}

/// The length of a list is that of its rows together, each as long as it was measured or else
/// declared.
pub proof fn a_list_is_as_long_as_its_rows(items: Seq<ProgramEntry>, p: ProgramEntry, len: int)
    requires
        laws::runs(p, len),
    ensures
        presets::total_of(items.push(p)) == presets::total_of(items) + len,
        presets::total_of(Seq::empty()) == 0,
{
    assert(items.push(p).drop_last() =~= items);
}

/// A summary shows the name of its preset, how many rows there are and how long they take,
/// and the date.
pub proof fn a_summary_shows_its_preset(s: PresetSummary, p: Preset)
    requires
        presets::sums_up(s, p),
    ensures
        s.name@ == p.name@,
        s.items == p.items@.len(),
        s.total_ms == presets::total_of(p.items@),
        p.saved_at matches Some(d) ==> (s.saved_at matches Some(e) && e@ == d@),
        p.saved_at is None ==> s.saved_at is None,
{
}

/// Every file that could be read counts, in its order, and no other does.
pub proof fn every_readable_file_counts(files: Seq<Option<Preset>>, p: Preset)
    ensures
        presets::readable(files.push(Some(p))) == presets::readable(files).push(p),
        presets::readable(files.push(None)) == presets::readable(files),
        presets::readable(Seq::empty()) == Seq::<Preset>::empty(),
{
    assert(files.push(Some(p)).drop_last() =~= files);
    assert(files.push(None::<Preset>).drop_last() =~= files);
}

/// The newest preset comes first: one with a later date never stands below one with an
/// earlier, and one without a date never above one that has one.
pub proof fn newer_presets_stand_higher(
    before: Seq<PresetSummary>,
    after: Seq<PresetSummary>,
    i: int,
    j: int,
)
    requires
        order::text_sorted(before, after, presets::saved_at(), true),
        0 <= i < j < after.len(),
    ensures
        after[i].saved_at is None ==> after[j].saved_at is None,
        after[i].saved_at is Some && after[j].saved_at is Some ==> !order::before(
            after[i].saved_at->0@,
            after[j].saved_at->0@,
        ),
{
    assert(!order::opt_before(presets::saved_at()(after[i]), presets::saved_at()(after[j])));
}

/// The clock settings that a preset carries are those it was given.
pub proof fn presets_carry_the_clock(c: ClockConfig)
    ensures
        presets::clock_view(Some(c)) == Some(c.settings@),
        presets::clock_view(None) is None,
{
}

/// The configuration's own directory is the one that is meant, and the present one where it
/// has none.
pub proof fn files_stand_beside_the_configuration(dir: &str)
    ensures
        paths::dir_or_dot(Some(dir)) == dir@,
        paths::dir_or_dot(None) == "."@,
{
}

// ------------------------------------------------------------------------- uploads

/// A file is taken in exactly where it has a name, OBS can play it and it is no larger than
/// four gigabytes; else the answer says which of these it is.
pub proof fn uploads_are_taken_in_or_told_why(name: Option<Seq<char>>, size: u64)
    ensures
        ({
            let n = match name {
                Some(n) => n,
                None => Seq::empty(),
            };
            let ext = browse::lower_ext(n);
            let p = upload::upload_problem(name, size);
            &&& p is None <==> !text::is_blank(n) && browse::is_playable_ext(ext) && size
                <= 4 * 1024 * 1024 * 1024
            &&& text::is_blank(n) ==> p == Some((400u16, "缺少文件名 (X-File-Name)"@))
            &&& !text::is_blank(n) && !browse::is_playable_ext(ext) ==> p == Some(
                (
                    400u16,
                    "不支持的文件类型："@ + ext + "（仅支持视频/图片/音频）"@,
                ),
            )
            &&& !text::is_blank(n) && browse::is_playable_ext(ext) && size > 4 * 1024 * 1024 * 1024
                ==> p == Some((413u16, "文件过大（上限 4GB）"@))
        }),
{
    reveal_strlit("");
    assert(""@ =~= Seq::<char>::empty());
}

/// A file that is taken in keeps its name; one that is not is refused with the reason.
pub proof fn uploads_keep_their_name(r: Result<String, Refusal>, name: Seq<char>, size: u64)
    requires
        upload::answers_upload(r, Some(name), size),
    ensures
        r is Ok <==> upload::upload_problem(Some(name), size) is None,
        r matches Ok(n) ==> n@ == name,
        r matches Err(e) ==> upload::upload_problem(Some(name), size) == Some(
            (e.status, e.message@),
        ),
{
}

/// The names that are tried for a file are its own, and then its stem with a number and the
/// same extension behind it.
pub proof fn numbered_names_keep_the_extension(stem: Seq<char>, ext: Seq<char>, n: u64)
    requires
        stem.len() > 0,
        ext.len() > 0,
        !ext.contains('.'),
    ensures
        upload::candidate(stem + seq!['.'] + ext, 0) == stem + seq!['.'] + ext,
        n > 0 ==> upload::candidate(stem + seq!['.'] + ext, n) == stem + seq!['-'] + text::decimal(
            n as nat,
        ) + seq!['.'] + ext,
{
    names_are_split_at_the_last_dot(stem, ext);
    reveal_strlit("-");
    reveal_strlit(".");
    assert("-"@ =~= seq!['-']);
    assert("."@ =~= seq!['.']);
}

/// A name without a dot is numbered at its end.
pub proof fn names_without_extension_are_numbered_at_the_end(name: Seq<char>, n: u64)
    requires
        !name.contains('.'),
    ensures
        upload::candidate(name, 0) == name,
        n > 0 ==> upload::candidate(name, n) == name + seq!['-'] + text::decimal(n as nat),
{
    lemma_no_dot(name);
    reveal_strlit("-");
    assert("-"@ =~= seq!['-']);
}

/// A name that is free is taken, and one that is not leads to the next.
pub proof fn taken_names_lead_to_the_next(n: u64)
    ensures
        upload::step_from(n, false) == UniqueStep::Take(n),
        n < u64::MAX ==> upload::step_from(n, true) == UniqueStep::Look((n + 1) as u64),
        upload::step_from(u64::MAX, true) == UniqueStep::Refuse,
{
}

/// Whether a byte is the hexadecimal digit of a value.
pub open spec fn is_hex(c: u8, v: int) -> bool {
    ||| '0' as int <= c <= '9' as int && v == c - '0' as int
    ||| 'a' as int <= c <= 'f' as int && v == c - 'a' as int + 10
    ||| 'A' as int <= c <= 'F' as int && v == c - 'A' as int + 10
}

/// A percent sign and two hexadecimal digits of either case stand for a byte, and every other
/// byte for itself.
pub proof fn escapes_stand_for_bytes(c: u8, d: u8, high: int, low: int, rest: Seq<u8>)
    ensures
        is_hex(c, high) && is_hex(d, low) ==> upload::unescaped(seq![37u8, c, d] + rest) == seq![
            (high * 16 + low) as u8,
        ] + upload::unescaped(rest),
        c != 37 ==> upload::unescaped(seq![c] + rest) == seq![c] + upload::unescaped(rest),
        (forall|v: int| !is_hex(c, v)) ==> upload::unescaped(seq![37u8, c] + rest) == seq![37u8]
            + upload::unescaped(seq![c] + rest),
        upload::unescaped(Seq::empty()) == Seq::<u8>::empty(),
{
    let e = seq![37u8, c, d] + rest;
    assert(e.skip(3) =~= rest);
    assert((seq![c] + rest).skip(1) =~= rest);
    assert((seq![37u8, c] + rest).skip(1) =~= seq![c] + rest);
    if forall|v: int| !is_hex(c, v) {
        assert(!is_hex(c, c - '0' as int));
        assert(!is_hex(c, c - 'a' as int + 10));
        assert(!is_hex(c, c - 'A' as int + 10));
        assert(upload::hex_value(c) is None);
        let f = seq![37u8, c] + rest;
        assert(f[1] == c);
    }
}

/// A name comes back from the header that it was sent in: with every byte of it escaped, and
/// as it stands where no percent sign is in it.
pub proof fn names_come_back_from_the_header(name: Seq<char>, header: Seq<char>)
    ensures
        vstd::utf8::encode_utf8(header) == upload::escaped(vstd::utf8::encode_utf8(name))
            ==> upload::percent_decoded(header) == name,
        !vstd::utf8::encode_utf8(name).contains(37) ==> upload::percent_decoded(name) == name,
{
    let bytes = vstd::utf8::encode_utf8(name);
    vstd::utf8::encode_utf8_valid_utf8(name);
    vstd::utf8::encode_utf8_decode_utf8(name);
    upload::escapes_are_undone(bytes);
    if !bytes.contains(37) {
        upload::plain_text_is_kept(bytes);
    }
}

// ------------------------------------------------------------------------ browsing

proof fn lemma_last_dot(name: Seq<char>, at: int)
    requires
        0 < at < name.len(),
        name[at] == '.',
        forall|j: int| at < j < name.len() ==> #[trigger] name[j] != '.',
    ensures
        browse::last_dot(name) == Some(at),
    decreases name.len(),
{
    if at < name.len() - 1 {
        let rest = name.drop_last();
        assert(name[name.len() - 1] != '.');
        assert forall|j: int| at < j < rest.len() implies #[trigger] rest[j] != '.' by {
            assert(name[j] != '.');
        }
        lemma_last_dot(rest, at);
    }
}

proof fn lemma_no_dot(name: Seq<char>)
    requires
        !name.contains('.'),
    ensures
        browse::last_dot(name) is None,
        browse::extension_of(name).len() == 0,
        browse::stem_before(name) == name,
    decreases name.len(),
{
    if name.len() > 1 {
        assert(name.contains(name.last()));
        let rest = name.drop_last();
        assert forall|j: int| 0 <= j < rest.len() implies rest[j] != '.' by {
            assert(name.contains(name[j]));
        }
        lemma_no_dot(rest);
    }
}

/// A file name is parted at its last dot, if there is something before it: what is behind is
/// the extension, in lower case where kinds of files are told apart.
pub proof fn names_are_split_at_the_last_dot(stem: Seq<char>, ext: Seq<char>)
    requires
        stem.len() > 0,
        !ext.contains('.'),
    ensures
        browse::stem_before(stem + seq!['.'] + ext) == stem,
        browse::extension_of(stem + seq!['.'] + ext) == ext,
        browse::lower_ext(stem + seq!['.'] + ext) == text::lowercase(ext),
{
    let name = stem + seq!['.'] + ext;
    let at = stem.len() as int;
    assert forall|j: int| at < j < name.len() implies #[trigger] name[j] != '.' by {
        assert(ext.contains(ext[j - at - 1]));
    }
    lemma_last_dot(name, at);
    assert(name.take(at) =~= stem);
    assert(name.skip(at + 1) =~= ext);
}

/// A name without a dot, or with none but in front, has no extension.
pub proof fn names_without_a_dot_have_no_extension(name: Seq<char>)
    ensures
        !name.contains('.') ==> browse::extension_of(name).len() == 0 && browse::stem_before(name)
            == name,
{
    if !name.contains('.') {
        lemma_no_dot(name);
    }
}

/// The kinds of files that OBS can play.
pub open spec fn playable_kinds() -> Seq<Seq<char>> {
    seq![
        "mp4"@,
        "mkv"@,
        "mov"@,
        "avi"@,
        "ts"@,
        "mxf"@,
        "mpg"@,
        "mpeg"@,
        "flv"@,
        "wmv"@,
        "webm"@,
        "m4v"@,
        "mp3"@,
        "wav"@,
        "aac"@,
        "flac"@,
        "png"@,
        "jpg"@,
        "jpeg"@,
        "bmp"@,
        "gif"@,
        "webp"@,
    ]
}

/// A file can be played where its kind is one of those that OBS plays.
pub proof fn obs_plays_these_kinds(ext: Seq<char>, i: int)
    ensures
        0 <= i < playable_kinds().len() ==> browse::is_playable_ext(playable_kinds()[i]),
        browse::is_playable_ext(ext) ==> playable_kinds().contains(ext),
{
    let k = playable_kinds();
    assert(k.len() == 22);
    if browse::is_playable_ext(ext) {
        assert(k[0] == "mp4"@ && k[1] == "mkv"@ && k[2] == "mov"@ && k[3] == "avi"@ && k[4]
            == "ts"@ && k[5] == "mxf"@ && k[6] == "mpg"@ && k[7] == "mpeg"@ && k[8] == "flv"@
            && k[9] == "wmv"@ && k[10] == "webm"@ && k[11] == "m4v"@ && k[12] == "mp3"@ && k[13]
            == "wav"@ && k[14] == "aac"@ && k[15] == "flac"@ && k[16] == "png"@ && k[17] == "jpg"@
            && k[18] == "jpeg"@ && k[19] == "bmp"@ && k[20] == "gif"@ && k[21] == "webp"@);
    }
}

/// A listing shows every directory, and of the files those that OBS can play.
pub proof fn listings_show_what_can_be_picked(e: DirItem)
    ensures
        browse::a_dir()(e) <==> e.is_dir,
        browse::a_playable()(e) <==> !e.is_dir && browse::is_playable_ext(
            browse::lower_ext(e.name@),
        ),
        browse::item_name()(e) == Some(e.name@),
{
}

/// What a listing says of a directory, a file and an entry point.
pub proof fn listings_name_what_they_show(e: DirItem, path: Seq<char>)
    ensures
        browse::dir_view(e) == JsonView::Object(
            seq![("name"@, JsonView::Text(e.name@)), ("path"@, JsonView::Text(e.path@))],
        ),
        browse::file_view(e) == JsonView::Object(
            seq![
                ("name"@, JsonView::Text(e.name@)),
                ("path"@, JsonView::Text(e.path@)),
                ("size"@, JsonView::Number(JsonNumber::Unsigned(e.size))),
            ],
        ),
        browse::root_view(path) == JsonView::Object(
            seq![("name"@, JsonView::Text(path)), ("path"@, JsonView::Text(path))],
        ),
{
}

/// A listing is as long as what it lists, each in its place.
pub proof fn listings_keep_the_order(s: Seq<DirItem>, i: int)
    ensures
        browse::dirs_view(s) is Array,
        browse::dirs_view(s)->Array_0.len() == s.len(),
        0 <= i < s.len() ==> browse::dirs_view(s)->Array_0[i] == browse::dir_view(s[i]),
        browse::files_view(s) is Array,
        browse::files_view(s)->Array_0.len() == s.len(),
        0 <= i < s.len() ==> browse::files_view(s)->Array_0[i] == browse::file_view(s[i]),
{
}

/// A listing has its path, the directory above, and what is in it.
pub proof fn listings_have_their_parts(
    path: Seq<char>,
    parent: Option<String>,
    dirs: JsonView,
    files: JsonView,
)
    ensures
        browse::listing_view(path, browse::parent_view(parent), dirs, files) == JsonView::Object(
            seq![
                ("path"@, JsonView::Text(path)),
                ("parent"@, browse::parent_view(parent)),
                ("dirs"@, dirs),
                ("files"@, files),
            ],
        ),
        parent matches Some(p) ==> browse::parent_view(parent) == JsonView::Text(p@),
        parent is None ==> browse::parent_view(parent) == JsonView::Null,
{
}

/// A query leads into a directory where it names one.
pub proof fn queries_name_a_directory(path: String)
    ensures
        browse::names_a_path(BrowseQuery { path: Some(path) }) <==> !text::is_blank(path@),
        !browse::names_a_path(BrowseQuery { path: None }),
{
}

/// The drives of a machine are those from C to Z.
pub proof fn drives_run_from_c_to_z(i: int)
    ensures
        browse::drive_letters().len() == 24,
        0 <= i < 24 ==> browse::drive_letters()[i] as int == 'C' as int + i,
{
    reveal_strlit("CDEFGHIJKLMNOPQRSTUVWXYZ");
}

// --------------------------------------------------------------------------- token

/// The first handshake is accepted with any token that is one; from then on only that token
/// is.
pub proof fn handshakes_go_by_the_first_token(issued: Seq<char>, brought: Seq<char>)
    ensures
        bootstrap::token_fits(None, brought) <==> brought.len() > 0,
        bootstrap::token_fits(Some(issued), brought) <==> issued == brought,
        server::admitted(None, Some(brought)),
        server::admitted(None, None),
        issued.len() > 0 ==> !server::admitted(Some(issued), None),
        issued.len() > 0 ==> (server::admitted(Some(issued), Some(brought)) <==> issued == brought),
{
}

/// A settings patch changes what it names and nothing else.
pub proof fn a_patch_changes_what_it_names(s: SchedulerConfig, p: SchedulerPatch)
    ensures
        ({
            let after = bootstrap::patched(s, Some(p));
            &&& after.enabled == s.enabled
            &&& p.lead_in_ms matches Some(v) ==> after.lead_in_ms == v
            &&& p.lead_in_ms is None ==> after.lead_in_ms == s.lead_in_ms
            &&& p.clock_offset_ms matches Some(v) ==> after.clock_offset_ms == v
            &&& p.clock_offset_ms is None ==> after.clock_offset_ms == s.clock_offset_ms
            &&& p.on_missing_file matches Some(v) ==> after.on_missing_file == v
            &&& p.on_missing_file is None ==> after.on_missing_file == s.on_missing_file
        }),
        bootstrap::patched(s, None) == s,
{
}

/// A request without the token is told so, as unauthorized.
pub proof fn strangers_are_unauthorized(e: Refusal)
    ensures
        server::is_unauthorized(e) <==> e.status == 401 && e.message@
            == "missing or invalid X-Bootstrap-Token"@,
{
}

/// A request that was carried out is answered so, with what there is to say behind it.
pub proof fn carried_out_requests_say_so(more: Seq<(Seq<char>, JsonView)>)
    ensures
        server::ok_view(more) == JsonView::Object(seq![("ok"@, JsonView::Bool(true))] + more),
{
}

// -------------------------------------------------------------------------- assets

proof fn lemma_not_suffix(s: Seq<char>, tail: Seq<char>, back: int)
    requires
        0 < back <= tail.len(),
        back <= s.len(),
        s[s.len() - back] != tail[tail.len() - back],
    ensures
        !text::has_suffix(s, tail),
{
    if text::has_suffix(s, tail) {
        assert(s.subrange(s.len() - tail.len(), s.len() as int)[tail.len() - back] == s[s.len()
            - back]);
    }
}

/// A page, a script, a style sheet and the rest are served as what their names say they are.
pub proof fn files_are_served_as_what_they_are(front: Seq<char>)
    ensures
        server::mime_of(front + ".html"@) == "text/html; charset=utf-8"@,
        server::mime_of(front + ".htm"@) == "text/html; charset=utf-8"@,
        server::mime_of(front + ".js"@) == "text/javascript; charset=utf-8"@,
        server::mime_of(front + ".mjs"@) == "text/javascript; charset=utf-8"@,
        server::mime_of(front + ".css"@) == "text/css; charset=utf-8"@,
        server::mime_of(front + ".json"@) == "application/json; charset=utf-8"@,
        server::mime_of(front + ".svg"@) == "image/svg+xml"@,
        server::mime_of(front + ".png"@) == "image/png"@,
        server::mime_of(front + ".ico"@) == "image/x-icon"@,
{
    reveal_strlit(".html");
    reveal_strlit(".htm");
    reveal_strlit(".js");
    reveal_strlit(".mjs");
    reveal_strlit(".css");
    reveal_strlit(".json");
    reveal_strlit(".svg");
    reveal_strlit(".png");
    reveal_strlit(".ico");
    laws::words::tails_stand_at_the_end(front, front, ".html"@);
    laws::words::tails_stand_at_the_end(front, front, ".htm"@);
    laws::words::tails_stand_at_the_end(front, front, ".js"@);
    laws::words::tails_stand_at_the_end(front, front, ".mjs"@);
    laws::words::tails_stand_at_the_end(front, front, ".css"@);
    laws::words::tails_stand_at_the_end(front, front, ".json"@);
    laws::words::tails_stand_at_the_end(front, front, ".svg"@);
    laws::words::tails_stand_at_the_end(front, front, ".png"@);
    laws::words::tails_stand_at_the_end(front, front, ".ico"@);
    let js = front + ".js"@;
    lemma_not_suffix(js, ".html"@, 1);
    lemma_not_suffix(js, ".htm"@, 1);
    let mjs = front + ".mjs"@;
    lemma_not_suffix(mjs, ".html"@, 1);
    lemma_not_suffix(mjs, ".htm"@, 1);
    let css = front + ".css"@;
    lemma_not_suffix(css, ".html"@, 1);
    lemma_not_suffix(css, ".htm"@, 1);
    lemma_not_suffix(css, ".js"@, 2);
    lemma_not_suffix(css, ".mjs"@, 2);
    let jsn = front + ".json"@;
    lemma_not_suffix(jsn, ".html"@, 1);
    lemma_not_suffix(jsn, ".htm"@, 1);
    lemma_not_suffix(jsn, ".js"@, 1);
    lemma_not_suffix(jsn, ".mjs"@, 1);
    lemma_not_suffix(jsn, ".css"@, 1);
    let svg = front + ".svg"@;
    lemma_not_suffix(svg, ".html"@, 1);
    lemma_not_suffix(svg, ".htm"@, 1);
    lemma_not_suffix(svg, ".js"@, 1);
    lemma_not_suffix(svg, ".mjs"@, 1);
    lemma_not_suffix(svg, ".css"@, 1);
    lemma_not_suffix(svg, ".json"@, 1);
    let png = front + ".png"@;
    lemma_not_suffix(png, ".html"@, 1);
    lemma_not_suffix(png, ".htm"@, 1);
    lemma_not_suffix(png, ".js"@, 1);
    lemma_not_suffix(png, ".mjs"@, 1);
    lemma_not_suffix(png, ".css"@, 1);
    lemma_not_suffix(png, ".json"@, 1);
    lemma_not_suffix(png, ".svg"@, 2);
    let ico = front + ".ico"@;
    lemma_not_suffix(ico, ".html"@, 1);
    lemma_not_suffix(ico, ".htm"@, 1);
    lemma_not_suffix(ico, ".js"@, 1);
    lemma_not_suffix(ico, ".mjs"@, 1);
    lemma_not_suffix(ico, ".css"@, 1);
    lemma_not_suffix(ico, ".json"@, 1);
    lemma_not_suffix(ico, ".svg"@, 1);
    lemma_not_suffix(ico, ".png"@, 1);
}

/// A file of any other kind is served as bytes.
pub proof fn other_files_are_served_as_bytes(path: Seq<char>)
    requires
        !text::has_suffix(path, ".html"@),
        !text::has_suffix(path, ".htm"@),
        !text::has_suffix(path, ".js"@),
        !text::has_suffix(path, ".mjs"@),
        !text::has_suffix(path, ".css"@),
        !text::has_suffix(path, ".json"@),
        !text::has_suffix(path, ".svg"@),
        !text::has_suffix(path, ".png"@),
        !text::has_suffix(path, ".ico"@),
    ensures
        server::mime_of(path) == "application/octet-stream"@,
{
}

/// Slashes in front of a path do not count; a path that names no file stands for the index of
/// its directory, and any other for itself.
pub proof fn paths_stand_for_files(path: Seq<char>)
    ensures
        server::asset_of(seq!['/'] + path) == server::asset_of(path),
        server::asset_of(Seq::empty()) == "index.html"@,
        path.len() > 0 && path[0] != '/' && path.last() == '/' ==> server::asset_of(path) == path
            + "index.html"@,
        path.len() > 0 && path[0] != '/' && path.last() != '/' ==> server::asset_of(path) == path,
{
    assert((seq!['/'] + path).skip(1) =~= path);
    assert(Seq::<char>::empty() + "index.html"@ =~= "index.html"@);
}

} // verus!
