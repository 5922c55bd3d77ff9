//! Playlist presets: save the schedule under a name and bring it back later.
//!
//! Two jobs in one file format: a local library (`presets/*.json` next to the
//! configuration), and a portable file that can be copied to a new machine. That is
//! why a preset can carry the scheduler and clock settings too, and why loading it
//! *replaces* the current playlist.

use vstd::prelude::*;

use crate::clock::now_rfc3339;
use crate::config::{
    clone_bumpers, clone_items, BumperEntry, ClockConfig, Config, ProgramEntry, SchedulerConfig,
};
#[allow(unused_imports)]
use crate::json::JsonView;
use crate::order::sort_by_text;
use crate::paths::{beside_config, join};
use crate::playlist::effective_duration_ms;
use crate::text::{cat, clone_opt, control, ends_with, from_chars, same, to_chars, trim};
#[allow(unused_imports)]
use crate::{order, paths, playlist, text};

verus! {

/// Marker so a random JSON file can't be loaded as a playlist by accident.
pub const KIND: &'static str = "tvbs-playlist-preset";

/// A schedule saved under a name.
#[derive(Debug)]
pub struct Preset {
    pub kind: String,
    pub version: u32,
    pub name: String,
    pub saved_at: Option<String>,
    pub items: Vec<ProgramEntry>,
    pub bumpers: Vec<BumperEntry>,
    /// Optional, so that a preset can also restore the "how".
    pub scheduler: Option<SchedulerConfig>,
    pub clock: Option<ClockConfig>,
}

/// What the picker shows of a preset: no playlist bodies.
#[derive(Debug)]
pub struct PresetSummary {
    pub name: String,
    pub items: usize,
    pub total_ms: u64,
    pub saved_at: Option<String>,
}

// ----------------------------------------------------------------------- names

/// The characters that no file name can hold.
pub open spec fn is_unsafe(c: char) -> bool {
    c == '/' || c == '\\' || c == ':' || c == '*' || c == '?' || c == '"' || c == '<' || c == '>'
        || c == '|' || text::is_control_char(c)
}

/// `c`, or an underscore where no file name can hold it.
pub open spec fn safe_char(c: char) -> char {
    if is_unsafe(c) {
        '_'
    } else {
        c
    }
}

/// A stem is cut off after this many characters.
pub const STEM_MAX: usize = 80;

/// The stem of the file for a name that is already clean: `preset` where nothing is
/// left that could be one.
pub open spec fn stem_of(clean: Seq<char>) -> Seq<char> {
    let t = text::trimmed(clean);
    let stem = if t.len() == 0 || t == "."@ || t == ".."@ {
        "preset"@
    } else {
        t
    };
    if stem.len() > STEM_MAX {
        stem.take(STEM_MAX as int)
    } else {
        stem
    }
}

/// The stem of the file for `name`.
pub open spec fn stem(name: Seq<char>) -> Seq<char> {
    stem_of(name.map_values(|c: char| safe_char(c)))
}

/// Turns an operator-supplied name into something safe to use as a file name. Chinese
/// is kept as it is; only path separators, wildcards and control characters are
/// replaced.
pub fn safe_stem(name: &str) -> (r: String)
    ensures
        r@ == stem(name@),
{
    let chars = to_chars(name);
    let mut clean: Vec<char> = Vec::new();
    let mut i: usize = 0;
    while i < chars.len()
        invariant
            i <= chars@.len(),
            clean@.len() == i,
            forall|j: int| 0 <= j < i ==> clean@[j] == safe_char(#[trigger] chars@[j]),
        decreases chars@.len() - i,
    {
        let c: char = chars[i];
        let bad: bool = c == '/' || c == '\\' || c == ':' || c == '*' || c == '?' || c == '"' || c
            == '<' || c == '>' || c == '|' || control(c);
        clean.push(
            if bad {
                '_'
            } else {
                c
            },
        );
        i = i + 1;
    }
    assert(clean@ =~= name@.map_values(|c: char| safe_char(c)));
    let cleaned = from_chars(&clean, 0, clean.len());
    assert(cleaned@ =~= clean@);
    let trimmed = trim(cleaned.as_str());
    let bare: bool = trimmed.as_str().unicode_len() == 0 || same(trimmed.as_str(), ".") || same(
        trimmed.as_str(),
        "..",
    );
    let stem: String = if bare {
        "preset".to_string()
    } else {
        trimmed
    };
    let v = to_chars(stem.as_str());
    if v.len() > STEM_MAX {
        let cut = from_chars(&v, 0, STEM_MAX);
        assert(cut@ =~= v@.take(STEM_MAX as int));
        cut
    } else {
        stem
    }
}

/// A stem can be a file name: it is not empty, not too long, holds none of the
/// characters that no file name can hold, and is not the name of a directory's own
/// entry.
pub proof fn stems_are_safe(name: Seq<char>)
    ensures
        0 < stem(name).len() <= STEM_MAX,
        forall|i: int| 0 <= i < stem(name).len() ==> !is_unsafe(#[trigger] stem(name)[i]),
        stem(name) != "."@,
        stem(name) != ".."@,
{
    let clean = name.map_values(|c: char| safe_char(c));
    let t = text::trimmed(clean);
    text::trimmed_is_a_bare_part(clean);
    reveal_strlit("preset");
    reveal_strlit(".");
    reveal_strlit("..");
    assert(!is_unsafe('p') && !is_unsafe('r') && !is_unsafe('e') && !is_unsafe('s') && !is_unsafe(
        't',
    ));
    assert(!is_unsafe('_'));
    assert forall|i: int| 0 <= i < clean.len() implies !is_unsafe(#[trigger] clean[i]) by {
        assert(clean[i] == safe_char(name[i]));
    }
    let (from, to) = choose|from: int, to: int|
        0 <= from <= to <= clean.len() && t == #[trigger] clean.subrange(from, to);
    assert forall|i: int| 0 <= i < t.len() implies !is_unsafe(#[trigger] t[i]) by {
        assert(t[i] == clean[from + i]);
    }
    if t.len() > STEM_MAX {
        assert(stem(name).len() == 80);
        assert("."@.len() == 1);
        assert(".."@.len() == 2);
    }
}

// ----------------------------------------------------------------------- paths

/// The directory of the presets, next to the configuration. `config_dir` is the directory
/// of the configuration in use, if its path has one.
pub fn presets_dir(config_dir: Option<&str>) -> (r: String)
    ensures
        paths::is_inside(paths::dir_or_dot(config_dir), "presets"@, r@),
{
    beside_config(config_dir, "presets")
}

/// The file for the preset `name`.
pub fn preset_path(config_dir: Option<&str>, name: &str) -> (r: String)
    ensures
        exists|dir: Seq<char>|
            paths::is_inside(paths::dir_or_dot(config_dir), "presets"@, dir)
                && #[trigger] paths::is_inside(dir, stem(name@) + ".json"@, r@),
        text::has_suffix(r@, stem(name@) + ".json"@),
{
    let dir = presets_dir(config_dir);
    let file = cat(safe_stem(name).as_str(), ".json");
    proof {
        preset_files_are_entries(name@);
    }
    join(dir.as_str(), file.as_str())
}

/// The file of a preset is an entry of the directory of the presets, whatever its name.
pub proof fn preset_files_are_entries(name: Seq<char>)
    ensures
        paths::is_entry(stem(name) + ".json"@),
{
    stems_are_safe(name);
    reveal_strlit(".json");
    reveal_strlit(".");
    reveal_strlit("..");
    let s = stem(name);
    let file = s + ".json"@;
    assert forall|i: int| 0 <= i < file.len() implies file[i] != '/' && file[i] != '\\' && file[i]
        != ':' by {
        if i < s.len() {
            assert(!is_unsafe(s[i]));
        }
    }
    assert(!file.contains('/'));
    assert(!file.contains('\\'));
    assert(!file.contains(':'));
    assert(file.len() > 2);
}

/// The file of a preset lies in the directory of the presets itself, whatever its name: its
/// path is the directory's, at most one separator and the file's own name, in which there is
/// no separator. The directory has to be one without the verbatim prefix of Windows.
pub proof fn presets_lie_in_their_directory(dir: Seq<char>, name: Seq<char>, path: Seq<char>)
    requires
        dir.len() > 0,
        !paths::is_verbatim(dir),
        paths::is_inside(dir, stem(name) + ".json"@, path),
    ensures
        ({
            let file = stem(name) + ".json"@;
            &&& paths::is_entry(file)
            &&& path.take(dir.len() as int) == dir
            &&& path == dir + file || path == dir + "/"@ + file || path == dir + "\\"@ + file
        }),
{
    preset_files_are_entries(name);
    let file = stem(name) + ".json"@;
    reveal_strlit("/");
    reveal_strlit("\\");
    assert((dir + file).take(dir.len() as int) =~= dir);
    assert((dir + "/"@ + file).take(dir.len() as int) =~= dir);
    assert((dir + "\\"@ + file).take(dir.len() as int) =~= dir);
}

/// The file that a preset is written to before it takes the place of the one at
/// `path`, so that a crash cannot leave half a preset.
pub fn partial_path(path: &str) -> (r: String)
    ensures
        r@ == path@ + ".tmp"@,
{
    cat(path, ".tmp")
}

/// Whether a file is read as a preset: its extension is `json`.
pub open spec fn names_a_preset(file_name: Seq<char>) -> bool {
    file_name.len() > 5 && text::has_suffix(file_name, ".json"@)
}

/// Whether the file of this name is read as a preset.
pub fn is_preset_file(file_name: &str) -> (r: bool)
    ensures
        r == names_a_preset(file_name@),
{
    file_name.unicode_len() > 5 && ends_with(file_name, ".json")
}

/// The file of every preset is read back as one.
pub proof fn saved_presets_are_found(name: Seq<char>)
    ensures
        names_a_preset(stem(name) + ".json"@),
{
    stems_are_safe(name);
    reveal_strlit(".json");
    let file = stem(name) + ".json"@;
    assert(file.skip(file.len() - 5) =~= ".json"@);
}

// -------------------------------------------------------------------- contents

/// Tells a preset from any other file.
pub fn check_kind(preset: &Preset) -> (r: Result<(), String>)
    ensures
        r is Ok <==> preset.kind@ == KIND@,
        r matches Err(e) ==> e@ == "这不是本插件的预设文件（kind="@ + preset.kind@ + "，应为 "@
            + KIND@ + "）"@,
{
    if same(preset.kind.as_str(), KIND) {
        return Ok(());
    }
    let mut msg = "这不是本插件的预设文件（kind=".to_string();
    msg.append(preset.kind.as_str());
    msg.append("，应为 ");
    msg.append(KIND);
    msg.append("）");
    Err(msg)
}

/// Takes a preset that was read from its file; any other file is refused.
pub fn load(parsed: Preset) -> (r: Result<Preset, String>)
    ensures
        match r {
            Ok(p) => p == parsed && parsed.kind@ == KIND@,
            Err(e) => parsed.kind@ != KIND@ && e@ == "这不是本插件的预设文件（kind="@
                + parsed.kind@ + "，应为 "@ + KIND@ + "）"@,
        },
{
    match check_kind(&parsed) {
        Ok(_) => Ok(parsed),
        Err(e) => Err(e),
    }
}

/// How long the rows take together.
pub open spec fn total_of(items: Seq<ProgramEntry>) -> nat
    decreases items.len(),
{
    if items.len() == 0 {
        0
    } else {
        total_of(items.drop_last()) + playlist::effective_ms(items.last()) as nat
    }
}

proof fn lemma_total_grows(items: Seq<ProgramEntry>, n: int)
    requires
        0 <= n <= items.len(),
    ensures
        total_of(items.take(n)) <= total_of(items),
    decreases items.len() - n,
{
    if n == items.len() {
        assert(items.take(n) =~= items);
    } else {
        assert(items.take(n + 1).drop_last() =~= items.take(n));
        lemma_total_grows(items, n + 1);
    }
}

/// How long the rows take together; `None` where that is more than 64 bits hold.
pub fn total_ms(items: &Vec<ProgramEntry>) -> (r: Option<u64>)
    ensures
        match r {
            Some(t) => t == total_of(items@),
            None => total_of(items@) > u64::MAX,
        },
{
    let mut sum: u64 = 0;
    let mut i: usize = 0;
    assert(items@.take(0) =~= Seq::<ProgramEntry>::empty());
    while i < items.len()
        invariant
            i <= items@.len(),
            sum == total_of(items@.take(i as int)),
        decreases items@.len() - i,
    {
        let d: u64 = effective_duration_ms(&items[i]);
        proof {
            assert(items@.take(i + 1).drop_last() =~= items@.take(i as int));
            lemma_total_grows(items@, i + 1);
        }
        if d > u64::MAX - sum {
            return None;
        }
        sum = sum + d;
        i = i + 1;
    }
    assert(items@.take(i as int) =~= items@);
    Some(sum)
}

/// Whether `s` is what the picker shows of `p`.
pub open spec fn sums_up(s: PresetSummary, p: Preset) -> bool {
    &&& s.name@ == p.name@
    &&& s.items == p.items@.len()
    &&& s.total_ms == total_of(p.items@)
    &&& text::opt_text(s.saved_at) == text::opt_text(p.saved_at)
}

/// What the picker shows of a preset. The total has to fit in 64 bits (see
/// `total_ms`).
pub fn summarize(preset: &Preset) -> (r: PresetSummary)
    requires
        total_of(preset.items@) <= u64::MAX,
    ensures
        sums_up(r, *preset),
{
    let total: u64 = match total_ms(&preset.items) {
        Some(t) => t,
        None => 0,
    };
    PresetSummary {
        name: preset.name.clone(),
        items: preset.items.len(),
        total_ms: total,
        saved_at: clone_opt(&preset.saved_at),
    }
}

/// When a preset was saved.
pub open spec fn saved_at() -> spec_fn(PresetSummary) -> Option<Seq<char>> {
    |s: PresetSummary| text::opt_text(s.saved_at)
}

/// Puts the newest preset first; one without a date comes last, and presets of the
/// same date keep their order.
pub fn newest_first(list: Vec<PresetSummary>) -> (r: Vec<PresetSummary>)
    ensures
        order::text_sorted(list@, r@, saved_at(), true),
{
    let mut keys: Vec<Option<String>> = Vec::new();
    let mut i: usize = 0;
    while i < list.len()
        invariant
            i <= list@.len(),
            keys@.len() == i,
            forall|j: int|
                0 <= j < i ==> text::opt_text(keys@[j]) == saved_at()(#[trigger] list@[j]),
        decreases list@.len() - i,
    {
        keys.push(clone_opt(&list[i].saved_at));
        i = i + 1;
    }
    sort_by_text(list, &keys, true)
}

/// The presets among some files: those that could be read as one, in their order.
pub open spec fn readable(files: Seq<Option<Preset>>) -> Seq<Preset>
    decreases files.len(),
{
    if files.len() == 0 {
        Seq::empty()
    } else {
        match files.last() {
            Some(p) => readable(files.drop_last()).push(p),
            None => readable(files.drop_last()),
        }
    }
}

/// Whether `list` holds one summary for each of the presets, in their order.
pub open spec fn sum_up(list: Seq<PresetSummary>, presets: Seq<Preset>) -> bool {
    &&& list.len() == presets.len()
    &&& forall|i: int| 0 <= i < presets.len() ==> sums_up(#[trigger] list[i], presets[i])
}

/// Lists the presets of a directory, newest first: one summary for each file that could be
/// read as a preset, and none for the others. Every total has to fit in 64 bits (see
/// `total_ms`).
pub fn list(files: &Vec<Option<Preset>>) -> (r: Vec<PresetSummary>)
    requires
        forall|i: int|
            0 <= i < files@.len() ==> (#[trigger] files@[i] matches Some(p) ==> total_of(p.items@)
                <= u64::MAX),
    ensures
        exists|found: Seq<PresetSummary>|
            sum_up(found, readable(files@)) && #[trigger] order::text_sorted(
                found,
                r@,
                saved_at(),
                true,
            ),
{
    let mut found: Vec<PresetSummary> = Vec::new();
    let mut i: usize = 0;
    while i < files.len()
        invariant
            i <= files@.len(),
            forall|j: int|
                0 <= j < files@.len() ==> (#[trigger] files@[j] matches Some(p) ==> total_of(
                    p.items@,
                ) <= u64::MAX),
            sum_up(found@, readable(files@.take(i as int))),
        decreases files@.len() - i,
    {
        proof {
            assert(files@.take(i + 1).drop_last() =~= files@.take(i as int));
            assert(files@.take(i + 1).last() == files@[i as int]);
        }
        match &files[i] {
            Some(p) => found.push(summarize(p)),
            None => {},
        }
        i = i + 1;
    }
    proof {
        assert(files@.take(i as int) =~= files@);
    }
    newest_first(found)
}

/// Whether a list holds a summary of `p`.
pub open spec fn shows(list: Seq<PresetSummary>, p: Preset) -> bool {
    exists|j: int| 0 <= j < list.len() && sums_up(#[trigger] list[j], p)
}

/// Whether a summary is one of these presets.
pub open spec fn stands_for(s: PresetSummary, presets: Seq<Preset>) -> bool {
    exists|i: int| 0 <= i < presets.len() && sums_up(s, #[trigger] presets[i])
}

/// The list is as long as there are files that could be read. Each of those is summed up
/// somewhere in it, nothing else is, and none comes before a newer one.
pub proof fn the_list_holds_every_preset(
    files: Seq<Option<Preset>>,
    found: Seq<PresetSummary>,
    shown: Seq<PresetSummary>,
)
    requires
        sum_up(found, readable(files)),
        order::text_sorted(found, shown, saved_at(), true),
    ensures
        shown.len() == readable(files).len(),
        forall|i: int|
            0 <= i < readable(files).len() ==> shows(shown, #[trigger] readable(files)[i]),
        forall|j: int|
            0 <= j < shown.len() ==> stands_for(#[trigger] shown[j], readable(files)),
        forall|i: int, j: int|
            0 <= i <= j < shown.len() ==> !order::opt_before(
                text::opt_text((#[trigger] shown[i]).saved_at),
                text::opt_text((#[trigger] shown[j]).saved_at),
            ),
{
    broadcast use vstd::seq_lib::group_to_multiset_ensures;

    let presets = readable(files);
    assert(found.to_multiset().len() == shown.to_multiset().len());
    assert forall|i: int| 0 <= i < presets.len() implies shows(shown, #[trigger] presets[i]) by {
        assert(found.contains(found[i]));
        assert(shown.to_multiset().count(found[i]) > 0);
        assert(shown.contains(found[i]));
        let j = choose|j: int| 0 <= j < shown.len() && shown[j] == found[i];
        assert(sums_up(shown[j], presets[i]));
    }
    assert forall|j: int| 0 <= j < shown.len() implies stands_for(#[trigger] shown[j], presets) by {
        assert(shown.contains(shown[j]));
        assert(found.to_multiset().count(shown[j]) > 0);
        assert(found.contains(shown[j]));
        let i = choose|i: int| 0 <= i < found.len() && found[i] == shown[j];
        assert(sums_up(shown[j], presets[i]));
    }
    assert forall|i: int, j: int| 0 <= i <= j < shown.len() implies !order::opt_before(
        text::opt_text((#[trigger] shown[i]).saved_at),
        text::opt_text((#[trigger] shown[j]).saved_at),
    ) by {
        assert(!order::opt_before(saved_at()(shown[i]), saved_at()(shown[j])));
    }
}

/// The clock settings that a preset carries.
pub open spec fn clock_view(c: Option<ClockConfig>) -> Option<JsonView> {
    match c {
        Some(c) => Some(c.settings@),
        None => None,
    }
}

/// Builds a preset out of the live configuration, saved at the given date.
pub fn from_config_at(
    cfg: &Config,
    name: &str,
    with_settings: bool,
    date: Option<String>,
) -> (r: Preset)
    ensures
        r.kind@ == KIND@,
        r.version == 1,
        r.name@ == name@,
        r.saved_at == date,
        r.items@ == cfg.playlist.items@,
        r.bumpers@ == cfg.playlist.bumpers@,
        r.scheduler == (if with_settings {
            Some(cfg.scheduler)
        } else {
            None
        }),
        clock_view(r.clock) == (if with_settings {
            Some(cfg.clock.settings@)
        } else {
            None
        }),
{
    Preset {
        kind: KIND.to_string(),
        version: 1,
        name: name.to_owned(),
        saved_at: date,
        items: clone_items(&cfg.playlist.items),
        bumpers: clone_bumpers(&cfg.playlist.bumpers),
        scheduler: if with_settings {
            Some(cfg.scheduler)
        } else {
            None
        },
        clock: if with_settings {
            Some(cfg.clock.clone())
        } else {
            None
        },
    }
}

/// Builds a preset out of the live configuration, saved now.
pub fn from_config(cfg: &Config, name: &str, with_settings: bool) -> (r: Preset)
    ensures
        r.kind@ == KIND@,
        r.version == 1,
        r.name@ == name@,
        r.saved_at is Some,
        r.items@ == cfg.playlist.items@,
        r.bumpers@ == cfg.playlist.bumpers@,
        r.scheduler == (if with_settings {
            Some(cfg.scheduler)
        } else {
            None
        }),
        clock_view(r.clock) == (if with_settings {
            Some(cfg.clock.settings@)
        } else {
            None
        }),
{
    let date = now_rfc3339();
    from_config_at(cfg, name, with_settings, Some(date))
}

} // verus!
