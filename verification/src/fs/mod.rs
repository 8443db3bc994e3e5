//! Directory listings: entries, the format whitelist, hidden-file filtering
//! and the directories-first, case-insensitive ordering.
//!
//! Reading a directory is the caller's part; the functions here take the
//! entries that were read and decide what is shown and in which order.
use vstd::prelude::*;
use crate::textfmt::{
    chars_of, chars_start_with, extension_of, has_prefix, join_path, lowercase, parent_of, path_extension, path_join,
    path_parent, seq_lt, str_eq, to_lowercase,
};
use crate::order::{
    key_lt, lemma_filter_member, lemma_filter_pairwise, lemma_stable_sort_unique, lemma_stably_sorted_members, stable_sort_by_key,
    stably_sorted_by,
};
use crate::preview::meta::{human_size_spec, human_size_units};

verus! {

/// One entry of a directory listing.
#[derive(Debug, Clone)]
pub struct Entry {
    pub path: String,
    pub name: String,
    pub is_dir: bool,
    pub size: u64,
    pub is_symlink: bool,
    pub symlink_target: Option<String>,
}

impl Entry {
    /// The icon shown before the entry: link, folder or file.
    pub fn display_prefix(&self) -> (res: &'static str)
        ensures
            self.is_symlink ==> res@ == "🔗 "@,
            !self.is_symlink && self.is_dir ==> res@ == "📁 "@,
            !self.is_symlink && !self.is_dir ==> res@ == "📄 "@,
    {
        if self.is_symlink {
            "🔗 "
        } else if self.is_dir {
            "📁 "
        } else {
            "📄 "
        }
    }

    /// The entry's size in B, KB, MB or GB.
    pub fn human_size(&self) -> (res: String)
        ensures
            res@ == human_size_spec(self.size as nat, 3),
    {
        human_size(self.size)
    }
}

/// Size text with units up to GB.
fn human_size(bytes: u64) -> (res: String)
    ensures
        res@ == human_size_spec(bytes as nat, 3),
{
    human_size_units(bytes, 3)
}

/// Human-readable size for the status bar (units up to GB).
pub fn human_size_public(bytes: u64) -> (res: String)
    ensures
        res@ == human_size_spec(bytes as nat, 3),
{
    human_size(bytes)
}

// ---------------------------------------------------------------------------
// Format whitelist
// ---------------------------------------------------------------------------

/// The file extensions that are listed (images, documents, archives, audio
/// and video); directories are always listed.
pub open spec fn allowed_formats() -> Seq<Seq<char>> {
    seq![
        "jpg"@, "jpeg"@, "png"@, "gif"@, "webp"@, "bmp"@, "svg"@, "ico"@, "tiff"@, "heic"@, "heif"@,
        "pdf"@, "doc"@, "docx"@, "xls"@, "xlsx"@, "ods"@, "ppt"@, "pptx"@, "odt"@, "rtf"@, "txt"@,
        "md"@, "csv"@, "tsv"@,
        "zip"@, "tar"@, "gz"@, "tgz"@, "7z"@, "rar"@,
        "mp3"@, "flac"@, "wav"@, "ogg"@, "m4a"@, "aac"@, "opus"@, "wma"@, "mp4"@, "mkv"@, "webm"@,
        "avi"@, "mov"@, "m4v"@, "flv"@
    ]
}

fn allowed_formats_exec() -> (res: Vec<&'static str>)
    ensures
        res@.map_values(|s: &str| s@) == allowed_formats(),
{
    let v = vec![
        "jpg", "jpeg", "png", "gif", "webp", "bmp", "svg", "ico", "tiff", "heic", "heif",
        "pdf", "doc", "docx", "xls", "xlsx", "ods", "ppt", "pptx", "odt", "rtf", "txt",
        "md", "csv", "tsv",
        "zip", "tar", "gz", "tgz", "7z", "rar",
        "mp3", "flac", "wav", "ogg", "m4a", "aac", "opus", "wma", "mp4", "mkv", "webm",
        "avi", "mov", "m4v", "flv",
    ];
    assert(v@.map_values(|s: &str| s@) =~= allowed_formats());
    v
}

/// The formats the filter lists: images (jpg, jpeg, png, gif, webp, bmp,
/// svg, ico, tiff, heic, heif), documents (pdf, doc, docx, xls, xlsx, ods,
/// ppt, pptx, odt, rtf, txt, md, csv, tsv), archives (zip, tar, gz, tgz,
/// 7z, rar), audio (mp3, flac, wav, ogg, m4a, aac, opus, wma) and video
/// (mp4, mkv, webm, avi, mov, m4v, flv); no other extension.
pub proof fn lemma_listed_formats(e: Seq<char>)
    ensures
        allowed_formats().contains(e) <==> (
            e == "jpg"@ || e == "jpeg"@ || e == "png"@ || e == "gif"@ || e == "webp"@ || e == "bmp"@
            || e == "svg"@ || e == "ico"@ || e == "tiff"@ || e == "heic"@ || e == "heif"@ || e == "pdf"@
            || e == "doc"@ || e == "docx"@ || e == "xls"@ || e == "xlsx"@ || e == "ods"@ || e == "ppt"@
            || e == "pptx"@ || e == "odt"@ || e == "rtf"@ || e == "txt"@ || e == "md"@ || e == "csv"@
            || e == "tsv"@ || e == "zip"@ || e == "tar"@ || e == "gz"@ || e == "tgz"@ || e == "7z"@
            || e == "rar"@ || e == "mp3"@ || e == "flac"@ || e == "wav"@ || e == "ogg"@ || e == "m4a"@
            || e == "aac"@ || e == "opus"@ || e == "wma"@ || e == "mp4"@ || e == "mkv"@ || e == "webm"@
            || e == "avi"@ || e == "mov"@ || e == "m4v"@ || e == "flv"@
        ),
{
    let fs = allowed_formats();
    if fs.contains(e) {
        let k = choose|k: int| 0 <= k < fs.len() && fs[k] == e;
            if k == 0 { assert(e == "jpg"@); 
            } else if k == 1 { assert(e == "jpeg"@); 
            } else if k == 2 { assert(e == "png"@); 
            } else if k == 3 { assert(e == "gif"@); 
            } else if k == 4 { assert(e == "webp"@); 
            } else if k == 5 { assert(e == "bmp"@); 
            } else if k == 6 { assert(e == "svg"@); 
            } else if k == 7 { assert(e == "ico"@); 
            } else if k == 8 { assert(e == "tiff"@); 
            } else if k == 9 { assert(e == "heic"@); 
            } else if k == 10 { assert(e == "heif"@); 
            } else if k == 11 { assert(e == "pdf"@); 
            } else if k == 12 { assert(e == "doc"@); 
            } else if k == 13 { assert(e == "docx"@); 
            } else if k == 14 { assert(e == "xls"@); 
            } else if k == 15 { assert(e == "xlsx"@); 
            } else if k == 16 { assert(e == "ods"@); 
            } else if k == 17 { assert(e == "ppt"@); 
            } else if k == 18 { assert(e == "pptx"@); 
            } else if k == 19 { assert(e == "odt"@); 
            } else if k == 20 { assert(e == "rtf"@); 
            } else if k == 21 { assert(e == "txt"@); 
            } else if k == 22 { assert(e == "md"@); 
            } else if k == 23 { assert(e == "csv"@); 
            } else if k == 24 { assert(e == "tsv"@); 
            } else if k == 25 { assert(e == "zip"@); 
            } else if k == 26 { assert(e == "tar"@); 
            } else if k == 27 { assert(e == "gz"@); 
            } else if k == 28 { assert(e == "tgz"@); 
            } else if k == 29 { assert(e == "7z"@); 
            } else if k == 30 { assert(e == "rar"@); 
            } else if k == 31 { assert(e == "mp3"@); 
            } else if k == 32 { assert(e == "flac"@); 
            } else if k == 33 { assert(e == "wav"@); 
            } else if k == 34 { assert(e == "ogg"@); 
            } else if k == 35 { assert(e == "m4a"@); 
            } else if k == 36 { assert(e == "aac"@); 
            } else if k == 37 { assert(e == "opus"@); 
            } else if k == 38 { assert(e == "wma"@); 
            } else if k == 39 { assert(e == "mp4"@); 
            } else if k == 40 { assert(e == "mkv"@); 
            } else if k == 41 { assert(e == "webm"@); 
            } else if k == 42 { assert(e == "avi"@); 
            } else if k == 43 { assert(e == "mov"@); 
            } else if k == 44 { assert(e == "m4v"@); 
            } else if k == 45 { assert(e == "flv"@); 
            }
    }
    if e == "jpg"@ { assert(fs[0] == e); 
    } else if e == "jpeg"@ { assert(fs[1] == e); 
    } else if e == "png"@ { assert(fs[2] == e); 
    } else if e == "gif"@ { assert(fs[3] == e); 
    } else if e == "webp"@ { assert(fs[4] == e); 
    } else if e == "bmp"@ { assert(fs[5] == e); 
    } else if e == "svg"@ { assert(fs[6] == e); 
    } else if e == "ico"@ { assert(fs[7] == e); 
    } else if e == "tiff"@ { assert(fs[8] == e); 
    } else if e == "heic"@ { assert(fs[9] == e); 
    } else if e == "heif"@ { assert(fs[10] == e); 
    } else if e == "pdf"@ { assert(fs[11] == e); 
    } else if e == "doc"@ { assert(fs[12] == e); 
    } else if e == "docx"@ { assert(fs[13] == e); 
    } else if e == "xls"@ { assert(fs[14] == e); 
    } else if e == "xlsx"@ { assert(fs[15] == e); 
    } else if e == "ods"@ { assert(fs[16] == e); 
    } else if e == "ppt"@ { assert(fs[17] == e); 
    } else if e == "pptx"@ { assert(fs[18] == e); 
    } else if e == "odt"@ { assert(fs[19] == e); 
    } else if e == "rtf"@ { assert(fs[20] == e); 
    } else if e == "txt"@ { assert(fs[21] == e); 
    } else if e == "md"@ { assert(fs[22] == e); 
    } else if e == "csv"@ { assert(fs[23] == e); 
    } else if e == "tsv"@ { assert(fs[24] == e); 
    } else if e == "zip"@ { assert(fs[25] == e); 
    } else if e == "tar"@ { assert(fs[26] == e); 
    } else if e == "gz"@ { assert(fs[27] == e); 
    } else if e == "tgz"@ { assert(fs[28] == e); 
    } else if e == "7z"@ { assert(fs[29] == e); 
    } else if e == "rar"@ { assert(fs[30] == e); 
    } else if e == "mp3"@ { assert(fs[31] == e); 
    } else if e == "flac"@ { assert(fs[32] == e); 
    } else if e == "wav"@ { assert(fs[33] == e); 
    } else if e == "ogg"@ { assert(fs[34] == e); 
    } else if e == "m4a"@ { assert(fs[35] == e); 
    } else if e == "aac"@ { assert(fs[36] == e); 
    } else if e == "opus"@ { assert(fs[37] == e); 
    } else if e == "wma"@ { assert(fs[38] == e); 
    } else if e == "mp4"@ { assert(fs[39] == e); 
    } else if e == "mkv"@ { assert(fs[40] == e); 
    } else if e == "webm"@ { assert(fs[41] == e); 
    } else if e == "avi"@ { assert(fs[42] == e); 
    } else if e == "mov"@ { assert(fs[43] == e); 
    } else if e == "m4v"@ { assert(fs[44] == e); 
    } else if e == "flv"@ { assert(fs[45] == e); 
    }
}

/// Whether a path's extension, lower-cased, is whitelisted.
pub open spec fn allowed_format_spec(path: Seq<char>) -> bool {
    match path_extension(path) {
        Some(ext) => allowed_formats().contains(lowercase(ext)),
        None => false,
    }
}

/// Whether a file is shown when the format filter is on: its extension,
/// lower-cased, is in the whitelist; a path without extension is not.
pub fn is_allowed_format(path: &str) -> (res: bool)
    ensures
        res == allowed_format_spec(path@),
{
    match extension_of(path) {
        None => false,
        Some(ext) => {
            let lower = to_lowercase(ext.as_str());
            let list = allowed_formats_exec();
            let ghost views = list@.map_values(|s: &str| s@);
            let mut i: usize = 0;
            while i < list.len()
                invariant
                    0 <= i <= list@.len(),
                    views == allowed_formats(),
                    views == list@.map_values(|s: &str| s@),
                    path_extension(path@) == Some(ext@),
                    lower@ == lowercase(ext@),
                    views.len() == list@.len(),
                    forall|j: int| 0 <= j < i ==> views[j] != lower@,
                decreases list.len() - i,
            {
                assert(views[i as int] == list@[i as int]@);
                if str_eq(list[i], lower.as_str()) {
                    assert(views[i as int] == lower@);
                    assert(views.contains(lower@));
                    assert(path_extension(path@) == Some(ext@));
                    assert(lower@ == lowercase(ext@));
                    return true;
                }
                i = i + 1;
            }
            assert(!views.contains(lower@));
            false
        }
    }
}

// ---------------------------------------------------------------------------
// Ordering: directories first, then names compared lower-cased
// ---------------------------------------------------------------------------

/// The ordering key of an entry: directories first, then the lower-cased
/// name.
pub open spec fn entry_key(e: Entry) -> (bool, Seq<char>) {
    (e.is_dir, lowercase(e.name@))
}

/// `out` is `inp` sorted directories first, then by lower-cased name,
/// entries that compare equal keeping their relative order.
pub open spec fn stably_sorted(out: Seq<Entry>, inp: Seq<Entry>) -> bool {
    stably_sorted_by(out, inp, |e: Entry| entry_key(e))
}

/// Sorts entries directories first, then by lower-cased name; the sort is
/// stable.
pub fn sort_entries(v: Vec<Entry>) -> (out: Vec<Entry>)
    ensures
        stably_sorted(out@, v@),
{
    let mut keys: Vec<(bool, Vec<char>)> = Vec::new();
    let mut t: usize = 0;
    while t < v.len()
        invariant
            0 <= t <= v@.len(),
            keys@.len() == t,
            forall|i: int| 0 <= i < t ==> (#[trigger] keys@[i]).0 == entry_key(v@[i]).0 && keys@[i].1@ == entry_key(v@[i]).1,
        decreases v.len() - t,
    {
        let lower = to_lowercase(v[t].name.as_str());
        keys.push((v[t].is_dir, chars_of(lower.as_str())));
        t = t + 1;
    }
    stable_sort_by_key(v, keys, Ghost(|e: Entry| entry_key(e)))
}

// ---------------------------------------------------------------------------
// Filters and listings
// ---------------------------------------------------------------------------

/// A name that starts with `.` is hidden.
pub open spec fn is_hidden_name(name: Seq<char>) -> bool {
    has_prefix(name, seq!['.'])
}

/// Whether an entry is kept by the hidden-file filter.
pub open spec fn shown_when(show_hidden: bool) -> spec_fn(Entry) -> bool {
    |e: Entry| show_hidden || !is_hidden_name(e.name@)
}

/// Whether an entry is kept by the format filter.
pub open spec fn format_kept() -> spec_fn(Entry) -> bool {
    |e: Entry| e.is_dir || allowed_format_spec(e.path@)
}

/// The entries kept when hidden files are (not) shown.
pub open spec fn visible_entries(raw: Seq<Entry>, show_hidden: bool) -> Seq<Entry> {
    raw.filter(shown_when(show_hidden))
}

/// The entries kept by the format filter: directories, and files whose
/// format is whitelisted.
pub open spec fn format_filtered(entries: Seq<Entry>) -> Seq<Entry> {
    entries.filter(format_kept())
}

fn is_hidden(name: &str) -> (res: bool)
    ensures
        res == is_hidden_name(name@),
{
    let cs = chars_of(name);
    let dot = vec!['.'];
    assert(dot@ =~= seq!['.']);
    chars_start_with(cs.as_slice(), dot.as_slice())
}

/// Drops hidden entries unless `show_hidden`.
fn filter_hidden(raw: Vec<Entry>, show_hidden: bool) -> (out: Vec<Entry>)
    ensures
        out@ == visible_entries(raw@, show_hidden),
{
    let ghost orig = raw@;
    let ghost pred = shown_when(show_hidden);
    let mut rest = raw;
    let mut out: Vec<Entry> = Vec::new();
    let ghost mut k: int = 0;
    while rest.len() > 0
        invariant
            0 <= k <= orig.len(),
            pred == shown_when(show_hidden),
            rest@ == orig.skip(k),
            out@ == orig.take(k).filter(pred),
        decreases rest.len(),
    {
        let e = rest.remove(0);
        proof {
            assert(e == orig[k]);
            assert(orig.take(k + 1) =~= orig.take(k).push(e));
            orig.take(k).lemma_filter_push(e, pred);
        }
        let hid = is_hidden(e.name.as_str());
        let keep = show_hidden || !hid;
        proof {
            assert(hid == is_hidden_name(e.name@));
            assert(pred(e) == (show_hidden || !is_hidden_name(e.name@)));
        }
        if keep {
            out.push(e);
        }
        proof {
            assert(out@ == orig.take(k + 1).filter(pred));
            k = k + 1;
            assert(rest@ =~= orig.skip(k));
        }
    }
    assert(orig.take(k) =~= orig);
    out
}

/// Keeps directories and whitelisted files.
fn keep_allowed_formats(entries: Vec<Entry>) -> (out: Vec<Entry>)
    ensures
        out@ == format_filtered(entries@),
{
    let ghost orig = entries@;
    let ghost pred = format_kept();
    let mut rest = entries;
    let mut out: Vec<Entry> = Vec::new();
    let ghost mut k: int = 0;
    while rest.len() > 0
        invariant
            0 <= k <= orig.len(),
            pred == format_kept(),
            rest@ == orig.skip(k),
            out@ == orig.take(k).filter(pred),
        decreases rest.len(),
    {
        let e = rest.remove(0);
        proof {
            assert(e == orig[k]);
            assert(orig.take(k + 1) =~= orig.take(k).push(e));
            orig.take(k).lemma_filter_push(e, pred);
        }
        let keep = e.is_dir || is_allowed_format(e.path.as_str());
        proof { assert(keep == pred(e)); }
        if keep {
            out.push(e);
        }
        proof {
            assert(out@ == orig.take(k + 1).filter(pred));
            k = k + 1;
            assert(rest@ =~= orig.skip(k));
        }
    }
    assert(orig.take(k) =~= orig);
    out
}

/// The listing of a directory from the entries read from it: hidden entries
/// dropped unless `show_hidden`, then sorted directories first and by
/// lower-cased name.
pub fn list_dir_raw(raw: Vec<Entry>, show_hidden: bool) -> (out: Vec<Entry>)
    ensures
        stably_sorted(out@, visible_entries(raw@, show_hidden)),
{
    sort_entries(filter_hidden(raw, show_hidden))
}

/// The listing shown for a directory: the sorted listing of the entries read
/// from it, restricted to directories and whitelisted formats when
/// `filter_formats` is set.
pub fn list_dir_filtered(raw: Vec<Entry>, show_hidden: bool, filter_formats: bool) -> (out: Vec<Entry>)
    ensures
        exists|sorted: Seq<Entry>| {
            &&& #[trigger] stably_sorted(sorted, visible_entries(raw@, show_hidden))
            &&& out@ == if filter_formats { format_filtered(sorted) } else { sorted }
        },
{
    let all = list_dir_raw(raw, show_hidden);
    let ghost sorted = all@;
    let out = if filter_formats { keep_allowed_formats(all) } else { all };
    assert(stably_sorted(sorted, visible_entries(raw@, show_hidden)));
    out
}

/// The default listing: whitelisted formats and directories only.
pub fn list_dir(raw: Vec<Entry>, show_hidden: bool) -> (out: Vec<Entry>)
    ensures
        exists|sorted: Seq<Entry>| {
            &&& #[trigger] stably_sorted(sorted, visible_entries(raw@, show_hidden))
            &&& out@ == format_filtered(sorted)
        },
{
    list_dir_filtered(raw, show_hidden, true)
}


/// The listing is determined by the entries read and the settings: any two
/// results that meet `list_dir_filtered`'s contract are equal. So `list_dir`
/// gives exactly what `list_dir_filtered` gives with the format filter on.
pub proof fn lemma_listing_determined(raw: Seq<Entry>, show_hidden: bool, filter_formats: bool, out1: Seq<Entry>, out2: Seq<Entry>)
    requires
        exists|s: Seq<Entry>| #[trigger] stably_sorted(s, visible_entries(raw, show_hidden))
            && out1 == if filter_formats { format_filtered(s) } else { s },
        exists|s: Seq<Entry>| #[trigger] stably_sorted(s, visible_entries(raw, show_hidden))
            && out2 == if filter_formats { format_filtered(s) } else { s },
    ensures
        out1 == out2,
{
    let s1 = choose|s: Seq<Entry>| #[trigger] stably_sorted(s, visible_entries(raw, show_hidden))
        && out1 == if filter_formats { format_filtered(s) } else { s };
    let s2 = choose|s: Seq<Entry>| #[trigger] stably_sorted(s, visible_entries(raw, show_hidden))
        && out2 == if filter_formats { format_filtered(s) } else { s };
    lemma_stable_sort_unique(s1, s2, visible_entries(raw, show_hidden), |e: Entry| entry_key(e));
}

/// The listing of a directory names exactly the entries read that are shown
/// (whose name does not start with ".", unless `show_hidden`) and, when `filter_formats`, kept by the
/// format filter (directories, and files of whitelisted formats); it names
/// none twice when the entries read are distinct (as a directory's are); and
/// directories come first, then files, each group in lower-cased name order.
pub proof fn lemma_listing_contents(raw: Seq<Entry>, show_hidden: bool, filter_formats: bool, out: Seq<Entry>)
    requires
        exists|s: Seq<Entry>| #[trigger] stably_sorted(s, visible_entries(raw, show_hidden))
            && out == if filter_formats { format_filtered(s) } else { s },
    ensures
        forall|e: Entry| out.contains(e) <==> (raw.contains(e) && (show_hidden || !has_prefix(e.name@, seq!['.']))
            && (!filter_formats || e.is_dir || allowed_format_spec(e.path@))),
        (forall|i: int, j: int| 0 <= i < j < raw.len() ==> raw[i] != raw[j])
            ==> (forall|i: int, j: int| 0 <= i < j < out.len() ==> out[i] != out[j]),
        forall|i: int, j: int| #![trigger out[i], out[j]] 0 <= i < j < out.len() ==>
            (out[i].is_dir && !out[j].is_dir)
            || (out[i].is_dir == out[j].is_dir && !seq_lt(lowercase(out[j].name@), lowercase(out[i].name@))),
{
    let vis = visible_entries(raw, show_hidden);
    let s = choose|s: Seq<Entry>| #[trigger] stably_sorted(s, vis)
        && out == if filter_formats { format_filtered(s) } else { s };
    lemma_stably_sorted_members(s, vis, |e: Entry| entry_key(e));
    assert forall|e: Entry| out.contains(e) <==> (raw.contains(e) && (show_hidden || !has_prefix(e.name@, seq!['.']))
        && (!filter_formats || e.is_dir || allowed_format_spec(e.path@))) by {
        lemma_filter_member(raw, shown_when(show_hidden), e);
        lemma_filter_member(s, format_kept(), e);
    }
    if forall|i: int, j: int| 0 <= i < j < raw.len() ==> raw[i] != raw[j] {
        lemma_filter_pairwise(raw, shown_when(show_hidden), |a: Entry, b: Entry| a != b);
        assert forall|i: int, j: int| 0 <= i < j < vis.len() implies vis[i] != vis[j] by {
            assert((|a: Entry, b: Entry| a != b)(vis[i], vis[j]));
        }
        lemma_filter_pairwise(s, format_kept(), |a: Entry, b: Entry| a != b);
        if filter_formats {
            assert forall|i: int, j: int| 0 <= i < j < out.len() implies out[i] != out[j] by {
                assert((|a: Entry, b: Entry| a != b)(out[i], out[j]));
            }
        }
    }
    let in_order = |a: Entry, b: Entry| !key_lt(entry_key(b), entry_key(a));
    assert forall|i: int, j: int| 0 <= i < j < s.len() implies in_order(#[trigger] s[i], #[trigger] s[j]) by {}
    lemma_filter_pairwise(s, format_kept(), in_order);
    assert forall|i: int, j: int| 0 <= i < j < out.len() implies
        (out[i].is_dir && !out[j].is_dir)
        || (out[i].is_dir == out[j].is_dir && !seq_lt(lowercase(out[j].name@), lowercase(out[i].name@))) by {
        assert(in_order(out[i], out[j]));
    }
}

/// What `Path::is_absolute` says of a path given as text.
pub uninterp spec fn path_absolute(path: Seq<char>) -> bool;

/// `Path::is_absolute`.
#[verifier::external_body]
fn is_absolute_path(path: &str) -> (res: bool)
    ensures
        res == path_absolute(path@),
{
    std::path::Path::new(path).is_absolute()
}

/// Where a link at `current` that points to `target` leads: the target when
/// it is absolute, else the target joined to the link's directory ("." when
/// it has none).
pub open spec fn symlink_next_spec(current: Seq<char>, target: Seq<char>) -> Seq<char> {
    if path_absolute(target) {
        target
    } else {
        path_join(match path_parent(current) { Some(p) => p, None => "."@ }, target)
    }
}

/// One step of resolving a symbolic link.
pub fn symlink_next(current: &str, target: &str) -> (res: String)
    ensures
        res@ == symlink_next_spec(current@, target@),
{
    if is_absolute_path(target) {
        let mut s = String::new();
        s.append(target);
        s
    } else {
        match parent_of(current) {
            Some(p) => join_path(p.as_str(), target),
            None => join_path(".", target),
        }
    }
}

/// How many links are followed before resolving gives up.
pub const SYMLINK_MAX_DEPTH: usize = 10;

/// Whether resolving may follow one more link after `depth` links have been
/// followed: at most `SYMLINK_MAX_DEPTH` links are followed in all, and the
/// one after them fails with "symlink depth exceeded 10".
pub fn symlink_depth_check(depth: usize) -> (res: Result<(), String>)
    ensures
        depth < SYMLINK_MAX_DEPTH ==> res is Ok,
        depth >= SYMLINK_MAX_DEPTH ==> (res matches Err(m) && m@ == "symlink depth exceeded 10"@),
{
    if depth >= SYMLINK_MAX_DEPTH {
        let mut m = String::from_str("symlink depth exceeded ");
        crate::textfmt::push_decimal(&mut m, SYMLINK_MAX_DEPTH as u64);
        proof {
            reveal_strlit("symlink depth exceeded ");
            reveal_strlit("symlink depth exceeded 10");
            assert(crate::textfmt::decimal(10) =~= seq!['1', '0']) by {
                assert(crate::textfmt::decimal(1) == seq!['1']);
            }
        }
        assert(m@ =~= "symlink depth exceeded 10"@);
        Err(m)
    } else {
        Ok(())
    }
}

/// The error text when directory `dir` cannot be read, with the system's
/// reason `reason`.
pub fn read_dir_error(dir: &str, reason: &str) -> (res: String)
    ensures
        res@ == "cannot read dir "@ + dir@ + ": "@ + reason@,
{
    let mut m = String::from_str("cannot read dir ");
    m.append(dir);
    m.append(": ");
    m.append(reason);
    m
}

} // verus!
