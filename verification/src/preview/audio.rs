//! The audio handler: tags, duration and a waveform.
use vstd::prelude::*;
use crate::error::PreviewError;
use crate::preview::{check_size, AudioMeta, PreviewResult};
use crate::ui::preview_pane::whole_secs;
use lofty::file::{AudioFile, TaggedFileExt};
use lofty::tag::Accessor;
use crate::textfmt::{
    bytes_have_prefix, bytes_start_with, extension_of, has_prefix, lower_extension, lower_extension_of, path_extension, str_in_list,
    str_starts_with, texts,
};

verus! {

/// Previews audio files.
pub struct AudioHandler;

/// Extensions of audio files.
pub open spec fn audio_extensions() -> Seq<Seq<char>> {
    seq!["mp3"@, "flac"@, "wav"@, "ogg"@, "m4a"@, "aac"@, "opus"@, "wma"@, "aiff"@]
}

/// 85 for audio (by extension, `audio/*` type, or an ID3, Ogg or RIFF
/// header), 2 otherwise.
pub open spec fn audio_priority(path: Seq<char>, mime: Seq<char>, magic: Seq<u8>) -> u8 {
    if audio_extensions().contains(lower_extension(path)) || has_prefix(mime, "audio/"@)
        || bytes_have_prefix(magic, seq![0x49u8, 0x44u8, 0x33u8])
        || bytes_have_prefix(magic, seq![0x4Fu8, 0x67u8, 0x67u8, 0x53u8])
        || bytes_have_prefix(magic, seq![0x52u8, 0x49u8, 0x46u8, 0x46u8]) { 85 } else { 2 }
}

impl AudioHandler {
    pub fn name(&self) -> (res: &'static str)
        ensures
            res@ == "audio"@,
    {
        "audio"
    }

    pub fn priority(&self, path: &str, mime: &str, magic: &[u8]) -> (res: u8)
        ensures
            res == audio_priority(path@, mime@, magic@),
    {
        let ext = lower_extension_of(path);
        let list = vec!["mp3", "flac", "wav", "ogg", "m4a", "aac", "opus", "wma", "aiff"];
        assert(texts(list@) =~= audio_extensions());
        let id3 = [0x49u8, 0x44u8, 0x33u8];
        let ogg = [0x4Fu8, 0x67u8, 0x67u8, 0x53u8];
        let riff = [0x52u8, 0x49u8, 0x46u8, 0x46u8];
        assert(id3@ =~= seq![0x49u8, 0x44u8, 0x33u8]);
        assert(ogg@ =~= seq![0x4Fu8, 0x67u8, 0x67u8, 0x53u8]);
        assert(riff@ =~= seq![0x52u8, 0x49u8, 0x46u8, 0x46u8]);
        let is_audio_ext = str_in_list(ext.as_str(), &list);
        let is_audio_magic = str_starts_with(mime, "audio/") || bytes_start_with(magic, &id3)
            || bytes_start_with(magic, &ogg) || bytes_start_with(magic, &riff);
        if is_audio_ext || is_audio_magic { 85 } else { 2 }
    }

    /// 200 MB.
    pub fn file_size_limit(&self) -> (res: u64)
        ensures
            res == 200 * 1024 * 1024,
    {
        200 * 1024 * 1024
    }
}


// ---------------------------------------------------------------------------
// The audio preview
// ---------------------------------------------------------------------------

/// A tag's title and artist.
pub type TagText = (Option<String>, Option<String>);

/// The content of a tag's title and artist.
pub open spec fn tag_view(t: TagText) -> (Option<Seq<char>>, Option<Seq<char>>) {
    (match t.0 { Some(s) => Some(s@), None => None }, match t.1 { Some(s) => Some(s@), None => None })
}

/// The content of an optional tag.
pub open spec fn opt_tag_view(t: Option<TagText>) -> Option<(Option<Seq<char>>, Option<Seq<char>>)> {
    match t { Some(x) => Some(tag_view(x)), None => None }
}

/// What lofty reads from audio data of a file with extension `ext` (the
/// file type `FileType::from_ext` gives for it, then `Probe::read`, as
/// `lofty::read_from_path` does; no type, an unknown format error): the
/// duration as whole seconds and nanoseconds below a second, the title and
/// artist of the primary tag and of the first tag, if any; or the error's
/// text.
pub uninterp spec fn audio_tags_of(data: Seq<u8>, ext: Seq<char>)
    -> Result<(u64, u32, Option<(Option<Seq<char>>, Option<Seq<char>>)>, Option<(Option<Seq<char>>, Option<Seq<char>>)>), Seq<char>>;

/// Reads the duration and the tags of audio data with lofty, as the file
/// type of extension `ext`; the duration is handed over as
/// `Duration::as_secs` and `Duration::subsec_nanos` (below one billion, as
/// documented).
#[verifier::external_body]
fn read_audio_tags(data: &[u8], ext: &str) -> (res: Result<(u64, u32, Option<TagText>, Option<TagText>), String>)
    ensures
        match res {
            Ok((secs, nanos, p, f)) => nanos < 1_000_000_000
                && audio_tags_of(data@, ext@) == Ok::<_, Seq<char>>((secs, nanos, opt_tag_view(p), opt_tag_view(f))),
            Err(e) => audio_tags_of(data@, ext@) == Err::<(u64, u32, Option<(Option<Seq<char>>, Option<Seq<char>>)>, Option<(Option<Seq<char>>, Option<Seq<char>>)>), Seq<char>>(e@),
        },
{
    let c = std::io::Cursor::new(data);
    let probe = match lofty::file::FileType::from_ext(ext) {
        Some(t) => lofty::probe::Probe::with_file_type(c, t),
        None => lofty::probe::Probe::new(c),
    };
    let tagged = probe.read().map_err(|e| e.to_string())?;
    let text = |t: &lofty::tag::Tag| (t.title().map(|s| s.to_string()), t.artist().map(|s| s.to_string()));
    let d = tagged.properties().duration();
    Ok((d.as_secs(), d.subsec_nanos(), tagged.primary_tag().map(text), tagged.first_tag().map(text)))
}

/// `Duration::new(secs, nanos)`: with `nanos` below one billion nothing
/// carries, and the duration's whole seconds (`Duration::as_secs`) are
/// `secs`. The nanoseconds are not stated.
#[verifier::external_body]
fn duration_new(secs: u64, nanos: u32) -> (res: std::time::Duration)
    requires
        nanos < 1_000_000_000,
    ensures
        whole_secs(res) == secs,
{
    std::time::Duration::new(secs, nanos)
}

/// The tag whose title and artist are shown: the primary tag, else the
/// first tag.
pub open spec fn shown_tag(p: Option<(Option<Seq<char>>, Option<Seq<char>>)>, f: Option<(Option<Seq<char>>, Option<Seq<char>>)>)
    -> (Option<Seq<char>>, Option<Seq<char>>)
{
    match p {
        Some(t) => t,
        None => match f { Some(t) => t, None => (None, None) },
    }
}

/// An optional text's content.
pub open spec fn opt_text(o: Option<String>) -> Option<Seq<char>> {
    match o { Some(s) => Some(s@), None => None }
}

/// The sample range `(start, end)` that bar `i` of a waveform of `bars` bars
/// covers among `len` samples: chunks of `len / bars` samples (at least one
/// sample), the range cut at the last sample and empty (`start >= end`)
/// past it.
pub open spec fn bar_range(len: nat, bars: nat, i: nat) -> (nat, nat) {
    let chunk: nat = if len / bars >= 1 { len / bars } else { 1 };
    let end: nat = if (i + 1) * chunk < len { ((i + 1) * chunk) as nat } else { len };
    ((i * chunk) as nat, end)
}

proof fn lemma_chunks_fit(len: nat, bars: nat, chunk: nat)
    requires
        bars > 0,
        chunk == if len / bars >= 1 { len / bars } else { 1 },
    ensures
        bars * chunk <= if len > bars { len } else { bars },
{
    if len / bars >= 1 {
        assert(bars * (len / bars) <= len) by (nonlinear_arith)
            requires bars > 0;
    } else {
        assert(bars * 1 == bars);
    }
}

/// The sample range of each bar of a waveform of `bars` bars over `len`
/// samples.
pub fn waveform_ranges(len: usize, bars: usize) -> (res: Vec<(usize, usize)>)
    requires
        bars > 0,
    ensures
        res@.len() == bars,
        forall|i: int| 0 <= i < bars ==> (#[trigger] res@[i].0 as nat, res@[i].1 as nat) == bar_range(len as nat, bars as nat, i as nat),
{
    let chunk: usize = if len / bars >= 1 { len / bars } else { 1 };
    proof {
        lemma_chunks_fit(len as nat, bars as nat, chunk as nat);
    }
    let ghost cap: int = if len > bars { len as int } else { bars as int };
    let mut out: Vec<(usize, usize)> = Vec::new();
    let mut start: usize = 0;
    let mut i: usize = 0;
    while i < bars
        invariant
            0 <= i <= bars,
            bars > 0,
            chunk >= 1,
            chunk as nat == if len as nat / bars as nat >= 1 { len as nat / bars as nat } else { 1nat },
            bars * chunk <= cap,
            cap <= usize::MAX,
            start == i * chunk,
            out@.len() == i,
            forall|k: int| 0 <= k < i ==> (#[trigger] out@[k].0 as nat, out@[k].1 as nat) == bar_range(len as nat, bars as nat, k as nat),
        decreases bars - i,
    {
        assert((i + 1) * chunk <= bars * chunk) by (nonlinear_arith)
            requires i + 1 <= bars, chunk >= 1;
        assert((i + 1) * chunk == i * chunk + chunk) by (nonlinear_arith);
        let next = start + chunk;
        let end = if next < len { next } else { len };
        out.push((start, end));
        start = next;
        i = i + 1;
    }
    out
}

/// The extension of a path as written, or the empty text when it has
/// none.
pub open spec fn raw_extension(path: Seq<char>) -> Seq<char> {
    match path_extension(path) {
        Some(e) => e,
        None => Seq::empty(),
    }
}

/// What the audio preview gives: "too large" above 200 MB unless forced;
/// lofty's error; or the shown tag's title and artist, the duration (its
/// whole seconds as lofty read them) and the waveform.
pub open spec fn audio_outcome(path: Seq<char>, data: Seq<u8>, size: u64, forced: bool, waveform: Seq<u8>, res: Result<PreviewResult, PreviewError>) -> bool {
    &&& (size > 200 * 1024 * 1024 && !forced ==> res == Err::<PreviewResult, PreviewError>(PreviewError::TooLarge(size, (200 * 1024 * 1024) as u64)))
    &&& (!(size > 200 * 1024 * 1024 && !forced) ==> match audio_tags_of(data, raw_extension(path)) {
        Err(e) => res matches Err(PreviewError::Decode(m)) && m@ == "lofty: "@ + e,
        Ok((secs, _, p, f)) => res matches Ok(PreviewResult::Audio { meta, waveform: w, duration })
            && (opt_text(meta.title), opt_text(meta.artist)) == shown_tag(p, f)
            && meta.duration == duration && whole_secs(duration) == secs && w@ == waveform,
    })
}

impl AudioHandler {
    /// The preview of audio data of `size` bytes with its waveform (made by
    /// the caller): "too large" above the limit unless forced; the tag's
    /// title and artist and the duration; or lofty's error.
    pub fn preview(&self, path: &str, data: &[u8], size: u64, forced: bool, waveform: Vec<u8>) -> (res: Result<PreviewResult, PreviewError>)
        ensures
            audio_outcome(path@, data@, size, forced, waveform@, res),
    {
        if let Err(e) = check_size(size, self.file_size_limit(), forced) {
            return Err(e);
        }
        let ext = match extension_of(path) {
            Some(e) => e,
            None => String::new(),
        };
        match read_audio_tags(data, ext.as_str()) {
            Err(e) => {
                let mut m = String::from_str("lofty: ");
                m.append(e.as_str());
                Err(PreviewError::Decode(m))
            }
            Ok((secs, nanos, primary, first)) => {
                let duration = duration_new(secs, nanos);
                let tag = match primary {
                    Some(t) => Some(t),
                    None => first,
                };
                let (title, artist) = match tag {
                    Some(t) => t,
                    None => (None, None),
                };
                let meta = AudioMeta { title, artist, duration: duration.clone() };
                Ok(PreviewResult::Audio { meta, waveform, duration })
            }
        }
    }
}

} // verus!
