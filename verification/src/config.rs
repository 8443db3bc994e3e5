//! Configuration: defaults and the command-line theme override.
use vstd::prelude::*;
use crate::cache::{worker_count, Cache};
use crate::textfmt::{
    chars_of, split_lines, str_eq, str_has_char, string_of_range, string_views, text_lines, trim_text, trimmed,
};

verus! {

/// General settings.
#[derive(Debug)]
pub struct General {
    pub theme: String,
    pub show_hidden: bool,
    pub preview_delay_ms: u64,
}

impl Default for General {
    /// Dark theme, hidden files not shown, 50 ms preview delay.
    fn default() -> (res: Self)
        ensures
            res.theme@ == "dark"@,
            !res.show_hidden,
            res.preview_delay_ms == 50,
    {
        General { theme: String::from_str("dark"), show_hidden: false, preview_delay_ms: 50 }
    }
}

/// Cache settings.
#[derive(Debug)]
pub struct CacheCfg {
    pub max_disk_mb: u64,
    pub mem_entries: usize,
    pub worker_threads: usize,
}

impl Default for CacheCfg {
    /// 500 MB on disk, 100 previews in memory, and a worker pool of half the
    /// available CPUs clamped to 2..=6.
    fn default() -> (res: Self)
        ensures
            res.max_disk_mb == 500,
            res.mem_entries == 100,
            2 <= res.worker_threads <= 6,
    {
        CacheCfg { max_disk_mb: 500, mem_entries: 100, worker_threads: Cache::worker_threads() }
    }
}

/// Preview limits.
#[derive(Debug)]
pub struct PreviewCfg {
    pub max_image_mb: u64,
}

impl Default for PreviewCfg {
    /// Images up to 50 MB.
    fn default() -> (res: Self)
        ensures
            res.max_image_mb == 50,
    {
        PreviewCfg { max_image_mb: 50 }
    }
}

/// The whole configuration.
#[derive(Debug)]
pub struct Config {
    pub general: General,
    pub cache: CacheCfg,
    pub preview: PreviewCfg,
}

/// The configuration is the default one, with the given theme.
pub open spec fn is_default_with_theme(c: Config, theme: Seq<char>) -> bool {
    &&& c.general.theme@ == theme
    &&& !c.general.show_hidden
    &&& c.general.preview_delay_ms == 50
    &&& c.cache.max_disk_mb == 500
    &&& c.cache.mem_entries == 100
    &&& 2 <= c.cache.worker_threads <= 6
    &&& c.preview.max_image_mb == 50
}

impl Default for Config {
    fn default() -> (res: Self)
        ensures
            is_default_with_theme(res, "dark"@),
    {
        Config { general: General::default(), cache: CacheCfg::default(), preview: PreviewCfg::default() }
    }
}

// ---------------------------------------------------------------------------
// The configuration file. It is read as a subset of TOML, line by line:
// blank lines and lines starting with `#` are skipped; `[name]` (optionally
// followed by a comment) starts a table; `key = value` sets a key of the
// current table, where a value is a basic string in double quotes (without
// escapes), `true`, `false` or a non-negative integer (at most `i64::MAX`),
// optionally followed by a comment. Keys of the tables `general`, `cache`
// and `preview` override the defaults; other keys and tables are ignored.
// A line that is none of these, or a known key with a value of the wrong
// type or range, makes the file malformed, and the defaults are used.
// ---------------------------------------------------------------------------

/// The values a configuration holds.
pub struct Settings {
    pub theme: Seq<char>,
    pub show_hidden: bool,
    pub preview_delay_ms: u64,
    pub max_disk_mb: u64,
    pub mem_entries: usize,
    pub worker_threads: usize,
    pub max_image_mb: u64,
}

/// The values of a configuration.
pub open spec fn settings_of(c: Config) -> Settings {
    Settings {
        theme: c.general.theme@,
        show_hidden: c.general.show_hidden,
        preview_delay_ms: c.general.preview_delay_ms,
        max_disk_mb: c.cache.max_disk_mb,
        mem_entries: c.cache.mem_entries,
        worker_threads: c.cache.worker_threads,
        max_image_mb: c.preview.max_image_mb,
    }
}

/// The default values, with `workers` preview workers.
pub open spec fn default_settings(workers: usize) -> Settings {
    Settings {
        theme: "dark"@,
        show_hidden: false,
        preview_delay_ms: 50,
        max_disk_mb: 500,
        mem_entries: 100,
        worker_threads: workers,
        max_image_mb: 50,
    }
}

/// The table that keys are being read for.
#[derive(Debug, Clone, Copy, PartialEq, Eq, Structural)]
pub enum Section {
    /// Before any table header.
    Top,
    General,
    Cache,
    Preview,
    /// Any other table.
    Other,
}

/// A value read from the file.
pub enum TomlValue {
    Str(Seq<char>),
    Bool(bool),
    Int(nat),
}

/// What a line of the file is.
pub enum LineKind {
    Blank,
    Header(Seq<char>),
    Pair(Seq<char>, TomlValue),
    Bad,
}

/// The position of the first `c` in `s`, or the length of `s`.
pub open spec fn index_of_char(s: Seq<char>, c: char) -> nat
    decreases s.len(),
{
    if s.len() == 0 { 0 } else if s[0] == c { 0 } else { 1 + index_of_char(s.drop_first(), c) }
}

/// Whether a character is an ASCII digit.
pub open spec fn is_digit(c: char) -> bool {
    c == '0' || c == '1' || c == '2' || c == '3' || c == '4' || c == '5' || c == '6' || c == '7' || c == '8' || c == '9'
}

/// The value of a decimal digit.
pub open spec fn digit_value(c: char) -> nat {
    if c == '1' { 1 } else if c == '2' { 2 } else if c == '3' { 3 } else if c == '4' { 4 } else if c == '5' { 5 }
    else if c == '6' { 6 } else if c == '7' { 7 } else if c == '8' { 8 } else if c == '9' { 9 } else { 0 }
}

/// Whether every character is an ASCII digit.
pub open spec fn all_digits(s: Seq<char>) -> bool {
    forall|i: int| 0 <= i < s.len() ==> is_digit(#[trigger] s[i])
}

/// The number that decimal digits write.
pub open spec fn digits_value(s: Seq<char>) -> nat
    decreases s.len(),
{
    if s.len() == 0 { 0 } else { digits_value(s.drop_last()) * 10 + digit_value(s.last()) }
}

/// The value written after `=` (already trimmed).
pub open spec fn parse_value(v: Seq<char>) -> Option<TomlValue> {
    if v.len() > 0 && v[0] == '"' {
        let rest = v.drop_first();
        let q = index_of_char(rest, '"');
        if q >= rest.len() {
            None
        } else {
            let content = rest.take(q as int);
            let after = trimmed(rest.skip(q as int + 1));
            if content.contains('\\') || !(after.len() == 0 || after[0] == '#') { None } else { Some(TomlValue::Str(content)) }
        }
    } else {
        let body = trimmed(v.take(index_of_char(v, '#') as int));
        if body == "true"@ {
            Some(TomlValue::Bool(true))
        } else if body == "false"@ {
            Some(TomlValue::Bool(false))
        } else if body.len() > 0 && all_digits(body) && digits_value(body) <= i64::MAX {
            Some(TomlValue::Int(digits_value(body)))
        } else {
            None
        }
    }
}

/// What a line of the file is, once trimmed.
pub open spec fn line_kind(line: Seq<char>) -> LineKind {
    let t = trimmed(line);
    if t.len() == 0 || t[0] == '#' {
        LineKind::Blank
    } else if t[0] == '[' {
        let j = index_of_char(t, ']');
        if j >= t.len() {
            LineKind::Bad
        } else {
            let after = trimmed(t.skip(j as int + 1));
            if after.len() == 0 || after[0] == '#' { LineKind::Header(trimmed(t.subrange(1, j as int))) } else { LineKind::Bad }
        }
    } else {
        let e = index_of_char(t, '=');
        if e >= t.len() {
            LineKind::Bad
        } else {
            let key = trimmed(t.take(e as int));
            match parse_value(trimmed(t.skip(e as int + 1))) {
                Some(v) => if key.len() == 0 { LineKind::Bad } else { LineKind::Pair(key, v) },
                None => LineKind::Bad,
            }
        }
    }
}

/// The table a header names.
pub open spec fn section_named(name: Seq<char>) -> Section {
    if name == "general"@ { Section::General }
    else if name == "cache"@ { Section::Cache }
    else if name == "preview"@ { Section::Preview }
    else { Section::Other }
}

/// The values after `key = v` in table `sec`: a known key takes a value of
/// its type and range; other keys change nothing; `None` when a known key
/// gets an unfit value.
pub open spec fn assign(sec: Section, key: Seq<char>, v: TomlValue, s: Settings) -> Option<Settings> {
    match sec {
        Section::General => {
            if key == "theme"@ {
                match v { TomlValue::Str(t) => Some(Settings { theme: t, ..s }), _ => None }
            } else if key == "show_hidden"@ {
                match v { TomlValue::Bool(b) => Some(Settings { show_hidden: b, ..s }), _ => None }
            } else if key == "preview_delay_ms"@ {
                match v { TomlValue::Int(n) => Some(Settings { preview_delay_ms: n as u64, ..s }), _ => None }
            } else {
                Some(s)
            }
        },
        Section::Cache => {
            if key == "max_disk_mb"@ {
                match v { TomlValue::Int(n) => Some(Settings { max_disk_mb: n as u64, ..s }), _ => None }
            } else if key == "mem_entries"@ {
                match v { TomlValue::Int(n) => if n <= usize::MAX { Some(Settings { mem_entries: n as usize, ..s }) } else { None }, _ => None }
            } else if key == "worker_threads"@ {
                match v { TomlValue::Int(n) => if n <= usize::MAX { Some(Settings { worker_threads: n as usize, ..s }) } else { None }, _ => None }
            } else {
                Some(s)
            }
        },
        Section::Preview => {
            if key == "max_image_mb"@ {
                match v { TomlValue::Int(n) => Some(Settings { max_image_mb: n as u64, ..s }), _ => None }
            } else {
                Some(s)
            }
        },
        _ => Some(s),
    }
}

/// The table and values after reading `lines` from `base`; `None` when a
/// line is malformed.
pub open spec fn read_lines(lines: Seq<Seq<char>>, base: Settings) -> Option<(Section, Settings)>
    decreases lines.len(),
{
    if lines.len() == 0 {
        Some((Section::Top, base))
    } else {
        match read_lines(lines.drop_last(), base) {
            None => None,
            Some((sec, s)) => match line_kind(lines.last()) {
                LineKind::Blank => Some((sec, s)),
                LineKind::Header(n) => Some((section_named(n), s)),
                LineKind::Pair(k, v) => match assign(sec, k, v, s) {
                    Some(s2) => Some((sec, s2)),
                    None => None,
                },
                LineKind::Bad => None,
            },
        }
    }
}

/// The values a configuration file gives over `base`: `base` overridden by
/// the file's keys, or `base` itself when the file is malformed.
pub open spec fn config_text_settings(base: Settings, text: Seq<char>) -> Settings {
    match read_lines(text_lines(text), base) {
        Some((_, s)) => s,
        None => base,
    }
}

/// The values with the theme given on the command line, if any.
pub open spec fn with_theme(s: Settings, theme: Option<Seq<char>>) -> Settings {
    match theme {
        Some(t) => Settings { theme: t, ..s },
        None => s,
    }
}

proof fn lemma_index_of_char_bound(s: Seq<char>, c: char)
    ensures
        index_of_char(s, c) <= s.len(),
        index_of_char(s, c) < s.len() ==> s[index_of_char(s, c) as int] == c,
    decreases s.len(),
{
    if s.len() > 0 && s[0] != c {
        lemma_index_of_char_bound(s.drop_first(), c);
    }
}

proof fn lemma_index_of_char_at(s: Seq<char>, c: char, j: int)
    requires
        0 <= j <= s.len(),
        forall|k: int| 0 <= k < j ==> s[k] != c,
        j < s.len() ==> s[j] == c,
    ensures
        index_of_char(s, c) == j,
    decreases j,
{
    if j > 0 {
        assert forall|k: int| 0 <= k < j - 1 implies s.drop_first()[k] != c by {
            assert(s.drop_first()[k] == s[k + 1]);
        }
        if j - 1 < s.drop_first().len() {
            assert(s.drop_first()[j - 1] == s[j]);
        }
        lemma_index_of_char_at(s.drop_first(), c, j - 1);
    }
}

fn index_of(cs: &Vec<char>, c: char) -> (res: usize)
    ensures
        res == index_of_char(cs@, c),
        res <= cs@.len(),
{
    let mut i: usize = 0;
    while i < cs.len()
        invariant
            0 <= i <= cs@.len(),
            forall|k: int| 0 <= k < i ==> cs@[k] != c,
        decreases cs.len() - i,
    {
        if cs[i] == c {
            proof { lemma_index_of_char_at(cs@, c, i as int); }
            return i;
        }
        i = i + 1;
    }
    proof { lemma_index_of_char_at(cs@, c, i as int); }
    i
}

proof fn lemma_digits_prefix(s: Seq<char>, k: int)
    requires
        all_digits(s),
        0 <= k <= s.len(),
    ensures
        digits_value(s) >= digits_value(s.take(k)),
    decreases s.len(),
{
    if k < s.len() {
        let d = s.drop_last();
        assert(all_digits(d)) by {
            assert forall|i: int| 0 <= i < d.len() implies is_digit(#[trigger] d[i]) by {
                assert(d[i] == s[i]);
            }
        }
        lemma_digits_prefix(d, k);
        assert(d.take(k) =~= s.take(k));
    } else {
        assert(s.take(k) =~= s);
    }
}

/// The number that a run of digits writes, when it is one and fits a
/// TOML integer.
fn parse_digits(cs: &Vec<char>) -> (res: Option<u64>)
    ensures
        match res {
            Some(n) => cs@.len() > 0 && all_digits(cs@) && digits_value(cs@) <= i64::MAX && n == digits_value(cs@),
            None => !(cs@.len() > 0 && all_digits(cs@) && digits_value(cs@) <= i64::MAX),
        },
{
    if cs.len() == 0 {
        return None;
    }
    let mut acc: u64 = 0;
    let mut i: usize = 0;
    while i < cs.len()
        invariant
            0 <= i <= cs@.len(),
            all_digits(cs@.take(i as int)),
            acc == digits_value(cs@.take(i as int)),
            acc <= i64::MAX,
        decreases cs.len() - i,
    {
        let c = cs[i];
        let d: u64 = match c {
            '0' => 0, '1' => 1, '2' => 2, '3' => 3, '4' => 4, '5' => 5, '6' => 6, '7' => 7, '8' => 8, '9' => 9,
            _ => {
                assert(!is_digit(cs@[i as int]));
                return None;
            }
        };
        assert(d == digit_value(c));
        let ghost next_all = cs@.take(i as int + 1);
        assert(next_all.drop_last() =~= cs@.take(i as int));
        assert(all_digits(next_all)) by {
            assert forall|k: int| 0 <= k < next_all.len() implies is_digit(#[trigger] next_all[k]) by {
                if k < i {
                    assert(next_all[k] == cs@.take(i as int)[k]);
                } else {
                    assert(next_all[k] == c);
                }
            }
        }
        if acc > (9223372036854775807u64 - d) / 10 {
            proof {
                assert(digits_value(next_all) == acc * 10 + d);
                assert(acc * 10 + d > 9223372036854775807) by (nonlinear_arith)
                    requires acc > (9223372036854775807u64 - d) / 10, d <= 9;
                if all_digits(cs@) {
                    lemma_digits_prefix(cs@, i + 1);
                }
            }
            return None;
        }
        assert(acc * 10 + d <= 9223372036854775807) by (nonlinear_arith)
            requires acc <= (9223372036854775807u64 - d) / 10, d <= 9;
        acc = acc * 10 + d;
        i = i + 1;
    }
    assert(cs@.take(cs@.len() as int) =~= cs@);
    Some(acc)
}

/// A value read from the file.
pub enum ReadValue {
    Str(String),
    Bool(bool),
    Int(u64),
}

/// What a read value is.
pub open spec fn read_value_view(v: ReadValue) -> TomlValue {
    match v {
        ReadValue::Str(s) => TomlValue::Str(s@),
        ReadValue::Bool(b) => TomlValue::Bool(b),
        ReadValue::Int(n) => TomlValue::Int(n as nat),
    }
}

/// A line read from the file.
pub enum ReadLine {
    Blank,
    Header(String),
    Pair(String, ReadValue),
    Bad,
}

/// What a read line is.
pub open spec fn read_line_view(l: ReadLine) -> LineKind {
    match l {
        ReadLine::Blank => LineKind::Blank,
        ReadLine::Header(n) => LineKind::Header(n@),
        ReadLine::Pair(k, v) => LineKind::Pair(k@, read_value_view(v)),
        ReadLine::Bad => LineKind::Bad,
    }
}

fn read_value(v: &String) -> (res: Option<ReadValue>)
    ensures
        match res {
            Some(r) => parse_value(v@) == Some(read_value_view(r)),
            None => parse_value(v@) is None,
        },
{
    let vc = chars_of(v.as_str());
    if vc.len() > 0 && vc[0] == '"' {
        let rest_s = string_of_range(&vc, 1, vc.len());
        let rest = chars_of(rest_s.as_str());
        assert(rest@ =~= v@.drop_first());
        let q = index_of(&rest, '"');
        if q >= rest.len() {
            return None;
        }
        let content = string_of_range(&rest, 0, q);
        assert(content@ =~= rest@.take(q as int));
        let after = trim_text(string_of_range(&rest, q + 1, rest.len()).as_str());
        assert(rest@.subrange(q + 1, rest@.len() as int) =~= rest@.skip(q + 1));
        let ac = chars_of(after.as_str());
        if str_has_char(content.as_str(), '\\') || !(ac.len() == 0 || ac[0] == '#') {
            None
        } else {
            Some(ReadValue::Str(content))
        }
    } else {
        let h = index_of(&vc, '#');
        let body = trim_text(string_of_range(&vc, 0, h).as_str());
        assert(vc@.subrange(0, h as int) =~= vc@.take(h as int));
        proof {
            reveal_strlit("true");
            reveal_strlit("false");
        }
        if str_eq(body.as_str(), "true") {
            Some(ReadValue::Bool(true))
        } else if str_eq(body.as_str(), "false") {
            Some(ReadValue::Bool(false))
        } else {
            let bc = chars_of(body.as_str());
            match parse_digits(&bc) {
                Some(n) => Some(ReadValue::Int(n)),
                None => None,
            }
        }
    }
}

fn read_line(line: &String) -> (res: ReadLine)
    ensures
        read_line_view(res) == line_kind(line@),
{
    let t = trim_text(line.as_str());
    let tc = chars_of(t.as_str());
    if tc.len() == 0 || tc[0] == '#' {
        return ReadLine::Blank;
    }
    if tc[0] == '[' {
        let j = index_of(&tc, ']');
        if j >= tc.len() {
            return ReadLine::Bad;
        }
        proof { lemma_index_of_char_bound(tc@, ']'); }
        let after = trim_text(string_of_range(&tc, j + 1, tc.len()).as_str());
        assert(tc@.subrange(j + 1, tc@.len() as int) =~= tc@.skip(j + 1));
        let ac = chars_of(after.as_str());
        if ac.len() == 0 || ac[0] == '#' {
            let name = trim_text(string_of_range(&tc, 1, j).as_str());
            return ReadLine::Header(name);
        }
        return ReadLine::Bad;
    }
    let e = index_of(&tc, '=');
    if e >= tc.len() {
        return ReadLine::Bad;
    }
    let key = trim_text(string_of_range(&tc, 0, e).as_str());
    assert(tc@.subrange(0, e as int) =~= tc@.take(e as int));
    let vtext = trim_text(string_of_range(&tc, e + 1, tc.len()).as_str());
    assert(tc@.subrange(e + 1, tc@.len() as int) =~= tc@.skip(e + 1));
    match read_value(&vtext) {
        None => ReadLine::Bad,
        Some(v) => {
            if key.unicode_len() == 0 { ReadLine::Bad } else { ReadLine::Pair(key, v) }
        }
    }
}

fn section_of_name(name: &String) -> (res: Section)
    ensures
        res == section_named(name@),
{
    if str_eq(name.as_str(), "general") {
        Section::General
    } else if str_eq(name.as_str(), "cache") {
        Section::Cache
    } else if str_eq(name.as_str(), "preview") {
        Section::Preview
    } else {
        Section::Other
    }
}

fn assign_value(sec: Section, key: &String, v: ReadValue, cur: &mut Config) -> (ok: bool)
    ensures
        ok ==> assign(sec, key@, read_value_view(v), settings_of(*old(cur))) == Some(settings_of(*final(cur))),
        !ok ==> assign(sec, key@, read_value_view(v), settings_of(*old(cur))) is None,
{
    let k = key.as_str();
    match sec {
        Section::General => {
            if str_eq(k, "theme") {
                match v { ReadValue::Str(t) => { cur.general.theme = t; true }, _ => false }
            } else if str_eq(k, "show_hidden") {
                match v { ReadValue::Bool(b) => { cur.general.show_hidden = b; true }, _ => false }
            } else if str_eq(k, "preview_delay_ms") {
                match v { ReadValue::Int(n) => { cur.general.preview_delay_ms = n; true }, _ => false }
            } else {
                true
            }
        }
        Section::Cache => {
            if str_eq(k, "max_disk_mb") {
                match v { ReadValue::Int(n) => { cur.cache.max_disk_mb = n; true }, _ => false }
            } else if str_eq(k, "mem_entries") {
                match v {
                    ReadValue::Int(n) => if n <= usize::MAX as u64 { cur.cache.mem_entries = n as usize; true } else { false },
                    _ => false,
                }
            } else if str_eq(k, "worker_threads") {
                match v {
                    ReadValue::Int(n) => if n <= usize::MAX as u64 { cur.cache.worker_threads = n as usize; true } else { false },
                    _ => false,
                }
            } else {
                true
            }
        }
        Section::Preview => {
            if str_eq(k, "max_image_mb") {
                match v { ReadValue::Int(n) => { cur.preview.max_image_mb = n; true }, _ => false }
            } else {
                true
            }
        }
        _ => true,
    }
}

fn copy_config(c: &Config) -> (res: Config)
    ensures
        settings_of(res) == settings_of(*c),
{
    Config {
        general: General { theme: c.general.theme.clone(), show_hidden: c.general.show_hidden, preview_delay_ms: c.general.preview_delay_ms },
        cache: CacheCfg { max_disk_mb: c.cache.max_disk_mb, mem_entries: c.cache.mem_entries, worker_threads: c.cache.worker_threads },
        preview: PreviewCfg { max_image_mb: c.preview.max_image_mb },
    }
}

/// The configuration that a configuration file's text gives over `cfg`:
/// `cfg` overridden by the file's keys, or `cfg` itself when the file is
/// malformed.
pub fn apply_config_text(cfg: Config, text: &str) -> (res: Config)
    ensures
        settings_of(res) == config_text_settings(settings_of(cfg), text@),
{
    let lines = split_lines(text);
    let ghost views = string_views(lines@);
    let ghost base = settings_of(cfg);
    let mut cur = copy_config(&cfg);
    let mut sec = Section::Top;
    let mut i: usize = 0;
    assert(views.take(0) =~= Seq::<Seq<char>>::empty());
    while i < lines.len()
        invariant
            views == string_views(lines@),
            views == text_lines(text@),
            base == settings_of(cfg),
            0 <= i <= lines@.len(),
            read_lines(views.take(i as int), base) == Some((sec, settings_of(cur))),
        decreases lines.len() - i,
    {
        let l = read_line(&lines[i]);
        assert(views.take(i + 1).drop_last() =~= views.take(i as int));
        assert(views.take(i + 1).last() == lines@[i as int]@);
        match l {
            ReadLine::Blank => {}
            ReadLine::Header(n) => {
                sec = section_of_name(&n);
            }
            ReadLine::Pair(k, v) => {
                if !assign_value(sec, &k, v, &mut cur) {
                    proof {
                        assert(read_lines(views.take(i + 1), base) is None);
                        lemma_read_lines_stays_bad(views, base, i + 1);
                    }
                    return cfg;
                }
            }
            ReadLine::Bad => {
                proof {
                    assert(read_lines(views.take(i + 1), base) is None);
                    lemma_read_lines_stays_bad(views, base, i + 1);
                }
                return cfg;
            }
        }
        i = i + 1;
    }
    assert(views.take(lines@.len() as int) =~= views);
    cur
}

proof fn lemma_read_lines_stays_bad(views: Seq<Seq<char>>, base: Settings, k: int)
    requires
        0 <= k <= views.len(),
        read_lines(views.take(k), base) is None,
    ensures
        read_lines(views, base) is None,
    decreases views.len() - k,
{
    if k < views.len() {
        assert(views.take(k + 1).drop_last() =~= views.take(k));
        lemma_read_lines_stays_bad(views, base, k + 1);
    } else {
        assert(views.take(k) =~= views);
    }
}

/// The configuration in use: the defaults, overridden by the configuration
/// file's text when there is one (the defaults when it is malformed), then
/// the theme given on the command line, if any.
pub fn load(theme_override: Option<&str>, file_text: Option<&str>) -> (res: Config)
    ensures
        exists|w: usize| 2 <= w <= 6 && settings_of(res) == with_theme(
            match file_text { Some(t) => config_text_settings(default_settings(w), t@), None => default_settings(w) },
            match theme_override { Some(t) => Some(t@), None => None }),
{
    let mut cfg = Config::default();
    let ghost w = cfg.cache.worker_threads;
    assert(settings_of(cfg) == default_settings(w));
    if let Some(t) = file_text {
        cfg = apply_config_text(cfg, t);
    }
    if let Some(t) = theme_override {
        cfg.general.theme = String::from_str(t);
    }
    cfg
}

} // verus!
