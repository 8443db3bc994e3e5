//! Live search over the listed files: a case-insensitive substring filter.
use vstd::prelude::*;
use crate::fs::Entry;
use crate::preview::{fg_style, line_runs, Color, Line, Span, Style};
use crate::textfmt::{chars_contain, chars_of, contains_seq, lowercase, occurs_at, pop_char, push_char, to_lowercase};

verus! {

/// The search prompt: the typed query, whether it is open, and the selected
/// row among the matches.
pub struct SearchState {
    pub query: String,
    pub active: bool,
    pub selected_idx: usize,
}

impl SearchState {
    pub fn new() -> (res: Self)
        ensures
            res.query@ == Seq::<char>::empty(),
            !res.active,
            res.selected_idx == 0,
    {
        Self { query: String::new(), active: false, selected_idx: 0 }
    }

    /// Opens the prompt with an empty query and the first row selected.
    pub fn enter(&mut self)
        ensures
            final(self).active,
            final(self).query@ == Seq::<char>::empty(),
            final(self).selected_idx == 0,
    {
        self.active = true;
        self.query = String::new();
        self.selected_idx = 0;
    }

    /// Closes the prompt and clears the query; the selected row is kept.
    pub fn exit(&mut self)
        ensures
            !final(self).active,
            final(self).query@ == Seq::<char>::empty(),
            final(self).selected_idx == old(self).selected_idx,
    {
        self.active = false;
        self.query = String::new();
    }

    /// Types one character.
    pub fn push(&mut self, c: char)
        ensures
            final(self).query@ == old(self).query@.push(c),
            final(self).active == old(self).active,
            final(self).selected_idx == old(self).selected_idx,
    {
        push_char(&mut self.query, c);
    }

    /// Deletes the last character, if any.
    pub fn pop(&mut self)
        ensures
            final(self).query@ == if old(self).query@.len() == 0 { old(self).query@ } else { old(self).query@.drop_last() },
            final(self).active == old(self).active,
            final(self).selected_idx == old(self).selected_idx,
    {
        let _ = pop_char(&mut self.query);
    }
}

/// The positions, in order, among the first `n` files, of those whose
/// lower-cased name contains `q`.
pub open spec fn matching_indices(files: Seq<Entry>, q: Seq<char>, n: nat) -> Seq<usize>
    decreases n,
{
    if n == 0 {
        Seq::empty()
    } else {
        let prev = matching_indices(files, q, (n - 1) as nat);
        if contains_seq(lowercase(files[n - 1].name@), q) {
            prev.push((n - 1) as usize)
        } else {
            prev
        }
    }
}

/// `0, 1, ..., n-1`.
pub open spec fn all_indices(n: nat) -> Seq<usize> {
    Seq::new(n, |i: int| i as usize)
}

/// The files matching a query: every position when the query is empty,
/// otherwise the positions of the files whose lower-cased name contains the
/// lower-cased query, in order.
pub open spec fn filter_spec(files: Seq<Entry>, query: Seq<char>) -> Seq<usize> {
    if query.len() == 0 {
        all_indices(files.len())
    } else {
        matching_indices(files, lowercase(query), files.len())
    }
}

proof fn lemma_matching_indices_props(files: Seq<Entry>, q: Seq<char>, n: nat)
    requires
        n <= files.len(),
        n <= usize::MAX,
    ensures
        forall|k: int| 0 <= k < matching_indices(files, q, n).len() ==> {
            &&& #[trigger] matching_indices(files, q, n)[k] < n
            &&& contains_seq(lowercase(files[matching_indices(files, q, n)[k] as int].name@), q)
        },
        forall|k1: int, k2: int| 0 <= k1 < k2 < matching_indices(files, q, n).len() ==>
            #[trigger] matching_indices(files, q, n)[k1] < #[trigger] matching_indices(files, q, n)[k2],
    decreases n,
{
    if n > 0 {
        lemma_matching_indices_props(files, q, (n - 1) as nat);
    }
}

proof fn lemma_matching_membership(files: Seq<Entry>, q: Seq<char>, n: nat, i: int)
    requires
        n <= files.len(),
        n <= usize::MAX,
        0 <= i < n,
    ensures
        matching_indices(files, q, n).contains(i as usize) <==> contains_seq(lowercase(files[i].name@), q),
    decreases n,
{
    let prev = matching_indices(files, q, (n - 1) as nat);
    lemma_matching_indices_props(files, q, (n - 1) as nat);
    if i < n - 1 {
        lemma_matching_membership(files, q, (n - 1) as nat, i);
        if contains_seq(lowercase(files[n - 1].name@), q) {
            assert(prev.push((n - 1) as usize).contains(i as usize) <==> prev.contains(i as usize)) by {
                let ext = prev.push((n - 1) as usize);
                if ext.contains(i as usize) {
                    let k = choose|k: int| 0 <= k < ext.len() && #[trigger] ext[k] == i as usize;
                    if k < prev.len() {
                        assert(prev[k] == i as usize);
                    }
                }
                if prev.contains(i as usize) {
                    let k = choose|k: int| 0 <= k < prev.len() && prev[k] == i as usize;
                    assert(prev.push((n - 1) as usize)[k] == i as usize);
                }
            }
        }
    } else {
        assert(!prev.contains(i as usize)) by {
            if prev.contains(i as usize) {
                let k = choose|k: int| 0 <= k < prev.len() && prev[k] == i as usize;
                assert(prev[k] < n - 1);
            }
        }
        if contains_seq(lowercase(files[n - 1].name@), q) {
            assert(prev.push((n - 1) as usize)[prev.len() as int] == i as usize);
        } else {
        }
    }
}

/// A file is among the matches of a non-empty query exactly when its
/// lower-cased name contains the lower-cased query; an empty query matches
/// every file.
pub proof fn lemma_filter_membership(files: Seq<Entry>, query: Seq<char>, i: int)
    requires
        0 <= i < files.len(),
        files.len() <= usize::MAX,
    ensures
        filter_spec(files, query).contains(i as usize) <==>
            (query.len() == 0 || contains_seq(lowercase(files[i].name@), lowercase(query))),
{
    if query.len() == 0 {
        assert(all_indices(files.len())[i] == i as usize);
    } else {
        lemma_matching_membership(files, lowercase(query), files.len(), i);
    }
}

/// Indices of the files whose name matches the query (case-insensitive
/// substring); all indices for an empty query.
pub fn filter_files(files: &[Entry], query: &str) -> (res: Vec<usize>)
    ensures
        res@ == filter_spec(files@, query@),
        forall|k: int| 0 <= k < res@.len() ==> #[trigger] res@[k] < files@.len(),
        forall|k1: int, k2: int| 0 <= k1 < k2 < res@.len() ==> #[trigger] res@[k1] < #[trigger] res@[k2],
        forall|i: int| 0 <= i < files@.len() ==>
            (res@.contains(i as usize) <==> contains_seq(lowercase(#[trigger] files@[i].name@), lowercase(query@))),
{
    let res = filter_indices(files, query);
    // What `to_lowercase` states of an empty query carries the law over to it.
    let _lowered = to_lowercase(query);
    let n = files.len();
    assert(files@.len() == n);
    assert forall|i: int| 0 <= i < files@.len() implies
        (res@.contains(i as usize) <==> contains_seq(lowercase(#[trigger] files@[i].name@), lowercase(query@))) by {
        lemma_filter_membership(files@, query@, i);
        if query@.len() == 0 {
            assert(occurs_at(lowercase(files@[i].name@), lowercase(query@), 0)) by {
                assert(lowercase(files@[i].name@).subrange(0, 0) =~= lowercase(query@));
            }
        }
    }
    res
}

fn filter_indices(files: &[Entry], query: &str) -> (res: Vec<usize>)
    ensures
        res@ == filter_spec(files@, query@),
        forall|k: int| 0 <= k < res@.len() ==> #[trigger] res@[k] < files@.len(),
        forall|k1: int, k2: int| 0 <= k1 < k2 < res@.len() ==> #[trigger] res@[k1] < #[trigger] res@[k2],
{
    let n = files.len();
    if query.unicode_len() == 0 {
        let mut out: Vec<usize> = Vec::new();
        let mut i: usize = 0;
        while i < n
            invariant
                n == files@.len(),
                0 <= i <= n,
                out@ == all_indices(i as nat),
            decreases n - i,
        {
            out.push(i);
            i = i + 1;
            assert(out@ =~= all_indices(i as nat));
        }
        return out;
    }
    let q = to_lowercase(query);
    let qc = chars_of(q.as_str());
    let mut out: Vec<usize> = Vec::new();
    let mut i: usize = 0;
    while i < n
        invariant
            n == files@.len(),
            0 <= i <= n,
            qc@ == lowercase(query@),
            out@ == matching_indices(files@, lowercase(query@), i as nat),
        decreases n - i,
    {
        let lname = to_lowercase(files[i].name.as_str());
        let lc = chars_of(lname.as_str());
        if chars_contain(lc.as_slice(), qc.as_slice()) {
            out.push(i);
        }
        i = i + 1;
    }
    proof {
        lemma_matching_indices_props(files@, lowercase(query@), n as nat);
    }
    out
}


/// The search bar: a yellow-bordered box showing the query.
pub struct SearchBarWidget<'a> {
    pub query: &'a str,
}

impl<'a> SearchBarWidget<'a> {
    /// The title of the box.
    pub fn title(&self) -> (res: &'static str)
        ensures
            res@ == " Search (type, Esc to clear) "@,
    {
        " Search (type, Esc to clear) "
    }

    /// The line inside the box: a yellow slash, the query and a block
    /// cursor in white.
    pub fn line(&self) -> (res: Line)
        ensures
            line_runs(res) == seq![("/"@, fg_style(Color::Yellow)), (self.query@, fg_style(Color::White)),
                (seq!['\u{2588}'], fg_style(Color::White))],
    {
        let mut q = String::new();
        q.append(self.query);
        let mut cursor = String::new();
        push_char(&mut cursor, '\u{2588}');
        let l = Line { spans: vec![
            Span { content: String::from_str("/"), style: Style { fg: Some(Color::Yellow), bg: None, bold: false, italic: false } },
            Span { content: q, style: Style { fg: Some(Color::White), bg: None, bold: false, italic: false } },
            Span { content: cursor, style: Style { fg: Some(Color::White), bg: None, bold: false, italic: false } },
        ] };
        assert(line_runs(l) =~= seq![("/"@, fg_style(Color::Yellow)), (self.query@, fg_style(Color::White)),
            (seq!['\u{2588}'], fg_style(Color::White))]);
        l
    }
}

} // verus!
