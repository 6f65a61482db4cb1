//! Cleaning and de-duplication of the user's target lists.

use vstd::prelude::*;
use vstd::string::*;
use crate::text::{ascii_fold, eq_ignoring_ascii_case, fold_char, fold_eq, is_space, lemma_trimmed_edges, trim_text, trimmed};

verus! {

/// Some entry of `list` equals `s` up to ASCII case.
pub open spec fn contains_folded(list: Seq<Seq<char>>, s: Seq<char>) -> bool {
    exists|j: int| 0 <= j < list.len() && fold_eq(list[j], s)
}

/// The cleaned list: each entry trimmed, empty ones dropped, and of entries
/// equal up to ASCII case only the first kept, in input order.
pub open spec fn normalized(values: Seq<Seq<char>>) -> Seq<Seq<char>>
    decreases values.len(),
{
    if values.len() == 0 {
        seq![]
    } else {
        let prev = normalized(values.drop_last());
        let t = trimmed(values.last());
        if t.len() == 0 || contains_folded(prev, t) {
            prev
        } else {
            prev.push(t)
        }
    }
}

/// For each entry of `normalized(values)`, the index of the input it was
/// taken from.
pub open spec fn normalized_sources(values: Seq<Seq<char>>) -> Seq<int>
    decreases values.len(),
{
    if values.len() == 0 {
        seq![]
    } else {
        let prev = normalized_sources(values.drop_last());
        let t = trimmed(values.last());
        if t.len() == 0 || contains_folded(normalized(values.drop_last()), t) {
            prev
        } else {
            prev.push(values.len() - 1)
        }
    }
}

/// The cleaned list holds no two entries equal up to ASCII case and no empty
/// or white-space-only entry; its entries are trimmed inputs taken in input
/// order, and every input that is not blank is represented by an entry taken
/// from it or from an earlier input.
pub proof fn lemma_normalized_clean(values: Seq<Seq<char>>)
    ensures
        ({
            let out = normalized(values);
            let src = normalized_sources(values);
            &&& out.len() == src.len()
            &&& forall|k: int|
                0 <= k < out.len() ==> 0 <= #[trigger] src[k] < values.len() && out[k]
                    == trimmed(values[src[k]])
            &&& forall|k1: int, k2: int|
                0 <= k1 < k2 < out.len() ==> src[k1] < src[k2] && !fold_eq(
                    #[trigger] out[k1],
                    #[trigger] out[k2],
                )
            &&& forall|k: int|
                0 <= k < out.len() ==> (#[trigger] out[k]).len() > 0 && !is_space(out[k][0])
                    && !is_space(out[k].last())
            &&& forall|i: int|
                0 <= i < values.len() && trimmed(#[trigger] values[i]).len() > 0 ==> exists|k: int|
                    0 <= k < out.len() && src[k] <= i && fold_eq(out[k], trimmed(values[i]))
        }),
    decreases values.len(),
{
    if values.len() > 0 {
        let init = values.drop_last();
        lemma_normalized_clean(init);
        let t = trimmed(values.last());
        lemma_trimmed_edges(values.last());
        let out = normalized(values);
        let src = normalized_sources(values);
        let n = values.len() - 1;
        assert forall|i: int|
            0 <= i < values.len() && trimmed(#[trigger] values[i]).len() > 0 implies exists|k: int|
            0 <= k < out.len() && src[k] <= i && fold_eq(out[k], trimmed(values[i])) by {
            if i < n {
                assert(values[i] == init[i]);
                let ni = normalized(init);
                let si = normalized_sources(init);
                let k = choose|k: int| 0 <= k < ni.len() && si[k] <= i && fold_eq(ni[k], trimmed(init[i]));
                assert(out[k] == ni[k] && src[k] == si[k]);
            } else if contains_folded(normalized(init), t) {
                let j = choose|j: int| 0 <= j < normalized(init).len() && fold_eq(normalized(init)[j], t);
                assert(src[j] <= i);
            } else {
                let k = out.len() - 1;
                assert(fold_eq(out[k], trimmed(values[i])));
            }
        }
    }
}

/// Index of the first entry of `list` equal to `s` up to ASCII case.
pub fn position_ignoring_case(list: &Vec<String>, s: &str) -> (r: Option<usize>)
    ensures
        match r {
            Some(k) => k < list@.len() && fold_eq(list@[k as int]@, s@) && forall|j: int|
                0 <= j < k ==> !fold_eq(#[trigger] list@[j]@, s@),
            None => !contains_folded(list.deep_view(), s@),
        },
{
    let mut k: usize = 0;
    while k < list.len()
        invariant
            k <= list@.len(),
            forall|j: int| 0 <= j < k ==> !fold_eq(#[trigger] list@[j]@, s@),
        decreases list@.len() - k,
    {
        if eq_ignoring_ascii_case(list[k].as_str(), s) {
            return Some(k);
        }
        k = k + 1;
    }
    proof {
        let dv = list.deep_view();
        assert forall|j: int| 0 <= j < dv.len() implies !fold_eq(dv[j], s@) by {
            assert(dv[j] == list@[j]@);
        }
    }
    None
}

/// Trims every entry, drops the empty ones, and keeps only the first of
/// entries that are equal up to ASCII case.
pub fn normalize_list(values: Vec<String>) -> (r: Vec<String>)
    ensures
        r.deep_view() == normalized(values.deep_view()),
{
    let mut result: Vec<String> = Vec::new();
    let mut i: usize = 0;
    while i < values.len()
        invariant
            i <= values@.len(),
            result.deep_view() == normalized(values.deep_view().take(i as int)),
        decreases values@.len() - i,
    {
        let t = trim_text(values[i].as_str());
        let ghost before = values.deep_view().take(i as int);
        let ghost after = values.deep_view().take(i + 1);
        assert(after.drop_last() =~= before);
        assert(after.last() == values@[i as int]@);
        assert(t@ == trimmed(after.last()));
        if t.unicode_len() != 0 {
            let found = position_ignoring_case(&result, t);
            if found.is_none() {
                assert(!contains_folded(normalized(before), t@));
                assert(normalized(after) == normalized(before).push(t@));
                let owned = String::from_str(t);
                result.push(owned);
                assert(result.deep_view() =~= normalized(before).push(t@));
            } else {
                let k = found.unwrap();
                assert(result.deep_view()[k as int] == result@[k as int]@);
                assert(contains_folded(normalized(before), t@));
                assert(normalized(after) == normalized(before));
            }
        } else {
            assert(normalized(after) == normalized(before));
        }
        i = i + 1;
    }
    assert(values.deep_view().take(values@.len() as int) =~= values.deep_view());
    result
}

} // verus!

verus! {

/// The window title targeted when the user names none.
pub const DEFAULT_WINDOW_TITLE: &'static str = "CounterSide";

/// No two entries equal up to ASCII case, and every entry is non-empty and
/// starts and ends with a character that is not white space.
pub open spec fn is_clean_list(list: Seq<Seq<char>>) -> bool {
    &&& forall|k1: int, k2: int|
        0 <= k1 < k2 < list.len() ==> !fold_eq(#[trigger] list[k1], #[trigger] list[k2])
    &&& forall|k: int|
        0 <= k < list.len() ==> (#[trigger] list[k]).len() > 0 && !is_space(list[k][0])
            && !is_space(list[k].last())
}

/// The cleaned title list, or the default title alone when nothing is left.
pub open spec fn title_list(values: Seq<Seq<char>>) -> Seq<Seq<char>> {
    if normalized(values).len() == 0 {
        seq![DEFAULT_WINDOW_TITLE@]
    } else {
        normalized(values)
    }
}

/// The cleaned list of a call of `normalize_list` satisfies `is_clean_list`.
pub proof fn lemma_normalized_is_clean(values: Seq<Seq<char>>)
    ensures
        is_clean_list(normalized(values)),
{
    lemma_normalized_clean(values);
}

/// The title list is never empty and is clean.
pub proof fn lemma_title_list_is_clean(values: Seq<Seq<char>>)
    ensures
        title_list(values).len() > 0,
        is_clean_list(title_list(values)),
{
    lemma_normalized_clean(values);
    if normalized(values).len() == 0 {
        reveal_strlit("CounterSide");
        let d = DEFAULT_WINDOW_TITLE@;
        assert(d.len() == 11);
        assert(d[0] == 'C' && d.last() == 'e');
    }
}

/// Copies a list of strings.
fn copy_list(v: &Vec<String>) -> (r: Vec<String>)
    ensures
        r.deep_view() == v.deep_view(),
{
    let mut r: Vec<String> = Vec::new();
    let mut i: usize = 0;
    while i < v.len()
        invariant
            i <= v@.len(),
            r.deep_view() == v.deep_view().take(i as int),
        decreases v@.len() - i,
    {
        let c = v[i].clone();
        assert(c@ == v.deep_view()[i as int]);
        let ghost prev = r.deep_view();
        r.push(c);
        assert(r.deep_view() =~= prev.push(c@));
        assert(r.deep_view() =~= v.deep_view().take(i + 1));
        i = i + 1;
    }
    assert(v.deep_view().take(v@.len() as int) =~= v.deep_view());
    r
}

/// The command-line arguments.
#[derive(Clone, Debug)]
pub struct Args {
    /// Run in console mode.
    pub cli: bool,
    /// Run as a background worker.
    pub worker: bool,
    /// Window titles to target.
    pub window: Vec<String>,
    /// Executable names to target.
    pub exe: Vec<String>,
}

/// The targets as configured at start-up.
#[derive(Clone, Debug)]
pub struct AppConfig {
    pub window_titles: Vec<String>,
    pub process_names: Vec<String>,
}

/// A cleaned target specification: window titles (never empty) and
/// executable names, each without duplicates up to ASCII case.
#[derive(Clone, Debug)]
pub struct ResolvedConfig {
    pub window_titles: Vec<String>,
    pub process_names: Vec<String>,
}

impl ResolvedConfig {
    /// Both lists are clean and at least one title is present.
    pub open spec fn wf(&self) -> bool {
        &&& self.window_titles@.len() > 0
        &&& is_clean_list(self.window_titles.deep_view())
        &&& is_clean_list(self.process_names.deep_view())
    }

    /// Cleans both lists; the title list falls back to the default title.
    pub fn from_lists(window_titles: Vec<String>, process_names: Vec<String>) -> (r: Self)
        ensures
            r.window_titles.deep_view() == title_list(window_titles.deep_view()),
            r.process_names.deep_view() == normalized(process_names.deep_view()),
            r.wf(),
    {
        let ghost raw_titles = window_titles.deep_view();
        let mut titles = normalize_list(window_titles);
        if titles.len() == 0 {
            titles.push(String::from_str(DEFAULT_WINDOW_TITLE));
            assert(titles.deep_view() =~= seq![DEFAULT_WINDOW_TITLE@]);
        }
        let ghost raw_names = process_names.deep_view();
        let names = normalize_list(process_names);
        proof {
            lemma_title_list_is_clean(raw_titles);
            lemma_normalized_is_clean(raw_names);
        }
        ResolvedConfig { window_titles: titles, process_names: names }
    }
}

impl AppConfig {
    /// The configuration that the command-line arguments describe.
    pub fn from_args(args: &Args) -> (r: Self)
        ensures
            r.window_titles.deep_view() == title_list(args.window.deep_view()),
            r.process_names.deep_view() == normalized(args.exe.deep_view()),
    {
        let mut window_titles = normalize_list(copy_list(&args.window));
        if window_titles.len() == 0 {
            window_titles.push(String::from_str(DEFAULT_WINDOW_TITLE));
            assert(window_titles.deep_view() =~= seq![DEFAULT_WINDOW_TITLE@]);
        }
        let process_names = normalize_list(copy_list(&args.exe));
        AppConfig { window_titles, process_names }
    }

    /// The cleaned target specification of this configuration.
    pub fn resolved(&self) -> (r: ResolvedConfig)
        ensures
            r.window_titles.deep_view() == title_list(self.window_titles.deep_view()),
            r.process_names.deep_view() == normalized(self.process_names.deep_view()),
            r.wf(),
    {
        ResolvedConfig::from_lists(copy_list(&self.window_titles), copy_list(&self.process_names))
    }
}

} // verus!

verus! {

/// The list that an entry typed by the user goes to.
#[derive(Clone, Copy, Debug, PartialEq, Eq)]
pub enum TargetKind {
    /// A window title.
    Window,
    /// An executable name.
    Executable,
}

/// `s` ends in `.exe`, up to ASCII case.
pub open spec fn has_exe_suffix(s: Seq<char>) -> bool {
    &&& s.len() >= 4
    &&& ascii_fold(s[s.len() - 4]) == '.' as u32
    &&& ascii_fold(s[s.len() - 3]) == 'e' as u32
    &&& ascii_fold(s[s.len() - 2]) == 'x' as u32
    &&& ascii_fold(s[s.len() - 1]) == 'e' as u32
}

/// Sorts an entry typed by the user: it is trimmed, dropped when nothing is
/// left, and goes to the executable names when it ends in `.exe` (up to
/// ASCII case), to the window titles otherwise.
pub fn classify_entry(entry: &str) -> (r: Option<(TargetKind, String)>)
    ensures
        trimmed(entry@).len() == 0 ==> r is None,
        trimmed(entry@).len() > 0 ==> (r matches Some((kind, text)) && text@ == trimmed(entry@)
            && (kind == TargetKind::Executable) == has_exe_suffix(trimmed(entry@))),
{
    let t = trim_text(entry);
    let n = t.unicode_len();
    if n == 0 {
        return None;
    }
    let is_exe = n >= 4 && fold_char(t.get_char(n - 4)) == '.' as u32 && fold_char(
        t.get_char(n - 3),
    ) == 'e' as u32 && fold_char(t.get_char(n - 2)) == 'x' as u32 && fold_char(t.get_char(n - 1))
        == 'e' as u32;
    let kind = if is_exe {
        TargetKind::Executable
    } else {
        TargetKind::Window
    };
    Some((kind, String::from_str(t)))
}

} // verus!

verus! {

proof fn lemma_trimmed_of_clean_entry(s: Seq<char>)
    requires
        s.len() > 0,
        !is_space(s[0]),
        !is_space(s.last()),
    ensures
        trimmed(s) == s,
{
}

/// Cleaning a clean list changes nothing: cleaning twice is cleaning once.
pub proof fn lemma_normalized_of_clean(list: Seq<Seq<char>>)
    requires
        is_clean_list(list),
    ensures
        normalized(list) == list,
    decreases list.len(),
{
    if list.len() > 0 {
        let init = list.drop_last();
        assert(is_clean_list(init)) by {
            assert forall|k1: int, k2: int| 0 <= k1 < k2 < init.len() implies !fold_eq(
                #[trigger] init[k1],
                #[trigger] init[k2],
            ) by {
                assert(init[k1] == list[k1] && init[k2] == list[k2]);
            }
            assert forall|k: int| 0 <= k < init.len() implies (#[trigger] init[k]).len() > 0
                && !is_space(init[k][0]) && !is_space(init[k].last()) by {
                assert(init[k] == list[k]);
            }
        }
        lemma_normalized_of_clean(init);
        let last = list.last();
        assert(last == list[list.len() - 1]);
        lemma_trimmed_of_clean_entry(last);
        assert(!contains_folded(init, last)) by {
            assert forall|j: int| 0 <= j < init.len() implies !fold_eq(init[j], last) by {
                assert(init[j] == list[j]);
            }
        }
        assert(init.push(last) =~= list);
    }
}

/// A list that went through cleaning comes out of a second cleaning
/// unchanged.
pub proof fn lemma_normalized_idempotent(values: Seq<Seq<char>>)
    ensures
        normalized(normalized(values)) == normalized(values),
{
    lemma_normalized_is_clean(values);
    lemma_normalized_of_clean(normalized(values));
}

} // verus!
