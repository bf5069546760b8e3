//! The amp-model library browser: which `.nam` entries the filter shows,
//! which of them the prev/next arrows step through, how the arrows wrap,
//! the position read-out, and the file names downloads and imports get.

use vstd::prelude::*;
use crate::text::{
    chars_of, decimal, is_whitespace, lemma_decimal_digits, lemma_decimal_injective, lowercase, push_decimal, same_text,
    to_lowercase, whitespace,
};

verus! {

#[verifier::external_type_specification]
#[verifier::external_body]
pub struct ExPathBuf(std::path::PathBuf);

/// An entry in the library view: the file plus a pre-flight check so the
/// browser can grey out files that will not load and skip them in prev/next.
pub struct LibraryEntry {
    pub path: std::path::PathBuf,
    /// `None` if the file loads cleanly; `Some(reason)` if loading would
    /// fail. Computed once at scan time.
    pub unsupported_reason: Option<String>,
    /// Architecture string from the file's header, or "?".
    pub arch: String,
}

/// `needle` occurs in `hay` starting at `k`.
pub open spec fn occurs_at(hay: Seq<char>, needle: Seq<char>, k: int) -> bool {
    &&& 0 <= k
    &&& k + needle.len() <= hay.len()
    &&& hay.subrange(k, k + needle.len()) == needle
}

pub open spec fn contains_text(hay: Seq<char>, needle: Seq<char>) -> bool {
    exists|k: int| occurs_at(hay, needle, k)
}

/// The indices `0 .. n` in order.
pub open spec fn indices(n: nat) -> Seq<usize> {
    Seq::new(n, |i: int| i as usize)
}

/// The entries the filter shows, given the lower-cased file stems and the
/// lower-cased filter text: all of them for an empty filter, else those
/// whose stem contains the filter.
pub open spec fn shown(stems_lower: Seq<Seq<char>>, filter_lower: Seq<char>) -> Seq<usize> {
    indices(stems_lower.len()).filter(
        |i: usize| filter_lower.len() == 0 || contains_text(stems_lower[i as int], filter_lower),
    )
}

fn contains_chars(hay: &Vec<char>, needle: &Vec<char>) -> (b: bool)
    ensures
        b == contains_text(hay@, needle@),
{
    if needle.len() > hay.len() {
        proof {
            assert forall|k: int| !occurs_at(hay@, needle@, k) by {}
        }
        return false;
    }
    let last = hay.len() - needle.len();
    let mut k: usize = 0;
    while k <= last
        invariant
            last == hay.len() - needle.len(),
            needle.len() <= hay.len(),
            k <= last + 1,
            forall|j: int| 0 <= j < k ==> !occurs_at(hay@, needle@, j),
        decreases last + 1 - k,
    {
        let mut m: usize = 0;
        let mut same = true;
        while m < needle.len()
            invariant
                k <= last,
                last == hay.len() - needle.len(),
                m <= needle.len(),
                same == forall|q: int| 0 <= q < m ==> hay@[k + q] == needle@[q],
            decreases needle.len() - m,
        {
            if hay[k + m] != needle[m] {
                same = false;
            }
            m += 1;
        }
        if same {
            proof {
                assert(hay@.subrange(k as int, k + needle.len()) =~= needle@);
                assert(occurs_at(hay@, needle@, k as int));
            }
            return true;
        }
        proof {
            assert(!occurs_at(hay@, needle@, k as int)) by {
                if occurs_at(hay@, needle@, k as int) {
                    let q = choose|q: int| 0 <= q < needle.len() && hay@[k + q] != needle@[q];
                    assert(hay@.subrange(k as int, k + needle.len())[q] == hay@[k + q]);
                }
            }
        }
        k += 1;
    }
    proof {
        assert forall|j: int| !occurs_at(hay@, needle@, j) by {
            if j > last as int {
                assert(!(j + needle@.len() <= hay@.len()));
            }
        }
    }
    false
}

/// The entries the filter shows, from stems and filter already lower-cased.
pub fn shown_entries(stems_lower: &Vec<String>, filter_lower: &str) -> (r: Vec<usize>)
    ensures
        r@ == shown(stems_lower@.map_values(|s: String| s@), filter_lower@),
{
    let ghost names = stems_lower@.map_values(|s: String| s@);
    let ghost pred = |i: usize| filter_lower@.len() == 0 || contains_text(names[i as int], filter_lower@);
    let needle = chars_of(filter_lower);
    let mut r: Vec<usize> = Vec::new();
    let mut i: usize = 0;
    while i < stems_lower.len()
        invariant
            i <= stems_lower.len(),
            names == stems_lower@.map_values(|s: String| s@),
            pred == (|i: usize| filter_lower@.len() == 0 || contains_text(names[i as int], filter_lower@)),
            needle@ == filter_lower@,
            r@ == indices(i as nat).filter(pred),
        decreases stems_lower.len() - i,
    {
        let hay = chars_of(stems_lower[i].as_str());
        let keep = needle.len() == 0 || contains_chars(&hay, &needle);
        proof {
            assert(indices((i + 1) as nat).drop_last() =~= indices(i as nat));
            assert(indices((i + 1) as nat).last() == i);
            assert(names[i as int] == stems_lower@[i as int]@);
            reveal_with_fuel(Seq::<_>::filter, 1);
        }
        if keep {
            r.push(i);
        }
        i += 1;
    }
    proof {
        assert(names.len() == stems_lower.len());
    }
    r
}

/// The entries the filter shows for the file stems and the typed filter
/// text, both compared without case.
pub fn filter_library(stems: &Vec<String>, filter: &str) -> (r: Vec<usize>)
    ensures
        r@ == shown(stems@.map_values(|s: String| lowercase(s@)), lowercase(filter@)),
{
    let filter_lower = to_lowercase(filter);
    let mut lowered: Vec<String> = Vec::new();
    let mut i: usize = 0;
    while i < stems.len()
        invariant
            i <= stems.len(),
            lowered@.map_values(|s: String| s@) =~= stems@.take(i as int).map_values(|s: String| lowercase(s@)),
        decreases stems.len() - i,
    {
        let l = to_lowercase(stems[i].as_str());
        let ghost before_push = lowered@;
        lowered.push(l);
        proof {
            assert(stems@.take(i + 1) =~= stems@.take(i as int).push(stems@[i as int]));
            assert(lowered@ == before_push.push(l));
            assert(lowered@.map_values(|s: String| s@) =~= before_push.map_values(|s: String| s@).push(l@));
            assert(stems@.take(i + 1).map_values(|s: String| lowercase(s@)) =~= stems@.take(i as int).map_values(
                |s: String| lowercase(s@),
            ).push(lowercase(stems@[i as int]@)));
        }
        i += 1;
    }
    proof {
        assert(stems@.take(stems.len() as int) =~= stems@);
    }
    shown_entries(&lowered, filter_lower.as_str())
}

/// The shown entries the arrows step through: those that load.
pub open spec fn navigable(shown: Seq<usize>, supported: Seq<bool>) -> Seq<usize> {
    shown.filter(|i: usize| i < supported.len() && supported[i as int])
}

pub open spec fn supported_flags(entries: Seq<LibraryEntry>) -> Seq<bool> {
    entries.map_values(|e: LibraryEntry| e.unsupported_reason is None)
}

/// The shown entries, in order, that are not known to fail loading.
pub fn navigable_entries(shown: &Vec<usize>, entries: &Vec<LibraryEntry>) -> (r: Vec<usize>)
    ensures
        r@ == navigable(shown@, supported_flags(entries@)),
{
    let ghost flags = supported_flags(entries@);
    let ghost pred = |i: usize| i < flags.len() && flags[i as int];
    let mut r: Vec<usize> = Vec::new();
    let mut k: usize = 0;
    while k < shown.len()
        invariant
            k <= shown.len(),
            flags == supported_flags(entries@),
            pred == (|i: usize| i < flags.len() && flags[i as int]),
            r@ == shown@.take(k as int).filter(pred),
        decreases shown.len() - k,
    {
        let i = shown[k];
        let ok = i < entries.len() && entries[i].unsupported_reason.is_none();
        proof {
            assert(shown@.take(k + 1).drop_last() =~= shown@.take(k as int));
            assert(shown@.take(k + 1).last() == i);
            reveal_with_fuel(Seq::<_>::filter, 1);
        }
        if ok {
            r.push(i);
        }
        k += 1;
    }
    proof {
        assert(shown@.take(shown.len() as int) =~= shown@);
    }
    r
}

/// `p` is the first position in `nav` whose entry's stem is `current`.
pub open spec fn first_position(nav: Seq<usize>, stems: Seq<Seq<char>>, current: Seq<char>, p: int) -> bool {
    &&& 0 <= p < nav.len()
    &&& nav[p] < stems.len() && stems[nav[p] as int] == current
    &&& forall|q: int| 0 <= q < p ==> !(nav[q] < stems.len() && stems[nav[q] as int] == current)
}

/// Where the loaded model (by name) sits among the navigable entries.
pub fn current_position(nav: &Vec<usize>, stems: &Vec<String>, current: &str) -> (r: Option<usize>)
    ensures
        match r {
            Some(p) => first_position(nav@, stems@.map_values(|s: String| s@), current@, p as int),
            None => forall|q: int| 0 <= q < nav.len() ==> !(nav@[q] < stems.len() && stems@[nav@[q] as int]@
                == current@),
        },
{
    let ghost names = stems@.map_values(|s: String| s@);
    let mut p: usize = 0;
    while p < nav.len()
        invariant
            p <= nav.len(),
            names == stems@.map_values(|s: String| s@),
            forall|q: int| 0 <= q < p ==> !(nav@[q] < stems.len() && stems@[nav@[q] as int]@ == current@),
        decreases nav.len() - p,
    {
        let i = nav[p];
        if i < stems.len() && same_text(stems[i].as_str(), current) {
            proof {
                assert(names[i as int] == stems@[i as int]@);
                assert forall|q: int| 0 <= q < p implies !(nav@[q] < names.len() && names[nav@[q] as int] == current@) by {
                    if nav@[q] < names.len() {
                        assert(names[nav@[q] as int] == stems@[nav@[q] as int]@);
                    }
                }
            }
            return Some(p);
        }
        p += 1;
    }
    None
}

/// The previous position, wrapping from the first to the last; with no
/// current position the arrow starts from the first.
pub open spec fn prev_spec(pos: Option<usize>, total: usize) -> usize {
    let p = match pos {
        Some(p) => p,
        None => 0,
    };
    if p == 0 {
        (total - 1) as usize
    } else {
        (p - 1) as usize
    }
}

/// The next position, wrapping from the last to the first; with no current
/// position the arrow goes to the first.
pub open spec fn next_spec(pos: Option<usize>, total: usize) -> usize {
    match pos {
        Some(p) => if p + 1 >= total {
            0
        } else {
            (p + 1) as usize
        },
        None => 0,
    }
}

pub fn prev_position(pos: Option<usize>, total: usize) -> (r: usize)
    requires
        total > 0,
        pos matches Some(p) ==> p < total,
    ensures
        r == prev_spec(pos, total),
        r < total,
{
    let p = match pos {
        Some(p) => p,
        None => 0,
    };
    if p == 0 {
        total - 1
    } else {
        p - 1
    }
}

pub fn next_position(pos: Option<usize>, total: usize) -> (r: usize)
    requires
        total > 0,
    ensures
        r == next_spec(pos, total),
        r < total,
{
    let p = match pos {
        Some(p) => p,
        None => usize::MAX,
    };
    if p == usize::MAX || p + 1 >= total {
        0
    } else {
        p + 1
    }
}

/// The read-out between the arrows: "[p/total]" (1-based) on a navigable
/// model, "[-/total]" off one, "[0/0]" with nothing to step through.
pub open spec fn position_text(pos: Option<usize>, total: usize) -> Seq<char> {
    match pos {
        Some(p) => seq!['['] + decimal((p + 1) as nat) + seq!['/'] + decimal(total as nat) + seq![']'],
        None => if total > 0 {
            seq!['[', '-', '/'] + decimal(total as nat) + seq![']']
        } else {
            seq!['[', '0', '/', '0', ']']
        },
    }
}

pub fn position_label(pos: Option<usize>, total: usize) -> (s: String)
    requires
        pos matches Some(p) ==> p < total,
    ensures
        s@ == position_text(pos, total),
{
    match pos {
        Some(p) => {
            let mut s = String::from_str("[");
            proof {
                reveal_strlit("[");
                reveal_strlit("/");
                reveal_strlit("]");
            }
            push_decimal(&mut s, p + 1);
            s.append("/");
            push_decimal(&mut s, total);
            s.append("]");
            s
        },
        None => {
            if total > 0 {
                let mut s = String::from_str("[-/");
                proof {
                    reveal_strlit("[-/");
                    reveal_strlit("]");
                }
                push_decimal(&mut s, total);
                s.append("]");
                s
            } else {
                proof {
                    reveal_strlit("[0/0]");
                }
                String::from_str("[0/0]")
            }
        },
    }
}

/// The file name part of a download URL: what follows the last '/', cut
/// at the first '?' and then at the first '#', with every trailing ".nam"
/// removed.
pub open spec fn url_stem(url: Seq<char>) -> Seq<char> {
    trim_nam(before(before(after_last(url, '/'), '?'), '#'))
}

/// What follows the last `c` (everything when there is none).
pub open spec fn after_last(s: Seq<char>, c: char) -> Seq<char>
    decreases s.len(),
{
    if s.len() == 0 {
        s
    } else if s.last() == c {
        Seq::empty()
    } else {
        after_last(s.drop_last(), c).push(s.last())
    }
}

/// What precedes the first `c` (everything when there is none).
pub open spec fn before(s: Seq<char>, c: char) -> Seq<char>
    decreases s.len(),
{
    if s.len() == 0 {
        s
    } else if s[0] == c {
        Seq::empty()
    } else {
        seq![s[0]] + before(s.drop_first(), c)
    }
}

pub open spec fn nam_ext() -> Seq<char> {
    seq!['.', 'n', 'a', 'm']
}

/// `s` with every trailing ".nam" removed.
pub open spec fn trim_nam(s: Seq<char>) -> Seq<char>
    decreases s.len(),
{
    if s.len() >= 4 && s.subrange(s.len() - 4, s.len() as int) == nam_ext() {
        trim_nam(s.subrange(0, s.len() - 4))
    } else {
        s
    }
}

fn last_index_of(s: &Vec<char>, c: char, end: usize) -> (r: Option<usize>)
    requires
        end <= s.len(),
    ensures
        match r {
            Some(i) => i < end && s@[i as int] == c && forall|j: int| i < j < end ==> s@[j] != c,
            None => forall|j: int| 0 <= j < end ==> s@[j] != c,
        },
{
    let mut k = end;
    while k > 0
        invariant
            k <= end,
            end <= s.len(),
            forall|j: int| k <= j < end ==> s@[j] != c,
        decreases k,
    {
        if s[k - 1] == c {
            return Some(k - 1);
        }
        k -= 1;
    }
    None
}

fn first_index_of(s: &Vec<char>, c: char, start: usize, end: usize) -> (r: Option<usize>)
    requires
        start <= end <= s.len(),
    ensures
        match r {
            Some(i) => start <= i < end && s@[i as int] == c && forall|j: int| start <= j < i ==> s@[j] != c,
            None => forall|j: int| start <= j < end ==> s@[j] != c,
        },
{
    let mut k = start;
    while k < end
        invariant
            start <= k <= end,
            end <= s.len(),
            forall|j: int| start <= j < k ==> s@[j] != c,
        decreases end - k,
    {
        if s[k] == c {
            return Some(k);
        }
        k += 1;
    }
    None
}

proof fn lemma_after_last(s: Seq<char>, c: char, end: int, i: Option<int>)
    requires
        0 <= end <= s.len(),
        match i {
            Some(i) => 0 <= i < end && s[i] == c && forall|j: int| i < j < end ==> s[j] != c,
            None => forall|j: int| 0 <= j < end ==> s[j] != c,
        },
    ensures
        after_last(s.subrange(0, end), c) == match i {
            Some(i) => s.subrange(i + 1, end),
            None => s.subrange(0, end),
        },
    decreases end,
{
    let t = s.subrange(0, end);
    if end > 0 {
        assert(t.drop_last() =~= s.subrange(0, end - 1));
        if i == Some(end - 1) {
            assert(s.subrange(end, end) =~= Seq::<char>::empty());
        } else {
            lemma_after_last(s, c, end - 1, i);
            match i {
                Some(k) => {
                    assert(s.subrange(k + 1, end) =~= s.subrange(k + 1, end - 1).push(s[end - 1]));
                },
                None => {
                    assert(s.subrange(0, end) =~= s.subrange(0, end - 1).push(s[end - 1]));
                },
            }
        }
    }
}

proof fn lemma_before(s: Seq<char>, c: char, start: int, end: int, i: Option<int>)
    requires
        0 <= start <= end <= s.len(),
        match i {
            Some(i) => start <= i < end && s[i] == c && forall|j: int| start <= j < i ==> s[j] != c,
            None => forall|j: int| start <= j < end ==> s[j] != c,
        },
    ensures
        before(s.subrange(start, end), c) == match i {
            Some(i) => s.subrange(start, i),
            None => s.subrange(start, end),
        },
    decreases end - start,
{
    let t = s.subrange(start, end);
    if start < end {
        if i == Some(start) {
            assert(s.subrange(start, start) =~= Seq::<char>::empty());
        } else {
            assert(t.drop_first() =~= s.subrange(start + 1, end));
            lemma_before(s, c, start + 1, end, i);
            match i {
                Some(k) => {
                    assert(s.subrange(start, k) =~= seq![s[start]] + s.subrange(start + 1, k));
                },
                None => {
                    assert(s.subrange(start, end) =~= seq![s[start]] + s.subrange(start + 1, end));
                },
            }
        }
    }
}

/// The span of `chars` that follows the last '/', cut at the first '?' and
/// then at the first '#'.
fn url_name_span(chars: &Vec<char>) -> (r: (usize, usize))
    ensures
        r.0 <= r.1 <= chars.len(),
        chars@.subrange(r.0 as int, r.1 as int) == before(before(after_last(chars@, '/'), '?'), '#'),
{
    let n = chars.len();
    let slash = last_index_of(chars, '/', n);
    let a = match slash {
        Some(i) => i + 1,
        None => 0,
    };
    proof {
        let oi = match slash {
            Some(i) => Some(i as int),
            None => None,
        };
        lemma_after_last(chars@, '/', n as int, oi);
        assert(chars@.subrange(0, n as int) =~= chars@);
        assert(after_last(chars@, '/') == chars@.subrange(a as int, n as int));
        assert(chars@.subrange(a as int, n as int).subrange(0, (n - a) as int) =~= chars@.subrange(a as int, n as int));
    }
    let q = first_index_of(chars, '?', a, n);
    let b = match q {
        Some(i) => i,
        None => n,
    };
    proof {
        let oi = match q {
            Some(i) => Some(i as int),
            None => None,
        };
        lemma_before(chars@, '?', a as int, n as int, oi);
    }
    let h = first_index_of(chars, '#', a, b);
    let e = match h {
        Some(i) => i,
        None => b,
    };
    proof {
        let oi = match h {
            Some(i) => Some(i as int),
            None => None,
        };
        lemma_before(chars@, '#', a as int, b as int, oi);
    }
    (a, e)
}

/// The end of `chars[a..e]` with every trailing ".nam" removed.
fn trim_nam_end(chars: &Vec<char>, a: usize, e: usize) -> (r: usize)
    requires
        a <= e <= chars.len(),
    ensures
        a <= r <= e,
        chars@.subrange(a as int, r as int) == trim_nam(chars@.subrange(a as int, e as int)),
{
    let mut r = e;
    while r - a >= 4 && chars[r - 4] == '.' && chars[r - 3] == 'n' && chars[r - 2] == 'a' && chars[r - 1] == 'm'
        invariant
            a <= r <= e,
            e <= chars.len(),
            trim_nam(chars@.subrange(a as int, r as int)) == trim_nam(chars@.subrange(a as int, e as int)),
        decreases r,
    {
        proof {
            let t = chars@.subrange(a as int, r as int);
            assert(t.subrange(t.len() - 4, t.len() as int) =~= nam_ext());
            assert(t.subrange(0, t.len() - 4) =~= chars@.subrange(a as int, r - 4));
        }
        r -= 4;
    }
    proof {
        let t = chars@.subrange(a as int, r as int);
        if t.len() >= 4 {
            assert(!(t.subrange(t.len() - 4, t.len() as int) =~= nam_ext())) by {
                if t.subrange(t.len() - 4, t.len() as int) =~= nam_ext() {
                    assert(t.subrange(t.len() - 4, t.len() as int)[0] == chars@[r - 4]);
                    assert(t.subrange(t.len() - 4, t.len() as int)[1] == chars@[r - 3]);
                    assert(t.subrange(t.len() - 4, t.len() as int)[2] == chars@[r - 2]);
                    assert(t.subrange(t.len() - 4, t.len() as int)[3] == chars@[r - 1]);
                }
            }
        }
    }
    r
}

/// The library file name a download from `url` is saved under (before any
/// copy number): see `url_stem`.
pub fn download_stem(url: &str) -> (s: String)
    ensures
        s@ == url_stem(url@),
{
    let chars = chars_of(url);
    let (a, e) = url_name_span(&chars);
    let r = trim_nam_end(&chars, a, e);
    let out = url.substring_char(a, r);
    proof {
        assert(out@ =~= chars@.subrange(a as int, r as int));
    }
    String::from_str(out)
}

/// `s` without its leading white space.
pub open spec fn trim_start(s: Seq<char>) -> Seq<char>
    decreases s.len(),
{
    if s.len() > 0 && whitespace(s[0]) {
        trim_start(s.drop_first())
    } else {
        s
    }
}

/// What a model file must look like for a download to be kept: leading
/// white space aside, its text opens with '{' (an error page does not).
pub open spec fn json_like(s: Seq<char>) -> bool {
    let t = trim_start(s);
    t.len() > 0 && t[0] == '{'
}

/// Whether downloaded text is kept as a model file: see `json_like`.
pub fn looks_like_model_json(text: &str) -> (b: bool)
    ensures
        b == json_like(text@),
{
    let chars = chars_of(text);
    let n = chars.len();
    let mut i: usize = 0;
    assert(chars@.subrange(0, n as int) =~= chars@);
    while i < n
        invariant_except_break
            n == chars.len(),
            i <= n,
            trim_start(chars@.subrange(i as int, n as int)) == trim_start(chars@),
        ensures
            i <= n,
            trim_start(chars@.subrange(i as int, n as int)) == trim_start(chars@),
            i < n ==> !whitespace(chars@[i as int]),
        decreases n - i,
    {
        if !is_whitespace(chars[i]) {
            break;
        }
        proof {
            assert(chars@.subrange(i as int, n as int).drop_first() =~= chars@.subrange(i + 1, n as int));
        }
        i += 1;
    }
    proof {
        let t = chars@.subrange(i as int, n as int);
        if i < n {
            assert(t[0] == chars@[i as int]);
        } else {
            assert(t.len() == 0);
        }
    }
    i < n && chars[i] == '{'
}

/// The name the `copy`-th candidate of a stem gets in the library: the
/// plain "stem.nam" first, then "stem (2).nam", "stem (3).nam", …
pub open spec fn candidate_name(stem: Seq<char>, copy: u32) -> Seq<char> {
    if copy < 2 {
        stem + nam_ext()
    } else {
        stem + seq![' ', '('] + decimal(copy as nat) + seq![')'] + nam_ext()
    }
}

pub fn candidate_file_name(stem: &str, copy: u32) -> (s: String)
    ensures
        s@ == candidate_name(stem@, copy),
{
    let mut s = String::from_str(stem);
    proof {
        reveal_strlit(".nam");
        reveal_strlit(" (");
        reveal_strlit(")");
    }
    if copy >= 2 {
        s.append(" (");
        push_decimal(&mut s, copy as usize);
        s.append(")");
    }
    s.append(".nam");
    s
}

/// Every copy of a stem gets its own name, so an import or a download never
/// overwrites a file it has already placed: distinct copy numbers (all
/// numbers below 2 standing for the plain name) give distinct names.
pub proof fn lemma_candidate_names_distinct(stem: Seq<char>, c1: u32, c2: u32)
    requires
        c1 != c2,
        c1 >= 2 || c2 >= 2,
    ensures
        candidate_name(stem, c1) != candidate_name(stem, c2),
{
    if c1 >= 2 && c2 >= 2 {
        let n1 = candidate_name(stem, c1);
        let n2 = candidate_name(stem, c2);
        let d1 = decimal(c1 as nat);
        let d2 = decimal(c2 as nat);
        if n1 == n2 {
            let lo: int = stem.len() as int + 2;
            assert(n1.len() == stem.len() + 2 + d1.len() + 5);
            assert(n2.len() == stem.len() + 2 + d2.len() + 5);
            assert(d1.len() == d2.len());
            assert(n1.subrange(lo, lo + d1.len()) =~= d1);
            assert(n2.subrange(lo, lo + d2.len()) =~= d2);
            lemma_decimal_injective(c1 as nat, c2 as nat);
        }
    } else {
        let c = if c1 >= 2 { c1 } else { c2 };
        lemma_decimal_digits(c as nat);
        assert(candidate_name(stem, c).len() > candidate_name(stem, 0).len());
        assert(candidate_name(stem, c1).len() != candidate_name(stem, c2).len());
    }
}

/// The arrows walk the navigable entries in a cycle: from any position,
/// next then previous (or previous then next) comes back to it, and both
/// arrows always land on a navigable position.
pub proof fn lemma_arrows_cycle(p: usize, total: usize)
    requires
        p < total,
    ensures
        prev_spec(Some(next_spec(Some(p), total)), total) == p,
        next_spec(Some(prev_spec(Some(p), total)), total) == p,
        next_spec(Some(p), total) < total,
        prev_spec(Some(p), total) < total,
{
}

/// The arrows only step through shown entries that load, in the order the
/// list shows them.
pub proof fn lemma_navigable_within_shown(shown: Seq<usize>, supported: Seq<bool>, k: int)
    requires
        0 <= k < navigable(shown, supported).len(),
    ensures
        shown.contains(navigable(shown, supported)[k]),
        navigable(shown, supported)[k] < supported.len(),
        supported[navigable(shown, supported)[k] as int],
{
    let pred = |i: usize| i < supported.len() && supported[i as int];
    broadcast use vstd::seq_lib::group_filter_ensures;
    assert(pred(shown.filter(pred)[k]));
    assert(shown.filter(pred).contains(shown.filter(pred)[k]));
    shown.lemma_filter_contains_rev(pred, shown.filter(pred)[k]);
}

/// The filter is a case-blind substring match: an entry is shown exactly
/// when its lower-cased stem contains the lower-cased filter (every entry
/// for an empty filter), in library order; filters that lower-case alike
/// show the same entries.
pub proof fn lemma_filter_is_case_blind_substring(stems: Seq<Seq<char>>, f1: Seq<char>, f2: Seq<char>, i: usize)
    requires
        lowercase(f1) == lowercase(f2),
    ensures
        shown(stems.map_values(|s: Seq<char>| lowercase(s)), lowercase(f1)) == shown(
            stems.map_values(|s: Seq<char>| lowercase(s)),
            lowercase(f2),
        ),
        shown(stems.map_values(|s: Seq<char>| lowercase(s)), lowercase(f1)).contains(i) <==> (i < stems.len() && (
        lowercase(f1).len() == 0 || contains_text(lowercase(stems[i as int]), lowercase(f1)))),
{
    let lowered = stems.map_values(|s: Seq<char>| lowercase(s));
    let f = lowercase(f1);
    let pred = |i: usize| f.len() == 0 || contains_text(lowered[i as int], f);
    let ix = indices(lowered.len());
    broadcast use vstd::seq_lib::group_filter_ensures;
    if ix.filter(pred).contains(i) {
        ix.lemma_filter_contains_rev(pred, i);
        let k = choose|k: int| 0 <= k < ix.len() && ix[k] == i;
        assert(ix[k] == k as usize);
    }
    if i < stems.len() && (f.len() == 0 || contains_text(lowercase(stems[i as int]), f)) {
        assert(ix[i as int] == i);
        assert(lowered[i as int] == lowercase(stems[i as int]));
        ix.lemma_filter_contains(pred, i as int);
    }
}

/// An empty filter shows every entry.
pub proof fn lemma_empty_filter_shows_all(stems_lower: Seq<Seq<char>>)
    ensures
        shown(stems_lower, Seq::empty()) == indices(stems_lower.len()),
    decreases stems_lower.len(),
{
    let n = stems_lower.len();
    let pred = |i: usize| Seq::<char>::empty().len() == 0 || contains_text(stems_lower[i as int], Seq::empty());
    lemma_filter_all_true(indices(n), pred);
}

proof fn lemma_filter_all_true(s: Seq<usize>, pred: spec_fn(usize) -> bool)
    requires
        forall|i: int| 0 <= i < s.len() ==> pred(#[trigger] s[i]),
    ensures
        s.filter(pred) == s,
    decreases s.len(),
{
    reveal_with_fuel(Seq::<_>::filter, 1);
    if s.len() > 0 {
        lemma_filter_all_true(s.drop_last(), pred);
        assert(s.drop_last().push(s.last()) =~= s);
    }
}

/// The last position before `end` holding `c`, if any.
proof fn last_position_of(s: Seq<char>, c: char, end: int) -> (r: Option<int>)
    requires
        0 <= end <= s.len(),
    ensures
        match r {
            Some(i) => 0 <= i < end && s[i] == c && forall|j: int| i < j < end ==> s[j] != c,
            None => forall|j: int| 0 <= j < end ==> s[j] != c,
        },
    decreases end,
{
    if end == 0 {
        None
    } else if s[end - 1] == c {
        Some(end - 1)
    } else {
        last_position_of(s, c, end - 1)
    }
}

/// For a plain URL (no query, no fragment, not ending in ".nam") the
/// download name is exactly what follows the last '/': the whole URL when
/// it has none.
pub proof fn lemma_url_stem_is_the_last_segment(url: Seq<char>)
    requires
        !url.contains('?'),
        !url.contains('#'),
        !(url.len() >= 4 && url.subrange(url.len() - 4, url.len() as int) == nam_ext()),
    ensures
        exists|k: int|
            0 <= k <= url.len() && url_stem(url) == url.subrange(k, url.len() as int) && (k == 0 || url[k - 1]
                == '/') && !url.subrange(k, url.len() as int).contains('/'),
{
    let n = url.len() as int;
    let last = last_position_of(url, '/', n);
    lemma_after_last(url, '/', n, last);
    assert(url.subrange(0, n) =~= url);
    let k = match last {
        Some(i) => i + 1,
        None => 0,
    };
    let a = url.subrange(k, n);
    assert(after_last(url, '/') == a);
    assert forall|j: int| 0 <= j < a.len() implies a[j] != '?' && a[j] != '#' && a[j] != '/' by {
        assert(a[j] == url[k + j]);
        if a[j] == '?' {
            assert(url.contains('?'));
        }
        if a[j] == '#' {
            assert(url.contains('#'));
        }
    }
    lemma_before(a, '?', 0, a.len() as int, None);
    assert(a.subrange(0, a.len() as int) =~= a);
    lemma_before(a, '#', 0, a.len() as int, None);
    if a.len() >= 4 {
        assert(a.subrange(a.len() - 4, a.len() as int) =~= url.subrange(n - 4, n));
    }
    assert(trim_nam(a) == a);
    assert(url_stem(url) == a);
    assert(!a.contains('/'));
}

/// The read-out counts from one: the first navigable model reads "[1/n]"
/// and the last "[n/n]", and a position's number is one above the one
/// before it.
pub proof fn lemma_position_counts_from_one(p: usize, total: usize)
    requires
        0 < total,
        p + 1 < total,
    ensures
        position_text(Some(0), total) == seq!['[', '1', '/'] + decimal(total as nat) + seq![']'],
        position_text(Some((total - 1) as usize), total) == seq!['['] + decimal(total as nat) + seq!['/'] + decimal(
            total as nat,
        ) + seq![']'],
        position_text(Some((p + 1) as usize), total) == seq!['['] + decimal((p + 2) as nat) + seq!['/'] + decimal(
            total as nat,
        ) + seq![']'],
{
    assert(decimal(1) == seq!['1']);
    assert(seq!['['] + seq!['1'] =~= seq!['[', '1']);
    assert(seq!['[', '1'] + seq!['/'] =~= seq!['[', '1', '/']);
}

/// The download name never carries a path separator, a query or a
/// fragment, nor a trailing ".nam".
pub proof fn lemma_url_stem_is_bare(url: Seq<char>)
    ensures
        !url_stem(url).contains('/'),
        !url_stem(url).contains('?'),
        !url_stem(url).contains('#'),
        !(url_stem(url).len() >= 4 && url_stem(url).subrange(url_stem(url).len() - 4, url_stem(url).len() as int)
            == nam_ext()),
{
    let a = after_last(url, '/');
    lemma_after_last_free(url, '/');
    let b = before(a, '?');
    lemma_before_sub(a, '?');
    lemma_before_free(a, '?');
    let c = before(b, '#');
    lemma_before_sub(b, '#');
    lemma_before_free(b, '#');
    lemma_trim_nam(c);
    assert forall|x: char| !a.contains(x) implies !b.contains(x) by {
        if b.contains(x) {
            let k = choose|k: int| 0 <= k < b.len() && b[k] == x;
            assert(a[k] == x);
        }
    }
    assert forall|x: char| !b.contains(x) implies !c.contains(x) by {
        if c.contains(x) {
            let k = choose|k: int| 0 <= k < c.len() && c[k] == x;
            assert(b[k] == x);
        }
    }
    assert forall|x: char| !c.contains(x) implies !trim_nam(c).contains(x) by {
        if trim_nam(c).contains(x) {
            let k = choose|k: int| 0 <= k < trim_nam(c).len() && trim_nam(c)[k] == x;
            assert(c[k] == x);
        }
    }
}

proof fn lemma_after_last_free(s: Seq<char>, c: char)
    ensures
        !after_last(s, c).contains(c),
    decreases s.len(),
{
    if s.len() > 0 && s.last() != c {
        lemma_after_last_free(s.drop_last(), c);
        let t = after_last(s.drop_last(), c);
        assert forall|k: int| 0 <= k < t.push(s.last()).len() implies t.push(s.last())[k] != c by {
            if k < t.len() {
                assert(!t.contains(c));
                assert(t[k] != c);
            }
        }
    }
}

proof fn lemma_before_free(s: Seq<char>, c: char)
    ensures
        !before(s, c).contains(c),
    decreases s.len(),
{
    if s.len() > 0 && s[0] != c {
        lemma_before_free(s.drop_first(), c);
        let t = before(s.drop_first(), c);
        assert forall|k: int| 0 <= k < (seq![s[0]] + t).len() implies (seq![s[0]] + t)[k] != c by {
            if k > 0 {
                assert(!t.contains(c));
                assert(t[k - 1] != c);
            }
        }
    }
}

/// `before(s, c)` is a prefix of `s`.
proof fn lemma_before_sub(s: Seq<char>, c: char)
    ensures
        before(s, c).len() <= s.len(),
        forall|k: int| 0 <= k < before(s, c).len() ==> before(s, c)[k] == s[k],
    decreases s.len(),
{
    if s.len() > 0 && s[0] != c {
        lemma_before_sub(s.drop_first(), c);
        let t = before(s.drop_first(), c);
        assert(before(s, c) == seq![s[0]] + t);
        assert forall|k: int| 0 <= k < before(s, c).len() implies before(s, c)[k] == s[k] by {
            if k > 0 {
                assert(before(s, c)[k] == t[k - 1]);
                assert(t[k - 1] == s.drop_first()[k - 1]);
            }
        }
    }
}

/// `trim_nam(s)` is a prefix of `s` that does not end in ".nam".
proof fn lemma_trim_nam(s: Seq<char>)
    ensures
        trim_nam(s).len() <= s.len(),
        forall|k: int| 0 <= k < trim_nam(s).len() ==> trim_nam(s)[k] == s[k],
        !(trim_nam(s).len() >= 4 && trim_nam(s).subrange(trim_nam(s).len() - 4, trim_nam(s).len() as int)
            == nam_ext()),
    decreases s.len(),
{
    if s.len() >= 4 && s.subrange(s.len() - 4, s.len() as int) == nam_ext() {
        let t = s.subrange(0, s.len() - 4);
        lemma_trim_nam(t);
        assert(trim_nam(s) == trim_nam(t));
        assert forall|k: int| 0 <= k < trim_nam(s).len() implies trim_nam(s)[k] == s[k] by {
            assert(trim_nam(t)[k] == t[k]);
        }
    }
}

} // verus!
