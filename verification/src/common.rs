//! Time labels, sorting and search matching shared by all views.
use vstd::prelude::*;
use vstd::string::*;
use crate::text::{decimal, decimal_pad2, push_decimal, push_decimal_pad2, signed_decimal};
use core::cmp::Ordering;
use vstd::std_specs::cmp::PartialOrdSpec;

verus! {

/// Division of an integer by a positive number, rounded toward zero.
pub open spec fn trunc_div(a: int, b: int) -> int
    recommends
        b > 0,
{
    if a >= 0 { a / b } else { -((-a) / b) }
}

/// Whole hours, then the whole minutes and whole seconds left over, of a span of milliseconds,
/// each rounded toward zero as whole units of a time span are.
pub open spec fn time_parts(ms: int) -> (int, int, int) {
    let hours = trunc_div(trunc_div(ms, 1000), 3600);
    let rest = ms - hours * 3_600_000;
    let minutes = trunc_div(trunc_div(rest, 1000), 60);
    let rest2 = rest - minutes * 60_000;
    let seconds = trunc_div(rest2, 1000);
    (hours, minutes, seconds)
}

/// Text padded on the left with `0` to at least two characters.
pub open spec fn pad2(t: Seq<char>) -> Seq<char> {
    if t.len() < 2 { seq!['0'] + t } else { t }
}

/// The label of a span of milliseconds: `h:mm:ss` when it holds at least one whole hour,
/// `m:ss` otherwise; none for a span that cannot be represented (`i64::MIN` milliseconds).
pub open spec fn time_label(ms: int) -> Option<Seq<char>> {
    if ms < -9223372036854775807 {
        None
    } else {
        let (h, m, s) = time_parts(ms);
        if h > 0 {
            Some(signed_decimal(h) + seq![':'] + pad2(signed_decimal(m)) + seq![':'] + pad2(
                signed_decimal(s),
            ))
        } else {
            Some(signed_decimal(m) + seq![':'] + pad2(signed_decimal(s)))
        }
    }
}

proof fn lemma_pad2_decimal(n: nat)
    ensures
        pad2(decimal(n)) == decimal_pad2(n),
{
    reveal_with_fuel(decimal, 2);
}

proof fn lemma_decimal_len(n: nat)
    ensures
        decimal(n).len() >= 1,
        n >= 10 ==> decimal(n).len() >= 2,
    decreases n,
{
    if n >= 10 {
        lemma_decimal_len(n / 10);
    }
}

/// Appends the signed value `sign * mag` padded to two characters.
fn push_signed_pad2(s: &mut String, negative: bool, mag: u64)
    ensures
        final(s)@ == old(s)@ + pad2(signed_decimal(if negative { -(mag as int) } else { mag as int })),
{
    if negative && mag > 0 {
        proof {
            reveal_strlit("-");
            lemma_decimal_len(mag as nat);
        }
        s.append("-");
        push_decimal(s, mag);
        proof {
            let t = signed_decimal(-(mag as int));
            assert(t == seq!['-'] + decimal(mag as nat));
            assert(t.len() >= 2);
        }
    } else {
        proof {
            lemma_pad2_decimal(mag as nat);
            assert(signed_decimal(if negative { -(mag as int) } else { mag as int }) == decimal(mag as nat));
        }
        push_decimal_pad2(s, mag);
    }
}

/// Appends the signed value `sign * mag`.
fn push_signed(s: &mut String, negative: bool, mag: u64)
    ensures
        final(s)@ == old(s)@ + signed_decimal(if negative { -(mag as int) } else { mag as int }),
{
    if negative && mag > 0 {
        proof { reveal_strlit("-"); }
        s.append("-");
        push_decimal(s, mag);
        proof {
            assert(old(s)@ + seq!['-'] + decimal(mag as nat) == old(s)@ + (seq!['-'] + decimal(mag as nat)));
        }
    } else {
        push_decimal(s, mag);
    }
}

proof fn lemma_time_parts_sym(a: int)
    requires
        0 <= a,
    ensures
        ({
            let (h, m, s) = time_parts(a);
            let (h2, m2, s2) = time_parts(-a);
            h2 == -h && m2 == -m && s2 == -s
        }),
{
}

/// The label of a span of milliseconds, or none where the span cannot be represented.
pub fn convert_for_label_intern(time: i64) -> (r: Option<String>)
    ensures
        r is None <==> time_label(time as int) is None,
        r matches Some(label) ==> time_label(time as int) == Some(label@),
{
    if time == i64::MIN {
        return None;
    }
    let negative = time < 0;
    let a: u64 = if negative { (-time) as u64 } else { time as u64 };
    let secs = a / 1000;
    let hours = secs / 3600;
    let rest = a - hours * 3_600_000;
    let minutes = (rest / 1000) / 60;
    let rest2 = rest - minutes * 60_000;
    let seconds = rest2 / 1000;
    proof {
        let (h, m, s) = time_parts(a as int);
        assert(h == hours && m == minutes && s == seconds);
        if negative {
            lemma_time_parts_sym(a as int);
            assert(time as int == -(a as int));
        }
    }
    let mut result = String::new();
    proof { reveal_strlit(":"); }
    if !negative && hours > 0 {
        push_decimal(&mut result, hours);
        result.append(":");
        push_signed_pad2(&mut result, false, minutes);
        result.append(":");
        push_signed_pad2(&mut result, false, seconds);
        proof {
            let (h, m, s) = time_parts(time as int);
            assert(signed_decimal(h) == decimal(hours as nat));
            assert(result@ =~= signed_decimal(h) + seq![':'] + pad2(signed_decimal(m)) + seq![':'] + pad2(signed_decimal(s)));
        }
        return Some(result);
    }
    push_signed(&mut result, negative, minutes);
    result.append(":");
    push_signed_pad2(&mut result, negative, seconds);
    proof {
        let (h, m, s) = time_parts(time as int);
        assert(!(h > 0));
        assert(result@ =~= signed_decimal(m) + seq![':'] + pad2(signed_decimal(s)));
    }
    Some(result)
}

/// The label of a span of milliseconds; `-1` where the span cannot be represented.
pub fn convert_for_label(time: i64) -> (r: String)
    ensures
        time_label(time as int) matches Some(l) ==> r@ == l,
        time_label(time as int) is None ==> r@ == "-1"@,
{
    match convert_for_label_intern(time) {
        Some(label) => label,
        None => String::from_str("-1"),
    }
}

/// Order of two items in a sorted list view.
#[derive(Debug, Clone, Copy, PartialEq, Eq, Structural)]
pub enum SortOrder {
    Smaller,
    Larger,
}

/// Places `a` before `b` when `a <= b`, after it otherwise.
pub fn sort_fn<T: PartialOrd>(a: &T, b: &T) -> (r: SortOrder)
    ensures
        T::obeys_partial_cmp_spec() ==> (r == SortOrder::Smaller <==> (a.partial_cmp_spec(b)
            == Some(Ordering::Less) || a.partial_cmp_spec(b) == Some(Ordering::Equal))),
{
    if a <= b {
        SortOrder::Smaller
    } else {
        SortOrder::Larger
    }
}

} // verus!

verus! {

/// What `str::to_lowercase` makes of a text (Unicode lower case mapping).
pub uninterp spec fn lowercase_of(s: Seq<char>) -> Seq<char>;

/// What the fuzzy matcher of the skim algorithm, with its default configuration, scores
/// `choice` against `pattern`: none where the pattern does not match.
pub uninterp spec fn skim_score(choice: Seq<char>, pattern: Seq<char>) -> Option<i64>;

/// Whether `needle` occurs in `haystack` as a contiguous run of characters.
pub open spec fn contains_seq(haystack: Seq<char>, needle: Seq<char>) -> bool {
    exists|i: int|
        0 <= i && i + needle.len() <= haystack.len() && #[trigger] haystack.subrange(
            i,
            i + needle.len(),
        ) == needle
}

/// Calls `str::to_lowercase`; its result is named, as the Unicode case tables take pages to state.
#[verifier::external_body]
fn to_lowercase(s: &str) -> (r: String)
    ensures
        r@ == lowercase_of(s@),
{
    s.to_lowercase()
}

/// The characters of a text, in order.
fn chars_of(s: &str) -> (r: Vec<char>)
    ensures
        r@ == s@,
{
    let n = s.unicode_len();
    let mut r: Vec<char> = Vec::new();
    let mut i: usize = 0;
    while i < n
        invariant
            n == s@.len(),
            0 <= i <= n,
            r@ == s@.subrange(0, i as int),
        decreases n - i,
    {
        r.push(s.get_char(i));
        proof {
            assert(r@ =~= s@.subrange(0, i + 1));
        }
        i = i + 1;
    }
    proof {
        assert(r@ =~= s@);
    }
    r
}

/// Whether `needle` occurs in `haystack` as a contiguous run of characters, as `str::contains`
/// answers for a string pattern: every place is tried in turn.
fn str_contains(haystack: &str, needle: &str) -> (r: bool)
    ensures
        r == contains_seq(haystack@, needle@),
{
    let h = chars_of(haystack);
    let n = chars_of(needle);
    let m = n.len();
    let hl = h.len();
    if m > hl {
        return false;
    }
    let mut i: usize = 0;
    while i <= hl - m
        invariant
            hl == h@.len(),
            h@ == haystack@,
            n@ == needle@,
            m == n@.len(),
            m <= h@.len(),
            0 <= i <= h@.len() - m + 1,
            forall|j: int| 0 <= j < i ==> #[trigger] h@.subrange(j, j + m) != n@,
        decreases h@.len() - m + 1 - i,
    {
        let mut k: usize = 0;
        let mut same = true;
        let ghost mut bad: int = 0;
        while k < m
            invariant
                hl == h@.len(),
                h@ == haystack@,
                n@ == needle@,
                m == n@.len(),
                i + m <= h@.len(),
                0 <= k <= m,
                same ==> forall|t: int| 0 <= t < k ==> h@[i + t] == #[trigger] n@[t],
                !same ==> 0 <= bad < m && h@[i + bad] != n@[bad],
            decreases m - k,
        {
            if h[i + k] != n[k] {
                if same {
                    proof {
                        bad = k as int;
                    }
                }
                same = false;
            }
            k = k + 1;
        }
        if same {
            proof {
                assert(h@.subrange(i as int, i + m) =~= n@);
            }
            return true;
        }
        proof {
            assert(h@.subrange(i as int, i + m)[bad] != n@[bad]);
        }
        i = i + 1;
    }
    false
}

/// Builds `fuzzy_matcher::skim::SkimMatcherV2::default()` and calls its
/// `FuzzyMatcher::fuzzy_match(choice, pattern)`; the score is named.
#[verifier::external_body]
fn skim_fuzzy_match(choice: &str, pattern: &str) -> (r: Option<i64>)
    ensures
        r == skim_score(choice@, pattern@),
{
    fuzzy_matcher::FuzzyMatcher::fuzzy_match(
        &fuzzy_matcher::skim::SkimMatcherV2::default(),
        choice,
        pattern,
    )
}

/// The texts that a search compares: lower cased unless the search is case sensitive.
pub open spec fn search_inputs(test: Seq<char>, search: Seq<char>, case_sensitive: bool) -> (
    Seq<char>,
    Seq<char>,
) {
    if case_sensitive {
        (test, search)
    } else {
        (lowercase_of(test), lowercase_of(search))
    }
}

/// Whether `test` is found by the search text `search`: by the fuzzy matcher when
/// `fuzzy_search` is set, as a plain sub-text otherwise; both are lower cased first unless
/// `case_sensitive` is set.
pub fn search_matching(test: String, search: String, case_sensitive: bool, fuzzy_search: bool) -> (r: bool)
    ensures
        ({
            let (t, s) = search_inputs(test@, search@, case_sensitive);
            r == if fuzzy_search {
                skim_score(t, s) is Some
            } else {
                contains_seq(t, s)
            }
        }),
{
    let mut test = test;
    let mut search = search;
    if !case_sensitive {
        test = to_lowercase(test.as_str());
        search = to_lowercase(search.as_str());
    }
    if fuzzy_search {
        let score = skim_fuzzy_match(test.as_str(), search.as_str());
        score.is_some()
    } else {
        str_contains(test.as_str(), search.as_str())
    }
}

/// An optional text, empty when missing.
pub open spec fn or_empty(t: Option<Seq<char>>) -> Seq<char> {
    match t {
        Some(x) => x,
        None => Seq::empty(),
    }
}

/// The text a track is searched in: its title, artist and album separated by spaces, an
/// unknown artist or album left empty.
pub open spec fn track_text(title: Seq<char>, artist: Option<Seq<char>>, album: Option<Seq<char>>) -> Seq<char> {
    title + seq![' '] + or_empty(artist) + seq![' '] + or_empty(album)
}

/// The view of an optional text.
pub open spec fn opt_view(t: Option<&str>) -> Option<Seq<char>> {
    match t {
        Some(x) => Some(x@),
        None => None,
    }
}

/// The text a track is searched in.
pub fn track_search_text(title: &str, artist: Option<&str>, album: Option<&str>) -> (r: String)
    ensures
        r@ == track_text(title@, opt_view(artist), opt_view(album)),
{
    proof {
        reveal_strlit(" ");
    }
    let mut s = String::from_str(title);
    s.append(" ");
    match artist {
        Some(a) => s.append(a),
        None => {},
    }
    s.append(" ");
    match album {
        Some(a) => s.append(a),
        None => {},
    }
    proof {
        assert(s@ =~= track_text(title@, opt_view(artist), opt_view(album)));
    }
    s
}

/// Whether the search `search` finds a track.
pub open spec fn track_found(
    title: Seq<char>,
    artist: Option<Seq<char>>,
    album: Option<Seq<char>>,
    search: Seq<char>,
    case_sensitive: bool,
    fuzzy_search: bool,
) -> bool {
    let (t, s) = search_inputs(track_text(title, artist, album), search, case_sensitive);
    if fuzzy_search {
        skim_score(t, s) is Some
    } else {
        contains_seq(t, s)
    }
}

/// Whether the search `search` finds a track, by its title, artist and album.
pub fn track_matches(
    title: &str,
    artist: Option<&str>,
    album: Option<&str>,
    search: &str,
    case_sensitive: bool,
    fuzzy_search: bool,
) -> (r: bool)
    ensures
        r == track_found(title@, opt_view(artist), opt_view(album), search@, case_sensitive, fuzzy_search),
{
    let text = track_search_text(title, artist, album);
    search_matching(text, String::from_str(search), case_sensitive, fuzzy_search)
}

/// Whether the dashboard shows an album with `title` by `artist`: always while the search
/// bar is closed, otherwise when the search finds `title artist`.
pub fn dashboard_element_shown(
    title: &str,
    artist: &str,
    search: &str,
    search_active: bool,
    case_sensitive: bool,
    fuzzy_search: bool,
) -> (r: bool)
    ensures
        !search_active ==> r,
        search_active ==> r == ({
            let (t, s) = search_inputs(title@ + seq![' '] + artist@, search@, case_sensitive);
            if fuzzy_search {
                skim_score(t, s) is Some
            } else {
                contains_seq(t, s)
            }
        }),
{
    if !search_active {
        return true;
    }
    proof {
        reveal_strlit(" ");
    }
    let mut text = String::from_str(title);
    text.append(" ");
    text.append(artist);
    proof {
        assert(text@ =~= title@ + seq![' '] + artist@);
    }
    search_matching(text, String::from_str(search), case_sensitive, fuzzy_search)
}

} // verus!
