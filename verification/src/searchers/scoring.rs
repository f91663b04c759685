//! Title cleaning, search strings and the match score of a search result.

use vstd::prelude::*;
use crate::models::track_metadata::{opt_text, TrackMetadata};
use crate::searchers::{ISearchResult, SearchResultView};
use crate::text::{
    chars_eq, chars_of, contains, contains_chars, cut_at, cut_at_chars, join_words,
    join_words_chars, lowercase_chars, lowercase_of, split_at_char, split_chars,
    string_from_chars, string_of_chars, trim, trim_bounds, subvec,
};

verus! {

/// The characters that `clean_title` removes: CJK brackets and quotes, exclamation and question
/// marks, full stops, enumeration commas, middle dots, bullets and ellipses.
pub open spec fn is_title_mark(c: char) -> bool {
    ||| c == '\u{300a}'
    ||| c == '\u{300b}'
    ||| c == '\u{300c}'
    ||| c == '\u{300d}'
    ||| c == '\u{300e}'
    ||| c == '\u{300f}'
    ||| c == '\u{ff01}'
    ||| c == '!'
    ||| c == '\u{ff1f}'
    ||| c == '?'
    ||| c == '\u{3002}'
    ||| c == '\u{3001}'
    ||| c == '\u{b7}'
    ||| c == '\u{2022}'
    ||| c == '\u{2026}'
}

/// `s` without its title marks.
pub open spec fn drop_marks(s: Seq<char>) -> Seq<char>
    decreases s.len(),
{
    if s.len() == 0 {
        seq![]
    } else if is_title_mark(s.last()) {
        drop_marks(s.drop_last())
    } else {
        drop_marks(s.drop_last()).push(s.last())
    }
}

/// A title cut before its first `(`, then before its first `[`, then before its first ` - `,
/// with title marks removed and white space trimmed.
pub open spec fn clean_title_of(s: Seq<char>) -> Seq<char> {
    trim(drop_marks(cut_at(cut_at(cut_at(s, seq!['(']), seq!['[']), seq![' ', '-', ' '])))
}

/// A title cut before its first `(feat.`, then before its first ` - feat.`.
pub open spec fn remove_feat_of(s: Seq<char>) -> Seq<char> {
    cut_at(
        cut_at(s, seq!['(', 'f', 'e', 'a', 't', '.']),
        seq![' ', '-', ' ', 'f', 'e', 'a', 't', '.'],
    )
}

/// Whether `c` is a title mark.
pub fn char_is_title_mark(c: char) -> (r: bool)
    ensures
        r == is_title_mark(c),
{
    c == '\u{300a}' || c == '\u{300b}' || c == '\u{300c}' || c == '\u{300d}' || c == '\u{300e}'
        || c == '\u{300f}' || c == '\u{ff01}' || c == '!' || c == '\u{ff1f}' || c == '?' || c
        == '\u{3002}' || c == '\u{3001}' || c == '\u{b7}' || c == '\u{2022}' || c == '\u{2026}'
}

/// Removes the title marks of `s`.
pub fn drop_marks_chars(s: &[char]) -> (r: Vec<char>)
    ensures
        r@ == drop_marks(s@),
{
    let mut r: Vec<char> = Vec::new();
    let mut i: usize = 0;
    while i < s.len()
        invariant
            i <= s@.len(),
            r@ == drop_marks(s@.take(i as int)),
        decreases s@.len() - i,
    {
        assert(s@.take(i + 1).drop_last() =~= s@.take(i as int));
        assert(s@.take(i + 1).last() == s@[i as int]);
        if !char_is_title_mark(s[i]) {
            r.push(s[i]);
        }
        i = i + 1;
    }
    assert(s@.take(s@.len() as int) =~= s@);
    r
}


/// Cleans a title; see [`clean_title_of`].
pub fn clean_title_chars(s: Vec<char>) -> (r: Vec<char>)
    ensures
        r@ == clean_title_of(s@),
{
    let p1 = vec!['('];
    let p2 = vec!['['];
    let p3 = vec![' ', '-', ' '];
    assert(p1@ =~= seq!['(']);
    assert(p2@ =~= seq!['[']);
    assert(p3@ =~= seq![' ', '-', ' ']);
    let s = cut_at_chars(s, p1.as_slice());
    let s = cut_at_chars(s, p2.as_slice());
    let s = cut_at_chars(s, p3.as_slice());
    let s = drop_marks_chars(s.as_slice());
    let (a, b) = trim_bounds(s.as_slice(), 0, s.len());
    assert(s@.subrange(0, s@.len() as int) =~= s@);
    subvec(s.as_slice(), a, b)
}

/// Removes a featured-artist suffix; see [`remove_feat_of`].
pub fn remove_feat_chars(s: Vec<char>) -> (r: Vec<char>)
    ensures
        r@ == remove_feat_of(s@),
{
    let p1 = vec!['(', 'f', 'e', 'a', 't', '.'];
    let p2 = vec![' ', '-', ' ', 'f', 'e', 'a', 't', '.'];
    assert(p1@ =~= seq!['(', 'f', 'e', 'a', 't', '.']);
    assert(p2@ =~= seq![' ', '-', ' ', 'f', 'e', 'a', 't', '.']);
    let s = cut_at_chars(s, p1.as_slice());
    cut_at_chars(s, p2.as_slice())
}

/// `list` with `s` appended, unless `s` is empty or equal to the last element.
pub open spec fn push_candidate(list: Seq<Seq<char>>, s: Seq<char>) -> Seq<Seq<char>> {
    if s.len() > 0 && (list.len() == 0 || list.last() != s) {
        list.push(s)
    } else {
        list
    }
}

/// The search strings tried for a track with the given title, artist and album, in order:
/// title and artist, then with album, then the title alone, then title and album; each first
/// as given (trimmed) and then cleaned, skipping empty strings and repeats of the previous one.
pub open spec fn search_strings(title: Seq<char>, artist: Seq<char>, album: Seq<char>) -> Seq<
    Seq<char>,
> {
    let t = trim(title);
    let a = trim(artist);
    let al = trim(album);
    let ct = clean_title_of(remove_feat_of(t));
    let ca = clean_title_of(a);
    let cal = clean_title_of(al);
    let l1 = push_candidate(seq![], join_words(seq![t, a]));
    let l2 = push_candidate(l1, join_words(seq![ct, ca]));
    let l3 = push_candidate(l2, join_words(seq![t, a, al]));
    let l4 = push_candidate(l3, join_words(seq![ct, ca, cal]));
    let l5 = push_candidate(l4, t);
    let l6 = push_candidate(l5, ct);
    let l7 = push_candidate(l6, join_words(seq![t, al]));
    push_candidate(l7, join_words(seq![ct, cal]))
}

/// No string of `list` is empty, and no two neighbours are equal.
pub open spec fn candidates_ok(list: Seq<Seq<char>>) -> bool {
    &&& forall|i: int| 0 <= i < list.len() ==> (#[trigger] list[i]).len() > 0
    &&& forall|i: int| 0 <= i < list.len() - 1 ==> #[trigger] list[i] != list[i + 1]
}

proof fn lemma_push_candidate(list: Seq<Seq<char>>, s: Seq<char>)
    requires
        candidates_ok(list),
    ensures
        candidates_ok(push_candidate(list, s)),
        push_candidate(list, s).len() <= list.len() + 1,
{
    if s.len() > 0 && (list.len() == 0 || list.last() != s) {
        let p = list.push(s);
        assert forall|i: int| 0 <= i < p.len() - 1 implies #[trigger] p[i] != p[i + 1] by {
            if i == list.len() - 1 {
                assert(p[i] == list.last());
            } else {
                assert(p[i] == list[i] && p[i + 1] == list[i + 1]);
            }
        }
    }
}

/// Removing title marks never lengthens a text.
proof fn lemma_drop_marks_len(s: Seq<char>)
    ensures
        drop_marks(s).len() <= s.len(),
    decreases s.len(),
{
    if s.len() > 0 {
        lemma_drop_marks_len(s.drop_last());
    }
}

/// Cleaning a title never lengthens it.
proof fn lemma_clean_title_len(s: Seq<char>)
    ensures
        clean_title_of(s).len() <= s.len(),
        remove_feat_of(s).len() <= s.len(),
{
    let c1 = cut_at(s, seq!['(']);
    let c2 = cut_at(c1, seq!['[']);
    let c3 = cut_at(c2, seq![' ', '-', ' ']);
    crate::text::lemma_cut_at_len(s, seq!['(']);
    crate::text::lemma_cut_at_len(c1, seq!['[']);
    crate::text::lemma_cut_at_len(c2, seq![' ', '-', ' ']);
    lemma_drop_marks_len(c3);
    crate::text::lemma_trim_len(drop_marks(c3));
    let f1 = cut_at(s, seq!['(', 'f', 'e', 'a', 't', '.']);
    crate::text::lemma_cut_at_len(s, seq!['(', 'f', 'e', 'a', 't', '.']);
    crate::text::lemma_cut_at_len(f1, seq![' ', '-', ' ', 'f', 'e', 'a', 't', '.']);
}

/// Two words joined by a space: as long as both and the space at most.
proof fn lemma_join_two_len(x: Seq<char>, y: Seq<char>)
    ensures
        join_words(seq![x, y]).len() <= x.len() + 1 + y.len(),
{
    assert(seq![x, y].drop_last() =~= seq![x]);
    assert(seq![x].drop_last() =~= Seq::<Seq<char>>::empty());
    assert(join_words(Seq::<Seq<char>>::empty()) == Seq::<char>::empty());
    assert(join_words(seq![x]) == x);
}

/// When the trimmed title, artist and album are all given, the search strings start with the
/// title and artist joined by a space, and the title, artist and album joined by spaces come
/// right after the title-artist queries: second, or third after the cleaned title and artist.
pub proof fn lemma_search_strings_with_album(title: Seq<char>, artist: Seq<char>, album: Seq<char>)
    requires
        trim(title).len() > 0,
        trim(artist).len() > 0,
        trim(album).len() > 0,
    ensures
        ({
            let s = search_strings(title, artist, album);
            let t = trim(title);
            let a = trim(artist);
            let al = trim(album);
            &&& s.len() >= 2
            &&& s[0] == t + seq![' '] + a
            &&& (s[1] == t + seq![' '] + a + seq![' '] + al || (s.len() >= 3 && s[1]
                != t + seq![' '] + a + seq![' '] + al && s[2] == t + seq![' '] + a + seq![' ']
                + al))
        }),
{
    let t = trim(title);
    let a = trim(artist);
    let al = trim(album);
    let ct = clean_title_of(remove_feat_of(t));
    let ca = clean_title_of(a);
    let cal = clean_title_of(al);
    let ta = join_words(seq![t, a]);
    let tri = join_words(seq![t, a, al]);
    assert(seq![t, a].drop_last() =~= seq![t]);
    assert(seq![t].drop_last() =~= Seq::<Seq<char>>::empty());
    assert(join_words(Seq::<Seq<char>>::empty()) == Seq::<char>::empty());
    assert(join_words(seq![t]) == t);
    assert(ta == t + seq![' '] + a);
    assert(seq![t, a, al].drop_last() =~= seq![t, a]);
    assert(tri == t + seq![' '] + a + seq![' '] + al);
    lemma_clean_title_len(t);
    lemma_clean_title_len(remove_feat_of(t));
    lemma_clean_title_len(a);
    lemma_join_two_len(ct, ca);
    let cta = join_words(seq![ct, ca]);
    assert(cta.len() < tri.len());
    let l0: Seq<Seq<char>> = seq![];
    let l1 = push_candidate(l0, ta);
    assert(l1 =~= seq![ta]);
    let l2 = push_candidate(l1, cta);
    assert(l2.last() != tri);
    let l3 = push_candidate(l2, tri);
    assert(l3 == l2.push(tri));
    let l4 = push_candidate(l3, join_words(seq![ct, ca, cal]));
    let l5 = push_candidate(l4, t);
    let l6 = push_candidate(l5, ct);
    let l7 = push_candidate(l6, join_words(seq![t, al]));
    let l8 = push_candidate(l7, join_words(seq![ct, cal]));
    assert(l8 == search_strings(title, artist, album));
    lemma_push_prefix(l3, join_words(seq![ct, ca, cal]));
    lemma_push_prefix(l4, t);
    lemma_push_prefix(l5, ct);
    lemma_push_prefix(l6, join_words(seq![t, al]));
    lemma_push_prefix(l7, join_words(seq![ct, cal]));
    if l2.len() == 1 {
        assert(l3[1] == tri);
    } else {
        assert(l2[1] == cta);
        assert(l3[2] == tri);
        assert(l3[1] != tri);
    }
}

/// Pushing a candidate keeps what was there.
proof fn lemma_push_prefix(list: Seq<Seq<char>>, x: Seq<char>)
    ensures
        push_candidate(list, x).len() >= list.len(),
        forall|i: int| 0 <= i < list.len() ==> #[trigger] push_candidate(list, x)[i] == list[i],
{
}

/// The search strings of a track are at most eight, none is empty, and none repeats the one
/// before it.
pub proof fn lemma_search_strings(title: Seq<char>, artist: Seq<char>, album: Seq<char>)
    ensures
        candidates_ok(search_strings(title, artist, album)),
        search_strings(title, artist, album).len() <= 8,
{
    let t = trim(title);
    let a = trim(artist);
    let al = trim(album);
    let ct = clean_title_of(remove_feat_of(t));
    let ca = clean_title_of(a);
    let cal = clean_title_of(al);
    let l0: Seq<Seq<char>> = seq![];
    lemma_push_candidate(l0, join_words(seq![t, a]));
    let l1 = push_candidate(l0, join_words(seq![t, a]));
    lemma_push_candidate(l1, join_words(seq![ct, ca]));
    let l2 = push_candidate(l1, join_words(seq![ct, ca]));
    lemma_push_candidate(l2, join_words(seq![t, a, al]));
    let l3 = push_candidate(l2, join_words(seq![t, a, al]));
    lemma_push_candidate(l3, join_words(seq![ct, ca, cal]));
    let l4 = push_candidate(l3, join_words(seq![ct, ca, cal]));
    lemma_push_candidate(l4, t);
    let l5 = push_candidate(l4, t);
    lemma_push_candidate(l5, ct);
    let l6 = push_candidate(l5, ct);
    lemma_push_candidate(l6, join_words(seq![t, al]));
    let l7 = push_candidate(l6, join_words(seq![t, al]));
    lemma_push_candidate(l7, join_words(seq![ct, cal]));
}

/// Appends `s` to `list` as [`push_candidate`] does.
fn push_candidate_exec(list: &mut Vec<Vec<char>>, s: Vec<char>)
    ensures
        final(list).deep_view() == push_candidate(old(list).deep_view(), s@),
{
    let ghost before = list.deep_view();
    assert(s.deep_view() =~= s@);
    if s.len() == 0 {
        return;
    }
    if list.len() > 0 {
        let last = &list[list.len() - 1];
        assert(last.deep_view() =~= last@);
        let mut same = last.len() == s.len();
        let mut j: usize = 0;
        while same && j < s.len()
            invariant
                j <= s@.len(),
                same ==> last@.len() == s@.len(),
                same ==> forall|k: int| 0 <= k < j ==> last@[k] == s@[k],
                !same ==> last@ != s@,
            decreases s@.len() - j,
        {
            if last[j] != s[j] {
                same = false;
            }
            j = j + 1;
        }
        if same {
            assert(last@ =~= s@);
            return;
        }
    }
    list.push(s);
    assert(list.deep_view() =~= before.push(s@));
}

/// A copy of `v`.
fn copy_chars(v: &Vec<char>) -> (r: Vec<char>)
    ensures
        r@ == v@,
{
    let r = subvec(v.as_slice(), 0, v.len());
    assert(v@.subrange(0, v@.len() as int) =~= v@);
    r
}

/// The non-empty words among `a` and `b`, joined by a space.
fn words2(a: &Vec<char>, b: &Vec<char>) -> (r: Vec<char>)
    ensures
        r@ == join_words(seq![a@, b@]),
{
    let x = copy_chars(a);
    let y = copy_chars(b);
    assert(x.deep_view() =~= a@);
    assert(y.deep_view() =~= b@);
    let mut parts: Vec<Vec<char>> = Vec::new();
    parts.push(x);
    parts.push(y);
    assert(parts.deep_view() =~= seq![a@, b@]);
    join_words_chars(&parts)
}

/// The non-empty words among `a`, `b` and `c`, joined by spaces.
fn words3(a: &Vec<char>, b: &Vec<char>, c: &Vec<char>) -> (r: Vec<char>)
    ensures
        r@ == join_words(seq![a@, b@, c@]),
{
    let x = copy_chars(a);
    let y = copy_chars(b);
    let z = copy_chars(c);
    assert(x.deep_view() =~= a@);
    assert(y.deep_view() =~= b@);
    assert(z.deep_view() =~= c@);
    let mut parts: Vec<Vec<char>> = Vec::new();
    parts.push(x);
    parts.push(y);
    parts.push(z);
    assert(parts.deep_view() =~= seq![a@, b@, c@]);
    join_words_chars(&parts)
}

/// The text of an optional string as characters, empty when absent.
pub fn opt_chars(o: &Option<String>) -> (r: Vec<char>)
    ensures
        r@ == opt_text(*o),
{
    match o {
        Some(s) => chars_of(s.as_str()),
        None => Vec::new(),
    }
}

/// Builds the search strings of a track; see [`search_strings`].
pub fn make_search_strings(track: &TrackMetadata) -> (r: Vec<String>)
    ensures
        r.deep_view() == search_strings(
            opt_text(track.title),
            opt_text(track.artist),
            opt_text(track.album),
        ),
{
    let title = opt_chars(&track.title);
    let artist = opt_chars(&track.artist);
    let album = opt_chars(&track.album);
    let (a, b) = trim_bounds(title.as_slice(), 0, title.len());
    assert(title@.subrange(0, title@.len() as int) =~= title@);
    let t = subvec(title.as_slice(), a, b);
    let (a, b) = trim_bounds(artist.as_slice(), 0, artist.len());
    assert(artist@.subrange(0, artist@.len() as int) =~= artist@);
    let ar = subvec(artist.as_slice(), a, b);
    let (a, b) = trim_bounds(album.as_slice(), 0, album.len());
    assert(album@.subrange(0, album@.len() as int) =~= album@);
    let al = subvec(album.as_slice(), a, b);
    let ct = clean_title_chars(remove_feat_chars(copy_chars(&t)));
    let ca = clean_title_chars(copy_chars(&ar));
    let cal = clean_title_chars(copy_chars(&al));
    let mut list: Vec<Vec<char>> = Vec::new();
    assert(list.deep_view() =~= seq![]);
    push_candidate_exec(&mut list, words2(&t, &ar));
    push_candidate_exec(&mut list, words2(&ct, &ca));
    push_candidate_exec(&mut list, words3(&t, &ar, &al));
    push_candidate_exec(&mut list, words3(&ct, &ca, &cal));
    push_candidate_exec(&mut list, copy_chars(&t));
    push_candidate_exec(&mut list, copy_chars(&ct));
    push_candidate_exec(&mut list, words2(&t, &al));
    push_candidate_exec(&mut list, words2(&ct, &cal));
    let mut out: Vec<String> = Vec::new();
    let mut i: usize = 0;
    while i < list.len()
        invariant
            i <= list@.len(),
            out.deep_view() == list.deep_view().take(i as int),
        decreases list@.len() - i,
    {
        let ghost before = out.deep_view();
        let x = &list[i];
        out.push(string_from_chars(x.as_slice(), 0, x.len()));
        proof {
            assert(x@.subrange(0, x@.len() as int) =~= x@);
            assert(x.deep_view() =~= x@);
            assert(out.deep_view() =~= before.push(x@));
            assert(list.deep_view().take(i + 1) =~= list.deep_view().take(i as int).push(x@));
        }
        i = i + 1;
    }
    assert(list.deep_view().take(list@.len() as int) =~= list.deep_view());
    out
}


/// Points for the titles `tt` and `rt` (both lowercase): 4 when equal, 2 when one contains the
/// other, else 3 when their cleaned forms are equal, 1 when one cleaned form contains the other;
/// 0 when either is empty.
pub open spec fn title_points(tt: Seq<char>, rt: Seq<char>) -> int {
    if tt.len() > 0 && rt.len() > 0 {
        if tt == rt {
            4
        } else if contains(rt, tt) || contains(tt, rt) {
            2
        } else {
            let ct = clean_title_of(tt);
            let cr = clean_title_of(rt);
            if ct == cr {
                3
            } else if contains(cr, ct) || contains(ct, cr) {
                1
            } else {
                0
            }
        }
    } else {
        0
    }
}

/// The pieces of `pieces`, trimmed and lowercased, that are not empty.
pub open spec fn lowered_words(pieces: Seq<Seq<char>>) -> Seq<Seq<char>>
    decreases pieces.len(),
{
    if pieces.len() == 0 {
        seq![]
    } else {
        let init = lowered_words(pieces.drop_last());
        let x = lowercase_of(trim(pieces.last()));
        if x.len() > 0 {
            init.push(x)
        } else {
            init
        }
    }
}

/// Two artist names match when equal or when one contains the other.
pub open spec fn artist_matches(a: Seq<char>, b: Seq<char>) -> bool {
    a == b || contains(a, b) || contains(b, a)
}

/// The artist `a` matches one of `results`, lowercased.
pub open spec fn matches_any(a: Seq<char>, results: Seq<Seq<char>>) -> bool {
    exists|i: int| 0 <= i < results.len() && artist_matches(a, lowercase_of(#[trigger] results[i]))
}

/// One point for each of `artists` that matches one of `results`.
pub open spec fn artist_points(artists: Seq<Seq<char>>, results: Seq<Seq<char>>) -> int
    decreases artists.len(),
{
    if artists.len() == 0 {
        0
    } else {
        artist_points(artists.drop_last(), results) + if matches_any(artists.last(), results) {
            1int
        } else {
            0int
        }
    }
}

/// A track artist `a` earns its point exactly when some result artist, lowercased, equals it,
/// contains it, or is contained in it; each track artist earns at most one point.
pub proof fn lemma_artist_point_by_containment(words: Seq<Seq<char>>, a: Seq<char>, results: Seq<Seq<char>>)
    ensures
        matches_any(a, results) <==> exists|i: int|
            0 <= i < results.len() && (lowercase_of(#[trigger] results[i]) == a || contains(
                lowercase_of(results[i]),
                a,
            ) || contains(a, lowercase_of(results[i]))),
        artist_points(words.push(a), results) == artist_points(words, results) + if exists|i: int|
            0 <= i < results.len() && (lowercase_of(#[trigger] results[i]) == a || contains(
                lowercase_of(results[i]),
                a,
            ) || contains(a, lowercase_of(results[i]))) {
            1int
        } else {
            0int
        },
{
    assert(words.push(a).drop_last() =~= words);
}

/// Points for the albums `ta` and `ra` (both lowercase): 2 when equal, 1 when one contains the
/// other, 0 when either is empty.
pub open spec fn album_points(ta: Seq<char>, ra: Seq<char>) -> int {
    if ta.len() > 0 && ra.len() > 0 {
        if ta == ra {
            2
        } else if contains(ra, ta) || contains(ta, ra) {
            1
        } else {
            0
        }
    } else {
        0
    }
}

/// One of `names` contains `taa`.
pub open spec fn any_contains(names: Seq<Seq<char>>, taa: Seq<char>) -> bool {
    exists|i: int| 0 <= i < names.len() && contains(#[trigger] names[i], taa)
}

/// One point when one of the result's album artists contains the track's album artist.
pub open spec fn album_artist_points(taa: Seq<char>, raa: Option<Seq<Seq<char>>>) -> int {
    match raa {
        Some(v) => if any_contains(v, taa) {
            1
        } else {
            0
        },
        None => 0,
    }
}

/// The distance between two durations.
pub open spec fn duration_diff(a: u32, b: u32) -> int {
    if a >= b {
        a - b
    } else {
        b - a
    }
}

/// Points for the durations: 3 when equal, 2 within 500 ms, 1 within 1000 ms.
pub open spec fn duration_points(td: Option<u32>, rd: Option<u32>) -> int {
    match (td, rd) {
        (Some(d), Some(r)) => {
            let diff = duration_diff(d, r);
            if diff == 0 {
                3
            } else if diff <= 500 {
                2
            } else if diff <= 1000 {
                1
            } else {
                0
            }
        },
        _ => 0,
    }
}

/// The result is a trial cut of the track: the track's duration is within 1000 ms of the
/// trial's length.
pub open spec fn trial_match(td: Option<u32>, tr: Option<(u32, u32)>) -> bool {
    match (td, tr) {
        (Some(d), Some(t)) => duration_diff(d, t.1) <= 1000,
        _ => false,
    }
}

/// Points for a trial cut: 2 within 100 ms, 1 within 1000 ms.
pub open spec fn trial_points(td: Option<u32>, tr: Option<(u32, u32)>) -> int {
    match (td, tr) {
        (Some(d), Some(t)) => if duration_diff(d, t.1) <= 100 {
            2
        } else if duration_diff(d, t.1) <= 1000 {
            1
        } else {
            0
        },
        _ => 0,
    }
}

/// The album artist of a track, as compared: lowercased, then cleaned.
pub open spec fn track_album_artist(track: TrackMetadata) -> Seq<char> {
    clean_title_of(lowercase_of(opt_text(track.album_artist)))
}

/// The match score of result `r` for `track`, where the track's artists are separated by
/// `split`: title, artists, album, album artist, duration and trial points.
pub open spec fn default_score(track: TrackMetadata, r: SearchResultView, split: char) -> int {
    title_points(lowercase_of(opt_text(track.title)), lowercase_of(r.title)) + artist_points(
        lowered_words(split_at_char(opt_text(track.artist), split)),
        r.artists,
    ) + album_points(lowercase_of(opt_text(track.album)), lowercase_of(r.album))
        + album_artist_points(track_album_artist(track), r.album_artists) + duration_points(
        track.duration_ms,
        r.duration_ms,
    ) + trial_points(track.duration_ms, r.trial)
}

/// Points for the title; see [`title_points`].
pub fn title_points_exec(tt: &Vec<char>, rt: &Vec<char>) -> (r: u64)
    ensures
        r == title_points(tt@, rt@),
{
    if tt.len() > 0 && rt.len() > 0 {
        if chars_eq(tt.as_slice(), rt.as_slice()) {
            4
        } else if contains_chars(rt.as_slice(), tt.as_slice()) || contains_chars(
            tt.as_slice(),
            rt.as_slice(),
        ) {
            2
        } else {
            let ct = clean_title_chars(copy_chars(tt));
            let cr = clean_title_chars(copy_chars(rt));
            if chars_eq(ct.as_slice(), cr.as_slice()) {
                3
            } else if contains_chars(cr.as_slice(), ct.as_slice()) || contains_chars(
                ct.as_slice(),
                cr.as_slice(),
            ) {
                1
            } else {
                0
            }
        }
    } else {
        0
    }
}

/// Trims and lowercases each piece, keeping those that are not empty.
pub fn lowered_words_exec(pieces: &Vec<Vec<char>>) -> (r: Vec<Vec<char>>)
    ensures
        r.deep_view() == lowered_words(pieces.deep_view()),
{
    let mut out: Vec<Vec<char>> = Vec::new();
    let mut i: usize = 0;
    assert(out.deep_view() =~= lowered_words(pieces.deep_view().take(0)));
    while i < pieces.len()
        invariant
            i <= pieces@.len(),
            out.deep_view() == lowered_words(pieces.deep_view().take(i as int)),
        decreases pieces@.len() - i,
    {
        let p = &pieces[i];
        assert(pieces.deep_view().take(i + 1).drop_last() =~= pieces.deep_view().take(i as int));
        assert(pieces.deep_view().take(i + 1).last() == p@);
        let (a, b) = trim_bounds(p.as_slice(), 0, p.len());
        assert(p@.subrange(0, p@.len() as int) =~= p@);
        let t = string_from_chars(p.as_slice(), a, b);
        let x = lowercase_chars(t.as_str());
        if x.len() > 0 {
            let ghost before = out.deep_view();
            assert(x.deep_view() =~= x@);
            out.push(x);
            assert(out.deep_view() =~= before.push(x@));
        }
        i = i + 1;
    }
    assert(pieces.deep_view().take(pieces@.len() as int) =~= pieces.deep_view());
    out
}

/// Whether the artist `a` matches one of `results`; see [`matches_any`].
pub fn matches_any_exec(a: &Vec<char>, results: &[String]) -> (r: bool)
    ensures
        r == matches_any(a@, results.deep_view()),
{
    let mut j: usize = 0;
    while j < results.len()
        invariant
            j <= results@.len(),
            forall|k: int|
                0 <= k < j ==> !artist_matches(a@, lowercase_of(#[trigger] results.deep_view()[k])),
        decreases results@.len() - j,
    {
        let b = lowercase_chars(results[j].as_str());
        assert(results.deep_view()[j as int] == results@[j as int]@);
        if chars_eq(a.as_slice(), b.as_slice()) || contains_chars(a.as_slice(), b.as_slice())
            || contains_chars(b.as_slice(), a.as_slice()) {
            return true;
        }
        j = j + 1;
    }
    false
}

/// Counts the artists that match one of `results`; see [`artist_points`].
pub fn artist_points_exec(artists: &Vec<Vec<char>>, results: &[String]) -> (r: u64)
    ensures
        r == artist_points(artists.deep_view(), results.deep_view()),
{
    let mut n: u64 = 0;
    let mut i: usize = 0;
    while i < artists.len()
        invariant
            i <= artists@.len(),
            n == artist_points(artists.deep_view().take(i as int), results.deep_view()),
            n <= i,
        decreases artists@.len() - i,
    {
        let a = &artists[i];
        assert(artists.deep_view().take(i + 1).drop_last() =~= artists.deep_view().take(i as int));
        assert(artists.deep_view().take(i + 1).last() == a@);
        if matches_any_exec(a, results) {
            n = n + 1;
        }
        i = i + 1;
    }
    assert(artists.deep_view().take(artists@.len() as int) =~= artists.deep_view());
    n
}

/// Points for the album; see [`album_points`].
pub fn album_points_exec(ta: &Vec<char>, ra: &Vec<char>) -> (r: u64)
    ensures
        r == album_points(ta@, ra@),
{
    if ta.len() > 0 && ra.len() > 0 {
        if chars_eq(ta.as_slice(), ra.as_slice()) {
            2
        } else if contains_chars(ra.as_slice(), ta.as_slice()) || contains_chars(
            ta.as_slice(),
            ra.as_slice(),
        ) {
            1
        } else {
            0
        }
    } else {
        0
    }
}

/// Points for the album artist; see [`album_artist_points`].
pub fn album_artist_points_exec(taa: &Vec<char>, raa: Option<&[String]>) -> (r: u64)
    ensures
        r == album_artist_points(
            taa@,
            match raa {
                Some(v) => Some(v.deep_view()),
                None => None,
            },
        ),
{
    match raa {
        None => 0,
        Some(v) => {
            let mut j: usize = 0;
            while j < v.len()
                invariant
                    raa == Some(v),
                    j <= v@.len(),
                    forall|k: int| 0 <= k < j ==> !contains(#[trigger] v.deep_view()[k], taa@),
                decreases v@.len() - j,
            {
                let c = chars_of(v[j].as_str());
                assert(v.deep_view()[j as int] == v@[j as int]@);
                if contains_chars(c.as_slice(), taa.as_slice()) {
                    assert(contains(v.deep_view()[j as int], taa@));
                    assert(0 <= j < v.deep_view().len());
                    assert(any_contains(v.deep_view(), taa@));
                    return 1;
                }
                j = j + 1;
            }
            0
        },
    }
}

/// The distance between two durations.
pub fn duration_diff_exec(a: u32, b: u32) -> (r: u32)
    ensures
        r == duration_diff(a, b),
{
    if a >= b {
        a - b
    } else {
        b - a
    }
}

/// Points for the durations; see [`duration_points`].
pub fn duration_points_exec(td: Option<u32>, rd: Option<u32>) -> (r: u64)
    ensures
        r == duration_points(td, rd),
{
    match (td, rd) {
        (Some(d), Some(r)) => {
            let diff = duration_diff_exec(d, r);
            if diff == 0 {
                3
            } else if diff <= 500 {
                2
            } else if diff <= 1000 {
                1
            } else {
                0
            }
        },
        _ => 0,
    }
}

/// Points and verdict for a trial cut; see [`trial_points`] and [`trial_match`].
pub fn trial_exec(td: Option<u32>, tr: Option<[u32; 2]>) -> (r: (u64, bool))
    ensures
        r.0 == trial_points(
            td,
            match tr {
                Some(t) => Some((t[0], t[1])),
                None => None,
            },
        ),
        r.1 == trial_match(
            td,
            match tr {
                Some(t) => Some((t[0], t[1])),
                None => None,
            },
        ),
{
    match (td, tr) {
        (Some(d), Some(t)) => {
            let diff = duration_diff_exec(d, t[1]);
            if diff <= 100 {
                (2, true)
            } else if diff <= 1000 {
                (1, true)
            } else {
                (0, false)
            }
        },
        _ => (0, false),
    }
}

/// The lowercased text of an optional string (empty when absent).
pub fn opt_lower(o: &Option<String>) -> (r: Vec<char>)
    ensures
        r@ == lowercase_of(opt_text(*o)),
{
    match o {
        Some(s) => lowercase_chars(s.as_str()),
        None => {
            let e = "";
            proof {
                reveal_strlit("");
                assert(e@ =~= Seq::<char>::empty());
            }
            lowercase_chars(e)
        },
    }
}

/// Scores `result` against `track`; see [`default_score`] and [`trial_match`].
pub fn score_default<R: ISearchResult>(track: &TrackMetadata, result: &R, split: char) -> (r: (
    i8,
    bool,
))
    requires
        default_score(*track, result.result_view(), split) <= i8::MAX,
    ensures
        r.0 == default_score(*track, result.result_view(), split),
        r.1 == trial_match(track.duration_ms, result.result_view().trial),
{
    let tt = opt_lower(&track.title);
    let rt = lowercase_chars(result.title());
    let t_points = title_points_exec(&tt, &rt);
    let artist = opt_chars(&track.artist);
    let pieces = split_chars(artist.as_slice(), split);
    let artists = lowered_words_exec(&pieces);
    let a_points = artist_points_exec(&artists, result.artists());
    let ta = opt_lower(&track.album);
    let ra = lowercase_chars(result.album());
    let al_points = album_points_exec(&ta, &ra);
    let taa = clean_title_chars(opt_lower(&track.album_artist));
    let aa_points = album_artist_points_exec(&taa, result.album_artists());
    let d_points = duration_points_exec(track.duration_ms, result.duration_ms());
    let tr = result.trial();
    let (t_trial, is_trial) = trial_exec(track.duration_ms, tr);
    let total = t_points + a_points + al_points + aa_points + d_points + t_trial;
    (total as i8, is_trial)
}


/// Whether the score of `result` for `track` fits in an `i8` (so that [`score_default`] may be
/// called).
pub fn default_score_fits<R: ISearchResult>(track: &TrackMetadata, result: &R, split: char) -> (r:
    bool)
    ensures
        r == (default_score(*track, result.result_view(), split) <= i8::MAX),
{
    let tt = opt_lower(&track.title);
    let rt = lowercase_chars(result.title());
    let t_points = title_points_exec(&tt, &rt);
    let artist = opt_chars(&track.artist);
    let pieces = split_chars(artist.as_slice(), split);
    let artists = lowered_words_exec(&pieces);
    let a_points = artist_points_exec(&artists, result.artists());
    if a_points > 127 {
        return false;
    }
    let ta = opt_lower(&track.album);
    let ra = lowercase_chars(result.album());
    let al_points = album_points_exec(&ta, &ra);
    let taa = clean_title_chars(opt_lower(&track.album_artist));
    let aa_points = album_artist_points_exec(&taa, result.album_artists());
    let d_points = duration_points_exec(track.duration_ms, result.duration_ms());
    let tr = result.trial();
    let (t_trial, _is_trial) = trial_exec(track.duration_ms, tr);
    t_points + a_points + al_points + aa_points + d_points + t_trial <= 127
}

/// Cleans a title; see [`clean_title_of`].
pub fn clean_title_string(title: &str) -> (r: String)
    ensures
        r@ == clean_title_of(title@),
{
    let c = clean_title_chars(chars_of(title));
    string_of_chars(c.as_slice())
}

/// Removes a featured-artist suffix; see [`remove_feat_of`].
pub fn remove_feat_string(title: &str) -> (r: String)
    ensures
        r@ == remove_feat_of(title@),
{
    let c = remove_feat_chars(chars_of(title));
    string_of_chars(c.as_slice())
}

} // verus!
