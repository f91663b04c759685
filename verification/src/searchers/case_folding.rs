//! Scoring does not tell apart texts that differ only in ASCII letter case, as far as lowercasing
//! does not.

use vstd::prelude::*;
use crate::models::track_metadata::{opt_text, TrackMetadata};
use crate::searchers::scoring::{
    artist_points, default_score, lowered_words, matches_any, trial_match,
};
use crate::searchers::SearchResultView;
use crate::text::{
    ascii_lower, find, find_from, is_white_space, lemma_find_from, lowercase_of, occurs_at,
    split_at_char, trim, trim_end, trim_start,
};

verus! {

/// `s` and `t` differ at most in the ASCII case of their letters.
pub open spec fn ascii_case_variant(s: Seq<char>, t: Seq<char>) -> bool {
    s.len() == t.len() && forall|i: int|
        0 <= i < s.len() ==> ascii_lower(#[trigger] s[i]) == ascii_lower(t[i])
}

/// Two optional texts are both absent, or both present and ASCII case variants.
pub open spec fn opt_case_variant(a: Option<String>, b: Option<String>) -> bool {
    match (a, b) {
        (None, None) => true,
        (Some(x), Some(y)) => ascii_case_variant(x@, y@),
        _ => false,
    }
}

/// Lowercasing gives ASCII case variants one lower case form.
pub open spec fn lowercasing_folds_ascii_case() -> bool {
    forall|s: Seq<char>, t: Seq<char>|
        ascii_case_variant(s, t) ==> #[trigger] lowercase_of(s) == #[trigger] lowercase_of(t)
}

/// A character that is not an ASCII letter.
pub open spec fn not_ascii_letter(c: char) -> bool {
    !('A' <= c && c <= 'Z') && !('a' <= c && c <= 'z')
}

/// Characters equal ignoring ASCII case are both ASCII letters, or the same character.
proof fn lemma_variant_chars(c: char, d: char)
    requires
        ascii_lower(c) == ascii_lower(d),
    ensures
        not_ascii_letter(c) ==> c == d,
        not_ascii_letter(c) <==> not_ascii_letter(d),
{
    let ci: int = c as u32 as int;
    let di: int = d as u32 as int;
    if 'A' <= c && c <= 'Z' {
        assert(65 <= ci && ci <= 90);
    } else if 'a' <= c && c <= 'z' {
        assert(97 <= ci && ci <= 122);
    } else {
        assert(ci < 65 || (90 < ci && ci < 97) || 122 < ci);
    }
    if 'A' <= d && d <= 'Z' {
        assert(65 <= di && di <= 90);
    } else if 'a' <= d && d <= 'z' {
        assert(97 <= di && di <= 122);
    } else {
        assert(di < 65 || (90 < di && di < 97) || 122 < di);
    }
}

/// White space is no ASCII letter.
proof fn lemma_white_space_not_letter(c: char)
    ensures
        is_white_space(c) ==> not_ascii_letter(c),
{
}

/// Parts of ASCII case variants taken at the same place are ASCII case variants.
proof fn lemma_variant_subrange(s: Seq<char>, t: Seq<char>, i: int, j: int)
    requires
        ascii_case_variant(s, t),
        0 <= i <= j <= s.len(),
    ensures
        ascii_case_variant(s.subrange(i, j), t.subrange(i, j)),
{
    assert forall|k: int| 0 <= k < j - i implies ascii_lower(#[trigger] s.subrange(i, j)[k])
        == ascii_lower(t.subrange(i, j)[k]) by {
        assert(s.subrange(i, j)[k] == s[i + k]);
        assert(t.subrange(i, j)[k] == t[i + k]);
    }
}

/// In ASCII case variants, a character that is no ASCII letter is first found at one place.
proof fn lemma_variant_find_from(s: Seq<char>, t: Seq<char>, c: char, i: int)
    requires
        ascii_case_variant(s, t),
        not_ascii_letter(c),
    ensures
        find_from(s, seq![c], i) == find_from(t, seq![c], i),
    decreases s.len() + 1 - i,
{
    if i >= 0 && i + 1 <= s.len() {
        lemma_variant_chars(s[i], t[i]);
        lemma_variant_chars(t[i], s[i]);
        assert(occurs_at(s, seq![c], i) <==> s[i] == c) by {
            if s[i] == c {
                assert(s.subrange(i, i + 1) =~= seq![c]);
            }
            if occurs_at(s, seq![c], i) {
                assert(s.subrange(i, i + 1)[0] == s[i]);
            }
        }
        assert(occurs_at(t, seq![c], i) <==> t[i] == c) by {
            if t[i] == c {
                assert(t.subrange(i, i + 1) =~= seq![c]);
            }
            if occurs_at(t, seq![c], i) {
                assert(t.subrange(i, i + 1)[0] == t[i]);
            }
        }
        lemma_variant_find_from(s, t, c, i + 1);
    }
}

/// ASCII case variants split at a character that is no ASCII letter give as many pieces, each
/// an ASCII case variant of its fellow.
proof fn lemma_variant_split(s: Seq<char>, t: Seq<char>, c: char)
    requires
        ascii_case_variant(s, t),
        not_ascii_letter(c),
    ensures
        split_at_char(s, c).len() == split_at_char(t, c).len(),
        forall|k: int|
            0 <= k < split_at_char(s, c).len() ==> ascii_case_variant(
                #[trigger] split_at_char(s, c)[k],
                split_at_char(t, c)[k],
            ),
    decreases s.len(),
{
    lemma_variant_find_from(s, t, c, 0);
    if let Some(i) = find(s, seq![c]) {
        lemma_find_from(s, seq![c], 0);
        lemma_variant_subrange(s, t, 0, i);
        lemma_variant_subrange(s, t, i + 1, s.len() as int);
        lemma_variant_split(s.subrange(i + 1, s.len() as int), t.subrange(i + 1, t.len() as int), c);
        let rs = split_at_char(s.subrange(i + 1, s.len() as int), c);
        let rt = split_at_char(t.subrange(i + 1, t.len() as int), c);
        assert forall|k: int| 0 <= k < split_at_char(s, c).len() implies ascii_case_variant(
            #[trigger] split_at_char(s, c)[k],
            split_at_char(t, c)[k],
        ) by {
            if k > 0 {
                assert(split_at_char(s, c)[k] == rs[k - 1]);
                assert(split_at_char(t, c)[k] == rt[k - 1]);
            }
        }
    }
}

/// Trimming ASCII case variants gives ASCII case variants.
proof fn lemma_variant_trim(s: Seq<char>, t: Seq<char>)
    requires
        ascii_case_variant(s, t),
    ensures
        ascii_case_variant(trim(s), trim(t)),
{
    lemma_variant_trim_start(s, t);
    lemma_variant_trim_end(trim_start(s), trim_start(t));
}

/// Dropping leading white space from ASCII case variants gives ASCII case variants.
proof fn lemma_variant_trim_start(s: Seq<char>, t: Seq<char>)
    requires
        ascii_case_variant(s, t),
    ensures
        ascii_case_variant(trim_start(s), trim_start(t)),
    decreases s.len(),
{
    if s.len() > 0 {
        lemma_variant_chars(s[0], t[0]);
        lemma_variant_chars(t[0], s[0]);
        lemma_white_space_not_letter(s[0]);
        lemma_white_space_not_letter(t[0]);
        if is_white_space(s[0]) {
            lemma_variant_subrange(s, t, 1, s.len() as int);
            assert(s.drop_first() =~= s.subrange(1, s.len() as int));
            assert(t.drop_first() =~= t.subrange(1, t.len() as int));
            lemma_variant_trim_start(s.drop_first(), t.drop_first());
        }
    }
}

/// Dropping trailing white space from ASCII case variants gives ASCII case variants.
proof fn lemma_variant_trim_end(s: Seq<char>, t: Seq<char>)
    requires
        ascii_case_variant(s, t),
    ensures
        ascii_case_variant(trim_end(s), trim_end(t)),
    decreases s.len(),
{
    if s.len() > 0 {
        let n = s.len() - 1;
        lemma_variant_chars(s[n], t[n]);
        lemma_variant_chars(t[n], s[n]);
        lemma_white_space_not_letter(s[n]);
        lemma_white_space_not_letter(t[n]);
        if is_white_space(s.last()) {
            lemma_variant_subrange(s, t, 0, n);
            assert(s.drop_last() =~= s.subrange(0, n));
            assert(t.drop_last() =~= t.subrange(0, n));
            lemma_variant_trim_end(s.drop_last(), t.drop_last());
        }
    }
}

/// Pieces that are pairwise ASCII case variants give the same lowered words.
proof fn lemma_variant_lowered_words(p: Seq<Seq<char>>, q: Seq<Seq<char>>)
    requires
        lowercasing_folds_ascii_case(),
        p.len() == q.len(),
        forall|k: int| 0 <= k < p.len() ==> ascii_case_variant(#[trigger] p[k], q[k]),
    ensures
        lowered_words(p) == lowered_words(q),
    decreases p.len(),
{
    if p.len() > 0 {
        let n = p.len() - 1;
        assert(ascii_case_variant(p[n], q[n]));
        lemma_variant_trim(p.last(), q.last());
        assert(lowercase_of(trim(p.last())) == lowercase_of(trim(q.last())));
        lemma_variant_lowered_words(p.drop_last(), q.drop_last());
    }
}

/// Artist points depend on the results' artists only through their lower case forms.
proof fn lemma_artist_points_lowercase(a: Seq<Seq<char>>, r: Seq<Seq<char>>, r2: Seq<Seq<char>>)
    requires
        r.len() == r2.len(),
        forall|k: int| 0 <= k < r.len() ==> lowercase_of(#[trigger] r[k]) == lowercase_of(r2[k]),
    ensures
        artist_points(a, r) == artist_points(a, r2),
    decreases a.len(),
{
    if a.len() > 0 {
        let x = a.last();
        if matches_any(x, r) {
            let i = choose|i: int|
                0 <= i < r.len() && crate::searchers::scoring::artist_matches(
                    x,
                    lowercase_of(#[trigger] r[i]),
                );
            assert(lowercase_of(r2[i]) == lowercase_of(r[i]));
        }
        if matches_any(x, r2) {
            let i = choose|i: int|
                0 <= i < r2.len() && crate::searchers::scoring::artist_matches(
                    x,
                    lowercase_of(#[trigger] r2[i]),
                );
            assert(lowercase_of(r2[i]) == lowercase_of(r[i]));
        }
        lemma_artist_points_lowercase(a.drop_last(), r, r2);
    }
}

/// The match score of a result does not change when the titles, artists and albums of the
/// track and of the result change only in ASCII letter case (splitting the track's artists at
/// a character that is no ASCII letter), as far as lowercasing gives ASCII case variants one
/// lower case form; nor does whether the result is a trial cut.
pub proof fn lemma_score_ignores_ascii_case(
    track: TrackMetadata,
    track2: TrackMetadata,
    r: SearchResultView,
    r2: SearchResultView,
    split: char,
)
    requires
        lowercasing_folds_ascii_case(),
        not_ascii_letter(split),
        opt_case_variant(track.title, track2.title),
        opt_case_variant(track.artist, track2.artist),
        opt_case_variant(track.album, track2.album),
        track2.album_artist == track.album_artist,
        track2.duration_ms == track.duration_ms,
        ascii_case_variant(r.title, r2.title),
        ascii_case_variant(r.album, r2.album),
        r.artists.len() == r2.artists.len(),
        forall|k: int|
            0 <= k < r.artists.len() ==> ascii_case_variant(#[trigger] r.artists[k], r2.artists[k]),
        r2.album_artists == r.album_artists,
        r2.duration_ms == r.duration_ms,
        r2.trial == r.trial,
    ensures
        default_score(track2, r2, split) == default_score(track, r, split),
        trial_match(track2.duration_ms, r2.trial) == trial_match(track.duration_ms, r.trial),
{
    assert(ascii_case_variant(opt_text(track.title), opt_text(track2.title)));
    assert(ascii_case_variant(opt_text(track.artist), opt_text(track2.artist)));
    assert(ascii_case_variant(opt_text(track.album), opt_text(track2.album)));
    assert(lowercase_of(opt_text(track.title)) == lowercase_of(opt_text(track2.title)));
    assert(lowercase_of(opt_text(track.album)) == lowercase_of(opt_text(track2.album)));
    assert(lowercase_of(r.title) == lowercase_of(r2.title));
    assert(lowercase_of(r.album) == lowercase_of(r2.album));
    lemma_variant_split(opt_text(track.artist), opt_text(track2.artist), split);
    lemma_variant_lowered_words(
        split_at_char(opt_text(track.artist), split),
        split_at_char(opt_text(track2.artist), split),
    );
    assert forall|k: int| 0 <= k < r.artists.len() implies lowercase_of(#[trigger] r.artists[k])
        == lowercase_of(r2.artists[k]) by {
        assert(ascii_case_variant(r.artists[k], r2.artists[k]));
    }
    lemma_artist_points_lowercase(
        lowered_words(split_at_char(opt_text(track.artist), split)),
        r.artists,
        r2.artists,
    );
}

} // verus!
