//! Parsed lyrics of a track, and the part of them that a trial cut plays.

use vstd::prelude::*;
use crate::error::general::GeneralError;
use crate::error::{LyrixError, LyrixResult};
use crate::models::line_info::{LineInfo, LineInfoView};
use crate::models::track_metadata::TrackMetadata;

verus! {

/// Parsed lyrics, with the metadata of the track they belong to.
#[derive(Debug, Clone)]
pub struct LyricsData {
    pub lines: Vec<LineInfo>,
    pub track_metadata: Option<TrackMetadata>,
}

/// The lines that a trial cut starting at `st` and lasting `du` plays: lines before `st` are
/// dropped, the first line after `st + du` ends the cut, and the lines kept start from `st`.
pub open spec fn trial_lines(lines: Seq<LineInfoView>, st: u32, du: u32) -> Seq<LineInfoView>
    decreases lines.len(),
{
    if lines.len() == 0 {
        seq![]
    } else {
        let x = lines[0];
        if x.start_time < st {
            trial_lines(lines.drop_first(), st, du)
        } else if x.start_time > st + du {
            seq![]
        } else {
            seq![LineInfoView { start_time: (x.start_time - st) as u32, ..x }] + trial_lines(
                lines.drop_first(),
                st,
                du,
            )
        }
    }
}

/// Cutting a trial part out of `lines` computes `st + du` in `u32` once a line at or after
/// `st` is met: this holds when that cannot overflow.
pub open spec fn trial_fits(lines: Seq<LineInfoView>, st: u32, du: u32) -> bool {
    (exists|i: int| 0 <= i < lines.len() && lines[i].start_time >= st) ==> st + du <= u32::MAX
}

/// Every line kept starts within the cut, and the lines keep their order.
pub proof fn lemma_trial_lines_within(lines: Seq<LineInfoView>, st: u32, du: u32)
    ensures
        forall|i: int|
            0 <= i < trial_lines(lines, st, du).len() ==> #[trigger] trial_lines(
                lines,
                st,
                du,
            )[i].start_time <= du,
        trial_lines(lines, st, du).len() <= lines.len(),
    decreases lines.len(),
{
    if lines.len() > 0 {
        lemma_trial_lines_within(lines.drop_first(), st, du);
    }
}

/// `y` is the line `x`, which starts at or after `st`, moved earlier by `st`: its duration,
/// text and syllables are those of `x`.
pub open spec fn shifted_line(y: LineInfoView, x: LineInfoView, st: u32) -> bool {
    &&& x.start_time >= st
    &&& y.start_time == x.start_time - st
    &&& y.duration == x.duration
    &&& y.text == x.text
    &&& y.syllables == x.syllables
}

/// Every line kept by a trial cut (the `i`-th) is a line of the input that starts at or after
/// the cut's start, moved earlier by the cut's start, with its duration, text and syllables
/// unchanged.
pub proof fn lemma_trial_line_is_shifted_line(lines: Seq<LineInfoView>, st: u32, du: u32, i: int)
    requires
        0 <= i < trial_lines(lines, st, du).len(),
    ensures
        exists|j: int|
            0 <= j < lines.len() && #[trigger] shifted_line(
                trial_lines(lines, st, du)[i],
                lines[j],
                st,
            ),
    decreases lines.len(),
{
    let x = lines[0];
    let rest = lines.drop_first();
    let out = trial_lines(lines, st, du);
    if x.start_time < st {
        assert(out == trial_lines(rest, st, du));
        lemma_trial_line_is_shifted_line(rest, st, du, i);
        let j = choose|j: int|
            0 <= j < rest.len() && #[trigger] shifted_line(trial_lines(rest, st, du)[i], rest[j], st);
        assert(lines[j + 1] == rest[j]);
        assert(shifted_line(out[i], lines[j + 1], st));
    } else if x.start_time <= st + du {
        if i == 0 {
            assert(shifted_line(out[0], lines[0], st));
        } else {
            assert(out[i] == trial_lines(rest, st, du)[i - 1]);
            lemma_trial_line_is_shifted_line(rest, st, du, i - 1);
            let j = choose|j: int|
                0 <= j < rest.len() && #[trigger] shifted_line(
                    trial_lines(rest, st, du)[i - 1],
                    rest[j],
                    st,
                );
            assert(lines[j + 1] == rest[j]);
            assert(shifted_line(out[i], lines[j + 1], st));
        }
    }
}

/// The line `x` moved earlier by `st`.
pub open spec fn shift_line(x: LineInfoView, st: u32) -> LineInfoView {
    LineInfoView { start_time: (x.start_time - st) as u32, ..x }
}

/// A trial cut from `st` lasting `du` keeps, of the lines before the first one that starts
/// after `st + du` (the first `k`), those that start at or after `st`, in order, each moved
/// earlier by `st`.
pub proof fn lemma_trial_lines_exact(lines: Seq<LineInfoView>, st: u32, du: u32, k: int)
    requires
        0 <= k <= lines.len(),
        forall|j: int| 0 <= j < k ==> (#[trigger] lines[j]).start_time <= st + du,
        k < lines.len() ==> lines[k].start_time > st + du,
    ensures
        trial_lines(lines, st, du) == lines.take(k).filter(|x: LineInfoView| x.start_time >= st).map_values(
            |x: LineInfoView| shift_line(x, st),
        ),
    decreases lines.len(),
{
    let pred = |x: LineInfoView| x.start_time >= st;
    let f = |x: LineInfoView| shift_line(x, st);
    reveal(Seq::filter);
    if k == 0 {
        assert(lines.take(0) =~= Seq::<LineInfoView>::empty());
        assert(Seq::<LineInfoView>::empty().filter(pred) =~= Seq::<LineInfoView>::empty());
        if lines.len() > 0 {
            assert(lines[0].start_time > st + du);
        }
    } else {
        let x = lines[0];
        let rest = lines.drop_first();
        assert forall|j: int| 0 <= j < k - 1 implies (#[trigger] rest[j]).start_time <= st + du by {
            assert(rest[j] == lines[j + 1]);
        }
        if k - 1 < rest.len() {
            assert(rest[k - 1] == lines[k]);
        }
        lemma_trial_lines_exact(rest, st, du, k - 1);
        assert(lines.take(k) =~= seq![x] + rest.take(k - 1));
        Seq::filter_distributes_over_add(seq![x], rest.take(k - 1), pred);
        assert(seq![x].drop_last() =~= Seq::<LineInfoView>::empty());
        assert(Seq::<LineInfoView>::empty().filter(pred) =~= Seq::<LineInfoView>::empty());
        let tail = rest.take(k - 1).filter(pred);
        if x.start_time < st {
            assert(seq![x].filter(pred) =~= Seq::<LineInfoView>::empty());
            assert(lines.take(k).filter(pred) =~= tail);
        } else {
            assert(x.start_time <= st + du);
            assert(seq![x].filter(pred) =~= seq![x]);
            assert(lines.take(k).filter(pred) =~= seq![x] + tail);
            assert((seq![x] + tail).map_values(f) =~= seq![shift_line(x, st)] + tail.map_values(f));
        }
    }
}

/// A copy of `l` (derived `Clone` says nothing of its result).
fn copy_line(l: &LineInfo) -> (r: LineInfo)
    ensures
        r.deep_view() == l.deep_view(),
{
    let mut syllables = Vec::new();
    let mut j: usize = 0;
    while j < l.syllables.len()
        invariant
            j <= l.syllables@.len(),
            syllables.deep_view() == l.syllables.deep_view().take(j as int),
        decreases l.syllables@.len() - j,
    {
        let t = &l.syllables[j];
        let c = crate::models::line_info::TextInfo {
            start_time: t.start_time,
            duration: t.duration,
            text: t.text.clone(),
        };
        assert(c.deep_view() == l.syllables.deep_view()[j as int]);
        let ghost before = syllables.deep_view();
        syllables.push(c);
        assert(syllables.deep_view() =~= before.push(c.deep_view()));
        j = j + 1;
        assert(syllables.deep_view() =~= l.syllables.deep_view().take(j as int));
    }
    assert(l.syllables.deep_view().take(j as int) =~= l.syllables.deep_view());
    LineInfo {
        start_time: l.start_time,
        duration: l.duration,
        text: l.text.clone(),
        syllables,
    }
}

/// The part of `raw` that its trial cut plays (see [`trial_lines`]). Without metadata, or
/// without trial info in it, the request is refused as a missing field named `track_metadata`
/// or `trial info`.
pub fn get_trial_part(raw: LyricsData) -> (r: LyrixResult<LyricsData>)
    requires
        match raw.track_metadata {
            Some(m) => match m.trial {
                Some(t) => trial_fits(raw.lines.deep_view(), t[0], t[1]),
                None => true,
            },
            None => true,
        },
    ensures
        match raw.track_metadata {
            None => r matches Err(LyrixError::General(GeneralError::MissingField { field }))
                && field@ == "track_metadata"@,
            Some(m) => match m.trial {
                None => r matches Err(LyrixError::General(GeneralError::MissingField { field }))
                    && field@ == "trial info"@,
                Some(t) => r matches Ok(d) && d.track_metadata == raw.track_metadata
                    && d.lines.deep_view() == trial_lines(raw.lines.deep_view(), t[0], t[1]),
            },
        },
{
    let (st, du) = match &raw.track_metadata {
        Some(m) => match &m.trial {
            Some(t) => (t[0], t[1]),
            None => {
                return Err(
                    LyrixError::General(
                        GeneralError::MissingField { field: "trial info".to_string() },
                    ),
                );
            },
        },
        None => {
            return Err(
                LyrixError::General(
                    GeneralError::MissingField { field: "track_metadata".to_string() },
                ),
            );
        },
    };
    let ghost all = raw.lines.deep_view();
    let mut new_lines: Vec<LineInfo> = Vec::new();
    let mut done = false;
    let mut i: usize = 0;
    assert(all.skip(0) =~= all);
    assert(new_lines.deep_view() + all =~= all);
    while i < raw.lines.len()
        invariant
            i <= raw.lines@.len(),
            all == raw.lines.deep_view(),
            trial_fits(all, st, du),
            trial_lines(all, st, du) == new_lines.deep_view() + (if done {
                seq![]
            } else {
                trial_lines(all.skip(i as int), st, du)
            }),
        decreases raw.lines@.len() - i,
    {
        let ghost rest = all.skip(i as int);
        assert(rest.drop_first() =~= all.skip(i + 1));
        assert(rest[0] == raw.lines[i as int].deep_view());
        if !done {
            let x = &raw.lines[i];
            if x.start_time < st {
            } else {
                assert(all[i as int].start_time >= st);
                if x.start_time > st + du {
                    done = true;
                    assert(new_lines.deep_view() + seq![] =~= new_lines.deep_view());
                } else {
                    let line = copy_line(x);
                    let ghost before = new_lines.deep_view();
                    new_lines.push(LineInfo { start_time: x.start_time - st, ..line });
                    assert(new_lines.deep_view() =~= before.push(
                        LineInfoView { start_time: (x.start_time - st) as u32, ..rest[0] },
                    ));
                    assert(new_lines.deep_view() + trial_lines(all.skip(i + 1), st, du)
                        =~= before + trial_lines(rest, st, du));
                }
            }
        }
        i = i + 1;
    }
    if !done {
        assert(all.skip(i as int).len() == 0);
        assert(new_lines.deep_view() + seq![] =~= new_lines.deep_view());
    }
    Ok(LyricsData { lines: new_lines, track_metadata: raw.track_metadata })
}

/// Whether the trial part of `raw` can be cut: see [`get_trial_part`].
pub fn trial_part_fits(raw: &LyricsData) -> (r: bool)
    ensures
        r == match raw.track_metadata {
            Some(m) => match m.trial {
                Some(t) => trial_fits(raw.lines.deep_view(), t[0], t[1]),
                None => true,
            },
            None => true,
        },
{
    let (st, du) = match &raw.track_metadata {
        Some(m) => match &m.trial {
            Some(t) => (t[0], t[1]),
            None => return true,
        },
        None => return true,
    };
    if du <= u32::MAX - st {
        return true;
    }
    let mut i: usize = 0;
    while i < raw.lines.len()
        invariant
            i <= raw.lines@.len(),
            raw.track_metadata matches Some(m) && (m.trial matches Some(t) && t[0] == st && t[1]
                == du),
            st + du > u32::MAX,
            forall|j: int| 0 <= j < i ==> (#[trigger] raw.lines.deep_view()[j]).start_time < st,
        decreases raw.lines@.len() - i,
    {
        if raw.lines[i].start_time >= st {
            assert(raw.lines.deep_view()[i as int].start_time >= st);
            return false;
        }
        i = i + 1;
    }
    true
}

} // verus!
