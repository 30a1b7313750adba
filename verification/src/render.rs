//! The summary renderer: turns a status aggregate into a branch label and a
//! diff-summary label whose components stand in one fixed order.

use vstd::prelude::*;
use vstd::string::*;

use crate::paint::{
    ansi_colored, paint_green, paint_green_bold, paint_light_gray, paint_magenta, paint_red,
    paint_red_bold, paint_yellow, paint_yellow_bold,
};
use crate::status::{GitInfo, GitInfoView};
use crate::text::{dec_str, u64_to_string};

verus! {

/// The closed set of display styles a diff-summary component can carry.
#[derive(Clone, Copy, PartialEq, Eq, Structural, Debug)]
pub enum Tint {
    /// Light, de-emphasized (untracked files).
    Muted,
    /// Additions.
    Positive,
    /// Modifications.
    Neutral,
    /// Deletions.
    Negative,
    /// Unmerged conflicts.
    Conflict,
    /// No styling at all (ahead/behind distance).
    Plain,
}

/// One diff-summary component: its text together with its style.
pub struct Segment {
    pub text: String,
    pub tint: Tint,
    pub emphasized: bool,
}

/// Mathematical model of [`Segment`].
pub ghost struct SegmentView {
    pub text: Seq<char>,
    pub tint: Tint,
    pub emphasized: bool,
}

impl View for Segment {
    type V = SegmentView;

    open spec fn view(&self) -> SegmentView {
        SegmentView { text: self.text@, tint: self.tint, emphasized: self.emphasized }
    }
}

impl DeepView for Segment {
    type V = SegmentView;

    open spec fn deep_view(&self) -> SegmentView {
        self@
    }
}

/// The component for one counter: absent when the count is zero, else its
/// symbol followed by the decimal count, in the given style.
pub open spec fn count_seg(n: nat, sym: char, tint: Tint, emphasized: bool) -> Seq<SegmentView> {
    if n > 0 {
        seq![SegmentView { text: seq![sym] + dec_str(n), tint, emphasized }]
    } else {
        Seq::empty()
    }
}

/// The diff-summary components of an aggregate, in the fixed order that is
/// part of the library's contract: untracked, staged added, staged modified,
/// staged deleted, unstaged added, unstaged modified, unstaged deleted,
/// unmerged, ahead, behind.  Zero counts are omitted entirely.
pub open spec fn segments_spec(v: GitInfoView) -> Seq<SegmentView> {
    count_seg(v.untracked, '+', Tint::Muted, false) + count_seg(
        v.staged.added,
        '+',
        Tint::Positive,
        true,
    ) + count_seg(v.staged.modified, '~', Tint::Neutral, true) + count_seg(
        v.staged.deleted,
        '-',
        Tint::Negative,
        true,
    ) + count_seg(v.unstaged.added, '+', Tint::Positive, false) + count_seg(
        v.unstaged.modified,
        '~',
        Tint::Neutral,
        false,
    ) + count_seg(v.unstaged.deleted, '-', Tint::Negative, false) + count_seg(
        v.unmerged,
        '!',
        Tint::Conflict,
        false,
    ) + count_seg(v.ahead, '↑', Tint::Plain, false) + count_seg(v.behind, '↓', Tint::Plain, false)
}

fn push_count_seg(out: &mut Vec<Segment>, n: u64, sym: &str, tint: Tint, emphasized: bool)
    requires
        sym@.len() == 1,
    ensures
        final(out).deep_view() == old(out).deep_view() + count_seg(n as nat, sym@[0], tint, emphasized),
{
    if n > 0 {
        let mut text = String::from_str(sym);
        let digits = u64_to_string(n);
        text.append(digits.as_str());
        let segment = Segment { text, tint, emphasized };
        let ghost dv = out.deep_view();
        out.push(segment);
        proof {
            assert(sym@ =~= seq![sym@[0]]);
            assert(out.deep_view() =~= dv.push(
                SegmentView { text: seq![sym@[0]] + dec_str(n as nat), tint, emphasized },
            ));
            assert(out.deep_view() =~= old(out).deep_view() + count_seg(
                n as nat,
                sym@[0],
                tint,
                emphasized,
            ));
        }
    } else {
        proof {
            assert(out.deep_view() =~= old(out).deep_view() + count_seg(
                n as nat,
                sym@[0],
                tint,
                emphasized,
            ));
        }
    }
}

/// Builds the diff-summary components of `info`, in the fixed order.
pub fn render_segments(info: &GitInfo) -> (r: Vec<Segment>)
    ensures
        r.deep_view() == segments_spec(info@),
{
    proof {
        reveal_strlit("+");
        reveal_strlit("~");
        reveal_strlit("-");
        reveal_strlit("!");
        reveal_strlit("↑");
        reveal_strlit("↓");
    }
    let mut out: Vec<Segment> = Vec::new();
    push_count_seg(&mut out, info.untracked, "+", Tint::Muted, false);
    push_count_seg(&mut out, info.staged.added, "+", Tint::Positive, true);
    push_count_seg(&mut out, info.staged.modified, "~", Tint::Neutral, true);
    push_count_seg(&mut out, info.staged.deleted, "-", Tint::Negative, true);
    push_count_seg(&mut out, info.unstaged.added, "+", Tint::Positive, false);
    push_count_seg(&mut out, info.unstaged.modified, "~", Tint::Neutral, false);
    push_count_seg(&mut out, info.unstaged.deleted, "-", Tint::Negative, false);
    push_count_seg(&mut out, info.unmerged, "!", Tint::Conflict, false);
    push_count_seg(&mut out, info.ahead, "↑", Tint::Plain, false);
    push_count_seg(&mut out, info.behind, "↓", Tint::Plain, false);
    proof {
        assert(out.deep_view() =~= segments_spec(info@));
    }
    out
}

/// The branch label: the branch name when one is set, else a fixed-width
/// eight-character slice of the commit id (the whole id when it is shorter).
pub open spec fn branch_spec(v: GitInfoView) -> Seq<char> {
    if v.head.len() > 0 {
        v.head
    } else if v.oid.len() >= 8 {
        v.oid.take(8)
    } else {
        v.oid
    }
}

/// Builds the branch label of `info`.
pub fn branch_text(info: &GitInfo) -> (r: String)
    ensures
        r@ == branch_spec(info@),
{
    if info.head.as_str().unicode_len() > 0 {
        info.head.clone()
    } else {
        let n = info.oid.as_str().unicode_len();
        let end: usize = if n >= 8 {
            8
        } else {
            n
        };
        let r = String::from_str(info.oid.as_str().substring_char(0, end));
        proof {
            assert(r@ =~= branch_spec(info@));
        }
        r
    }
}

/// The display form of one component: its text wrapped in the ANSI sequence
/// of its style.  Emphasis applies to the three category colours; the muted
/// and conflict styles have a fixed weight, and a plain component is its
/// bare text.
pub open spec fn styled_text(s: SegmentView) -> Seq<char> {
    match s.tint {
        Tint::Muted => ansi_colored(seq!['7'], false, s.text),
        Tint::Positive => ansi_colored(seq!['2'], s.emphasized, s.text),
        Tint::Neutral => ansi_colored(seq!['3'], s.emphasized, s.text),
        Tint::Negative => ansi_colored(seq!['1'], s.emphasized, s.text),
        Tint::Conflict => ansi_colored(seq!['5'], false, s.text),
        Tint::Plain => s.text,
    }
}

/// The display form of a component list: the concatenation of the display
/// forms, in order, with no separator.
pub open spec fn styled_all(segs: Seq<SegmentView>) -> Seq<char>
    decreases segs.len(),
{
    if segs.len() == 0 {
        Seq::empty()
    } else {
        styled_all(segs.drop_last()) + styled_text(segs.last())
    }
}

/// Renders one component to its display form.
pub fn style_segment(segment: &Segment) -> (r: String)
    ensures
        r@ == styled_text(segment@),
{
    match segment.tint {
        Tint::Muted => paint_light_gray(segment.text.as_str()),
        Tint::Positive => {
            if segment.emphasized {
                paint_green_bold(segment.text.as_str())
            } else {
                paint_green(segment.text.as_str())
            }
        },
        Tint::Neutral => {
            if segment.emphasized {
                paint_yellow_bold(segment.text.as_str())
            } else {
                paint_yellow(segment.text.as_str())
            }
        },
        Tint::Negative => {
            if segment.emphasized {
                paint_red_bold(segment.text.as_str())
            } else {
                paint_red(segment.text.as_str())
            }
        },
        Tint::Conflict => paint_magenta(segment.text.as_str()),
        Tint::Plain => segment.text.clone(),
    }
}

/// Renders a component list to its display form.
pub fn style_segments(segs: &Vec<Segment>) -> (r: String)
    ensures
        r@ == styled_all(segs.deep_view()),
{
    let ghost segs_s = segs.deep_view();
    let mut out = String::new();
    let mut i: usize = 0;
    proof {
        assert(segs_s.take(0) =~= Seq::<SegmentView>::empty());
        assert(out@ =~= styled_all(segs_s.take(0)));
    }
    while i < segs.len()
        invariant
            i <= segs_s.len(),
            segs_s == segs.deep_view(),
            segs_s.len() == segs@.len(),
            out@ == styled_all(segs_s.take(i as int)),
        decreases segs_s.len() - i,
    {
        let piece = style_segment(&segs[i]);
        out.append(piece.as_str());
        proof {
            assert(segs@[i as int]@ == segs_s[i as int]);
            assert(segs_s.take(i as int + 1).drop_last() =~= segs_s.take(i as int));
            assert(segs_s.take(i as int + 1).last() == segs_s[i as int]);
        }
        i += 1;
    }
    proof {
        assert(segs_s.take(segs_s.len() as int) =~= segs_s);
    }
    out
}

/// Everything [`render`] returns, as a function of the aggregate's value
/// alone: nothing for a failed aggregate, else the branch label and the
/// styled diff label.
pub open spec fn render_spec(v: GitInfoView) -> Option<(Seq<char>, Seq<char>)> {
    if v.failed {
        None
    } else {
        Some((branch_spec(v), styled_all(segments_spec(v))))
    }
}

/// The view of a rendered pair of labels.
pub open spec fn rendered_view(r: Option<(String, String)>) -> Option<(Seq<char>, Seq<char>)> {
    match r {
        Some(p) => Some((p.0@, p.1@)),
        None => None,
    }
}

/// Renders an aggregate to its branch label and its styled diff label.
///
/// A failed aggregate produces nothing at all, never empty labels.  The
/// result is a function of the aggregate's value alone, so rendering the
/// same aggregate twice yields identical output.
pub fn render(info: &GitInfo) -> (r: Option<(String, String)>)
    ensures
        rendered_view(r) == render_spec(info@),
        r is Some <==> !info@.failed,
{
    if info.failed {
        None
    } else {
        let segs = render_segments(info);
        let diff = style_segments(&segs);
        Some((branch_text(info), diff))
    }
}

} // verus!
