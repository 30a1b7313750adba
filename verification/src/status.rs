//! The status aggregate: change counts for one side of the working tree and
//! the whole-repository summary built from a status report.

use vstd::prelude::*;
use vstd::string::*;

use crate::text::{
    all_digits, dec_value, lemma_tokens_nonempty, parse_u64, split_lines, split_lines_spec,
    split_ws, split_ws_spec, str_eq,
};

verus! {

/// Change counts for one side (index or working tree) of a repository.
pub struct GitFileInfo {
    pub modified: u64,
    pub added: u64,
    pub deleted: u64,
    pub copied: u64,
}

/// Mathematical model of [`GitFileInfo`]: the four counts as unbounded naturals.
pub ghost struct GitFileInfoView {
    pub modified: nat,
    pub added: nat,
    pub deleted: nat,
    pub copied: nat,
}

impl View for GitFileInfo {
    type V = GitFileInfoView;

    open spec fn view(&self) -> GitFileInfoView {
        GitFileInfoView {
            modified: self.modified as nat,
            added: self.added as nat,
            deleted: self.deleted as nat,
            copied: self.copied as nat,
        }
    }
}

/// The zero value of the change counts: nothing recorded yet.
pub open spec fn zero_counts() -> GitFileInfoView {
    GitFileInfoView { modified: 0, added: 0, deleted: 0, copied: 0 }
}

/// One status-code character folded into the counts: `M` bumps `modified`,
/// `A` bumps `added`, `D` bumps `deleted`, `R` and `C` bump `copied`, and any
/// other character leaves the counts unchanged.
pub open spec fn count_step(v: GitFileInfoView, c: char) -> GitFileInfoView {
    if c == 'M' {
        GitFileInfoView { modified: v.modified + 1, ..v }
    } else if c == 'A' {
        GitFileInfoView { added: v.added + 1, ..v }
    } else if c == 'D' {
        GitFileInfoView { deleted: v.deleted + 1, ..v }
    } else if c == 'R' || c == 'C' {
        GitFileInfoView { copied: v.copied + 1, ..v }
    } else {
        v
    }
}

/// The machine bound for one application of [`count_step`]: the one counter
/// the character bumps must still have room in a `u64`.
pub open spec fn count_step_ok(v: GitFileInfoView, c: char) -> bool {
    &&& c == 'M' ==> v.modified < u64::MAX
    &&& c == 'A' ==> v.added < u64::MAX
    &&& c == 'D' ==> v.deleted < u64::MAX
    &&& (c == 'R' || c == 'C') ==> v.copied < u64::MAX
}

impl Default for GitFileInfo {
    fn default() -> (r: Self)
        ensures
            r@ == zero_counts(),
    {
        GitFileInfo { modified: 0, added: 0, deleted: 0, copied: 0 }
    }
}

impl GitFileInfo {
    /// Folds one status-code character into the counts.
    pub fn add(self, chr: &char) -> (r: Self)
        requires
            count_step_ok(self@, *chr),
        ensures
            r@ == count_step(self@, *chr),
    {
        match *chr {
            'M' => Self { modified: self.modified + 1, ..self },
            'A' => Self { added: self.added + 1, ..self },
            'D' => Self { deleted: self.deleted + 1, ..self },
            'R' | 'C' => Self { copied: self.copied + 1, ..self },
            _ => self,
        }
    }
}

/// The whole-repository status aggregate built from one status report.
///
/// `failed` records that the underlying status collection itself errored
/// (signalled by a failure-sentinel line); the renderer treats such an
/// aggregate as "no usable status".  A malformed record (a missing or short
/// status-code field, a missing header field, an ahead/behind field without
/// its sign prefix or with a non-numeric or oversized suffix) also sets
/// `failed` rather than stopping the pass: that one policy is applied
/// uniformly to every record kind.
pub struct GitInfo {
    pub staged: GitFileInfo,
    pub unstaged: GitFileInfo,
    pub unmerged: u64,
    pub untracked: u64,
    pub ahead: u64,
    pub behind: u64,
    pub oid: String,
    pub head: String,
    pub upstream: String,
    pub failed: bool,
}

/// Mathematical model of [`GitInfo`].
pub ghost struct GitInfoView {
    pub staged: GitFileInfoView,
    pub unstaged: GitFileInfoView,
    pub unmerged: nat,
    pub untracked: nat,
    pub ahead: nat,
    pub behind: nat,
    pub oid: Seq<char>,
    pub head: Seq<char>,
    pub upstream: Seq<char>,
    pub failed: bool,
}

impl View for GitInfo {
    type V = GitInfoView;

    open spec fn view(&self) -> GitInfoView {
        GitInfoView {
            staged: self.staged@,
            unstaged: self.unstaged@,
            unmerged: self.unmerged as nat,
            untracked: self.untracked as nat,
            ahead: self.ahead as nat,
            behind: self.behind as nat,
            oid: self.oid@,
            head: self.head@,
            upstream: self.upstream@,
            failed: self.failed,
        }
    }
}

/// The zero aggregate: no changes, no names, not failed.
pub open spec fn zero_info() -> GitInfoView {
    GitInfoView {
        staged: zero_counts(),
        unstaged: zero_counts(),
        unmerged: 0,
        untracked: 0,
        ahead: 0,
        behind: 0,
        oid: Seq::empty(),
        head: Seq::empty(),
        upstream: Seq::empty(),
        failed: false,
    }
}

impl Default for GitInfo {
    fn default() -> (r: Self)
        ensures
            r@ == zero_info(),
    {
        let r = GitInfo {
            staged: GitFileInfo::default(),
            unstaged: GitFileInfo::default(),
            unmerged: 0,
            untracked: 0,
            ahead: 0,
            behind: 0,
            oid: String::new(),
            head: String::new(),
            upstream: String::new(),
            failed: false,
        };
        proof {
            assert(r@.oid =~= Seq::<char>::empty());
            assert(r@.head =~= Seq::<char>::empty());
            assert(r@.upstream =~= Seq::<char>::empty());
        }
        r
    }
}

/// A well-formed ahead/behind field: the required sign prefix followed by at
/// least one digit, with a value that fits in a `u64`.
pub open spec fn ab_token_ok(t: Seq<char>, sign: char) -> bool {
    t.len() >= 2 && t[0] == sign && all_digits(t.skip(1)) && dec_value(t.skip(1)) <= u64::MAX
}

/// One header record (`#` line) folded into the aggregate: `branch.oid`,
/// `branch.head` and `branch.upstream` set the corresponding name from the
/// third token (last write wins), `branch.ab` sets both distances, an
/// unknown header is ignored, and a malformed one sets `failed`.
pub open spec fn header_step(v: GitInfoView, toks: Seq<Seq<char>>) -> GitInfoView {
    if toks.len() < 2 {
        GitInfoView { failed: true, ..v }
    } else if toks[1] == "branch.oid"@ {
        if toks.len() >= 3 {
            GitInfoView { oid: toks[2], ..v }
        } else {
            GitInfoView { failed: true, ..v }
        }
    } else if toks[1] == "branch.head"@ {
        if toks.len() >= 3 {
            GitInfoView { head: toks[2], ..v }
        } else {
            GitInfoView { failed: true, ..v }
        }
    } else if toks[1] == "branch.upstream"@ {
        if toks.len() >= 3 {
            GitInfoView { upstream: toks[2], ..v }
        } else {
            GitInfoView { failed: true, ..v }
        }
    } else if toks[1] == "branch.ab"@ {
        if toks.len() >= 4 && ab_token_ok(toks[2], '+') && ab_token_ok(toks[3], '-') {
            GitInfoView { ahead: dec_value(toks[2].skip(1)), behind: dec_value(toks[3].skip(1)), ..v }
        } else {
            GitInfoView { failed: true, ..v }
        }
    } else {
        v
    }
}

/// One report line folded into the aggregate.  Only the first character of
/// the first whitespace-separated token classifies the line: `f` marks the
/// whole pass failed, `u` counts a conflict, `?` counts an untracked file,
/// `1` and `2` count a tracked change on each side of its two-character
/// status code, `#` is a header record, and anything else (an empty line
/// included) is ignored.
pub open spec fn add_line(v: GitInfoView, line: Seq<char>) -> GitInfoView {
    let toks = split_ws_spec(line);
    if toks.len() == 0 {
        v
    } else {
        let c = toks[0][0];
        if c == 'f' {
            GitInfoView { failed: true, ..v }
        } else if c == 'u' {
            GitInfoView { unmerged: v.unmerged + 1, ..v }
        } else if c == '?' {
            GitInfoView { untracked: v.untracked + 1, ..v }
        } else if c == '1' || c == '2' {
            if toks.len() >= 2 && toks[1].len() >= 2 {
                GitInfoView {
                    staged: count_step(v.staged, toks[1][0]),
                    unstaged: count_step(v.unstaged, toks[1][1]),
                    ..v
                }
            } else {
                GitInfoView { failed: true, ..v }
            }
        } else if c == '#' {
            header_step(v, toks)
        } else {
            v
        }
    }
}

/// The machine bound for one application of [`add_line`]: whatever counter
/// the line bumps must still have room in a `u64`.
pub open spec fn add_line_ok(v: GitInfoView, line: Seq<char>) -> bool {
    let toks = split_ws_spec(line);
    toks.len() > 0 ==> {
        let c = toks[0][0];
        &&& c == 'u' ==> v.unmerged < u64::MAX
        &&& c == '?' ==> v.untracked < u64::MAX
        &&& (c == '1' || c == '2') && toks.len() >= 2 && toks[1].len() >= 2 ==> count_step_ok(
            v.staged,
            toks[1][0],
        ) && count_step_ok(v.unstaged, toks[1][1])
    }
}

fn parse_ab_token(t: &str, sign: char) -> (r: Option<u64>)
    ensures
        match r {
            Some(n) => ab_token_ok(t@, sign) && n as nat == dec_value(t@.skip(1)),
            None => !ab_token_ok(t@, sign),
        },
{
    let n = t.unicode_len();
    if n < 2 {
        return None;
    }
    if t.get_char(0) != sign {
        return None;
    }
    let rest = t.substring_char(1, n);
    proof {
        assert(rest@ =~= t@.skip(1));
    }
    parse_u64(rest)
}

impl GitInfo {
    /// Folds one report line into the aggregate.
    pub fn add(self, line: &str) -> (r: Self)
        requires
            add_line_ok(self@, line@),
        ensures
            r@ == add_line(self@, line@),
    {
        let ghost toks_s = split_ws_spec(line@);
        proof {
            lemma_tokens_nonempty(line@);
        }
        let toks = split_ws(line);
        if toks.len() == 0 {
            return self;
        }
        proof {
            assert(toks@[0]@ == toks_s[0]);
            assert(toks_s[0].len() > 0);
        }
        let c = toks[0].as_str().get_char(0);
        if c == 'f' {
            Self { failed: true, ..self }
        } else if c == 'u' {
            Self { unmerged: self.unmerged + 1, ..self }
        } else if c == '?' {
            Self { untracked: self.untracked + 1, ..self }
        } else if c == '1' || c == '2' {
            if toks.len() >= 2 && toks[1].as_str().unicode_len() >= 2 {
                proof {
                    assert(toks@[1]@ == toks_s[1]);
                }
                let code = toks[1].as_str();
                let c0 = code.get_char(0);
                let c1 = code.get_char(1);
                Self { staged: self.staged.add(&c0), unstaged: self.unstaged.add(&c1), ..self }
            } else {
                proof {
                    assert(toks.len() >= 2 ==> toks@[1]@ == toks_s[1]);
                }
                Self { failed: true, ..self }
            }
        } else if c == '#' {
            self.add_header(&toks)
        } else {
            self
        }
    }

    fn add_header(self, toks: &Vec<String>) -> (r: Self)
        requires
            toks.deep_view().len() > 0,
            toks.deep_view()[0].len() > 0,
            toks.deep_view()[0][0] == '#',
        ensures
            r@ == header_step(self@, toks.deep_view()),
    {
        let ghost toks_s = toks.deep_view();
        if toks.len() < 2 {
            return Self { failed: true, ..self };
        }
        proof {
            assert(toks@[1]@ == toks_s[1]);
            assert(toks.len() >= 3 ==> toks@[2]@ == toks_s[2]);
            assert(toks.len() >= 4 ==> toks@[3]@ == toks_s[3]);
        }
        let t1 = toks[1].as_str();
        if str_eq(t1, "branch.oid") {
            if toks.len() >= 3 {
                Self { oid: toks[2].clone(), ..self }
            } else {
                Self { failed: true, ..self }
            }
        } else if str_eq(t1, "branch.head") {
            if toks.len() >= 3 {
                Self { head: toks[2].clone(), ..self }
            } else {
                Self { failed: true, ..self }
            }
        } else if str_eq(t1, "branch.upstream") {
            if toks.len() >= 3 {
                Self { upstream: toks[2].clone(), ..self }
            } else {
                Self { failed: true, ..self }
            }
        } else if str_eq(t1, "branch.ab") {
            if toks.len() >= 4 {
                let a = parse_ab_token(toks[2].as_str(), '+');
                let b = parse_ab_token(toks[3].as_str(), '-');
                match (a, b) {
                    (Some(x), Some(y)) => Self { ahead: x, behind: y, ..self },
                    _ => Self { failed: true, ..self },
                }
            } else {
                Self { failed: true, ..self }
            }
        } else {
            self
        }
    }
}

/// A whole report folded into the aggregate: a strict left fold of
/// [`add_line`] over the lines, starting from the zero aggregate.
pub open spec fn parse_spec(lines: Seq<Seq<char>>) -> GitInfoView
    decreases lines.len(),
{
    if lines.len() == 0 {
        zero_info()
    } else {
        add_line(parse_spec(lines.drop_last()), lines.last())
    }
}

/// Every counter of `v` is at most `b`.
pub open spec fn counts_le(v: GitInfoView, b: nat) -> bool {
    &&& v.staged.modified <= b
    &&& v.staged.added <= b
    &&& v.staged.deleted <= b
    &&& v.staged.copied <= b
    &&& v.unstaged.modified <= b
    &&& v.unstaged.added <= b
    &&& v.unstaged.deleted <= b
    &&& v.unstaged.copied <= b
    &&& v.unmerged <= b
    &&& v.untracked <= b
}

/// One line bumps each counter by at most one.
proof fn lemma_add_line_counts(v: GitInfoView, line: Seq<char>, b: nat)
    requires
        counts_le(v, b),
    ensures
        counts_le(add_line(v, line), b + 1),
{
}

/// After `n` lines every counter is at most `n`.
proof fn lemma_parse_counts(lines: Seq<Seq<char>>)
    ensures
        counts_le(parse_spec(lines), lines.len()),
    decreases lines.len(),
{
    if lines.len() > 0 {
        lemma_parse_counts(lines.drop_last());
        lemma_add_line_counts(parse_spec(lines.drop_last()), lines.last(), (lines.len() - 1) as nat);
    }
}

/// A line that no record kind recognizes: empty (no tokens), or a first
/// token starting with none of the classifying characters.
pub open spec fn unrecognized_line(line: Seq<char>) -> bool {
    let toks = split_ws_spec(line);
    toks.len() == 0 || {
        let c = toks[0][0];
        c != 'f' && c != 'u' && c != '?' && c != '1' && c != '2' && c != '#'
    }
}

/// A report with no recognized line parses to the zero aggregate.
pub proof fn lemma_parse_unrecognized(lines: Seq<Seq<char>>)
    requires
        forall|i: int| 0 <= i < lines.len() ==> unrecognized_line(#[trigger] lines[i]),
    ensures
        parse_spec(lines) == zero_info(),
    decreases lines.len(),
{
    if lines.len() > 0 {
        assert(forall|i: int|
            0 <= i < lines.drop_last().len() ==> unrecognized_line(
                #[trigger] lines.drop_last()[i],
            ));
        lemma_parse_unrecognized(lines.drop_last());
    }
}

/// A line that writes no header field (its first token does not start with
/// `#`): such lines only bump counters, so their effects commute.
pub open spec fn non_header_line(line: Seq<char>) -> bool {
    let toks = split_ws_spec(line);
    toks.len() == 0 || toks[0][0] != '#'
}

/// [`add_line`] restricted to non-header lines: a header line is ignored
/// instead of applied.
pub open spec fn non_header_add(v: GitInfoView, line: Seq<char>) -> GitInfoView {
    if non_header_line(line) {
        add_line(v, line)
    } else {
        v
    }
}

/// [`non_header_add`] as a folding operator.
pub open spec fn non_header_add_fn() -> spec_fn(GitInfoView, Seq<char>) -> GitInfoView {
    |v: GitInfoView, l: Seq<char>| non_header_add(v, l)
}

proof fn lemma_non_header_add_commutes()
    ensures
        vstd::seq_lib::commutative_foldl(non_header_add_fn()),
{
    let f = non_header_add_fn();
    assert forall|x: Seq<char>, y: Seq<char>, v: GitInfoView| #[trigger]
        f(f(v, x), y) == f(f(v, y), x) by {
        assert(non_header_add(non_header_add(v, x), y) == non_header_add(non_header_add(v, y), x));
    }
}

proof fn lemma_parse_as_fold(lines: Seq<Seq<char>>)
    requires
        forall|i: int| 0 <= i < lines.len() ==> non_header_line(#[trigger] lines[i]),
    ensures
        parse_spec(lines) == lines.fold_left(zero_info(), non_header_add_fn()),
    decreases lines.len(),
{
    if lines.len() > 0 {
        assert(forall|i: int|
            0 <= i < lines.drop_last().len() ==> non_header_line(#[trigger] lines.drop_last()[i]));
        lemma_parse_as_fold(lines.drop_last());
    }
}

/// Order independence of counting: two reports that are permutations of one
/// another, neither holding a header line, parse to the same aggregate.
pub proof fn lemma_parse_order_free(l1: Seq<Seq<char>>, l2: Seq<Seq<char>>)
    requires
        l1.to_multiset() == l2.to_multiset(),
        forall|i: int| 0 <= i < l1.len() ==> non_header_line(#[trigger] l1[i]),
    ensures
        parse_spec(l1) == parse_spec(l2),
{
    broadcast use vstd::seq_lib::group_to_multiset_ensures;

    assert forall|i: int| 0 <= i < l2.len() implies non_header_line(#[trigger] l2[i]) by {
        assert(l2.to_multiset().count(l2[i]) > 0);
        assert(l1.contains(l2[i]));
    }
    lemma_non_header_add_commutes();
    lemma_parse_as_fold(l1);
    lemma_parse_as_fold(l2);
    vstd::seq_lib::lemma_fold_left_permutation(l1, l2, non_header_add_fn(), zero_info());
}

/// A double-modification record (status code `MM`) counts one modification
/// on the index side and one on the working-tree side.
pub proof fn lemma_both_sides_modified(v: GitInfoView, line: Seq<char>)
    requires
        ({
            let toks = split_ws_spec(line);
            &&& toks.len() >= 2
            &&& (toks[0][0] == '1' || toks[0][0] == '2')
            &&& toks[1].len() == 2
            &&& toks[1][0] == 'M'
            &&& toks[1][1] == 'M'
        }),
    ensures
        add_line(v, line).staged.modified == v.staged.modified + 1,
        add_line(v, line).unstaged.modified == v.unstaged.modified + 1,
        add_line(v, line).unmerged == v.unmerged,
        add_line(v, line).untracked == v.untracked,
        add_line(v, line).failed == v.failed,
{
}

/// Parses a status report given as its sequence of lines.
pub fn parse(lines: &Vec<String>) -> (r: GitInfo)
    ensures
        r@ == parse_spec(lines.deep_view()),
{
    let ghost lines_s = lines.deep_view();
    let mut info = GitInfo::default();
    let mut i: usize = 0;
    proof {
        assert(lines_s.take(0) =~= Seq::<Seq<char>>::empty());
    }
    while i < lines.len()
        invariant
            i <= lines_s.len(),
            lines_s == lines.deep_view(),
            lines_s.len() == lines@.len(),
            info@ == parse_spec(lines_s.take(i as int)),
        decreases lines_s.len() - i,
    {
        proof {
            lemma_parse_counts(lines_s.take(i as int));
            assert(usize::MAX <= u64::MAX);
            assert(counts_le(info@, i as nat));
        }
        info = info.add(lines[i].as_str());
        proof {
            assert(lines@[i as int]@ == lines_s[i as int]);
            assert(lines_s.take(i as int + 1).drop_last() =~= lines_s.take(i as int));
            assert(lines_s.take(i as int + 1).last() == lines_s[i as int]);
        }
        i += 1;
    }
    proof {
        assert(lines_s.take(lines_s.len() as int) =~= lines_s);
    }
    info
}

/// Parses a status report given as one raw text, split into lines first.
pub fn parse_text(text: &str) -> (r: GitInfo)
    ensures
        r@ == parse_spec(split_lines_spec(text@)),
{
    let lines = split_lines(text);
    parse(&lines)
}

} // verus!
