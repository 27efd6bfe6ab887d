//! The worktree registry: parsing git's machine-readable worktree listing
//! into records, and looking records up by branch or directory name. The
//! parser is an explicit two-state machine — no current entry, or one
//! being built — with a single flush transition that promotes a partial
//! entry only when both its path and its head have been seen.
use vstd::prelude::*;
use crate::errors::Error;
use crate::paths::{spec_file_name, spec_is_under, path_file_name, path_is_under};
use crate::strutil::{
    spec_split, spec_trim, split_char, starts_with, str_eq, strip_prefix_str, trim_ascii, views_of,
};

verus! {

/// One record of git's worktree list.
#[derive(Clone, Debug)]
pub struct Worktree {
    /// Absolute location of the checkout.
    pub path: String,
    /// The commit hash checked out there.
    pub head: String,
    /// The fully-qualified ref, absent in detached-HEAD state.
    pub branch: Option<String>,
    /// Whether this entry is the repository's bare/main record.
    pub bare: bool,
}

/// The mathematical shadow of a `Worktree`.
pub ghost struct WorktreeView {
    pub path: Seq<char>,
    pub head: Seq<char>,
    pub branch: Option<Seq<char>>,
    pub bare: bool,
}

impl View for Worktree {
    type V = WorktreeView;

    open spec fn view(&self) -> WorktreeView {
        WorktreeView {
            path: self.path@,
            head: self.head@,
            branch: match self.branch {
                Some(b) => Some(b@),
                None => None,
            },
            bare: self.bare,
        }
    }
}

/// The views of a vector of worktree records.
pub open spec fn worktree_views(v: Seq<Worktree>) -> Seq<WorktreeView> {
    v.map_values(|w: Worktree| w@)
}

/// One line of the porcelain listing, classified.
pub enum WorktreeLine {
    /// `worktree <path>`: a new record starts.
    New(String),
    /// `HEAD <hash>`.
    Head(String),
    /// `branch <ref>`.
    Branch(String),
    /// The literal `bare`.
    Bare,
    /// Anything else; ignored for forward compatibility.
    Other,
}

/// The mathematical shadow of a classified line.
pub ghost enum SpecWorktreeLine {
    New(Seq<char>),
    Head(Seq<char>),
    Branch(Seq<char>),
    Bare,
    Other,
}

impl View for WorktreeLine {
    type V = SpecWorktreeLine;

    open spec fn view(&self) -> SpecWorktreeLine {
        match self {
            WorktreeLine::New(p) => SpecWorktreeLine::New(p@),
            WorktreeLine::Head(h) => SpecWorktreeLine::Head(h@),
            WorktreeLine::Branch(b) => SpecWorktreeLine::Branch(b@),
            WorktreeLine::Bare => SpecWorktreeLine::Bare,
            WorktreeLine::Other => SpecWorktreeLine::Other,
        }
    }
}

/// How one listing line is read.
pub open spec fn spec_classify_line(line: Seq<char>) -> SpecWorktreeLine {
    if starts_with(line, "worktree "@) {
        SpecWorktreeLine::New(line.skip("worktree "@.len() as int))
    } else if starts_with(line, "HEAD "@) {
        SpecWorktreeLine::Head(line.skip("HEAD "@.len() as int))
    } else if starts_with(line, "branch "@) {
        SpecWorktreeLine::Branch(line.skip("branch "@.len() as int))
    } else if line == "bare"@ {
        SpecWorktreeLine::Bare
    } else {
        SpecWorktreeLine::Other
    }
}

/// Classify one line of the porcelain listing.
pub fn parse_worktree_line(line: &str) -> (r: WorktreeLine)
    ensures
        r@ == spec_classify_line(line@),
{
    if let Some(p) = strip_prefix_str(line, "worktree ") {
        WorktreeLine::New(p.to_owned())
    } else if let Some(h) = strip_prefix_str(line, "HEAD ") {
        WorktreeLine::Head(h.to_owned())
    } else if let Some(b) = strip_prefix_str(line, "branch ") {
        WorktreeLine::Branch(b.to_owned())
    } else if str_eq(line, "bare") {
        WorktreeLine::Bare
    } else {
        WorktreeLine::Other
    }
}

/// A record under construction: a path has been seen, the rest may follow.
pub struct PartialWorktree {
    pub path: String,
    pub head: Option<String>,
    pub branch: Option<String>,
    pub bare: bool,
}

/// The mathematical shadow of a partial record.
pub ghost struct SpecPartial {
    pub path: Seq<char>,
    pub head: Option<Seq<char>>,
    pub branch: Option<Seq<char>>,
    pub bare: bool,
}

impl View for PartialWorktree {
    type V = SpecPartial;

    open spec fn view(&self) -> SpecPartial {
        SpecPartial {
            path: self.path@,
            head: match self.head {
                Some(h) => Some(h@),
                None => None,
            },
            branch: match self.branch {
                Some(b) => Some(b@),
                None => None,
            },
            bare: self.bare,
        }
    }
}

/// Flushing a partial record: it becomes a record only when both path and
/// head were seen; otherwise it is dropped.
pub open spec fn spec_flush(st: Option<SpecPartial>) -> Seq<WorktreeView> {
    match st {
        None => Seq::empty(),
        Some(p) => match p.head {
            Some(h) => seq![
                WorktreeView { path: p.path, head: h, branch: p.branch, bare: p.bare },
            ],
            None => Seq::empty(),
        },
    }
}

/// One transition of the parser: what is emitted and the next state.
pub open spec fn spec_step(st: Option<SpecPartial>, line: Seq<char>) -> (
    Seq<WorktreeView>,
    Option<SpecPartial>,
) {
    match spec_classify_line(line) {
        SpecWorktreeLine::New(p) => (
            spec_flush(st),
            Some(SpecPartial { path: p, head: None, branch: None, bare: false }),
        ),
        SpecWorktreeLine::Head(h) => (
            Seq::empty(),
            match st {
                Some(q) => Some(SpecPartial { head: Some(h), ..q }),
                None => None,
            },
        ),
        SpecWorktreeLine::Branch(b) => (
            Seq::empty(),
            match st {
                Some(q) => Some(SpecPartial { branch: Some(b), ..q }),
                None => None,
            },
        ),
        SpecWorktreeLine::Bare => (
            Seq::empty(),
            match st {
                Some(q) => Some(SpecPartial { bare: true, ..q }),
                None => None,
            },
        ),
        SpecWorktreeLine::Other => (Seq::empty(), st),
    }
}

/// Running the parser over the remaining lines from a given state; end of
/// input flushes the last partial record through the same validation.
pub open spec fn spec_parse_from(lines: Seq<Seq<char>>, st: Option<SpecPartial>) -> Seq<
    WorktreeView,
>
    decreases lines.len(),
{
    if lines.len() == 0 {
        spec_flush(st)
    } else {
        spec_step(st, lines[0]).0 + spec_parse_from(lines.skip(1), spec_step(st, lines[0]).1)
    }
}

/// What parsing a whole porcelain listing yields.
pub open spec fn spec_parse_worktree_list(output: Seq<char>) -> Seq<WorktreeView> {
    spec_parse_from(spec_split(output, '\n'), None)
}

/// The index of the first `worktree` line, if any.
pub open spec fn spec_next_new(lines: Seq<Seq<char>>) -> Option<int>
    decreases lines.len(),
{
    if lines.len() == 0 {
        None
    } else if spec_classify_line(lines[0]) is New {
        Some(0int)
    } else {
        match spec_next_new(lines.skip(1)) {
            Some(i) => Some(i + 1),
            None => None,
        }
    }
}

/// `spec_next_new` is the first `worktree` line, or `None` when there is
/// none.
pub proof fn lemma_next_new(lines: Seq<Seq<char>>)
    ensures
        match spec_next_new(lines) {
            Some(i) => 0 <= i < lines.len() && spec_classify_line(lines[i]) is New && (forall|
                j: int,
            |
                0 <= j < i ==> !(spec_classify_line(lines[j]) is New)),
            None => forall|j: int| 0 <= j < lines.len() ==> !(spec_classify_line(lines[j]) is New),
        },
    decreases lines.len(),
{
    if lines.len() == 0 {
    } else if spec_classify_line(lines[0]) is New {
    } else {
        lemma_next_new(lines.skip(1));
        match spec_next_new(lines.skip(1)) {
            Some(i) => {
                assert(lines[i + 1] == lines.skip(1)[i]);
                assert forall|j: int| 0 <= j < i + 1 implies !(spec_classify_line(lines[j])
                    is New) by {
                    if j > 0 {
                        assert(lines[j] == lines.skip(1)[j - 1]);
                    }
                }
            },
            None => {
                assert forall|j: int| 0 <= j < lines.len() implies !(spec_classify_line(lines[j])
                    is New) by {
                    if j > 0 {
                        assert(lines[j] == lines.skip(1)[j - 1]);
                    }
                }
            },
        }
    }
}

/// The state after the parser has consumed a run of attribute lines —
/// lines that start no new record.
pub open spec fn apply_attrs(st: Option<SpecPartial>, attrs: Seq<Seq<char>>) -> Option<SpecPartial>
    decreases attrs.len(),
{
    if attrs.len() == 0 {
        st
    } else {
        apply_attrs(spec_step(st, attrs[0]).1, attrs.skip(1))
    }
}

/// Attribute lines emit no record: consuming them only moves the state.
pub proof fn lemma_attrs_emit_nothing(
    attrs: Seq<Seq<char>>,
    rest: Seq<Seq<char>>,
    st: Option<SpecPartial>,
)
    requires
        forall|i: int| 0 <= i < attrs.len() ==> !(spec_classify_line(#[trigger] attrs[i]) is New),
    ensures
        spec_parse_from(attrs + rest, st) == spec_parse_from(rest, apply_attrs(st, attrs)),
    decreases attrs.len(),
{
    if attrs.len() == 0 {
        assert(attrs + rest =~= rest);
    } else {
        let whole = attrs + rest;
        assert(whole[0] == attrs[0]);
        assert(whole.skip(1) =~= attrs.skip(1) + rest);
        assert(spec_step(st, attrs[0]).0 =~= Seq::<WorktreeView>::empty());
        assert forall|i: int| 0 <= i < attrs.skip(1).len() implies !(spec_classify_line(
            #[trigger] attrs.skip(1)[i],
        ) is New) by {
            assert(attrs.skip(1)[i] == attrs[i + 1]);
        }
        lemma_attrs_emit_nothing(attrs.skip(1), rest, spec_step(st, attrs[0]).1);
        assert(Seq::<WorktreeView>::empty() + spec_parse_from(
            attrs.skip(1) + rest,
            spec_step(st, attrs[0]).1,
        ) =~= spec_parse_from(attrs.skip(1) + rest, spec_step(st, attrs[0]).1));
    }
}

/// The fresh state a `worktree` line opens.
pub open spec fn spec_opened(path: Seq<char>) -> SpecPartial {
    SpecPartial { path, head: None, branch: None, bare: false }
}

/// One whole block — a `worktree` line and its following attribute lines —
/// contributes exactly the flush of the state its attributes build, and
/// parsing continues on the rest as if fresh, provided the rest is empty
/// or itself starts a new record.
pub proof fn lemma_parse_block(
    nl: Seq<char>,
    attrs: Seq<Seq<char>>,
    rest: Seq<Seq<char>>,
    st: Option<SpecPartial>,
)
    requires
        spec_classify_line(nl) is New,
        forall|i: int| 0 <= i < attrs.len() ==> !(spec_classify_line(#[trigger] attrs[i]) is New),
        rest.len() == 0 || spec_classify_line(rest[0]) is New,
    ensures
        spec_parse_from(seq![nl] + attrs + rest, st) == spec_flush(st) + spec_flush(
            apply_attrs(Some(spec_opened(spec_classify_line(nl)->New_0)), attrs),
        ) + spec_parse_from(rest, None),
    decreases rest.len(),
{
    let whole = seq![nl] + attrs + rest;
    assert(whole[0] == nl);
    assert(whole.skip(1) =~= attrs + rest);
    let opened = Some(spec_opened(spec_classify_line(nl)->New_0));
    assert(spec_step(st, nl).1 == opened);
    assert(spec_step(st, nl).0 == spec_flush(st));
    lemma_attrs_emit_nothing(attrs, rest, opened);
    let built = apply_attrs(opened, attrs);
    if rest.len() == 0 {
        assert(spec_parse_from(rest, built) == spec_flush(built));
        assert(spec_parse_from(rest, None) == spec_flush(None));
        assert(spec_flush(built) + spec_flush(None) =~= spec_flush(built));
        assert(spec_flush(st) + spec_flush(built) =~= spec_flush(st) + spec_flush(built)
            + spec_parse_from(rest, None));
    } else {
        assert(spec_step(built, rest[0]).0 == spec_flush(built));
        assert(spec_step(None, rest[0]).0 =~= Seq::<WorktreeView>::empty());
        assert(spec_step(built, rest[0]).1 == spec_step(None, rest[0]).1);
        assert(spec_parse_from(rest, built) == spec_flush(built) + spec_parse_from(
            rest.skip(1),
            spec_step(None, rest[0]).1,
        ));
        assert(spec_parse_from(rest, None) =~= spec_parse_from(
            rest.skip(1),
            spec_step(None, rest[0]).1,
        ));
        assert(spec_flush(st) + (spec_flush(built) + spec_parse_from(rest, None)) =~= spec_flush(
            st,
        ) + spec_flush(built) + spec_parse_from(rest, None));
    }
}

/// A run of attribute lines never closes the open record and never
/// changes its path.
pub proof fn lemma_apply_attrs_path(p: SpecPartial, attrs: Seq<Seq<char>>)
    requires
        forall|i: int| 0 <= i < attrs.len() ==> !(spec_classify_line(#[trigger] attrs[i]) is New),
    ensures
        apply_attrs(Some(p), attrs) is Some,
        apply_attrs(Some(p), attrs).unwrap().path == p.path,
    decreases attrs.len(),
{
    if attrs.len() == 0 {
    } else {
        let p1 = spec_step(Some(p), attrs[0]).1;
        assert(p1 is Some && p1.unwrap().path == p.path);
        assert(forall|j: int| 0 <= j < attrs.skip(1).len() ==> attrs.skip(1)[j] == attrs[j + 1]);
        lemma_apply_attrs_path(p1.unwrap(), attrs.skip(1));
    }
}

/// With no head line among the attributes, the head the record had is
/// kept.
pub proof fn lemma_apply_attrs_head_none(p: SpecPartial, attrs: Seq<Seq<char>>)
    requires
        forall|i: int| 0 <= i < attrs.len() ==> !(spec_classify_line(#[trigger] attrs[i]) is New),
        forall|i: int| 0 <= i < attrs.len() ==> !(spec_classify_line(#[trigger] attrs[i]) is Head),
    ensures
        apply_attrs(Some(p), attrs) is Some,
        apply_attrs(Some(p), attrs).unwrap().head == p.head,
    decreases attrs.len(),
{
    if attrs.len() == 0 {
    } else {
        let p1 = spec_step(Some(p), attrs[0]).1;
        assert(p1 is Some && p1.unwrap().head == p.head);
        assert(forall|j: int| 0 <= j < attrs.skip(1).len() ==> attrs.skip(1)[j] == attrs[j + 1]);
        lemma_apply_attrs_head_none(p1.unwrap(), attrs.skip(1));
    }
}

/// The head a run of attribute lines builds is the payload of its last
/// head line: each head line overwrites the field, so the last one wins.
pub proof fn lemma_apply_attrs_head_last(p: SpecPartial, attrs: Seq<Seq<char>>, m: int)
    requires
        forall|i: int| 0 <= i < attrs.len() ==> !(spec_classify_line(#[trigger] attrs[i]) is New),
        0 <= m < attrs.len(),
        spec_classify_line(attrs[m]) is Head,
        forall|j: int| m < j < attrs.len() ==> !(spec_classify_line(#[trigger] attrs[j]) is Head),
    ensures
        apply_attrs(Some(p), attrs) is Some,
        apply_attrs(Some(p), attrs).unwrap().head == Some(spec_classify_line(attrs[m])->Head_0),
    decreases attrs.len(),
{
    let p1 = spec_step(Some(p), attrs[0]).1;
    assert(p1 is Some);
    assert(forall|j: int| 0 <= j < attrs.skip(1).len() ==> attrs.skip(1)[j] == attrs[j + 1]);
    if m == 0 {
        assert(p1.unwrap().head == Some(spec_classify_line(attrs[0])->Head_0));
        lemma_apply_attrs_head_none(p1.unwrap(), attrs.skip(1));
    } else {
        lemma_apply_attrs_head_last(p1.unwrap(), attrs.skip(1), m - 1);
    }
}

/// With no branch line among the attributes, the branch the record had
/// is kept.
pub proof fn lemma_apply_attrs_branch_none(p: SpecPartial, attrs: Seq<Seq<char>>)
    requires
        forall|i: int| 0 <= i < attrs.len() ==> !(spec_classify_line(#[trigger] attrs[i]) is New),
        forall|i: int|
            0 <= i < attrs.len() ==> !(spec_classify_line(#[trigger] attrs[i]) is Branch),
    ensures
        apply_attrs(Some(p), attrs) is Some,
        apply_attrs(Some(p), attrs).unwrap().branch == p.branch,
    decreases attrs.len(),
{
    if attrs.len() == 0 {
    } else {
        let p1 = spec_step(Some(p), attrs[0]).1;
        assert(p1 is Some && p1.unwrap().branch == p.branch);
        assert(forall|j: int| 0 <= j < attrs.skip(1).len() ==> attrs.skip(1)[j] == attrs[j + 1]);
        lemma_apply_attrs_branch_none(p1.unwrap(), attrs.skip(1));
    }
}

/// The branch a run of attribute lines builds is the payload of its last
/// branch line.
pub proof fn lemma_apply_attrs_branch_last(p: SpecPartial, attrs: Seq<Seq<char>>, m: int)
    requires
        forall|i: int| 0 <= i < attrs.len() ==> !(spec_classify_line(#[trigger] attrs[i]) is New),
        0 <= m < attrs.len(),
        spec_classify_line(attrs[m]) is Branch,
        forall|j: int|
            m < j < attrs.len() ==> !(spec_classify_line(#[trigger] attrs[j]) is Branch),
    ensures
        apply_attrs(Some(p), attrs) is Some,
        apply_attrs(Some(p), attrs).unwrap().branch == Some(
            spec_classify_line(attrs[m])->Branch_0,
        ),
    decreases attrs.len(),
{
    let p1 = spec_step(Some(p), attrs[0]).1;
    assert(p1 is Some);
    assert(forall|j: int| 0 <= j < attrs.skip(1).len() ==> attrs.skip(1)[j] == attrs[j + 1]);
    if m == 0 {
        assert(p1.unwrap().branch == Some(spec_classify_line(attrs[0])->Branch_0));
        lemma_apply_attrs_branch_none(p1.unwrap(), attrs.skip(1));
    } else {
        lemma_apply_attrs_branch_last(p1.unwrap(), attrs.skip(1), m - 1);
    }
}

/// The record is bare exactly when it already was or some attribute line
/// is the literal `bare`: the flag only ever sticks.
pub proof fn lemma_apply_attrs_bare(p: SpecPartial, attrs: Seq<Seq<char>>)
    requires
        forall|i: int| 0 <= i < attrs.len() ==> !(spec_classify_line(#[trigger] attrs[i]) is New),
    ensures
        apply_attrs(Some(p), attrs) is Some,
        apply_attrs(Some(p), attrs).unwrap().bare == (p.bare || exists|m: int|
            0 <= m < attrs.len() && spec_classify_line(#[trigger] attrs[m]) is Bare),
    decreases attrs.len(),
{
    if attrs.len() == 0 {
    } else {
        let p1 = spec_step(Some(p), attrs[0]).1;
        assert(p1 is Some);
        assert(forall|j: int| 0 <= j < attrs.skip(1).len() ==> attrs.skip(1)[j] == attrs[j + 1]);
        lemma_apply_attrs_bare(p1.unwrap(), attrs.skip(1));
        let q = apply_attrs(Some(p), attrs).unwrap();
        if q.bare {
            if !p.bare {
                if p1.unwrap().bare {
                    assert(spec_classify_line(attrs[0]) is Bare);
                } else {
                    let w = choose|m: int|
                        0 <= m < attrs.skip(1).len() && spec_classify_line(
                            #[trigger] attrs.skip(1)[m],
                        ) is Bare;
                    assert(spec_classify_line(attrs[w + 1]) is Bare);
                }
            }
        } else {
            assert(!p.bare && !p1.unwrap().bare);
            assert forall|m: int|
                0 <= m < attrs.len() implies !(spec_classify_line(#[trigger] attrs[m]) is Bare) by {
                if m > 0 {
                    assert(attrs.skip(1)[m - 1] == attrs[m]);
                }
            }
        }
    }
}

/// The per-block, naive reading of a listing that starts at a `worktree`
/// line: each block — up to the next `worktree` line — contributes the
/// flush of the record its attribute lines build.
pub open spec fn spec_block_records(lines: Seq<Seq<char>>) -> Seq<WorktreeView>
    decreases lines.len(),
    via spec_block_records_decreases
{
    if lines.len() == 0 || !(spec_classify_line(lines[0]) is New) {
        Seq::empty()
    } else {
        let end = match spec_next_new(lines.skip(1)) {
            Some(g) => 1 + g,
            None => lines.len() as int,
        };
        spec_flush(
            apply_attrs(
                Some(spec_opened(spec_classify_line(lines[0])->New_0)),
                lines.subrange(1, end),
            ),
        ) + spec_block_records(lines.skip(end))
    }
}

#[via_fn]
proof fn spec_block_records_decreases(lines: Seq<Seq<char>>) {
    if lines.len() > 0 && spec_classify_line(lines[0]) is New {
        lemma_next_new(lines.skip(1));
    }
}

/// The parser is the naive per-block scan: on any listing that is empty
/// or starts at a `worktree` line, the two agree record for record. With
/// `lemma_apply_attrs_fields`, each record is exactly what a naive scan
/// of its block reads: its path line, its last head and branch lines, a
/// `bare` line if any — and a block with no head line contributes
/// nothing, which drops a truncated trailing entry.
pub proof fn lemma_parse_is_block_scan(lines: Seq<Seq<char>>)
    requires
        lines.len() == 0 || spec_classify_line(lines[0]) is New,
    ensures
        spec_parse_from(lines, None) == spec_block_records(lines),
    decreases lines.len(),
{
    if lines.len() == 0 {
        assert(spec_parse_from(lines, None) =~= Seq::<WorktreeView>::empty());
    } else {
        lemma_next_new(lines.skip(1));
        let end = match spec_next_new(lines.skip(1)) {
            Some(g) => 1 + g,
            None => lines.len() as int,
        };
        let attrs = lines.subrange(1, end);
        let rest = lines.skip(end);
        assert forall|i: int| 0 <= i < attrs.len() implies !(spec_classify_line(
            #[trigger] attrs[i],
        ) is New) by {
            assert(attrs[i] == lines.skip(1)[i]);
        }
        if rest.len() > 0 {
            assert(rest[0] == lines.skip(1)[end - 1]);
        }
        assert(lines =~= seq![lines[0]] + attrs + rest);
        lemma_parse_block(lines[0], attrs, rest, None);
        lemma_parse_is_block_scan(rest);
        assert(spec_flush(None) =~= Seq::<WorktreeView>::empty());
        assert(Seq::<WorktreeView>::empty() + spec_flush(
            apply_attrs(Some(spec_opened(spec_classify_line(lines[0])->New_0)), attrs),
        ) + spec_parse_from(rest, None) =~= spec_flush(
            apply_attrs(Some(spec_opened(spec_classify_line(lines[0])->New_0)), attrs),
        ) + spec_parse_from(rest, None));
    }
}

/// A truncated trailing block — a `worktree` line after which no head
/// line ever arrives — is dropped: the listing parses to exactly the
/// records of the listing without it.
pub proof fn lemma_truncated_tail_dropped(
    lines: Seq<Seq<char>>,
    nl: Seq<char>,
    attrs: Seq<Seq<char>>,
    st: Option<SpecPartial>,
)
    requires
        spec_classify_line(nl) is New,
        forall|i: int| 0 <= i < attrs.len() ==> !(spec_classify_line(#[trigger] attrs[i]) is New),
        forall|i: int| 0 <= i < attrs.len() ==> !(spec_classify_line(#[trigger] attrs[i]) is Head),
    ensures
        spec_parse_from(lines + (seq![nl] + attrs), st) == spec_parse_from(lines, st),
    decreases lines.len(),
{
    if lines.len() == 0 {
        assert(lines + (seq![nl] + attrs) =~= seq![nl] + attrs + Seq::<Seq<char>>::empty());
        lemma_parse_block(nl, attrs, Seq::empty(), st);
        let opened = spec_opened(spec_classify_line(nl)->New_0);
        lemma_apply_attrs_head_none(opened, attrs);
        assert(spec_flush(apply_attrs(Some(opened), attrs)) =~= Seq::<WorktreeView>::empty());
        assert(spec_parse_from(Seq::empty(), None) =~= Seq::<WorktreeView>::empty());
        assert(spec_flush(st) + Seq::<WorktreeView>::empty() + Seq::<WorktreeView>::empty()
            =~= spec_flush(st));
        assert(spec_parse_from(lines, st) == spec_flush(st));
    } else {
        let tail = seq![nl] + attrs;
        let whole = lines + tail;
        assert(whole[0] == lines[0]);
        assert(whole.skip(1) =~= lines.skip(1) + tail);
        lemma_truncated_tail_dropped(lines.skip(1), nl, attrs, spec_step(st, lines[0]).1);
    }
}

/// Leading lines before any `worktree` line leave the parser where it
/// started: with no record open, nothing is emitted and nothing is built.
pub proof fn lemma_leading_attrs_ignored(attrs: Seq<Seq<char>>, rest: Seq<Seq<char>>)
    requires
        forall|i: int| 0 <= i < attrs.len() ==> !(spec_classify_line(#[trigger] attrs[i]) is New),
    ensures
        spec_parse_from(attrs + rest, None) == spec_parse_from(rest, None),
    decreases attrs.len(),
{
    lemma_attrs_emit_nothing(attrs, rest, None);
    assert(apply_attrs(None, attrs) is None) by {
        lemma_apply_attrs_none(attrs);
    }
}

/// Attribute lines cannot open a record.
proof fn lemma_apply_attrs_none(attrs: Seq<Seq<char>>)
    requires
        forall|i: int| 0 <= i < attrs.len() ==> !(spec_classify_line(#[trigger] attrs[i]) is New),
    ensures
        apply_attrs(None, attrs) is None,
    decreases attrs.len(),
{
    if attrs.len() == 0 {
    } else {
        assert(spec_step(None, attrs[0]).1 is None);
        assert(forall|j: int| 0 <= j < attrs.skip(1).len() ==> attrs.skip(1)[j] == attrs[j + 1]);
        lemma_apply_attrs_none(attrs.skip(1));
    }
}

/// On any listing text whatever, the parsed records are exactly the
/// naive per-block scan of its lines, started at the first `worktree`
/// line: lines before it contribute nothing, each block contributes the
/// record its lines spell out, and a trailing block without a head line
/// contributes nothing. Looking up by branch or by directory name
/// therefore answers over the parsed records exactly as it would over
/// that scan.
pub proof fn lemma_parse_is_naive_scan(output: Seq<char>)
    ensures
        ({
            let lines = spec_split(output, '\n');
            let scan = match spec_next_new(lines) {
                Some(f) => lines.skip(f),
                None => Seq::empty(),
            };
            spec_parse_worktree_list(output) == spec_block_records(scan)
        }),
{
    let lines = spec_split(output, '\n');
    lemma_next_new(lines);
    match spec_next_new(lines) {
        Some(f) => {
            let pre = lines.take(f);
            let rest = lines.skip(f);
            assert(lines =~= pre + rest);
            assert forall|i: int| 0 <= i < pre.len() implies !(spec_classify_line(
                #[trigger] pre[i],
            ) is New) by {
                assert(pre[i] == lines[i]);
            }
            lemma_leading_attrs_ignored(pre, rest);
            assert(rest[0] == lines[f]);
            lemma_parse_is_block_scan(rest);
        },
        None => {
            assert forall|i: int| 0 <= i < lines.len() implies !(spec_classify_line(
                #[trigger] lines[i],
            ) is New) by {}
            let empty_rest = Seq::<Seq<char>>::empty();
            assert(lines =~= lines + empty_rest);
            lemma_leading_attrs_ignored(lines, empty_rest);
            lemma_parse_is_block_scan(empty_rest);
        },
    }
}

/// Parse the output of git's machine-readable worktree listing.
pub fn parse_worktree_list(output: &str) -> (r: Vec<Worktree>)
    ensures
        worktree_views(r@) == spec_parse_worktree_list(output@),
{
    let lines = split_char(output, '\n');
    let ghost line_views = views_of(lines@);
    let n = lines.len();
    let mut res: Vec<Worktree> = Vec::new();
    let mut cur: Option<PartialWorktree> = None;
    let ghost cur0: Option<SpecPartial> = None;
    proof {
        assert(line_views.skip(0) =~= line_views);
        assert(worktree_views(res@) + spec_parse_from(line_views, cur0) =~= spec_parse_from(
            line_views,
            cur0,
        ));
    }
    let mut i: usize = 0;
    while i < n
        invariant
            n == lines@.len(),
            line_views == views_of(lines@),
            i <= n,
            spec_parse_worktree_list(output@) == worktree_views(res@) + spec_parse_from(
                line_views.skip(i as int),
                match cur {
                    Some(ref p) => Some(p@),
                    None => None,
                },
            ),
        decreases n - i,
    {
        let ghost st = match cur {
            Some(ref p) => Some(p@),
            None => None,
        };
        let ghost rem = line_views.skip(i as int);
        proof {
            assert(rem[0] == lines@[i as int]@);
            assert(rem.skip(1) =~= line_views.skip(i + 1));
        }
        let line = &lines[i];
        let ghost old_res = res@;
        match parse_worktree_line(line.as_str()) {
            WorktreeLine::New(p) => {
                if let Some(prev) = cur.take() {
                    if let Some(h) = prev.head {
                        let w = Worktree {
                            path: prev.path,
                            head: h,
                            branch: prev.branch,
                            bare: prev.bare,
                        };
                        res.push(w);
                    }
                }
                cur = Some(PartialWorktree { path: p, head: None, branch: None, bare: false });
                proof {
                    assert(worktree_views(res@) =~= old_res.map_values(|w: Worktree| w@)
                        + spec_flush(st));
                    assert(worktree_views(old_res) + (spec_flush(st) + spec_parse_from(
                        line_views.skip(i + 1),
                        spec_step(st, rem[0]).1,
                    )) =~= worktree_views(res@) + spec_parse_from(
                        line_views.skip(i + 1),
                        spec_step(st, rem[0]).1,
                    ));
                }
            },
            WorktreeLine::Head(h) => {
                if let Some(ref mut p) = cur {
                    p.head = Some(h);
                }
                proof {
                    assert(Seq::<WorktreeView>::empty() + spec_parse_from(
                        line_views.skip(i + 1),
                        spec_step(st, rem[0]).1,
                    ) =~= spec_parse_from(line_views.skip(i + 1), spec_step(st, rem[0]).1));
                }
            },
            WorktreeLine::Branch(b) => {
                if let Some(ref mut p) = cur {
                    p.branch = Some(b);
                }
                proof {
                    assert(Seq::<WorktreeView>::empty() + spec_parse_from(
                        line_views.skip(i + 1),
                        spec_step(st, rem[0]).1,
                    ) =~= spec_parse_from(line_views.skip(i + 1), spec_step(st, rem[0]).1));
                }
            },
            WorktreeLine::Bare => {
                if let Some(ref mut p) = cur {
                    p.bare = true;
                }
                proof {
                    assert(Seq::<WorktreeView>::empty() + spec_parse_from(
                        line_views.skip(i + 1),
                        spec_step(st, rem[0]).1,
                    ) =~= spec_parse_from(line_views.skip(i + 1), spec_step(st, rem[0]).1));
                }
            },
            WorktreeLine::Other => {
                proof {
                    assert(Seq::<WorktreeView>::empty() + spec_parse_from(
                        line_views.skip(i + 1),
                        spec_step(st, rem[0]).1,
                    ) =~= spec_parse_from(line_views.skip(i + 1), spec_step(st, rem[0]).1));
                }
            },
        }
        i = i + 1;
    }
    if let Some(prev) = cur.take() {
        if let Some(h) = prev.head {
            let ghost old_res = res@;
            let w = Worktree { path: prev.path, head: h, branch: prev.branch, bare: prev.bare };
            res.push(w);
            proof {
                assert(line_views.skip(n as int) =~= Seq::<Seq<char>>::empty());
                assert(worktree_views(res@) =~= worktree_views(old_res) + seq![w@]);
            }
        } else {
            proof {
                assert(line_views.skip(n as int) =~= Seq::<Seq<char>>::empty());
                assert(worktree_views(res@) + Seq::<WorktreeView>::empty() =~= worktree_views(
                    res@,
                ));
            }
        }
    } else {
        proof {
            assert(line_views.skip(n as int) =~= Seq::<Seq<char>>::empty());
            assert(worktree_views(res@) + Seq::<WorktreeView>::empty() =~= worktree_views(res@));
        }
    }
    res
}

/// Parse a porcelain listing; the listing shape itself never fails.
pub fn list_worktrees(output: &str) -> (r: Result<Vec<Worktree>, Error>)
    ensures
        r is Ok,
        worktree_views(r.unwrap()@) == spec_parse_worktree_list(output@),
{
    Ok(parse_worktree_list(output))
}

/// A branch name with surrounding whitespace and any leading
/// `refs/heads/` qualifier removed.
pub open spec fn spec_clean_branch(b: Seq<char>) -> Seq<char> {
    let t = spec_trim(b);
    if starts_with(t, "refs/heads/"@) {
        t.skip("refs/heads/"@.len() as int)
    } else {
        t
    }
}

/// Clean a branch name by trimming it and removing a `refs/heads/` prefix.
pub fn clean_branch_name<'a>(branch: &'a str) -> (r: &'a str)
    ensures
        r@ == spec_clean_branch(branch@),
{
    let t = trim_ascii(branch);
    match strip_prefix_str(t, "refs/heads/") {
        Some(rest) => rest,
        None => t,
    }
}

/// The worktree's branch, cleaned, matches `target`.
pub open spec fn spec_branch_matches(w: WorktreeView, target: Seq<char>) -> bool {
    match w.branch {
        Some(b) => spec_clean_branch(b) == target,
        None => false,
    }
}

/// The final component of the worktree's path matches `target`.
pub open spec fn spec_dir_matches(w: WorktreeView, target: Seq<char>) -> bool {
    spec_file_name(w.path) == target
}

/// The first index whose record's cleaned branch name is `target`.
pub open spec fn spec_first_branch_match(ws: Seq<WorktreeView>, target: Seq<char>) -> Option<int>
    decreases ws.len(),
{
    if ws.len() == 0 {
        None
    } else if spec_branch_matches(ws[0], target) {
        Some(0int)
    } else {
        match spec_first_branch_match(ws.skip(1), target) {
            Some(i) => Some(i + 1),
            None => None,
        }
    }
}

/// `spec_first_branch_match` is the first match, or `None` when nothing
/// matches.
pub proof fn lemma_first_branch_match(ws: Seq<WorktreeView>, target: Seq<char>)
    ensures
        match spec_first_branch_match(ws, target) {
            Some(i) => 0 <= i < ws.len() && spec_branch_matches(ws[i], target) && (forall|j: int|
                0 <= j < i ==> !spec_branch_matches(ws[j], target)),
            None => forall|j: int| 0 <= j < ws.len() ==> !spec_branch_matches(ws[j], target),
        },
    decreases ws.len(),
{
    if ws.len() == 0 {
    } else if spec_branch_matches(ws[0], target) {
    } else {
        lemma_first_branch_match(ws.skip(1), target);
        match spec_first_branch_match(ws.skip(1), target) {
            Some(i) => {
                assert(ws[i + 1] == ws.skip(1)[i]);
                assert forall|j: int| 0 <= j < i + 1 implies !spec_branch_matches(ws[j], target) by {
                    if j > 0 {
                        assert(ws[j] == ws.skip(1)[j - 1]);
                    }
                }
            },
            None => {
                assert forall|j: int| 0 <= j < ws.len() implies !spec_branch_matches(
                    ws[j],
                    target,
                ) by {
                    if j > 0 {
                        assert(ws[j] == ws.skip(1)[j - 1]);
                    }
                }
            },
        }
    }
}

/// The first index whose record's directory name is `target`.
pub open spec fn spec_first_dir_match(ws: Seq<WorktreeView>, target: Seq<char>) -> Option<int>
    decreases ws.len(),
{
    if ws.len() == 0 {
        None
    } else if spec_dir_matches(ws[0], target) {
        Some(0int)
    } else {
        match spec_first_dir_match(ws.skip(1), target) {
            Some(i) => Some(i + 1),
            None => None,
        }
    }
}

/// `spec_first_dir_match` is the first match, or `None` when nothing
/// matches.
pub proof fn lemma_first_dir_match(ws: Seq<WorktreeView>, target: Seq<char>)
    ensures
        match spec_first_dir_match(ws, target) {
            Some(i) => 0 <= i < ws.len() && spec_dir_matches(ws[i], target) && (forall|j: int|
                0 <= j < i ==> !spec_dir_matches(ws[j], target)),
            None => forall|j: int| 0 <= j < ws.len() ==> !spec_dir_matches(ws[j], target),
        },
    decreases ws.len(),
{
    if ws.len() == 0 {
    } else if spec_dir_matches(ws[0], target) {
    } else {
        lemma_first_dir_match(ws.skip(1), target);
        match spec_first_dir_match(ws.skip(1), target) {
            Some(i) => {
                assert(ws[i + 1] == ws.skip(1)[i]);
                assert forall|j: int| 0 <= j < i + 1 implies !spec_dir_matches(ws[j], target) by {
                    if j > 0 {
                        assert(ws[j] == ws.skip(1)[j - 1]);
                    }
                }
            },
            None => {
                assert forall|j: int| 0 <= j < ws.len() implies !spec_dir_matches(ws[j], target) by {
                    if j > 0 {
                        assert(ws[j] == ws.skip(1)[j - 1]);
                    }
                }
            },
        }
    }
}

/// The first index whose record's path encloses `current`.
pub open spec fn spec_first_under(ws: Seq<WorktreeView>, current: Seq<char>) -> Option<int>
    decreases ws.len(),
{
    if ws.len() == 0 {
        None
    } else if spec_is_under(current, ws[0].path) {
        Some(0int)
    } else {
        match spec_first_under(ws.skip(1), current) {
            Some(i) => Some(i + 1),
            None => None,
        }
    }
}

/// `spec_first_under` is the first enclosing record, or `None` when none
/// encloses `current`.
pub proof fn lemma_first_under(ws: Seq<WorktreeView>, current: Seq<char>)
    ensures
        match spec_first_under(ws, current) {
            Some(i) => 0 <= i < ws.len() && spec_is_under(current, ws[i].path) && (forall|j: int|
                0 <= j < i ==> !spec_is_under(current, ws[j].path)),
            None => forall|j: int| 0 <= j < ws.len() ==> !spec_is_under(current, ws[j].path),
        },
    decreases ws.len(),
{
    if ws.len() == 0 {
    } else if spec_is_under(current, ws[0].path) {
    } else {
        lemma_first_under(ws.skip(1), current);
        match spec_first_under(ws.skip(1), current) {
            Some(i) => {
                assert(ws[i + 1] == ws.skip(1)[i]);
                assert forall|j: int| 0 <= j < i + 1 implies !spec_is_under(current, ws[j].path) by {
                    if j > 0 {
                        assert(ws[j] == ws.skip(1)[j - 1]);
                    }
                }
            },
            None => {
                assert forall|j: int| 0 <= j < ws.len() implies !spec_is_under(
                    current,
                    ws[j].path,
                ) by {
                    if j > 0 {
                        assert(ws[j] == ws.skip(1)[j - 1]);
                    }
                }
            },
        }
    }
}

/// The record a removal resolves to: with a branch given, the first
/// branch-name match, else the first directory-name match; without one,
/// the first record enclosing the current directory.
pub open spec fn spec_selected_target(
    ws: Seq<WorktreeView>,
    branch: Option<Seq<char>>,
    current: Seq<char>,
) -> Option<int> {
    match branch {
        Some(t) => match spec_first_branch_match(ws, t) {
            Some(i) => Some(i),
            None => spec_first_dir_match(ws, t),
        },
        None => spec_first_under(ws, current),
    }
}

/// Find the first worktree whose cleaned branch name is `target`.
pub fn find_by_branch_name(worktrees: &Vec<Worktree>, target: &str) -> (r: Option<usize>)
    ensures
        match r {
            Some(i) => i < worktrees@.len() && spec_branch_matches(worktrees@[i as int]@, target@)
                && (forall|j: int|
                0 <= j < i ==> !spec_branch_matches(worktrees@[j]@, target@)),
            None => forall|j: int|
                0 <= j < worktrees@.len() ==> !spec_branch_matches(worktrees@[j]@, target@),
        },
{
    let n = worktrees.len();
    let mut i: usize = 0;
    while i < n
        invariant
            n == worktrees@.len(),
            i <= n,
            forall|j: int| 0 <= j < i ==> !spec_branch_matches(worktrees@[j]@, target@),
        decreases n - i,
    {
        let w = &worktrees[i];
        match &w.branch {
            Some(b) => {
                let cleaned = clean_branch_name(b.as_str());
                if str_eq(cleaned, target) {
                    return Some(i);
                }
            },
            None => {},
        }
        i = i + 1;
    }
    None
}

/// Find the first worktree whose directory name is `target`.
pub fn find_by_path_name(worktrees: &Vec<Worktree>, target: &str) -> (r: Option<usize>)
    ensures
        match r {
            Some(i) => i < worktrees@.len() && spec_dir_matches(worktrees@[i as int]@, target@) && (
            forall|j: int| 0 <= j < i ==> !spec_dir_matches(worktrees@[j]@, target@)),
            None => forall|j: int|
                0 <= j < worktrees@.len() ==> !spec_dir_matches(worktrees@[j]@, target@),
        },
{
    let n = worktrees.len();
    let mut i: usize = 0;
    while i < n
        invariant
            n == worktrees@.len(),
            i <= n,
            forall|j: int| 0 <= j < i ==> !spec_dir_matches(worktrees@[j]@, target@),
        decreases n - i,
    {
        let w = &worktrees[i];
        let name = path_file_name(w.path.as_str());
        if str_eq(name.as_str(), target) {
            return Some(i);
        }
        i = i + 1;
    }
    None
}

/// Find the worktree a branch refers to: first by cleaned branch name,
/// then by directory name; an error when neither matches.
pub fn find_worktree_by_branch(worktrees: &Vec<Worktree>, target: &str) -> (r: Result<
    usize,
    Error,
>)
    ensures
        ({
            let ws = worktree_views(worktrees@);
            match r {
                Ok(i) => i < ws.len() && (match spec_first_branch_match(ws, target@) {
                    Some(b) => i == b,
                    None => spec_first_dir_match(ws, target@) == Some(i as int),
                }),
                Err(e) => spec_first_branch_match(ws, target@) is None && spec_first_dir_match(
                    ws,
                    target@,
                ) is None && e is Other,
            }
        }),
{
    let ghost ws = worktree_views(worktrees@);
    proof {
        assert(forall|j: int| 0 <= j < ws.len() ==> ws[j] == worktrees@[j]@);
        lemma_first_branch_match(ws, target@);
        lemma_first_dir_match(ws, target@);
    }
    if let Some(i) = find_by_branch_name(worktrees, target) {
        proof {
            match spec_first_branch_match(ws, target@) {
                Some(b) => {
                    if b < i {
                        assert(!spec_branch_matches(worktrees@[b]@, target@));
                    }
                    if b > i as int {
                        assert(!spec_branch_matches(ws[i as int], target@));
                    }
                },
                None => {
                    assert(!spec_branch_matches(ws[i as int], target@));
                },
            }
        }
        return Ok(i);
    }
    if let Some(i) = find_by_path_name(worktrees, target) {
        proof {
            assert(spec_first_branch_match(ws, target@) is None);
            match spec_first_dir_match(ws, target@) {
                Some(b) => {
                    if b < i {
                        assert(!spec_dir_matches(worktrees@[b]@, target@));
                    }
                    if b > i as int {
                        assert(!spec_dir_matches(ws[i as int], target@));
                    }
                },
                None => {
                    assert(!spec_dir_matches(ws[i as int], target@));
                },
            }
        }
        return Ok(i);
    }
    let msg = "Worktree for '".to_owned().concat(target).concat("' not found");
    Err(Error::msg(msg))
}

/// Find the worktree whose path is at or above `current_dir`.
pub fn find_current_worktree(worktrees: &Vec<Worktree>, current_dir: &str) -> (r: Result<
    usize,
    Error,
>)
    ensures
        ({
            let ws = worktree_views(worktrees@);
            match r {
                Ok(i) => spec_first_under(ws, current_dir@) == Some(i as int),
                Err(e) => spec_first_under(ws, current_dir@) is None && e is Other,
            }
        }),
{
    let ghost ws = worktree_views(worktrees@);
    proof {
        assert(forall|j: int| 0 <= j < ws.len() ==> ws[j] == worktrees@[j]@);
        lemma_first_under(ws, current_dir@);
    }
    let n = worktrees.len();
    let mut i: usize = 0;
    while i < n
        invariant
            n == worktrees@.len(),
            i <= n,
            forall|j: int| 0 <= j < i ==> !spec_is_under(current_dir@, worktrees@[j]@.path),
        decreases n - i,
    {
        let w = &worktrees[i];
        if path_is_under(current_dir, w.path.as_str()) {
            proof {
                let wsl = worktree_views(worktrees@);
                lemma_first_under(wsl, current_dir@);
                assert(wsl[i as int] == worktrees@[i as int]@);
                match spec_first_under(wsl, current_dir@) {
                    Some(b) => {
                        if b < i {
                            assert(!spec_is_under(current_dir@, worktrees@[b]@.path));
                        }
                        if b > i as int {
                            assert(!spec_is_under(current_dir@, wsl[i as int].path));
                        }
                    },
                    None => {
                        assert(!spec_is_under(current_dir@, wsl[i as int].path));
                    },
                }
            }
            return Ok(i);
        }
        i = i + 1;
    }
    Err(Error::msg("Not in a git worktree. Please specify a branch to remove.".to_owned()))
}

/// Resolve the removal target: the named branch when one is given, else
/// the worktree enclosing the current directory.
pub fn find_target_worktree(
    worktrees: &Vec<Worktree>,
    branch_name: Option<&str>,
    current_dir: &str,
) -> (r: Result<usize, Error>)
    ensures
        r is Ok ==> r.unwrap() < worktrees@.len(),
        r is Err ==> r.unwrap_err() is Other,
        ({
            let ws = worktree_views(worktrees@);
            let selected = spec_selected_target(
                ws,
                match branch_name {
                    Some(t) => Some(t@),
                    None => None,
                },
                current_dir@,
            );
            match r {
                Ok(i) => selected == Some(i as int),
                Err(_) => selected is None,
            }
        }),
{
    proof {
        lemma_first_under(worktree_views(worktrees@), current_dir@);
        lemma_first_branch_match(
            worktree_views(worktrees@),
            match branch_name {
                Some(t) => t@,
                None => Seq::empty(),
            },
        );
        lemma_first_dir_match(
            worktree_views(worktrees@),
            match branch_name {
                Some(t) => t@,
                None => Seq::empty(),
            },
        );
    }
    match branch_name {
        None => find_current_worktree(worktrees, current_dir),
        Some(target) => find_worktree_by_branch(worktrees, target),
    }
}

/// The name a worktree is shown under: its cleaned branch name; or
/// `(bare)` for a branchless bare record; or the first eight characters
/// of its head commit.
pub open spec fn spec_branch_display(w: WorktreeView) -> Seq<char> {
    match w.branch {
        Some(b) => spec_clean_branch(b),
        None => if w.bare {
            "(bare)"@
        } else {
            w.head.take(if w.head.len() < 8 {
                w.head.len() as int
            } else {
                8
            })
        },
    }
}

/// The display name of a worktree record.
pub fn get_branch_display<'a>(worktree: &'a Worktree) -> (r: &'a str)
    ensures
        r@ == spec_branch_display(worktree@),
{
    match &worktree.branch {
        Some(b) => clean_branch_name(b.as_str()),
        None => {
            if worktree.bare {
                "(bare)"
            } else {
                let n = worktree.head.unicode_len();
                let k = if n < 8 {
                    n
                } else {
                    8
                };
                let r = worktree.head.as_str().substring_char(0, k);
                proof {
                    assert(r@ =~= worktree@.head.take(k as int));
                }
                r
            }
        },
    }
}

/// Interpret the captured output of the two branch listings: a branch
/// exists locally or remotely exactly when the corresponding listing,
/// trimmed, is non-empty.
pub fn branch_exists(local_output: &str, remote_output: &str) -> (r: (bool, bool))
    ensures
        r.0 == (spec_trim(local_output@).len() != 0),
        r.1 == (spec_trim(remote_output@).len() != 0),
{
    let l = trim_ascii(local_output);
    let rm = trim_ascii(remote_output);
    (l.unicode_len() != 0, rm.unicode_len() != 0)
}

} // verus!
