//! Conflicted operations (merge, cherry-pick, revert, interactive rebase):
//! what is in progress, which paths conflict, and how an operation is
//! finished once its conflicts are resolved.
use vstd::prelude::*;
use crate::text::{
    chars_eq, from_chars, join, join_chars, lines, lines_of, string_of, to_chars, trim,
    trim_chars, views,
};

verus! {

/// The repository states libgit2 distinguishes.
#[derive(Clone, Copy, PartialEq, Eq, Structural)]
pub enum RepoState {
    Clean,
    Merge,
    Revert,
    RevertSequence,
    CherryPick,
    CherryPickSequence,
    Bisect,
    Rebase,
    RebaseInteractive,
    RebaseMerge,
    ApplyMailbox,
    ApplyMailboxOrRebase,
}

pub open spec fn spec_operation_kind(state: RepoState) -> Seq<char> {
    match state {
        RepoState::Merge => "merge"@,
        RepoState::CherryPick => "cherrypick"@,
        RepoState::Revert => "revert"@,
        RepoState::RebaseMerge | RepoState::Rebase | RepoState::RebaseInteractive => "rebase"@,
        RepoState::Clean => "none"@,
        _ => "other"@,
    }
}

pub fn operation_kind(state: RepoState) -> (r: &'static str)
    ensures
        r@ == spec_operation_kind(state),
{
    match state {
        RepoState::Merge => "merge",
        RepoState::CherryPick => "cherrypick",
        RepoState::Revert => "revert",
        RepoState::RebaseMerge | RepoState::Rebase | RepoState::RebaseInteractive => "rebase",
        RepoState::Clean => "none",
        _ => "other",
    }
}

pub struct OperationStatus {
    pub kind: String,
    pub message: String,
    pub conflicts: Vec<String>,
    pub paused_reason: Option<String>,
}

pub struct ConflictContent {
    pub ancestor: Option<String>,
    pub ours: Option<String>,
    pub theirs: Option<String>,
}

/// The three sides of one conflicted path: for each, whether the side is
/// present and its path text (absent when the path is not valid UTF-8).
pub struct ConflictSides {
    pub our: Option<Option<String>>,
    pub their: Option<Option<String>>,
    pub ancestor: Option<Option<String>>,
}

/// The path a conflict is listed under: that of "ours", else "theirs",
/// else the ancestor; none when that side's path is not UTF-8.
pub open spec fn conflict_path(c: ConflictSides) -> Option<Seq<char>> {
    let side = match c.our {
        Some(p) => Some(p),
        None => match c.their {
            Some(p) => Some(p),
            None => c.ancestor,
        },
    };
    match side {
        Some(Some(p)) => Some(p@),
        _ => None,
    }
}

/// The conflicted paths, each listed once, in the order first met.
pub open spec fn conflict_list(cs: Seq<ConflictSides>) -> Seq<Seq<char>>
    decreases cs.len(),
{
    if cs.len() == 0 {
        Seq::empty()
    } else {
        let acc = conflict_list(cs.drop_last());
        match conflict_path(cs.last()) {
            Some(p) => if acc.contains(p) {
                acc
            } else {
                acc.push(p)
            },
            None => acc,
        }
    }
}

pub open spec fn string_views(v: Seq<String>) -> Seq<Seq<char>> {
    v.map_values(|s: String| s@)
}

fn contains_string(v: &Vec<String>, p: &String) -> (b: bool)
    ensures
        b == string_views(v@).contains(p@),
{
    let mut i: usize = 0;
    while i < v.len()
        invariant
            i <= v@.len(),
            forall|j: int| 0 <= j < i ==> string_views(v@)[j] != p@,
        decreases v@.len() - i,
    {
        if v[i] == *p {
            assert(string_views(v@)[i as int] == p@);
            return true;
        }
        i += 1;
    }
    false
}

/// The conflicted paths, deduplicated in first-seen order.
pub fn collect_conflicts(cs: &Vec<ConflictSides>) -> (r: Vec<String>)
    ensures
        string_views(r@) == conflict_list(cs@),
{
    let mut out: Vec<String> = Vec::new();
    let mut i: usize = 0;
    while i < cs.len()
        invariant
            i <= cs@.len(),
            string_views(out@) == conflict_list(cs@.take(i as int)),
        decreases cs@.len() - i,
    {
        assert(cs@.take(i + 1).drop_last() =~= cs@.take(i as int));
        let c = &cs[i];
        let side = match &c.our {
            Some(p) => Some(p),
            None => match &c.their {
                Some(p) => Some(p),
                None => match &c.ancestor {
                    Some(p) => Some(p),
                    None => None,
                },
            },
        };
        if let Some(Some(p)) = side {
            if !contains_string(&out, p) {
                let ghost prev = string_views(out@);
                out.push(p.clone());
                assert(string_views(out@) =~= prev.push(p@));
            }
        }
        i += 1;
    }
    assert(cs@.take(cs@.len() as int) =~= cs@);
    out
}

/// Law: no path is listed twice.
pub proof fn lemma_conflicts_listed_once(cs: Seq<ConflictSides>)
    ensures
        conflict_list(cs).no_duplicates(),
    decreases cs.len(),
{
    if cs.len() > 0 {
        lemma_conflicts_listed_once(cs.drop_last());
    }
}

/// What is in progress: a paused interactive rebase (which libgit2 cannot
/// see) takes priority; otherwise the repository state and its prepared
/// message.
pub fn operation_status(
    paused_reason: Option<String>,
    state: RepoState,
    message: Option<String>,
    conflicts: Vec<String>,
) -> (st: OperationStatus)
    ensures
        st.conflicts@ == conflicts@,
        match paused_reason {
            Some(r) => st.kind@ == "rebase"@ && st.message@ == Seq::<char>::empty()
                && st.paused_reason == Some(r),
            None => st.kind@ == spec_operation_kind(state) && st.paused_reason is None
                && st.message@ == match message {
                Some(m) => m@,
                None => Seq::<char>::empty(),
            },
        },
{
    match paused_reason {
        Some(r) => OperationStatus {
            kind: string_of("rebase"),
            message: String::new(),
            conflicts,
            paused_reason: Some(r),
        },
        None => OperationStatus {
            kind: string_of(operation_kind(state)),
            message: match message {
                Some(m) => m,
                None => String::new(),
            },
            conflicts,
            paused_reason: None,
        },
    }
}

/// A line git marks as a comment in a prepared commit message.
pub open spec fn is_comment(line: Seq<char>) -> bool {
    line.len() > 0 && line[0] == '#'
}

/// A prepared message as git finalizes it: comment lines (such as the
/// `#Conflicts:` hint) dropped, the rest joined by newlines and trimmed.
pub open spec fn spec_cleaned_message(raw: Seq<char>) -> Seq<char> {
    trim(join(lines(raw).filter(|l: Seq<char>| !is_comment(l)), "\n"@))
}

pub fn cleaned_message(raw: &str) -> (r: String)
    ensures
        r@ == spec_cleaned_message(raw@),
{
    let text = to_chars(raw);
    let ls = lines_of(&text);
    let ghost lv = lines(raw@);
    let mut kept: Vec<Vec<char>> = Vec::new();
    let mut i: usize = 0;
    while i < ls.len()
        invariant
            views(ls@) == lv,
            i <= ls@.len(),
            views(kept@) == lv.take(i as int).filter(|l: Seq<char>| !is_comment(l)),
        decreases ls@.len() - i,
    {
        assert(lv.take(i + 1) =~= lv.take(i as int).push(lv[i as int]));
        proof {
            lv.take(i as int).lemma_filter_push(lv[i as int], |l: Seq<char>| !is_comment(l));
        }
        assert(ls@[i as int]@ == lv[i as int]);
        let l = &ls[i];
        if !(l.len() > 0 && l[0] == '#') {
            let ghost prev = views(kept@);
            kept.push(l.clone());
            assert(views(kept@) =~= prev.push(lv[i as int]));
        }
        i += 1;
    }
    assert(lv.take(ls@.len() as int) =~= lv);
    let joined = join_chars(&kept, &to_chars("\n"));
    from_chars(&trim_chars(&joined))
}

/// Whether `continue` resumes a paused interactive rebase, refuses because
/// conflicts remain, or finishes a libgit2 operation.
pub fn continue_gate(paused: bool, has_conflicts: bool) -> (r: Result<bool, String>)
    ensures
        paused ==> r == Ok::<bool, String>(true),
        !paused && has_conflicts ==> (r matches Err(e) && e@
            == "Todavía hay conflictos sin resolver"@),
        !paused && !has_conflicts ==> r == Ok::<bool, String>(false),
{
    if paused {
        Ok(true)
    } else if has_conflicts {
        Err(string_of("Todavía hay conflictos sin resolver"))
    } else {
        Ok(false)
    }
}

/// The operations `continue` can finish.
#[derive(Clone, Copy, PartialEq, Eq, Structural)]
pub enum FinishKind {
    Merge,
    CherryPick,
    Revert,
}

pub fn finish_kind(state: RepoState) -> (r: Result<FinishKind, String>)
    ensures
        state == RepoState::Merge ==> r == Ok::<FinishKind, String>(FinishKind::Merge),
        state == RepoState::CherryPick ==> r == Ok::<FinishKind, String>(FinishKind::CherryPick),
        state == RepoState::Revert ==> r == Ok::<FinishKind, String>(FinishKind::Revert),
        state != RepoState::Merge && state != RepoState::CherryPick && state != RepoState::Revert
            ==> (r matches Err(e) && e@
            == "No hay una operación en curso que se pueda continuar"@),
{
    match state {
        RepoState::Merge => Ok(FinishKind::Merge),
        RepoState::CherryPick => Ok(FinishKind::CherryPick),
        RepoState::Revert => Ok(FinishKind::Revert),
        _ => Err(string_of("No hay una operación en curso que se pueda continuar")),
    }
}

/// The message the finishing commit gets: the cleaned prepared message, or
/// when that is empty `Merge`, the picked commit's own message (else
/// `cherry-pick`), or `Revert`.
pub open spec fn spec_finish_message(kind: FinishKind, cleaned: Seq<char>, picked: Option<
    Seq<char>,
>) -> Seq<char> {
    if cleaned.len() > 0 {
        cleaned
    } else {
        match kind {
            FinishKind::Merge => "Merge"@,
            FinishKind::Revert => "Revert"@,
            FinishKind::CherryPick => match picked {
                Some(m) => m,
                None => "cherry-pick"@,
            },
        }
    }
}

pub fn finish_message(kind: FinishKind, cleaned: &str, picked: Option<String>) -> (r: String)
    ensures
        r@ == spec_finish_message(
            kind,
            cleaned@,
            match picked {
                Some(m) => Some(m@),
                None => None,
            },
        ),
{
    if !cleaned.is_empty() {
        return string_of(cleaned);
    }
    match kind {
        FinishKind::Merge => string_of("Merge"),
        FinishKind::Revert => string_of("Revert"),
        FinishKind::CherryPick => match picked {
            Some(m) => m,
            None => string_of("cherry-pick"),
        },
    }
}

/// Law: the kind reported for each repository state. A merge is `merge`,
/// a cherry-pick `cherrypick`, a revert `revert`, any of the three rebase
/// states `rebase`, a clean repository `none`; these kinds are told apart,
/// and every other state (bisect, sequences, mailbox) is `other`.
pub proof fn lemma_operation_kinds(s: RepoState)
    ensures
        spec_operation_kind(s) == "merge"@ <==> s == RepoState::Merge,
        spec_operation_kind(s) == "cherrypick"@ <==> s == RepoState::CherryPick,
        spec_operation_kind(s) == "revert"@ <==> s == RepoState::Revert,
        spec_operation_kind(s) == "rebase"@ <==> (s == RepoState::Rebase || s
            == RepoState::RebaseMerge || s == RepoState::RebaseInteractive),
        spec_operation_kind(s) == "none"@ <==> s == RepoState::Clean,
        spec_operation_kind(s) == "other"@ <==> (s == RepoState::RevertSequence || s
            == RepoState::CherryPickSequence || s == RepoState::Bisect || s
            == RepoState::ApplyMailbox || s == RepoState::ApplyMailboxOrRebase),
{
    reveal_strlit("merge");
    reveal_strlit("cherrypick");
    reveal_strlit("revert");
    reveal_strlit("rebase");
    reveal_strlit("none");
    reveal_strlit("other");
    let ks = seq!["merge"@, "cherrypick"@, "revert"@, "rebase"@, "none"@, "other"@];
    assert forall|i: int, j: int| 0 <= i < j < 6 implies ks[i] != ks[j] by {
        if ks[i].len() == ks[j].len() {
            assert(ks[i][0] != ks[j][0] || ks[i][2] != ks[j][2]);
        }
    }
    assert(ks[0] == "merge"@ && ks[1] == "cherrypick"@ && ks[2] == "revert"@ && ks[3]
        == "rebase"@ && ks[4] == "none"@ && ks[5] == "other"@);
}

/// Law: with no paused interactive rebase, the status reports the kind of
/// the repository's state; a merge in progress is reported as `merge`.
pub proof fn lemma_status_reports_merge(state: RepoState)
    ensures
        state == RepoState::Merge ==> spec_operation_kind(state) == "merge"@,
{
}

/// Law: the message the finishing commit gets. A non-empty prepared message
/// is used as it is; otherwise a merge is `Merge`, a revert `Revert`, and a
/// cherry-pick takes the picked commit's own message (`cherry-pick` when it
/// has none).
pub proof fn lemma_finish_messages(kind: FinishKind, cleaned: Seq<char>, picked: Option<Seq<char>>)
    ensures
        cleaned.len() > 0 ==> spec_finish_message(kind, cleaned, picked) == cleaned,
        cleaned.len() == 0 && kind == FinishKind::Merge ==> spec_finish_message(kind, cleaned, picked)
            == "Merge"@,
        cleaned.len() == 0 && kind == FinishKind::Revert ==> spec_finish_message(kind, cleaned, picked)
            == "Revert"@,
        cleaned.len() == 0 && kind == FinishKind::CherryPick ==> spec_finish_message(
            kind,
            cleaned,
            picked,
        ) == match picked {
            Some(m) => m,
            None => "cherry-pick"@,
        },
{
}

/// Law: a conflict is listed under the path of "ours" when that side is
/// present, else of "theirs", else of the ancestor.
pub proof fn lemma_conflict_path_sides(c: ConflictSides)
    ensures
        c.our matches Some(Some(p)) ==> conflict_path(c) == Some(p@),
        c.our is None ==> (c.their matches Some(Some(p)) ==> conflict_path(c) == Some(p@)),
        (c.our is None && c.their is None) ==> (c.ancestor matches Some(Some(p))
            ==> conflict_path(c) == Some(p@)),
        c.our is None && c.their is None && c.ancestor is None ==> conflict_path(c) is None,
{
}

} // verus!
