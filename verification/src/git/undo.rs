//! Undo and redo of the last operation that moved the current branch: undo
//! resets the branch one step back along its own reflog, redo moves it
//! forward again if nothing changed in between. Redo entries are kept per
//! repository, newest last.
use vstd::prelude::*;
use crate::text::{
    chars_eq, concat_str, from_chars, str_eq, string_of, to_chars, trim, trim_chars,
};

verus! {

/// A redo step: on `branch`, the branch sits at `from` after an undo and
/// redo moves it back to `to`.
pub struct RedoEntry {
    pub branch: String,
    pub from: String,
    pub to: String,
    pub label: String,
}

pub struct RedoModel {
    pub branch: Seq<char>,
    pub from: Seq<char>,
    pub to: Seq<char>,
    pub label: Seq<char>,
}

impl View for RedoEntry {
    type V = RedoModel;

    open spec fn view(&self) -> RedoModel {
        RedoModel { branch: self.branch@, from: self.from@, to: self.to@, label: self.label@ }
    }
}

impl RedoEntry {
    pub fn duplicate(&self) -> (r: RedoEntry)
        ensures
            r@ == self@,
    {
        RedoEntry {
            branch: self.branch.clone(),
            from: self.from.clone(),
            to: self.to.clone(),
            label: self.label.clone(),
        }
    }
}

/// The newest entry of the current branch's reflog: the commit the branch
/// moved from (all zeros when it was created) and to, and its message.
pub struct ReflogTop {
    pub id_old: String,
    pub id_new: String,
    pub message: Option<String>,
}

pub struct UndoPreview {
    pub label: Option<String>,
}

/// The all-zero object id git records for "no previous commit".
pub open spec fn is_zero_oid(oid: Seq<char>) -> bool {
    forall|i: int| 0 <= i < oid.len() ==> #[trigger] oid[i] == '0'
}

fn is_zero_oid_exec(oid: &str) -> (b: bool)
    ensures
        b == is_zero_oid(oid@),
{
    let cs = to_chars(oid);
    let mut i: usize = 0;
    while i < cs.len()
        invariant
            cs@ == oid@,
            i <= cs@.len(),
            forall|j: int| 0 <= j < i ==> #[trigger] cs@[j] == '0',
        decreases cs@.len() - i,
    {
        if cs[i] != '0' {
            return false;
        }
        i += 1;
    }
    true
}

/// The label of an undo step: the reflog message, trimmed.
pub open spec fn spec_label(message: Option<String>) -> Seq<char> {
    match message {
        Some(m) => trim(m@),
        None => trim("(sin mensaje)"@),
    }
}

/// `message.trim()`.
pub fn clean_label(message: &str) -> (r: String)
    ensures
        r@ == trim(message@),
{
    from_chars(&trim_chars(&to_chars(message)))
}

fn label_of(message: &Option<String>) -> (r: String)
    ensures
        r@ == spec_label(*message),
{
    match message {
        Some(m) => clean_label(m.as_str()),
        None => clean_label("(sin mensaje)"),
    }
}

/// What undo would do, for display: the label of the newest reflog entry,
/// unless that entry created the branch.
pub fn undo_preview(top: Option<ReflogTop>) -> (p: UndoPreview)
    ensures
        match top {
            Some(t) => if is_zero_oid(t.id_old@) {
                p.label is None
            } else {
                p.label matches Some(l) && l@ == spec_label(t.message)
            },
            None => p.label is None,
        },
{
    match top {
        Some(t) => {
            if is_zero_oid_exec(t.id_old.as_str()) {
                UndoPreview { label: None }
            } else {
                UndoPreview { label: Some(label_of(&t.message)) }
            }
        },
        None => UndoPreview { label: None },
    }
}

/// Undo on `branch`: reset to where the newest reflog entry moved the
/// branch from, recording how to come back; nothing to undo when the
/// reflog is empty or its newest entry created the branch.
pub open spec fn spec_undo(branch: Seq<char>, top: Option<ReflogTop>) -> Option<
    (Seq<char>, RedoModel),
> {
    match top {
        Some(t) => if is_zero_oid(t.id_old@) {
            None
        } else {
            Some(
                (
                    t.id_old@,
                    RedoModel {
                        branch,
                        from: t.id_old@,
                        to: t.id_new@,
                        label: spec_label(t.message),
                    },
                ),
            )
        },
        None => None,
    }
}

/// The commit undo resets the branch to and the entry that redoes it.
pub fn undo_plan(branch: String, top: Option<ReflogTop>) -> (r: Result<(String, RedoEntry), String>)
    ensures
        match r {
            Ok((target, e)) => spec_undo(branch@, top) == Some((target@, e@)),
            Err(m) => spec_undo(branch@, top) is None && m@
                == "No hay nada que deshacer en esta rama"@,
        },
{
    match top {
        Some(t) => {
            if is_zero_oid_exec(t.id_old.as_str()) {
                Err(string_of("No hay nada que deshacer en esta rama"))
            } else {
                let label = label_of(&t.message);
                let target = t.id_old.clone();
                Ok((target, RedoEntry { branch, from: t.id_old, to: t.id_new, label }))
            }
        },
        None => Err(string_of("No hay nada que deshacer en esta rama")),
    }
}

/// Redo: allowed only on the branch the undo happened on, with the branch
/// still where the undo left it; then the branch moves to `to`.
pub open spec fn spec_redo(e: RedoModel, current_branch: Seq<char>, tip: Option<Seq<char>>) -> Result<
    Seq<char>,
    Seq<char>,
> {
    if current_branch != e.branch {
        Err("Cambiaste de rama desde el último undo; no se puede rehacer"@)
    } else if tip != Some(e.from) {
        Err("El estado del repositorio cambió desde el último undo; no se puede rehacer"@)
    } else {
        Ok(e.to)
    }
}

/// The commit redo resets the branch to, or why it cannot.
pub fn redo_check(e: &RedoEntry, current_branch: &str, tip: Option<String>) -> (r: Result<
    String,
    String,
>)
    ensures
        match r {
            Ok(t) => spec_redo(e@, current_branch@, match tip {
                Some(x) => Some(x@),
                None => None,
            }) == Ok::<Seq<char>, Seq<char>>(t@),
            Err(m) => spec_redo(e@, current_branch@, match tip {
                Some(x) => Some(x@),
                None => None,
            }) == Err::<Seq<char>, Seq<char>>(m@),
        },
{
    if !str_eq(current_branch, e.branch.as_str()) {
        return Err(string_of("Cambiaste de rama desde el último undo; no se puede rehacer"));
    }
    let at_from = match &tip {
        Some(t) => *t == e.from,
        None => false,
    };
    if !at_from {
        return Err(
            string_of("El estado del repositorio cambió desde el último undo; no se puede rehacer"),
        );
    }
    Ok(e.to.clone())
}

/// Law: redo right after undo, on the same branch with nothing moved in
/// between, brings the branch back to where the undo started.
pub proof fn lemma_redo_after_undo(branch: Seq<char>, top: ReflogTop)
    requires
        !is_zero_oid(top.id_old@),
    ensures
        spec_undo(branch, Some(top)) matches Some((target, e)) && spec_redo(e, branch, Some(target))
            == Ok::<Seq<char>, Seq<char>>(top.id_new@),
{
}

/// Law: after an undo, redo refuses on any other branch.
pub proof fn lemma_redo_refuses_other_branch(e: RedoModel, other: Seq<char>, tip: Option<Seq<char>>)
    requires
        other != e.branch,
    ensures
        spec_redo(e, other, tip) is Err,
{
}

/// The redo stacks of every open repository, keyed by repository path,
/// newest entry last.
pub struct UndoState {
    stacks: Vec<(String, Vec<RedoEntry>)>,
}

pub open spec fn redo_views(v: Seq<RedoEntry>) -> Seq<RedoModel> {
    v.map_values(|e: RedoEntry| e@)
}

impl UndoState {
    /// Each repository has at most one stack.
    pub closed spec fn wf(&self) -> bool {
        forall|i: int, j: int|
            0 <= i < j < self.stacks@.len() ==> (#[trigger] self.stacks@[i]).0@ != (
            #[trigger] self.stacks@[j]).0@
    }

    /// The redo stack of a repository (empty when it has none).
    pub closed spec fn stack(&self, path: Seq<char>) -> Seq<RedoModel> {
        if exists|i: int| 0 <= i < self.stacks@.len() && (#[trigger] self.stacks@[i]).0@ == path {
            let i = choose|i: int| 0 <= i < self.stacks@.len() && (#[trigger] self.stacks@[i]).0@ == path;
            redo_views(self.stacks@[i].1@)
        } else {
            Seq::empty()
        }
    }

    pub fn new() -> (s: UndoState)
        ensures
            s.wf(),
            forall|p: Seq<char>| s.stack(p) == Seq::<RedoModel>::empty(),
    {
        UndoState { stacks: Vec::new() }
    }

    fn find(&self, path: &str) -> (r: Option<usize>)
        requires
            self.wf(),
        ensures
            r matches Some(i) ==> i < self.stacks@.len() && self.stacks@[i as int].0@ == path@
                && self.stack(path@) == redo_views(self.stacks@[i as int].1@),
            r is None ==> forall|i: int|
                0 <= i < self.stacks@.len() ==> (#[trigger] self.stacks@[i]).0@ != path@,
    {
        let mut i: usize = 0;
        while i < self.stacks.len()
            invariant
                self.wf(),
                i <= self.stacks@.len(),
                forall|j: int| 0 <= j < i ==> (#[trigger] self.stacks@[j]).0@ != path@,
            decreases self.stacks@.len() - i,
        {
            if str_eq(self.stacks[i].0.as_str(), path) {
                proof {
                    let k = choose|k: int|
                        0 <= k < self.stacks@.len() && (#[trigger] self.stacks@[k]).0@ == path@;
                    if k != i {
                        if k < i {
                            assert(self.stacks@[k].0@ != path@);
                        } else {
                            assert(self.stacks@[i as int].0@ != self.stacks@[k].0@);
                        }
                    }
                }
                return Some(i);
            }
            i += 1;
        }
        None
    }

    /// The newest redo entry of a repository (what redo would do).
    pub fn peek(&self, path: &str) -> (r: Option<RedoEntry>)
        requires
            self.wf(),
        ensures
            self.stack(path@).len() == 0 ==> r is None,
            self.stack(path@).len() > 0 ==> (r matches Some(e) && e@ == self.stack(path@).last()),
    {
        match self.find(path) {
            Some(i) => {
                let st = &self.stacks[i].1;
                if st.len() == 0 {
                    None
                } else {
                    assert(redo_views(st@).last() == st@[st@.len() - 1]@);
                    Some(st[st.len() - 1].duplicate())
                }
            },
            None => None,
        }
    }

    /// The entry redo would apply, or the error when there is none.
    pub fn next_redo(&self, path: &str) -> (r: Result<RedoEntry, String>)
        requires
            self.wf(),
        ensures
            self.stack(path@).len() == 0 ==> (r matches Err(e) && e@ == "Nada para rehacer"@),
            self.stack(path@).len() > 0 ==> (r matches Ok(e) && e@ == self.stack(path@).last()),
    {
        match self.peek(path) {
            Some(e) => Ok(e),
            None => Err(string_of("Nada para rehacer")),
        }
    }

    /// The label redo would show, if any.
    pub fn redo_preview(&self, path: &str) -> (p: UndoPreview)
        requires
            self.wf(),
        ensures
            self.stack(path@).len() == 0 ==> p.label is None,
            self.stack(path@).len() > 0 ==> (p.label matches Some(l) && l@ == self.stack(
                path@,
            ).last().label),
    {
        match self.peek(path) {
            Some(e) => UndoPreview { label: Some(e.label) },
            None => UndoPreview { label: None },
        }
    }

    /// Records a redo entry for a repository after a successful undo.
    pub fn push(&mut self, path: String, e: RedoEntry)
        requires
            old(self).wf(),
        ensures
            final(self).wf(),
            final(self).stack(path@) == pushed_stack(old(self).stack(path@), e@),
            forall|p: Seq<char>| p != path@ ==> final(self).stack(p) == old(self).stack(p),
    {
        let ghost old_self = *self;
        match self.find(path.as_str()) {
            Some(i) => {
                let mut entry = self.stacks.remove(i);
                let ghost prev = redo_views(entry.1@);
                let ghost e_view = e@;
                entry.1.push(e);
                assert(redo_views(entry.1@) =~= prev.push(e_view));
                self.stacks.insert(i, entry);
                assert(self.stacks@ =~= old_self.stacks@.update(i as int, self.stacks@[i as int]));
                proof {
                    self.lemma_stack_after_update(old_self, i as int);
                }
            },
            None => {
                let mut v: Vec<RedoEntry> = Vec::new();
                let ghost e_view = e@;
                v.push(e);
                assert(redo_views(v@) =~= seq![e_view]);
                self.stacks.push((path, v));
                proof {
                    self.lemma_stack_after_push(old_self);
                }
            },
        }
    }

    /// Drops a repository's newest redo entry after a successful redo.
    pub fn pop(&mut self, path: &str)
        requires
            old(self).wf(),
        ensures
            final(self).wf(),
            final(self).stack(path@) == popped_stack(old(self).stack(path@)),
            forall|p: Seq<char>| p != path@ ==> final(self).stack(p) == old(self).stack(p),
    {
        let ghost old_self = *self;
        match self.find(path) {
            Some(i) => {
                let mut entry = self.stacks.remove(i);
                let ghost prev = redo_views(entry.1@);
                if entry.1.len() > 0 {
                    entry.1.pop();
                    assert(redo_views(entry.1@) =~= prev.drop_last());
                }
                self.stacks.insert(i, entry);
                assert(self.stacks@ =~= old_self.stacks@.update(i as int, self.stacks@[i as int]));
                proof {
                    self.lemma_stack_after_update(old_self, i as int);
                }
            },
            None => {},
        }
    }

    proof fn lemma_stack_after_update(&self, old_self: UndoState, i: int)
        requires
            old_self.wf(),
            0 <= i < old_self.stacks@.len(),
            self.stacks@ == old_self.stacks@.update(i, self.stacks@[i]),
            self.stacks@[i].0@ == old_self.stacks@[i].0@,
        ensures
            self.wf(),
            self.stack(self.stacks@[i].0@) == redo_views(self.stacks@[i].1@),
            forall|p: Seq<char>| p != self.stacks@[i].0@ ==> self.stack(p) == old_self.stack(p),
    {
        assert(self.wf()) by {
            assert forall|a: int, b: int| 0 <= a < b < self.stacks@.len() implies (
            #[trigger] self.stacks@[a]).0@ != (#[trigger] self.stacks@[b]).0@ by {
                assert(self.stacks@[a].0@ == old_self.stacks@[a].0@);
                assert(self.stacks@[b].0@ == old_self.stacks@[b].0@);
            }
        }
        let key = self.stacks@[i].0@;
        let k = choose|k: int| 0 <= k < self.stacks@.len() && (#[trigger] self.stacks@[k]).0@ == key;
        if k != i {
            if k < i {
                assert(self.stacks@[k].0@ != self.stacks@[i].0@);
            } else {
                assert(self.stacks@[i].0@ != self.stacks@[k].0@);
            }
        }
        assert forall|p: Seq<char>| p != key implies self.stack(p) == old_self.stack(p) by {
            if exists|j: int| 0 <= j < self.stacks@.len() && (#[trigger] self.stacks@[j]).0@ == p {
                let j = choose|j: int| 0 <= j < self.stacks@.len() && (#[trigger] self.stacks@[j]).0@ == p;
                assert(j != i);
                assert(old_self.stacks@[j] == self.stacks@[j]);
                let j2 = choose|j2: int| 0 <= j2 < old_self.stacks@.len() && (#[trigger] old_self.stacks@[j2]).0@ == p;
                if j2 != j {
                    if j2 < j {
                        assert(old_self.stacks@[j2].0@ != old_self.stacks@[j].0@);
                    } else {
                        assert(old_self.stacks@[j].0@ != old_self.stacks@[j2].0@);
                    }
                }
            } else {
                assert forall|j: int| 0 <= j < old_self.stacks@.len() implies (
                #[trigger] old_self.stacks@[j]).0@ != p by {
                    if j != i {
                        assert(old_self.stacks@[j] == self.stacks@[j]);
                    }
                }
            }
        }
    }

    proof fn lemma_stack_after_push(&self, old_self: UndoState)
        requires
            old_self.wf(),
            self.stacks@.len() == old_self.stacks@.len() + 1,
            forall|j: int| 0 <= j < old_self.stacks@.len() ==> self.stacks@[j] == old_self.stacks@[j],
            forall|j: int|
                0 <= j < old_self.stacks@.len() ==> (#[trigger] old_self.stacks@[j]).0@
                    != self.stacks@.last().0@,
        ensures
            self.wf(),
            self.stack(self.stacks@.last().0@) == redo_views(self.stacks@.last().1@),
            forall|p: Seq<char>| p != self.stacks@.last().0@ ==> self.stack(p) == old_self.stack(p),
    {
        let n = old_self.stacks@.len() as int;
        assert(self.wf()) by {
            assert forall|a: int, b: int| 0 <= a < b < self.stacks@.len() implies (
            #[trigger] self.stacks@[a]).0@ != (#[trigger] self.stacks@[b]).0@ by {
                assert(self.stacks@[a] == old_self.stacks@[a]);
                if b < n {
                    assert(self.stacks@[b] == old_self.stacks@[b]);
                }
            }
        }
        let key = self.stacks@.last().0@;
        let k = choose|k: int| 0 <= k < self.stacks@.len() && (#[trigger] self.stacks@[k]).0@ == key;
        if k < n {
            assert(self.stacks@[k] == old_self.stacks@[k]);
        }
        assert forall|p: Seq<char>| p != key implies self.stack(p) == old_self.stack(p) by {
            if exists|j: int| 0 <= j < self.stacks@.len() && (#[trigger] self.stacks@[j]).0@ == p {
                let j = choose|j: int| 0 <= j < self.stacks@.len() && (#[trigger] self.stacks@[j]).0@ == p;
                assert(j < n);
                assert(old_self.stacks@[j] == self.stacks@[j]);
                let j2 = choose|j2: int| 0 <= j2 < old_self.stacks@.len() && (#[trigger] old_self.stacks@[j2]).0@ == p;
                if j2 != j {
                    if j2 < j {
                        assert(old_self.stacks@[j2].0@ != old_self.stacks@[j].0@);
                    } else {
                        assert(old_self.stacks@[j].0@ != old_self.stacks@[j2].0@);
                    }
                }
            } else {
                assert forall|j: int| 0 <= j < old_self.stacks@.len() implies (
                #[trigger] old_self.stacks@[j]).0@ != p by {
                    assert(old_self.stacks@[j] == self.stacks@[j]);
                }
            }
        }
    }
}

/// A redo stack after recording `e`.
pub open spec fn pushed_stack(stack: Seq<RedoModel>, e: RedoModel) -> Seq<RedoModel> {
    stack.push(e)
}

/// A redo stack after its newest entry was redone (unchanged when empty).
pub open spec fn popped_stack(stack: Seq<RedoModel>) -> Seq<RedoModel> {
    if stack.len() > 0 {
        stack.drop_last()
    } else {
        stack
    }
}

/// Law: after an undo records `e`, redo offers exactly `e`, and once it is
/// redone the repository's redo stack is what it was before the undo.
pub proof fn lemma_push_then_pop(before: Seq<RedoModel>, e: RedoModel)
    ensures
        pushed_stack(before, e).len() > 0,
        pushed_stack(before, e).last() == e,
        popped_stack(pushed_stack(before, e)) == before,
{
    assert(before.push(e).drop_last() =~= before);
}

/// Law: undo followed by redo, on the same branch with nothing moved in
/// between, is a round trip. Undo resets the branch to where its newest
/// reflog entry moved it from and records an entry labelled with that
/// entry's message; redo then offers exactly that entry, accepts the branch
/// where undo left it, moves it back to where it was before the undo, and
/// leaves the repository's redo stack as it was before the undo.
pub proof fn lemma_undo_redo_round_trip(branch: Seq<char>, top: ReflogTop, stack: Seq<RedoModel>)
    requires
        !is_zero_oid(top.id_old@),
    ensures
        spec_undo(branch, Some(top)) matches Some((target, e)) && {
            &&& target == top.id_old@
            &&& e.label == spec_label(top.message)
            &&& pushed_stack(stack, e).last() == e
            &&& spec_redo(pushed_stack(stack, e).last(), branch, Some(target)) == Ok::<
                Seq<char>,
                Seq<char>,
            >(top.id_new@)
            &&& popped_stack(pushed_stack(stack, e)) == stack
        },
{
    lemma_push_then_pop(stack, RedoModel {
        branch,
        from: top.id_old@,
        to: top.id_new@,
        label: spec_label(top.message),
    });
}

/// Law: only an object id made entirely of `0`s is the zero id; any id with
/// another character names a previous commit, so undo goes back to it,
/// recording how to come forward again to the entry's new commit.
pub proof fn lemma_undo_needs_zero_id_only(branch: Seq<char>, top: ReflogTop)
    ensures
        (exists|i: int| 0 <= i < top.id_old@.len() && top.id_old@[i] != '0') ==> (spec_undo(
            branch,
            Some(top),
        ) matches Some((target, e)) && target == top.id_old@ && e.branch == branch && e.from
            == top.id_old@ && e.to == top.id_new@),
        (forall|i: int| 0 <= i < top.id_old@.len() ==> top.id_old@[i] == '0') ==> spec_undo(
            branch,
            Some(top),
        ) is None,
        spec_undo(branch, None) is None,
{
    if exists|i: int| 0 <= i < top.id_old@.len() && top.id_old@[i] != '0' {
        let i = choose|i: int| 0 <= i < top.id_old@.len() && top.id_old@[i] != '0';
        assert(!is_zero_oid(top.id_old@));
    }
}

/// Law: an undo step is labelled with its reflog message trimmed, or
/// `(sin mensaje)` when it has none; redo refuses on another branch, refuses
/// once the branch has moved from where undo left it, and otherwise moves
/// the branch to the commit undo moved it from.
pub proof fn lemma_labels_and_redo(message: Option<String>, e: RedoModel, current: Seq<char>, tip: Option<Seq<char>>)
    ensures
        message matches Some(m) ==> spec_label(message) == trim(m@),
        message is None ==> spec_label(message) == "(sin mensaje)"@,
        current != e.branch ==> spec_redo(e, current, tip) == Err::<Seq<char>, Seq<char>>(
            "Cambiaste de rama desde el último undo; no se puede rehacer"@,
        ),
        current == e.branch && tip != Some(e.from) ==> spec_redo(e, current, tip) == Err::<
            Seq<char>,
            Seq<char>,
        >("El estado del repositorio cambió desde el último undo; no se puede rehacer"@),
        current == e.branch && tip == Some(e.from) ==> spec_redo(e, current, tip) == Ok::<
            Seq<char>,
            Seq<char>,
        >(e.to),
{
    reveal_strlit("(sin mensaje)");
    let s = "(sin mensaje)"@;
    assert(!crate::text::is_ws(s[0]));
    assert(!crate::text::is_ws(s.last()));
    assert(crate::text::trim_start_in(s, crate::text::CharClass::Whitespace) == s);
    assert(trim(s) == s);
}

} // verus!
