//! Linked worktrees: parsing `git worktree list --porcelain` and the
//! argument lists of the worktree commands.
use vstd::prelude::*;
use crate::paths::{repo_name, spec_repo_name};
use crate::git::remotes::arg_views;
use crate::text::{
    eq_str, from_chars, string_of, lines, lines_of, strip_prefix, strip_prefix_chars, to_chars,
    trim_start_seq, trim_start_seq_chars, views, has_prefix_at,
};

verus! {

#[derive(Debug)]
pub struct WorktreeInfo {
    pub name: String,
    pub path: String,
    pub head: String,
    pub branch: Option<String>,
    pub is_locked: bool,
    pub is_prunable: bool,
    pub is_bare: bool,
    pub is_main: bool,
}

/// A worktree entry as plain values.
pub struct WorktreeModel {
    pub name: Seq<char>,
    pub path: Seq<char>,
    pub head: Seq<char>,
    pub branch: Option<Seq<char>>,
    pub is_locked: bool,
    pub is_prunable: bool,
    pub is_bare: bool,
    pub is_main: bool,
}

pub open spec fn opt_view(o: Option<String>) -> Option<Seq<char>> {
    match o {
        Some(s) => Some(s@),
        None => None,
    }
}

impl View for WorktreeInfo {
    type V = WorktreeModel;

    open spec fn view(&self) -> WorktreeModel {
        WorktreeModel {
            name: self.name@,
            path: self.path@,
            head: self.head@,
            branch: opt_view(self.branch),
            is_locked: self.is_locked,
            is_prunable: self.is_prunable,
            is_bare: self.is_bare,
            is_main: self.is_main,
        }
    }
}

/// The parser's state between lines: the entry being read and the entries
/// finished so far.
pub struct ListState {
    pub path: Option<Seq<char>>,
    pub head: Seq<char>,
    pub branch: Option<Seq<char>>,
    pub locked: bool,
    pub prunable: bool,
    pub bare: bool,
    pub done: Seq<WorktreeModel>,
}

pub open spec fn initial_state() -> ListState {
    ListState {
        path: None,
        head: Seq::empty(),
        branch: None,
        locked: false,
        prunable: false,
        bare: false,
        done: Seq::empty(),
    }
}

/// Ends the entry being read, if it has a path: it is recorded (named
/// after its path's last component, the first one recorded being the main
/// worktree) and the per-entry fields start afresh.
pub open spec fn flush(st: ListState) -> ListState {
    match st.path {
        Some(p) => ListState {
            path: None,
            head: Seq::empty(),
            branch: None,
            locked: false,
            prunable: false,
            bare: false,
            done: st.done.push(
                WorktreeModel {
                    name: spec_repo_name(p),
                    path: p,
                    head: st.head,
                    branch: st.branch,
                    is_locked: st.locked,
                    is_prunable: st.prunable,
                    is_bare: st.bare,
                    is_main: st.done.len() == 0,
                },
            ),
        },
        None => st,
    }
}

/// The effect of one line: a blank line ends an entry; `worktree <path>`,
/// `HEAD <sha>`, `branch <ref>` (short name), `detached`, `bare`, `locked…`
/// and `prunable…` fill in the entry being read; anything else is ignored.
pub open spec fn step(st: ListState, line: Seq<char>) -> ListState {
    if line.len() == 0 {
        flush(st)
    } else if strip_prefix(line, "worktree "@) is Some {
        ListState { path: Some(strip_prefix(line, "worktree "@).unwrap()), ..st }
    } else if strip_prefix(line, "HEAD "@) is Some {
        ListState { head: strip_prefix(line, "HEAD "@).unwrap(), ..st }
    } else if strip_prefix(line, "branch "@) is Some {
        ListState {
            branch: Some(trim_start_seq(strip_prefix(line, "branch "@).unwrap(), "refs/heads/"@)),
            ..st
        }
    } else if line == "detached"@ {
        ListState { branch: None, ..st }
    } else if line == "bare"@ {
        ListState { bare: true, ..st }
    } else if "locked"@.is_prefix_of(line) {
        ListState { locked: true, ..st }
    } else if "prunable"@.is_prefix_of(line) {
        ListState { prunable: true, ..st }
    } else {
        st
    }
}

pub open spec fn run(ls: Seq<Seq<char>>) -> ListState
    decreases ls.len(),
{
    if ls.len() == 0 {
        initial_state()
    } else {
        step(run(ls.drop_last()), ls.last())
    }
}

/// The worktrees `git worktree list --porcelain` describes, main first.
pub open spec fn spec_worktree_list(output: Seq<char>) -> Seq<WorktreeModel> {
    flush(run(lines(output))).done
}

/// Exactly the first entry of a list is marked as the main worktree.
pub open spec fn main_first(ws: Seq<WorktreeModel>) -> bool {
    forall|i: int| 0 <= i < ws.len() ==> (#[trigger] ws[i].is_main <==> i == 0)
}

proof fn lemma_flush_keeps_main_first(st: ListState)
    requires
        main_first(st.done),
    ensures
        main_first(flush(st).done),
{
    if st.path is Some {
        let d = flush(st).done;
        assert forall|i: int| 0 <= i < d.len() implies (#[trigger] d[i].is_main <==> i == 0) by {
            if i < st.done.len() {
                assert(d[i] == st.done[i]);
            }
        }
    }
}

proof fn lemma_run_main_first(ls: Seq<Seq<char>>)
    ensures
        main_first(run(ls).done),
    decreases ls.len(),
{
    if ls.len() > 0 {
        lemma_run_main_first(ls.drop_last());
        let st = run(ls.drop_last());
        if ls.last().len() == 0 {
            lemma_flush_keeps_main_first(st);
        }
    }
}

/// Law: git lists the main worktree first, and the parsed list marks that
/// entry, and only that entry, as the main worktree.
pub proof fn lemma_only_first_worktree_is_main(output: Seq<char>)
    ensures
        main_first(spec_worktree_list(output)),
{
    lemma_run_main_first(lines(output));
    lemma_flush_keeps_main_first(run(lines(output)));
}

/// The output's lines grouped into blocks: every blank line closes the
/// block before it (so consecutive blank lines leave empty blocks), and the
/// last block is the one still open at the end.
pub open spec fn blocks(ls: Seq<Seq<char>>) -> Seq<Seq<Seq<char>>>
    decreases ls.len(),
{
    if ls.len() == 0 {
        seq![Seq::empty()]
    } else {
        let bs = blocks(ls.drop_last());
        if ls.last().len() == 0 {
            bs.push(Seq::empty())
        } else {
            bs.update(bs.len() - 1, bs.last().push(ls.last()))
        }
    }
}

/// The value after `key` on the last line of the block that starts with it.
pub open spec fn last_value(b: Seq<Seq<char>>, key: Seq<char>) -> Option<Seq<char>>
    decreases b.len(),
{
    if b.len() == 0 {
        None
    } else if key.is_prefix_of(b.last()) {
        Some(b.last().skip(key.len() as int))
    } else {
        last_value(b.drop_last(), key)
    }
}

/// The branch given by the block's last `branch <ref>` or `detached` line:
/// the ref without a leading `refs/heads/`, none when detached or absent.
pub open spec fn block_branch(b: Seq<Seq<char>>) -> Option<Seq<char>>
    decreases b.len(),
{
    if b.len() == 0 {
        None
    } else if "branch "@.is_prefix_of(b.last()) {
        Some(trim_start_seq(b.last().skip(7), "refs/heads/"@))
    } else if b.last() == "detached"@ {
        None
    } else {
        block_branch(b.drop_last())
    }
}

/// Whether some line of the block starts with `p`.
pub open spec fn any_line_starts(b: Seq<Seq<char>>, p: Seq<char>) -> bool
    decreases b.len(),
{
    b.len() > 0 && (p.is_prefix_of(b.last()) || any_line_starts(b.drop_last(), p))
}

/// The entry a block describes, when it names a worktree.
pub open spec fn block_entry(b: Seq<Seq<char>>, is_main: bool) -> Option<WorktreeModel> {
    match last_value(b, "worktree "@) {
        None => None,
        Some(p) => Some(
            WorktreeModel {
                name: spec_repo_name(p),
                path: p,
                head: match last_value(b, "HEAD "@) {
                    Some(h) => h,
                    None => Seq::empty(),
                },
                branch: block_branch(b),
                is_locked: any_line_starts(b, "locked"@),
                is_prunable: any_line_starts(b, "prunable"@),
                is_bare: b.contains("bare"@),
                is_main,
            },
        ),
    }
}

/// One entry per block that names a worktree, in order, the first being
/// the main worktree.
pub open spec fn block_entries(bs: Seq<Seq<Seq<char>>>) -> Seq<WorktreeModel>
    decreases bs.len(),
{
    if bs.len() == 0 {
        Seq::empty()
    } else {
        let r = block_entries(bs.drop_last());
        match block_entry(bs.last(), r.len() == 0) {
            Some(w) => r.push(w),
            None => r,
        }
    }
}

/// A closed block either is empty or names its worktree.
pub open spec fn names_worktree(b: Seq<Seq<char>>) -> bool {
    b.len() == 0 || last_value(b, "worktree "@) is Some
}

/// The reader's state at a point where `bs` are the blocks read so far.
pub open spec fn state_of_blocks(bs: Seq<Seq<Seq<char>>>) -> ListState {
    let b = bs.last();
    ListState {
        path: last_value(b, "worktree "@),
        head: match last_value(b, "HEAD "@) {
            Some(h) => h,
            None => Seq::empty(),
        },
        branch: block_branch(b),
        locked: any_line_starts(b, "locked"@),
        prunable: any_line_starts(b, "prunable"@),
        bare: b.contains("bare"@),
        done: block_entries(bs.drop_last()),
    }
}

proof fn lemma_blocks_nonempty(ls: Seq<Seq<char>>)
    ensures
        blocks(ls).len() >= 1,
    decreases ls.len(),
{
    if ls.len() > 0 {
        lemma_blocks_nonempty(ls.drop_last());
    }
}

/// The line kinds the reader tells apart never overlap.
proof fn lemma_line_kinds(l: Seq<char>)
    ensures
        "worktree "@.is_prefix_of(l) ==> !"HEAD "@.is_prefix_of(l) && !"branch "@.is_prefix_of(l)
            && l != "detached"@ && l != "bare"@ && !"locked"@.is_prefix_of(l)
            && !"prunable"@.is_prefix_of(l),
        "HEAD "@.is_prefix_of(l) ==> !"branch "@.is_prefix_of(l) && l != "detached"@ && l
            != "bare"@ && !"locked"@.is_prefix_of(l) && !"prunable"@.is_prefix_of(l),
        "branch "@.is_prefix_of(l) ==> l != "detached"@ && l != "bare"@ && !"locked"@.is_prefix_of(
            l,
        ) && !"prunable"@.is_prefix_of(l),
        l == "detached"@ ==> l != "bare"@ && !"locked"@.is_prefix_of(l) && !"prunable"@.is_prefix_of(
            l,
        ),
        l == "bare"@ ==> !"locked"@.is_prefix_of(l) && !"prunable"@.is_prefix_of(l),
        "locked"@.is_prefix_of(l) ==> !"prunable"@.is_prefix_of(l),
{
    reveal_strlit("worktree ");
    reveal_strlit("HEAD ");
    reveal_strlit("branch ");
    reveal_strlit("detached");
    reveal_strlit("bare");
    reveal_strlit("locked");
    reveal_strlit("prunable");
    if l.len() > 1 {
        let c0 = l[0];
        let c1 = l[1];
        if "worktree "@.is_prefix_of(l) {
            assert(l.subrange(0, 9)[0] == c0);
            assert(c0 == 'w');
        }
        if "HEAD "@.is_prefix_of(l) {
            assert(l.subrange(0, 5)[0] == c0);
            assert(c0 == 'H');
        }
        if "branch "@.is_prefix_of(l) {
            assert(l.subrange(0, 7)[0] == c0);
            assert(l.subrange(0, 7)[1] == c1);
            assert(c0 == 'b' && c1 == 'r');
        }
        if l == "detached"@ {
            assert(c0 == 'd');
        }
        if l == "bare"@ {
            assert(c0 == 'b' && c1 == 'a');
        }
        if "locked"@.is_prefix_of(l) {
            assert(l.subrange(0, 6)[0] == c0);
            assert(c0 == 'l');
        }
        if "prunable"@.is_prefix_of(l) {
            assert(l.subrange(0, 8)[0] == c0);
            assert(c0 == 'p');
        }
    }
}

/// Reading one more non-blank line extends the open block.
proof fn lemma_step_extends_block(bs: Seq<Seq<Seq<char>>>, l: Seq<char>)
    requires
        bs.len() >= 1,
        l.len() > 0,
    ensures
        step(state_of_blocks(bs), l) == state_of_blocks(bs.update(bs.len() - 1, bs.last().push(l))),
{
    let b = bs.last();
    let b2 = b.push(l);
    let bs2 = bs.update(bs.len() - 1, b2);
    assert(b2.drop_last() =~= b);
    assert(b2.last() == l);
    assert(bs2.drop_last() =~= bs.drop_last());
    assert(bs2.last() == b2);
    lemma_line_kinds(l);
    reveal_strlit("branch ");
    assert(b2.contains("bare"@) == (b.contains("bare"@) || l == "bare"@)) by {
        if l == "bare"@ {
            assert(b2[b.len() as int] == l);
        }
        if b.contains("bare"@) {
            let j = choose|j: int| 0 <= j < b.len() && b[j] == "bare"@;
            assert(b2[j] == b[j]);
        }
        if b2.contains("bare"@) && l != "bare"@ {
            let j = choose|j: int| 0 <= j < b2.len() && b2[j] == "bare"@;
            assert(j < b.len());
            assert(b[j] == b2[j]);
        }
    }
    let s1 = step(state_of_blocks(bs), l);
    let s2 = state_of_blocks(bs2);
    assert(s1.path == s2.path);
    assert(s1.head == s2.head);
    assert(s1.branch == s2.branch);
    assert(s1.locked == s2.locked);
    assert(s1.prunable == s2.prunable);
    assert(s1.bare == s2.bare);
    assert(s1.done == s2.done);
}

/// The reader after `ls`, provided every closed block names its worktree.
proof fn lemma_run_by_blocks(ls: Seq<Seq<char>>)
    requires
        forall|i: int| 0 <= i < blocks(ls).len() - 1 ==> names_worktree(#[trigger] blocks(ls)[i]),
    ensures
        run(ls) == state_of_blocks(blocks(ls)),
    decreases ls.len(),
{
    if ls.len() == 0 {
        let s = state_of_blocks(blocks(ls));
        assert(blocks(ls).drop_last() =~= Seq::<Seq<Seq<char>>>::empty());
        assert(s.done =~= Seq::<WorktreeModel>::empty());
        assert(!blocks(ls).last().contains("bare"@));
        assert(run(ls) == s);
    } else {
        let prev = ls.drop_last();
        let l = ls.last();
        lemma_blocks_nonempty(prev);
        let bs = blocks(prev);
        assert forall|i: int| 0 <= i < bs.len() - 1 implies names_worktree(#[trigger] bs[i]) by {
            if l.len() == 0 {
                assert(blocks(ls)[i] == bs[i]);
            } else {
                assert(blocks(ls)[i] == bs[i]);
            }
        }
        lemma_run_by_blocks(prev);
        if l.len() == 0 {
            let bs2 = bs.push(Seq::empty());
            assert(blocks(ls) == bs2);
            assert(bs2.drop_last() =~= bs);
            assert(names_worktree(bs.last())) by {
                assert(bs2[bs.len() - 1] == bs.last());
            }
            let st = state_of_blocks(bs);
            let e: Seq<Seq<char>> = Seq::empty();
            assert(!e.contains("bare"@));
            assert(bs.drop_last().push(bs.last()) =~= bs);
            assert(block_entries(bs) == (match block_entry(bs.last(), block_entries(bs.drop_last()).len() == 0) {
                Some(w) => block_entries(bs.drop_last()).push(w),
                None => block_entries(bs.drop_last()),
            }));
            let f = flush(st);
            let s2 = state_of_blocks(bs2);
            assert(f.done == s2.done);
            assert(f == s2);
        } else {
            lemma_step_extends_block(bs, l);
        }
    }
}

/// Law: when every blank-line-separated block that is followed by another
/// either is empty or holds a `worktree <path>` line, the list has one entry
/// per block naming a worktree, in order: its path from the block's
/// `worktree` line, its head from the `HEAD` line (empty when absent), its
/// branch from the last `branch`/`detached` line, locked, prunable or bare
/// when some line says so, and only the first entry is the main worktree.
pub proof fn lemma_worktree_list_by_blocks(output: Seq<char>)
    requires
        forall|i: int|
            0 <= i < blocks(lines(output)).len() - 1 ==> names_worktree(
                #[trigger] blocks(lines(output))[i],
            ),
    ensures
        spec_worktree_list(output) == block_entries(blocks(lines(output))),
{
    let ls = lines(output);
    lemma_run_by_blocks(ls);
    lemma_blocks_nonempty(ls);
    let bs = blocks(ls);
    let st = state_of_blocks(bs);
    assert(bs.drop_last().push(bs.last()) =~= bs);
    assert(block_entries(bs) == (match block_entry(bs.last(), block_entries(bs.drop_last()).len() == 0) {
        Some(w) => block_entries(bs.drop_last()).push(w),
        None => block_entries(bs.drop_last()),
    }));
}

/// The blocks that hold at least one line, in order.
pub open spec fn nonempty_blocks(bs: Seq<Seq<Seq<char>>>) -> Seq<Seq<Seq<char>>> {
    bs.filter(|b: Seq<Seq<char>>| b.len() > 0)
}

proof fn lemma_entries_per_block(bs: Seq<Seq<Seq<char>>>)
    requires
        forall|i: int| 0 <= i < bs.len() ==> names_worktree(#[trigger] bs[i]),
    ensures
        block_entries(bs).len() == nonempty_blocks(bs).len(),
        forall|i: int|
            0 <= i < nonempty_blocks(bs).len() ==> block_entry(nonempty_blocks(bs)[i], i == 0)
                == Some(#[trigger] block_entries(bs)[i]),
    decreases bs.len(),
{
    if bs.len() > 0 {
        let d = bs.drop_last();
        assert forall|i: int| 0 <= i < d.len() implies names_worktree(#[trigger] d[i]) by {
            assert(d[i] == bs[i]);
        }
        lemma_entries_per_block(d);
        assert(names_worktree(bs[bs.len() - 1]));
        let n = nonempty_blocks(bs);
        let nd = nonempty_blocks(d);
        assert(bs =~= d.push(bs.last()));
        d.lemma_filter_push(bs.last(), |b: Seq<Seq<char>>| b.len() > 0);
        let r = block_entries(d);
        if bs.last().len() > 0 {
            assert(n == nd.push(bs.last()));
            let w = block_entry(bs.last(), r.len() == 0);
            assert(w is Some);
            assert(block_entries(bs) == r.push(w->0));
            assert forall|i: int| 0 <= i < n.len() implies block_entry(n[i], i == 0) == Some(
                #[trigger] block_entries(bs)[i],
            ) by {
                if i < nd.len() {
                    assert(n[i] == nd[i]);
                    assert(block_entries(bs)[i] == r[i]);
                }
            }
        } else {
            assert(n == nd);
            assert(last_value(bs.last(), "worktree "@) is None);
            assert(block_entries(bs) == r);
        }
    }
}

/// Law: when every block of the output, the last one included, either is
/// empty or holds a `worktree <path>` line, the list has exactly one entry
/// per non-empty block (blocks being separated by one or more blank
/// lines), in order; entry `i` is what block `i` describes (`block_entry`):
/// its path from the `worktree` line, its head from the `HEAD` line (empty
/// when absent), its branch from the last `branch`/`detached` line, locked,
/// prunable or bare when some line says so, and main exactly when `i == 0`.
pub proof fn lemma_worktree_entries(output: Seq<char>)
    requires
        forall|i: int|
            0 <= i < blocks(lines(output)).len() ==> names_worktree(
                #[trigger] blocks(lines(output))[i],
            ),
    ensures
        spec_worktree_list(output).len() == nonempty_blocks(blocks(lines(output))).len(),
        forall|i: int|
            0 <= i < spec_worktree_list(output).len() ==> block_entry(
                nonempty_blocks(blocks(lines(output)))[i],
                i == 0,
            ) == Some(#[trigger] spec_worktree_list(output)[i]),
{
    let bs = blocks(lines(output));
    assert forall|i: int| 0 <= i < bs.len() - 1 implies names_worktree(#[trigger] bs[i]) by {}
    lemma_worktree_list_by_blocks(output);
    lemma_entries_per_block(bs);
}

pub open spec fn views_of(v: Seq<WorktreeInfo>) -> Seq<WorktreeModel> {
    v.map_values(|w: WorktreeInfo| w@)
}

pub open spec fn opt_chars(o: Option<Vec<char>>) -> Option<Seq<char>> {
    match o {
        Some(v) => Some(v@),
        None => None,
    }
}

/// The parser's state as executable values.
struct Reader {
    path: Option<Vec<char>>,
    head: Vec<char>,
    branch: Option<Vec<char>>,
    locked: bool,
    prunable: bool,
    bare: bool,
    done: Vec<WorktreeInfo>,
}

impl Reader {
    spec fn model(&self) -> ListState {
        ListState {
            path: opt_chars(self.path),
            head: self.head@,
            branch: opt_chars(self.branch),
            locked: self.locked,
            prunable: self.prunable,
            bare: self.bare,
            done: views_of(self.done@),
        }
    }

    fn flush(&mut self)
        ensures
            final(self).model() == flush(old(self).model()),
    {
        match self.path.take() {
            Some(p) => {
                let path = from_chars(&p);
                let name = repo_name(path.as_str());
                let head = from_chars(&self.head);
                let branch = match &self.branch {
                    Some(b) => Some(from_chars(b)),
                    None => None,
                };
                let is_main = self.done.len() == 0;
                let ghost prev = views_of(self.done@);
                self.done.push(
                    WorktreeInfo {
                        name,
                        path,
                        head,
                        branch,
                        is_locked: self.locked,
                        is_prunable: self.prunable,
                        is_bare: self.bare,
                        is_main,
                    },
                );
                self.head = Vec::new();
                self.branch = None;
                self.locked = false;
                self.prunable = false;
                self.bare = false;
                assert(views_of(self.done@) =~= prev.push(self.done@.last()@));
            },
            None => {},
        }
    }

    fn step(&mut self, line: &[char])
        ensures
            final(self).model() == step(old(self).model(), line@),
    {
        if line.len() == 0 {
            self.flush();
            return;
        }
        if let Some(rest) = strip_prefix_chars(line, &to_chars("worktree ")) {
            self.path = Some(rest);
            return;
        }
        if let Some(rest) = strip_prefix_chars(line, &to_chars("HEAD ")) {
            self.head = rest;
            return;
        }
        if let Some(rest) = strip_prefix_chars(line, &to_chars("branch ")) {
            let refs = to_chars("refs/heads/");
            proof {
                reveal_strlit("refs/heads/");
            }
            self.branch = Some(trim_start_seq_chars(&rest, &refs));
            return;
        }
        if eq_str(line, "detached") {
            self.branch = None;
            return;
        }
        if eq_str(line, "bare") {
            self.bare = true;
            return;
        }
        assert(line@.skip(0) =~= line@);
        if has_prefix_at(line, 0, &to_chars("locked")) {
            self.locked = true;
            return;
        }
        if has_prefix_at(line, 0, &to_chars("prunable")) {
            self.prunable = true;
            return;
        }
    }
}

/// Parses `git worktree list --porcelain`: blank-line-separated entries of
/// `key[ value]` lines; git lists the main worktree first.
pub fn parse_worktree_list(output: &str) -> (r: Vec<WorktreeInfo>)
    ensures
        views_of(r@) == spec_worktree_list(output@),
{
    let text = to_chars(output);
    let ls = lines_of(&text);
    let ghost lv = lines(output@);
    let mut rd = Reader {
        path: None,
        head: Vec::new(),
        branch: None,
        locked: false,
        prunable: false,
        bare: false,
        done: Vec::new(),
    };
    assert(rd.model().done =~= Seq::<WorktreeModel>::empty());
    assert(rd.model().head =~= Seq::<char>::empty());
    let mut i: usize = 0;
    while i < ls.len()
        invariant
            views(ls@) == lv,
            i <= ls@.len(),
            rd.model() == run(lv.take(i as int)),
        decreases ls@.len() - i,
    {
        assert(lv.take(i + 1).drop_last() =~= lv.take(i as int));
        assert(ls@[i as int]@ == lv[i as int]);
        rd.step(&ls[i]);
        i += 1;
    }
    assert(lv.take(ls@.len() as int) =~= lv);
    rd.flush();
    rd.done
}

/// `git worktree add -b <branch> <path>` for a new branch, else
/// `git worktree add <path> <branch>`.
pub fn add_args(worktree_path: &str, branch: &str, create_branch: bool) -> (r: Vec<String>)
    ensures
        arg_views(r@) == if create_branch {
            seq!["worktree"@, "add"@, "-b"@, branch@, worktree_path@]
        } else {
            seq!["worktree"@, "add"@, worktree_path@, branch@]
        },
{
    let mut v: Vec<String> = Vec::new();
    v.push(string_of("worktree"));
    v.push(string_of("add"));
    if create_branch {
        v.push(string_of("-b"));
        v.push(string_of(branch));
        v.push(string_of(worktree_path));
    } else {
        v.push(string_of(worktree_path));
        v.push(string_of(branch));
    }
    assert(arg_views(v@) =~= if create_branch {
        seq!["worktree"@, "add"@, "-b"@, branch@, worktree_path@]
    } else {
        seq!["worktree"@, "add"@, worktree_path@, branch@]
    });
    v
}

/// `git worktree remove [--force] <path>`.
pub fn remove_args(worktree_path: &str, force: bool) -> (r: Vec<String>)
    ensures
        arg_views(r@) == seq!["worktree"@, "remove"@] + (if force {
            seq!["--force"@]
        } else {
            seq![]
        }) + seq![worktree_path@],
{
    let mut v: Vec<String> = Vec::new();
    v.push(string_of("worktree"));
    v.push(string_of("remove"));
    if force {
        v.push(string_of("--force"));
    }
    v.push(string_of(worktree_path));
    assert(arg_views(v@) =~= seq!["worktree"@, "remove"@] + (if force {
        seq!["--force"@]
    } else {
        seq![]
    }) + seq![worktree_path@]);
    v
}

/// `git worktree lock [--reason <reason>] <path>`.
pub fn lock_args(worktree_path: &str, reason: Option<String>) -> (r: Vec<String>)
    ensures
        arg_views(r@) == seq!["worktree"@, "lock"@] + (match reason {
            Some(x) => seq!["--reason"@, x@],
            None => seq![],
        }) + seq![worktree_path@],
{
    let mut v: Vec<String> = Vec::new();
    v.push(string_of("worktree"));
    v.push(string_of("lock"));
    let ghost mid: Seq<Seq<char>> = match reason {
        Some(ref x) => seq!["--reason"@, x@],
        None => seq![],
    };
    match reason {
        Some(x) => {
            v.push(string_of("--reason"));
            v.push(x);
        },
        None => {},
    }
    v.push(string_of(worktree_path));
    assert(arg_views(v@) =~= seq!["worktree"@, "lock"@] + mid + seq![worktree_path@]);
    v
}

} // verus!
