//! Putting the list together: the gathered worktrees, then the branches
//! without a worktree, sorted for display.
//!
//! A worktree that could not be gathered fails the whole list. A branch that
//! could not be gathered is left out and reported on the side.

use vstd::prelude::*;
use vstd::seq_lib::lemma_multiset_commutative;
use crate::accessor::GitError;
use crate::model::{BranchInfo, ListData, ListItem, WorktreeInfo};
use crate::styling::Style;

verus! {

/// A branch that was left out of the list, and why.
#[derive(Debug)]
pub struct BranchFailure {
    pub branch: String,
    pub error: GitError,
}

/// The warning for a branch that was left out: a yellow line that names the
/// branch in bold and gives the error.
pub open spec fn warning_text(failure: BranchFailure) -> Seq<char> {
    seq!['🟡', ' '] + Style::spec_warning().start() + "Failed to enrich branch "@
        + Style::spec_warning_bold().wrap(failure.branch@) + seq![':', ' ']
        + failure.error.spec_message() + Style::spec_warning().reset()
}

/// The hint that follows the warning.
pub open spec fn hint_text() -> Seq<char> {
    seq!['💡', ' '] + Style::spec_dimmed().wrap(
        "This branch will be shown with limited information"@,
    )
}

impl BranchFailure {
    /// The line that warns of the failure.
    pub fn warning(&self) -> (out: String)
        ensures
            out@ == warning_text(*self),
    {
        let mut out = String::new();
        out.push('🟡');
        out.push(' ');
        Style::warning().write_start(&mut out);
        out.append("Failed to enrich branch ");
        Style::warning_bold().write(&mut out, self.branch.as_str());
        out.push(':');
        out.push(' ');
        out.append(self.error.message().as_str());
        Style::warning().write_reset(&mut out);
        assert(out@ =~= warning_text(*self));
        out
    }

    /// The line that says what the failure means for the list.
    pub fn hint() -> (out: String)
        ensures
            out@ == hint_text(),
    {
        let mut out = String::new();
        out.push('💡');
        out.push(' ');
        Style::dimmed().write(&mut out, "This branch will be shown with limited information");
        assert(out@ =~= hint_text());
        out
    }
}

/// The outcome of gathering one branch, with the branch's name.
#[derive(Debug)]
pub struct BranchResult {
    pub branch: String,
    pub result: Result<BranchInfo, GitError>,
}

/// The finished list with the branches that were left out.
#[derive(Debug)]
pub struct Gathered {
    pub data: ListData,
    pub failures: Vec<BranchFailure>,
}

/// The text of an optional path.
pub open spec fn path_text(path: Option<String>) -> Option<Seq<char>> {
    match path {
        Some(p) => Some(p@),
        None => None,
    }
}

/// Whether the item is the worktree at the current path.
pub open spec fn is_current(item: ListItem, current: Option<Seq<char>>) -> bool {
    item.spec_worktree_path() is Some && item.spec_worktree_path() == current
}

/// The class that an item sorts in: 0 for the primary worktree, 1 for the
/// current worktree, 2 for everything else.
pub open spec fn priority(item: ListItem, current: Option<Seq<char>>) -> nat {
    if item.spec_is_primary() {
        0
    } else if is_current(item, current) {
        1
    } else {
        2
    }
}

/// Whether `a` must stand before `b`: a lower class, or the same class and a
/// later commit.
pub open spec fn sorts_before(a: ListItem, b: ListItem, current: Option<Seq<char>>) -> bool {
    priority(a, current) < priority(b, current) || (priority(a, current) == priority(b, current)
        && a.spec_commit_timestamp() > b.spec_commit_timestamp())
}

/// Whether the items stand by class, and within a class by commit time, the
/// latest first.
pub open spec fn is_sorted(items: Seq<ListItem>, current: Option<Seq<char>>) -> bool {
    forall|i: int, j: int|
        0 <= i < j < items.len() ==> !sorts_before(#[trigger] items[j], #[trigger] items[i], current)
}

/// The items of one class and one commit time, in the order in which they
/// stand in `items`.
pub open spec fn of_rank(items: Seq<ListItem>, current: Option<Seq<char>>, class: nat, time: i64) -> Seq<
    ListItem,
> {
    items.filter(
        |item: ListItem| priority(item, current) == class && item.spec_commit_timestamp() == time,
    )
}

/// Whether `sorted` holds the items of `items`, each as often, by class and
/// commit time, with items of the same class and time in the order in which
/// they stood. Only one sequence does.
pub open spec fn is_stable_sort_of(
    sorted: Seq<ListItem>,
    items: Seq<ListItem>,
    current: Option<Seq<char>>,
) -> bool {
    &&& is_sorted(sorted, current)
    &&& sorted.to_multiset() == items.to_multiset()
    &&& forall|class: nat, time: i64| #[trigger]
        of_rank(sorted, current, class, time) == of_rank(items, current, class, time)
}

/// Filtering a sequence of one item keeps it or leaves nothing.
proof fn lemma_filter_single(item: ListItem, pred: spec_fn(ListItem) -> bool)
    ensures
        seq![item].filter(pred) == if pred(item) {
            seq![item]
        } else {
            Seq::<ListItem>::empty()
        },
{
    reveal(Seq::filter);
    assert(seq![item].drop_last() =~= Seq::<ListItem>::empty());
    assert(seq![item].drop_last().filter(pred) =~= Seq::<ListItem>::empty());
    assert(seq![item].last() == item);
    assert(Seq::<ListItem>::empty().push(item) =~= seq![item]);
}

/// Filtering leaves nothing of a sequence in which no item passes.
proof fn lemma_filter_none(items: Seq<ListItem>, pred: spec_fn(ListItem) -> bool)
    requires
        forall|i: int| 0 <= i < items.len() ==> !pred(#[trigger] items[i]),
    ensures
        items.filter(pred) == Seq::<ListItem>::empty(),
    decreases items.len(),
{
    reveal(Seq::filter);
    if items.len() > 0 {
        assert forall|i: int| 0 <= i < items.drop_last().len() implies !pred(
            #[trigger] items.drop_last()[i],
        ) by {
            assert(items.drop_last()[i] == items[i]);
        }
        lemma_filter_none(items.drop_last(), pred);
        assert(!pred(items[items.len() - 1]));
    }
}

fn class_of(item: &ListItem, current: &Option<String>) -> (class: u8)
    ensures
        class == priority(*item, path_text(*current)),
{
    if item.is_primary() {
        0
    } else {
        let at_current = match (item.worktree_path(), current) {
            (Some(path), Some(cur)) => *path == *cur,
            _ => false,
        };
        if at_current {
            1
        } else {
            2
        }
    }
}

fn goes_before(a: &ListItem, b: &ListItem, current: &Option<String>) -> (before: bool)
    ensures
        before == sorts_before(*a, *b, path_text(*current)),
{
    let class_a = class_of(a, current);
    let class_b = class_of(b, current);
    class_a < class_b || (class_a == class_b && a.commit_timestamp() > b.commit_timestamp())
}

/// Sort the items: the primary worktree first, the current worktree next,
/// then the rest; within each class the latest commit first, and items with
/// the same commit time in the order given.
pub fn sort_items(items: Vec<ListItem>, current: &Option<String>) -> (sorted: Vec<ListItem>)
    ensures
        is_stable_sort_of(sorted@, items@, path_text(*current)),
{
    let ghost cur = path_text(*current);
    let mut rest = items;
    let mut sorted: Vec<ListItem> = Vec::new();
    proof {
        assert(rest@.skip(rest@.len() as int) =~= Seq::<ListItem>::empty());
        assert(sorted@ =~= items@.skip(rest@.len() as int));
    }
    while rest.len() > 0
        invariant
            cur == path_text(*current),
            rest@ == items@.take(rest@.len() as int),
            rest@.len() <= items@.len(),
            is_stable_sort_of(sorted@, items@.skip(rest@.len() as int), cur),
        decreases rest.len(),
    {
        let ghost k = rest@.len() as int;
        let ghost tail = items@.skip(k);
        let item = rest.pop().unwrap();
        assert(item == items@[k - 1]);
        let mut at: usize = 0;
        while at < sorted.len() && goes_before(&sorted[at], &item, current)
            invariant
                at <= sorted.len(),
                cur == path_text(*current),
                forall|i: int| 0 <= i < at ==> sorts_before(#[trigger] sorted@[i], item, cur),
            decreases sorted.len() - at,
        {
            at += 1;
        }
        let ghost before = sorted@;
        sorted.insert(at, item);
        proof {
            let p = at as int;
            let new_tail = items@.skip(k - 1);
            assert(new_tail =~= seq![item] + tail);
            assert(sorted@ =~= before.take(p) + seq![item] + before.skip(p));
            assert(before =~= before.take(p) + before.skip(p));
            // Nothing from `at` on goes before the new item.
            assert forall|j: int| p <= j < before.len() implies !sorts_before(
                #[trigger] before[j],
                item,
                cur,
            ) by {
                if p < before.len() && j > p {
                    assert(!sorts_before(before[j], before[p], cur));
                }
            }
            assert(is_sorted(sorted@, cur)) by {
                assert forall|i: int, j: int| 0 <= i < j < sorted@.len() implies !sorts_before(
                    #[trigger] sorted@[j],
                    #[trigger] sorted@[i],
                    cur,
                ) by {
                    if j < p {
                        assert(sorted@[i] == before[i] && sorted@[j] == before[j]);
                    } else if j == p {
                        assert(sorted@[i] == before[i]);
                    } else if i < p {
                        assert(sorted@[i] == before[i] && sorted@[j] == before[j - 1]);
                    } else if i == p {
                        assert(sorted@[j] == before[j - 1]);
                    } else {
                        assert(sorted@[i] == before[i - 1] && sorted@[j] == before[j - 1]);
                    }
                }
            }
            assert(sorted@.to_multiset() == new_tail.to_multiset()) by {
                lemma_multiset_commutative(before.take(p), before.skip(p));
                lemma_multiset_commutative(before.take(p), seq![item]);
                lemma_multiset_commutative(before.take(p) + seq![item], before.skip(p));
                lemma_multiset_commutative(seq![item], tail);
                assert(sorted@.to_multiset() =~= new_tail.to_multiset());
            }
            assert forall|class: nat, time: i64| #[trigger]
                of_rank(sorted@, cur, class, time) == of_rank(new_tail, cur, class, time) by {
                let pred = |x: ListItem|
                    priority(x, cur) == class && x.spec_commit_timestamp() == time;
                Seq::filter_distributes_over_add(before.take(p), seq![item], pred);
                Seq::filter_distributes_over_add(before.take(p) + seq![item], before.skip(p), pred);
                Seq::filter_distributes_over_add(before.take(p), before.skip(p), pred);
                Seq::filter_distributes_over_add(seq![item], tail, pred);
                assert(of_rank(before, cur, class, time) == of_rank(tail, cur, class, time));
                lemma_filter_single(item, pred);
                if pred(item) {
                    // What stands before the new item goes before it, so it is
                    // of another rank.
                    let front = before.take(p);
                    assert forall|i: int| 0 <= i < front.len() implies !pred(
                        #[trigger] front[i],
                    ) by {
                        assert(sorts_before(before[i], item, cur));
                    }
                    lemma_filter_none(front, pred);
                    assert(of_rank(sorted@, cur, class, time) =~= seq![item].filter(pred)
                        + before.filter(pred));
                } else {
                    assert(of_rank(sorted@, cur, class, time) =~= before.filter(pred));
                    assert(of_rank(new_tail, cur, class, time) =~= tail.filter(pred));
                }
            }
            assert(rest@ =~= items@.take(k - 1));
        }
    }
    proof {
        assert(items@.skip(0) =~= items@);
    }
    sorted
}

/// In a sorted list every primary worktree stands before everything else,
/// so a primary worktree, if there is one, stands first; the current
/// worktree follows the primary ones, before all others; and within each of
/// the three classes the commit times never rise.
pub proof fn lemma_sorted_order(items: Seq<ListItem>, current: Option<Seq<char>>)
    requires
        is_sorted(items, current),
    ensures
        (exists|i: int| 0 <= i < items.len() && (#[trigger] items[i]).spec_is_primary())
            ==> items[0].spec_is_primary(),
        forall|i: int, j: int|
            0 <= i < j < items.len() && (#[trigger] items[j]).spec_is_primary() ==> (
            #[trigger] items[i]).spec_is_primary(),
        forall|i: int, j: int|
            0 <= i < j < items.len() && is_current(#[trigger] items[j], current) ==> (
            #[trigger] items[i]).spec_is_primary() || is_current(items[i], current),
        forall|i: int, j: int|
            0 <= i < j < items.len() && priority(#[trigger] items[i], current) == priority(
                #[trigger] items[j],
                current,
            ) ==> items[i].spec_commit_timestamp() >= items[j].spec_commit_timestamp(),
{
    if exists|i: int| 0 <= i < items.len() && (#[trigger] items[i]).spec_is_primary() {
        let i = choose|i: int| 0 <= i < items.len() && (#[trigger] items[i]).spec_is_primary();
        if i > 0 {
            assert(!sorts_before(items[i], items[0], current));
        }
    }
    assert forall|i: int, j: int|
        0 <= i < j < items.len() && (#[trigger] items[j]).spec_is_primary() implies (
        #[trigger] items[i]).spec_is_primary() by {
        assert(!sorts_before(items[j], items[i], current));
    }
    assert forall|i: int, j: int|
        0 <= i < j < items.len() && is_current(#[trigger] items[j], current) implies (
        #[trigger] items[i]).spec_is_primary() || is_current(items[i], current) by {
        assert(!sorts_before(items[j], items[i], current));
    }
    assert forall|i: int, j: int|
        0 <= i < j < items.len() && priority(#[trigger] items[i], current) == priority(
            #[trigger] items[j],
            current,
        ) implies items[i].spec_commit_timestamp() >= items[j].spec_commit_timestamp() by {
        assert(!sorts_before(items[j], items[i], current));
    }
}

/// Sorting keeps a primary worktree: where the items hold one, the sorted
/// list starts with one.
pub proof fn lemma_primary_sorts_first(
    sorted: Seq<ListItem>,
    items: Seq<ListItem>,
    current: Option<Seq<char>>,
    at: int,
)
    requires
        is_stable_sort_of(sorted, items, current),
        0 <= at < items.len(),
        items[at].spec_is_primary(),
    ensures
        sorted.len() == items.len(),
        sorted[0].spec_is_primary(),
{
    broadcast use vstd::seq_lib::group_to_multiset_ensures;

    vstd::seq_lib::to_multiset_len(sorted);
    vstd::seq_lib::to_multiset_len(items);
    assert(items.contains(items[at]));
    assert(sorted.to_multiset().count(items[at]) > 0);
    assert(sorted.contains(items[at]));
    let i = choose|i: int| 0 <= i < sorted.len() && sorted[i] == items[at];
    assert(sorted[i].spec_is_primary());
    lemma_sorted_order(sorted, current);
}

/// Whether `at` is the place of the first failure among the results.
pub open spec fn is_first_failure(results: Seq<Result<WorktreeInfo, GitError>>, at: int) -> bool {
    &&& 0 <= at < results.len()
    &&& results[at] is Err
    &&& forall|k: int| 0 <= k < at ==> (#[trigger] results[k]) is Ok
}

/// The rows of the worktrees, in the order of the results, if every
/// worktree was gathered; else the first failure.
pub fn collect_worktrees(results: Vec<Result<WorktreeInfo, GitError>>) -> (collected: Result<
    Vec<ListItem>,
    GitError,
>)
    ensures
        match collected {
            Ok(items) => {
                &&& items@.len() == results@.len()
                &&& forall|i: int|
                    0 <= i < results@.len() ==> ((#[trigger] results@[i]) matches Ok(info)
                        && items@[i] == ListItem::Worktree(info))
            },
            Err(e) => exists|at: int|
                is_first_failure(results@, at) && #[trigger] results@[at] == Err::<
                    WorktreeInfo,
                    GitError,
                >(e),
        },
{
    let mut items: Vec<ListItem> = Vec::new();
    for result in it: results
        invariant
            it.seq() == results@,
            items@.len() == it.index(),
            forall|i: int|
                0 <= i < it.index() ==> ((#[trigger] results@[i]) matches Ok(info) && items@[i]
                    == ListItem::Worktree(info)),
    {
        match result {
            Ok(info) => {
                items.push(ListItem::Worktree(info));
            },
            Err(e) => {
                assert(is_first_failure(results@, it.index() as int));
                return Err(e);
            },
        }
    }
    Ok(items)
}

/// The rows of the branches that were gathered, in the order of the
/// results.
pub open spec fn gathered_branches(results: Seq<BranchResult>) -> Seq<ListItem>
    decreases results.len(),
{
    if results.len() == 0 {
        Seq::empty()
    } else {
        let front = gathered_branches(results.drop_last());
        match results.last().result {
            Ok(info) => front.push(ListItem::Branch(info)),
            Err(_) => front,
        }
    }
}

/// The branches that failed, in the order of the results.
pub open spec fn failed_branches(results: Seq<BranchResult>) -> Seq<BranchFailure>
    decreases results.len(),
{
    if results.len() == 0 {
        Seq::empty()
    } else {
        let front = failed_branches(results.drop_last());
        match results.last().result {
            Ok(_) => front,
            Err(error) => front.push(BranchFailure { branch: results.last().branch, error }),
        }
    }
}

/// Add the rows of the branches that were gathered to the items, and give
/// back the branches that failed.
pub fn merge_branches(items: &mut Vec<ListItem>, results: Vec<BranchResult>) -> (failures: Vec<
    BranchFailure,
>)
    ensures
        final(items)@ == old(items)@ + gathered_branches(results@),
        failures@ == failed_branches(results@),
{
    let mut failures: Vec<BranchFailure> = Vec::new();
    proof {
        assert(results@.take(0) =~= Seq::<BranchResult>::empty());
        assert(items@ =~= old(items)@ + gathered_branches(results@.take(0)));
    }
    for entry in it: results
        invariant
            it.seq() == results@,
            items@ == old(items)@ + gathered_branches(results@.take(it.index() as int)),
            failures@ == failed_branches(results@.take(it.index() as int)),
    {
        let ghost k = it.index() as int;
        proof {
            assert(results@.take(k + 1).drop_last() =~= results@.take(k));
            assert(results@.take(k + 1).last() == entry);
        }
        let BranchResult { branch, result } = entry;
        match result {
            Ok(info) => {
                items.push(ListItem::Branch(info));
                assert(items@ =~= old(items)@ + gathered_branches(results@.take(k + 1)));
            },
            Err(error) => {
                failures.push(BranchFailure { branch, error });
            },
        }
    }
    proof {
        assert(results@.take(results@.len() as int) =~= results@);
    }
    failures
}

/// The rows of the worktrees.
pub open spec fn worktree_rows(results: Seq<Result<WorktreeInfo, GitError>>) -> Seq<ListItem> {
    Seq::new(
        results.len(),
        |i: int|
            match results[i] {
                Ok(info) => ListItem::Worktree(info),
                Err(_) => arbitrary(),
            },
    )
}

/// Put the list together from what was gathered.
///
/// No worktree at all is no data, and no error. A worktree that failed fails
/// the list with its error, the first in order if there are several. A
/// branch that failed is left out and handed back among the failures. The
/// rows that remain, worktrees before branches, are sorted.
pub fn gather_list_data(
    worktree_results: Vec<Result<WorktreeInfo, GitError>>,
    branch_results: Vec<BranchResult>,
    current_worktree_path: Option<String>,
) -> (gathered: Result<Option<Gathered>, GitError>)
    ensures
        match gathered {
            Ok(None) => worktree_results@.len() == 0,
            Ok(Some(g)) => {
                &&& worktree_results@.len() > 0
                &&& forall|i: int|
                    0 <= i < worktree_results@.len() ==> (#[trigger] worktree_results@[i]) is Ok
                &&& is_stable_sort_of(
                    g.data.items@,
                    worktree_rows(worktree_results@) + gathered_branches(branch_results@),
                    path_text(current_worktree_path),
                )
                &&& g.data.current_worktree_path == current_worktree_path
                &&& g.failures@ == failed_branches(branch_results@)
            },
            Err(e) => exists|at: int|
                is_first_failure(worktree_results@, at) && #[trigger] worktree_results@[at] == Err::<
                    WorktreeInfo,
                    GitError,
                >(e),
        },
{
    if worktree_results.len() == 0 {
        return Ok(None);
    }
    let items = match collect_worktrees(worktree_results) {
        Ok(items) => items,
        Err(e) => {
            return Err(e);
        },
    };
    assert(items@ =~= worktree_rows(worktree_results@));
    Ok(Some(finish_list(items, branch_results, current_worktree_path)))
}

/// Whether the branches are to be gathered: they were asked for, there is a
/// worktree, and every worktree was gathered. A worktree that failed ends
/// the list before any branch is looked at.
pub fn branches_are_due(
    show_branches: bool,
    worktree_results: &Vec<Result<WorktreeInfo, GitError>>,
) -> (due: bool)
    ensures
        due == (show_branches && worktree_results@.len() > 0 && forall|i: int|
            0 <= i < worktree_results@.len() ==> (#[trigger] worktree_results@[i]) is Ok),
{
    if !show_branches || worktree_results.len() == 0 {
        return false;
    }
    let mut i: usize = 0;
    while i < worktree_results.len()
        invariant
            i <= worktree_results.len(),
            forall|k: int| 0 <= k < i ==> (#[trigger] worktree_results@[k]) is Ok,
        decreases worktree_results.len() - i,
    {
        if worktree_results[i].is_err() {
            return false;
        }
        i += 1;
    }
    true
}

/// Finish the list from the rows of the worktrees: add the branches that
/// were gathered, hand back those that failed, and sort.
pub fn finish_list(
    worktree_items: Vec<ListItem>,
    branch_results: Vec<BranchResult>,
    current_worktree_path: Option<String>,
) -> (gathered: Gathered)
    ensures
        is_stable_sort_of(
            gathered.data.items@,
            worktree_items@ + gathered_branches(branch_results@),
            path_text(current_worktree_path),
        ),
        gathered.data.current_worktree_path == current_worktree_path,
        gathered.failures@ == failed_branches(branch_results@),
{
    let mut items = worktree_items;
    let failures = merge_branches(&mut items, branch_results);
    let sorted = sort_items(items, &current_worktree_path);
    Gathered { data: ListData { items: sorted, current_worktree_path }, failures }
}

} // verus!
