//! Grouping the processes of the host by owning user and application.

use crate::energy_group::ProcessGroup;
use crate::errors::MonitoringError;
use crate::text::{
    decimal_digits, first_index_of, lemma_first_index_of, text_view, to_chars, u32_to_string,
};
use vstd::prelude::*;
use vstd::string::*;

verus! {

/// What the host reported about one process.
#[derive(Debug)]
pub struct ProcessInfo {
    /// The process identifier.
    pub pid: usize,
    /// The identifier of the owning user, where the host tells it.
    pub uid: Option<u32>,
    /// The name that the user database has for that user, if it has one.
    pub user_name: Option<String>,
    /// The name of the process.
    pub name: String,
}

/// A group of processes as a mathematical value.
pub struct ProcessGroupView {
    pub user: Seq<char>,
    pub task: Seq<char>,
    pub pids: Seq<usize>,
}

impl View for ProcessGroup {
    type V = ProcessGroupView;

    open spec fn view(&self) -> ProcessGroupView {
        ProcessGroupView { user: self.user@, task: self.task@, pids: self.pids@ }
    }
}

impl DeepView for ProcessGroup {
    type V = ProcessGroupView;

    open spec fn deep_view(&self) -> ProcessGroupView {
        self@
    }
}

/// The name to show for the user `uid`: the name that the user database has,
/// or the number where it has none.
pub open spec fn username_of(uid: u32, known: Option<Seq<char>>) -> Seq<char> {
    match known {
        Some(name) => name,
        None => decimal_digits(uid as nat),
    }
}

/// The application that a process name stands for: the name up to its first slash.
pub open spec fn group_name_of(name: Seq<char>) -> Seq<char> {
    name.subrange(0, first_index_of(name, '/'))
}

/// The user that a process is grouped under: `unknown` where the host does
/// not tell the owner.
pub open spec fn user_of(info: ProcessInfo) -> Seq<char> {
    match info.uid {
        Some(uid) => username_of(uid, text_view(info.user_name)),
        None => "unknown"@,
    }
}

/// The position of the group of `user` and `task` among `groups`, or their
/// number where there is no such group.
pub open spec fn group_index(groups: Seq<ProcessGroupView>, user: Seq<char>, task: Seq<char>)
    -> int
    decreases groups.len(),
{
    if groups.len() == 0 {
        0
    } else if groups[0].user == user && groups[0].task == task {
        0
    } else {
        1 + group_index(groups.drop_first(), user, task)
    }
}

/// The groups with one more process: added to the group of its user and
/// application, or as a new group at the end where there is none.
pub open spec fn with_process(
    groups: Seq<ProcessGroupView>,
    user: Seq<char>,
    task: Seq<char>,
    pid: usize,
) -> Seq<ProcessGroupView> {
    let k = group_index(groups, user, task);
    if k < groups.len() {
        groups.update(k, ProcessGroupView { user, task, pids: groups[k].pids.push(pid) })
    } else {
        groups.push(ProcessGroupView { user, task, pids: seq![pid] })
    }
}

/// The groups of the first `upto` processes, taken in order.
pub open spec fn grouped(processes: Seq<ProcessInfo>, upto: int) -> Seq<ProcessGroupView>
    decreases upto,
{
    if upto <= 0 {
        Seq::empty()
    } else {
        with_process(
            grouped(processes, upto - 1),
            user_of(processes[upto - 1]),
            group_name_of(processes[upto - 1].name@),
            processes[upto - 1].pid,
        )
    }
}

/// Whether no two groups have the same user and application.
pub open spec fn distinct_groups(groups: Seq<ProcessGroupView>) -> bool {
    forall|i: int, j: int|
        0 <= i < j < groups.len() ==> !((#[trigger] groups[i]).user == (#[trigger] groups[j]).user
            && groups[i].task == groups[j].task)
}

/// Those of `pids` that are among `selected`, in their order.
pub open spec fn retained(pids: Seq<usize>, selected: Seq<usize>) -> Seq<usize>
    decreases pids.len(),
{
    if pids.len() == 0 {
        Seq::empty()
    } else if selected.contains(pids.last()) {
        retained(pids.drop_last(), selected).push(pids.last())
    } else {
        retained(pids.drop_last(), selected)
    }
}

/// The groups with only their processes among `selected`, without the groups
/// that have none of them.
pub open spec fn pruned(groups: Seq<ProcessGroupView>, selected: Seq<usize>) -> Seq<
    ProcessGroupView,
>
    decreases groups.len(),
{
    if groups.len() == 0 {
        Seq::empty()
    } else {
        let last = groups.last();
        let kept = retained(last.pids, selected);
        if kept.len() > 0 {
            pruned(groups.drop_last(), selected).push(
                ProcessGroupView { user: last.user, task: last.task, pids: kept },
            )
        } else {
            pruned(groups.drop_last(), selected)
        }
    }
}

/// The groups to monitor, or the description of why there are none.
///
/// With no selection these are the groups of all processes. With a selection
/// they are the groups of the selected processes; an empty selection selects
/// nothing, without looking at the processes at all.
pub open spec fn collected(selected: Option<Seq<usize>>, processes: Seq<ProcessInfo>) -> Result<
    Seq<ProcessGroupView>,
    Seq<char>,
> {
    let all = grouped(processes, processes.len() as int);
    let groups = match selected {
        Some(pids) => if pids.len() == 0 {
            Seq::empty()
        } else {
            pruned(all, pids)
        },
        None => all,
    };
    if !(selected matches Some(pids) && pids.len() == 0) && processes.len() == 0 {
        Err("No processes found on system"@)
    } else if groups.len() == 0 {
        Err("No process groups found"@)
    } else {
        Ok(groups)
    }
}

/// Where no group in front of position `k` has the user and application, and
/// position `k` is the end or has them, their group is at `k`.
pub proof fn lemma_group_index(
    groups: Seq<ProcessGroupView>,
    user: Seq<char>,
    task: Seq<char>,
    k: int,
)
    requires
        0 <= k <= groups.len(),
        forall|i: int|
            0 <= i < k ==> !((#[trigger] groups[i]).user == user && groups[i].task == task),
        k == groups.len() || (groups[k].user == user && groups[k].task == task),
    ensures
        group_index(groups, user, task) == k,
    decreases groups.len(),
{
    if k > 0 {
        let rest = groups.drop_first();
        assert(!(groups[0].user == user && groups[0].task == task));
        assert forall|i: int| 0 <= i < k - 1 implies !((#[trigger] rest[i]).user == user
            && rest[i].task == task) by {
            assert(rest[i] == groups[i + 1]);
        }
        lemma_group_index(rest, user, task, k - 1);
    }
}

/// The group that is found is at a position, and no group in front of it has
/// the user and application.
pub proof fn lemma_group_index_bounds(
    groups: Seq<ProcessGroupView>,
    user: Seq<char>,
    task: Seq<char>,
)
    ensures
        0 <= group_index(groups, user, task) <= groups.len(),
        forall|i: int|
            0 <= i < group_index(groups, user, task) ==> !((#[trigger] groups[i]).user == user
                && groups[i].task == task),
        group_index(groups, user, task) < groups.len() ==> groups[group_index(
            groups,
            user,
            task,
        )].user == user && groups[group_index(groups, user, task)].task == task,
    decreases groups.len(),
{
    if groups.len() > 0 && !(groups[0].user == user && groups[0].task == task) {
        let rest = groups.drop_first();
        lemma_group_index_bounds(rest, user, task);
        let k = group_index(rest, user, task);
        assert forall|i: int| 0 <= i < k + 1 implies !((#[trigger] groups[i]).user == user
            && groups[i].task == task) by {
            if i > 0 {
                assert(groups[i] == rest[i - 1]);
            }
        }
        if k < rest.len() {
            assert(groups[k + 1] == rest[k]);
        }
    }
}

/// Adding a process keeps the groups apart: no two of them get the same user
/// and application.
pub proof fn lemma_with_process_distinct(
    groups: Seq<ProcessGroupView>,
    user: Seq<char>,
    task: Seq<char>,
    pid: usize,
)
    requires
        distinct_groups(groups),
    ensures
        distinct_groups(with_process(groups, user, task, pid)),
{
    lemma_group_index_bounds(groups, user, task);
    let k = group_index(groups, user, task);
    let next = with_process(groups, user, task, pid);
    assert forall|i: int, j: int| 0 <= i < j < next.len() implies !((#[trigger] next[i]).user == (
    #[trigger] next[j]).user && next[i].task == next[j].task) by {
        if k < groups.len() {
            assert(next[i].user == groups[i].user && next[i].task == groups[i].task);
            assert(next[j].user == groups[j].user && next[j].task == groups[j].task);
        } else {
            if j < groups.len() {
                assert(next[i] == groups[i] && next[j] == groups[j]);
            } else {
                assert(next[i] == groups[i]);
            }
        }
    }
}

/// Grouping puts every user and application into one group only.
pub proof fn lemma_grouped_distinct(processes: Seq<ProcessInfo>, upto: int)
    ensures
        distinct_groups(grouped(processes, upto)),
    decreases upto,
{
    if upto > 0 {
        lemma_grouped_distinct(processes, upto - 1);
        lemma_with_process_distinct(
            grouped(processes, upto - 1),
            user_of(processes[upto - 1]),
            group_name_of(processes[upto - 1].name@),
            processes[upto - 1].pid,
        );
    }
}

/// Every group that pruning leaves has the user and application of one of
/// the groups it was made from.
pub proof fn lemma_pruned_keys(groups: Seq<ProcessGroupView>, selected: Seq<usize>, j: int)
    requires
        0 <= j < pruned(groups, selected).len(),
    ensures
        exists|i: int|
            0 <= i < groups.len() && (#[trigger] groups[i]).user == pruned(groups, selected)[j].user
                && groups[i].task == pruned(groups, selected)[j].task,
    decreases groups.len(),
{
    if groups.len() > 0 {
        let rest = groups.drop_last();
        let last = groups.last();
        if retained(last.pids, selected).len() > 0 && j == pruned(rest, selected).len() {
            assert(groups[groups.len() - 1].user == pruned(groups, selected)[j].user);
        } else {
            lemma_pruned_keys(rest, selected, j);
            let i = choose|i: int|
                0 <= i < rest.len() && (#[trigger] rest[i]).user == pruned(rest, selected)[j].user
                    && rest[i].task == pruned(rest, selected)[j].task;
            assert(groups[i] == rest[i]);
        }
    }
}

/// Pruning keeps the groups apart: no two of them get the same user and application.
pub proof fn lemma_pruned_distinct(groups: Seq<ProcessGroupView>, selected: Seq<usize>)
    requires
        distinct_groups(groups),
    ensures
        distinct_groups(pruned(groups, selected)),
    decreases groups.len(),
{
    if groups.len() > 0 {
        let rest = groups.drop_last();
        let last = groups.last();
        assert(distinct_groups(rest)) by {
            assert forall|i: int, j: int| 0 <= i < j < rest.len() implies !((
            #[trigger] rest[i]).user == (#[trigger] rest[j]).user && rest[i].task
                == rest[j].task) by {
                assert(rest[i] == groups[i] && rest[j] == groups[j]);
            }
        }
        lemma_pruned_distinct(rest, selected);
        let less = pruned(rest, selected);
        let all = pruned(groups, selected);
        if retained(last.pids, selected).len() > 0 {
            assert forall|i: int, j: int| 0 <= i < j < all.len() implies !((
            #[trigger] all[i]).user == (#[trigger] all[j]).user && all[i].task
                == all[j].task) by {
                if j < less.len() {
                    assert(all[i] == less[i] && all[j] == less[j]);
                } else {
                    assert(all[i] == less[i]);
                    lemma_pruned_keys(rest, selected, i);
                    let k = choose|k: int|
                        0 <= k < rest.len() && (#[trigger] rest[k]).user == less[i].user
                            && rest[k].task == less[i].task;
                    assert(rest[k] == groups[k]);
                    assert(groups[groups.len() - 1] == last);
                }
            }
        }
    }
}

/// Grouping at least one process gives at least one group.
pub proof fn lemma_grouped_nonempty(processes: Seq<ProcessInfo>, upto: int)
    requires
        0 < upto,
    ensures
        grouped(processes, upto).len() > 0,
{
    let before = grouped(processes, upto - 1);
    lemma_group_index_bounds(
        before,
        user_of(processes[upto - 1]),
        group_name_of(processes[upto - 1].name@),
    );
}

/// The name to show for the user `uid`: the name that the user database has
/// for it, or the number where it has none.
pub fn resolve_username(uid: u32, known: Option<String>) -> (name: String)
    ensures
        name@ == username_of(uid, text_view(known)),
{
    match known {
        Some(name) => name,
        None => u32_to_string(uid),
    }
}

/// The application that a process name stands for: the name up to its first slash.
pub fn resolve_group_name(name: &str) -> (group: String)
    ensures
        group@ == group_name_of(name@),
{
    let chars = to_chars(name);
    let n = chars.len();
    let mut i: usize = 0;
    while i < n && chars[i] != '/'
        invariant
            i <= n == chars.len(),
            forall|k: int| 0 <= k < i ==> chars@[k] != '/',
        decreases n - i,
    {
        i += 1;
    }
    proof {
        lemma_first_index_of(chars@, '/', i as int);
    }
    String::from_str(name.substring_char(0, i))
}

/// Tells whether `pid` is among `selected`.
fn is_selected(selected: &[usize], pid: usize) -> (found: bool)
    ensures
        found == selected@.contains(pid),
{
    let n = selected.len();
    let mut i: usize = 0;
    while i < n
        invariant
            i <= n == selected.len(),
            forall|k: int| 0 <= k < i ==> selected@[k] != pid,
        decreases n - i,
    {
        if selected[i] == pid {
            return true;
        }
        i += 1;
    }
    false
}

/// Those of `pids` that are among `selected`, in their order.
fn retain_selected(pids: &Vec<usize>, selected: &[usize]) -> (kept: Vec<usize>)
    ensures
        kept@ == retained(pids@, selected@),
{
    let n = pids.len();
    let mut kept: Vec<usize> = Vec::new();
    let mut i: usize = 0;
    while i < n
        invariant
            i <= n == pids.len(),
            kept@ == retained(pids@.subrange(0, i as int), selected@),
        decreases n - i,
    {
        assert(pids@.subrange(0, i + 1).drop_last() =~= pids@.subrange(0, i as int));
        if is_selected(selected, pids[i]) {
            kept.push(pids[i]);
        }
        i += 1;
    }
    assert(pids@.subrange(0, n as int) =~= pids@);
    kept
}

/// Adds one group at the end of `groups`.
fn push_group(groups: &mut Vec<ProcessGroup>, user: String, task: String, pids: Vec<usize>)
    ensures
        final(groups).deep_view() == old(groups).deep_view().push(
            ProcessGroupView { user: user@, task: task@, pids: pids@ },
        ),
{
    groups.push(ProcessGroup { user, task, pids });
    assert(groups.deep_view() =~= old(groups).deep_view().push(
        ProcessGroupView { user: user@, task: task@, pids: pids@ },
    ));
}

/// Adds `pid` to the group at position `k`.
fn push_pid(groups: &mut Vec<ProcessGroup>, k: usize, pid: usize)
    requires
        k < old(groups).len(),
    ensures
        final(groups).deep_view() == old(groups).deep_view().update(
            k as int,
            ProcessGroupView {
                user: old(groups)@[k as int].user@,
                task: old(groups)@[k as int].task@,
                pids: old(groups)@[k as int].pids@.push(pid),
            },
        ),
{
    groups[k].pids.push(pid);
    assert(groups.deep_view() =~= old(groups).deep_view().update(
        k as int,
        ProcessGroupView {
            user: old(groups)@[k as int].user@,
            task: old(groups)@[k as int].task@,
            pids: old(groups)@[k as int].pids@.push(pid),
        },
    ));
}

/// Groups all the processes of the host by user and application, in the
/// order in which each group is first met. No process at all is an error.
pub fn collect_all(processes: &Vec<ProcessInfo>) -> (result: Result<
    Vec<ProcessGroup>,
    MonitoringError,
>)
    ensures
        match result {
            Ok(groups) => processes@.len() > 0 && groups.deep_view() == grouped(
                processes@,
                processes@.len() as int,
            ) && groups@.len() > 0 && distinct_groups(groups.deep_view()),
            Err(error) => processes@.len() == 0 && (
            error matches MonitoringError::ProcessDiscoveryError(text) && text@
                == "No processes found on system"@),
        },
{
    let n = processes.len();
    if n == 0 {
        return Err(
            MonitoringError::ProcessDiscoveryError(String::from_str("No processes found on system")),
        );
    }
    let mut groups: Vec<ProcessGroup> = Vec::new();
    assert(groups.deep_view() =~= Seq::empty());
    let mut i: usize = 0;
    while i < n
        invariant
            i <= n == processes.len(),
            groups.deep_view() == grouped(processes@, i as int),
        decreases n - i,
    {
        let info = &processes[i];
        let user = match info.uid {
            Some(uid) => resolve_username(
                uid,
                match &info.user_name {
                    Some(name) => Some(name.clone()),
                    None => None,
                },
            ),
            None => String::from_str("unknown"),
        };
        let task = resolve_group_name(info.name.as_str());
        let m = groups.len();
        let mut k: usize = 0;
        while k < m && !(groups[k].user == user && groups[k].task == task)
            invariant
                k <= m == groups.len(),
                forall|j: int|
                    0 <= j < k ==> !((#[trigger] groups.deep_view()[j]).user == user@
                        && groups.deep_view()[j].task == task@),
            decreases m - k,
        {
            k += 1;
        }
        proof {
            lemma_group_index(groups.deep_view(), user@, task@, k as int);
        }
        if k < m {
            push_pid(&mut groups, k, info.pid);
        } else {
            let mut pids: Vec<usize> = Vec::new();
            pids.push(info.pid);
            assert(pids@ =~= seq![info.pid]);
            push_group(&mut groups, user, task, pids);
        }
        i += 1;
    }
    proof {
        lemma_grouped_nonempty(processes@, n as int);
        lemma_grouped_distinct(processes@, n as int);
    }
    Ok(groups)
}

/// Keeps only the processes among `selected_pids` in each group, and only
/// the groups that still have a process.
pub fn filter_groups_by_pids(groups: &mut Vec<ProcessGroup>, selected_pids: &[usize])
    ensures
        final(groups).deep_view() == pruned(old(groups).deep_view(), selected_pids@),
        distinct_groups(old(groups).deep_view()) ==> distinct_groups(final(groups).deep_view()),
{
    proof {
        if distinct_groups(groups.deep_view()) {
            lemma_pruned_distinct(groups.deep_view(), selected_pids@);
        }
    }
    let n = groups.len();
    let mut kept_groups: Vec<ProcessGroup> = Vec::new();
    assert(kept_groups.deep_view() =~= Seq::empty());
    let mut i: usize = 0;
    while i < n
        invariant
            i <= n == groups.len(),
            groups == old(groups),
            kept_groups.deep_view() == pruned(
                groups.deep_view().subrange(0, i as int),
                selected_pids@,
            ),
        decreases n - i,
    {
        assert(groups.deep_view().subrange(0, i + 1).drop_last() =~= groups.deep_view().subrange(
            0,
            i as int,
        ));
        assert(groups.deep_view().subrange(0, i + 1).last() == groups@[i as int]@);
        let kept = retain_selected(&groups[i].pids, selected_pids);
        if kept.len() > 0 {
            push_group(&mut kept_groups, groups[i].user.clone(), groups[i].task.clone(), kept);
        }
        i += 1;
    }
    assert(groups.deep_view().subrange(0, n as int) =~= groups.deep_view());
    *groups = kept_groups;
}

/// The groups of processes to monitor. With a selection only the selected
/// processes count, and an empty selection selects nothing; without one all
/// processes count. It is an error where the host has no process, and where
/// no group is left.
pub fn collect_process_groups(selected_pids: Option<Vec<usize>>, processes: &Vec<ProcessInfo>) -> (result:
    Result<Vec<ProcessGroup>, MonitoringError>)
    ensures
        match collected(
            match selected_pids {
                Some(pids) => Some(pids@),
                None => None,
            },
            processes@,
        ) {
            Ok(groups) => result matches Ok(found) && found.deep_view() == groups
                && distinct_groups(groups),
            Err(reason) => result matches Err(MonitoringError::ProcessDiscoveryError(text))
                && text@ == reason,
        },
{
    let groups: Vec<ProcessGroup> = match selected_pids {
        Some(pids) => {
            if pids.len() == 0 {
                let none: Vec<ProcessGroup> = Vec::new();
                assert(none.deep_view() =~= Seq::empty());
                none
            } else {
                match collect_all(processes) {
                    Ok(mut all) => {
                        filter_groups_by_pids(&mut all, pids.as_slice());
                        all
                    },
                    Err(error) => {
                        return Err(error);
                    },
                }
            }
        },
        None => match collect_all(processes) {
            Ok(all) => all,
            Err(error) => {
                return Err(error);
            },
        },
    };
    if groups.len() == 0 {
        return Err(
            MonitoringError::ProcessDiscoveryError(String::from_str("No process groups found")),
        );
    }
    Ok(groups)
}

} // verus!
