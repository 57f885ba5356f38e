//! The workspaces as a module.
use vstd::prelude::*;
use crate::assoc::Assoc;
use crate::data::{BasicDesktopState, BasicWorkspace};
use crate::procs::bar_panel::{push_workspaces, workspaces_view};
use crate::tui::{item_views, stack_view, Axis, Elem, StackItem};

verus! {

/// Whether a monitor has a workspace.
pub open spec fn has_workspace(list: Seq<BasicWorkspace>, monitor: Seq<char>) -> bool {
    exists|i: int|
        0 <= i < list.len() && ((#[trigger] list[i]).monitor matches Some(name) && name@ == monitor)
}

/// What the module shows on each monitor that has a workspace: its workspaces.
pub fn render(state: &BasicDesktopState) -> (r: Assoc<Elem>)
    ensures
        r.wf(),
        forall|monitor: Seq<char>| #[trigger]
            r@.dom().contains(monitor) <==> has_workspace(state.workspaces@, monitor),
        forall|monitor: Seq<char>| #[trigger]
            r@.dom().contains(monitor) ==> r@[monitor]@ == stack_view(
                Axis::X,
                workspaces_view(state.workspaces@, monitor),
            ),
{
    let list = &state.workspaces;
    let mut shown: Assoc<Elem> = Assoc::new();
    let mut i: usize = 0;
    while i < list.len()
        invariant
            0 <= i <= list@.len(),
            shown.wf(),
            forall|monitor: Seq<char>| #[trigger]
                shown@.dom().contains(monitor) <==> has_workspace(list@.take(i as int), monitor),
            forall|monitor: Seq<char>| #[trigger]
                shown@.dom().contains(monitor) ==> shown@[monitor]@ == stack_view(
                    Axis::X,
                    workspaces_view(list@, monitor),
                ),
        decreases list@.len() - i,
    {
        let ghost front = list@.take(i as int);
        let ghost more = list@.take(i + 1);
        proof {
            assert forall|monitor: Seq<char>| #[trigger] has_workspace(more, monitor) <==> has_workspace(
                front,
                monitor,
            ) || (list@[i as int].monitor matches Some(name) && name@ == monitor) by {
                if has_workspace(front, monitor) {
                    let j = choose|j: int|
                        0 <= j < front.len() && ((#[trigger] front[j]).monitor matches Some(name)
                            && name@ == monitor);
                    assert(more[j] == front[j]);
                }
                if has_workspace(more, monitor) {
                    let j = choose|j: int|
                        0 <= j < more.len() && ((#[trigger] more[j]).monitor matches Some(name)
                            && name@ == monitor);
                    if j < i {
                        assert(front[j] == more[j]);
                    }
                }
                assert(more[i as int] == list@[i as int]);
            }
        }
        if let Some(monitor) = &list[i].monitor {
            if !shown.contains(monitor) {
                let mut items: Vec<StackItem> = Vec::new();
                push_workspaces(&mut items, list, monitor);
                proof {
                    assert(item_views(items@) =~= workspaces_view(list@, monitor@));
                }
                shown.insert(monitor.clone(), Elem::stack(Axis::X, items));
            }
        }
        i += 1;
    }
    proof {
        assert(list@.take(i as int) =~= list@);
    }
    shown
}

} // verus!
