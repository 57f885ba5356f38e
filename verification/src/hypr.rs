//! The workspaces of the compositor.
use vstd::prelude::*;
use crate::data::{BasicDesktopState, BasicWorkspace, WorkspaceId};
use crate::strs::{chars_of, dec_signed, push_dec_signed};
use std::collections::HashMap;

verus! {

broadcast use vstd::std_specs::hash::group_hash_axioms;

/// What the compositor reports, as far as it matters here.
#[derive(Clone, Copy, Debug, PartialEq, Eq, Structural)]
pub enum HyprEvent {
    MonitorAdded,
    ActiveMonitorChanged,
    MonitorRemoved,
    WorkspaceChanged,
    WorkspaceMoved,
    WorkspaceAdded,
    WorkspaceDeleted,
    WorkspaceRenamed,
    /// The user asked for a fresh look.
    Reload,
    Other,
}

/// What has to be asked for after an event: the workspaces, the monitors.
#[derive(Clone, Copy, Debug, PartialEq, Eq, Structural)]
pub struct Refresh {
    pub workspaces: bool,
    pub monitors: bool,
}

/// What has to be asked for after an event.
pub open spec fn refresh_of(event: HyprEvent) -> Option<Refresh> {
    match event {
        HyprEvent::Reload => Some(Refresh { workspaces: true, monitors: true }),
        HyprEvent::MonitorAdded => Some(Refresh { workspaces: false, monitors: true }),
        HyprEvent::ActiveMonitorChanged => Some(Refresh { workspaces: false, monitors: true }),
        HyprEvent::MonitorRemoved => Some(Refresh { workspaces: false, monitors: true }),
        HyprEvent::WorkspaceChanged => Some(Refresh { workspaces: false, monitors: true }),
        HyprEvent::WorkspaceMoved => Some(Refresh { workspaces: true, monitors: false }),
        HyprEvent::WorkspaceAdded => Some(Refresh { workspaces: true, monitors: false }),
        HyprEvent::WorkspaceDeleted => Some(Refresh { workspaces: true, monitors: false }),
        HyprEvent::WorkspaceRenamed => Some(Refresh { workspaces: true, monitors: false }),
        HyprEvent::Other => None,
    }
}

/// A change of the workspaces themselves leads to the question for them, a change of
/// the monitors or of what they show to the question for these; the wish for a fresh
/// look to both, and nothing else to any.
pub proof fn law_changes_are_asked_for(event: HyprEvent)
    ensures
        refresh_of(event) is None <==> event == HyprEvent::Other,
        refresh_of(event) matches Some(refresh) ==> {
            &&& refresh.workspaces <==> event == HyprEvent::Reload || event
                == HyprEvent::WorkspaceMoved || event == HyprEvent::WorkspaceAdded || event
                == HyprEvent::WorkspaceDeleted || event == HyprEvent::WorkspaceRenamed
            &&& refresh.monitors <==> event == HyprEvent::Reload || event
                == HyprEvent::MonitorAdded || event == HyprEvent::ActiveMonitorChanged || event
                == HyprEvent::MonitorRemoved || event == HyprEvent::WorkspaceChanged
        },
{
}

/// Which workspace a monitor shows is told with the monitors; where a workspace
/// is and what it is called, with the workspaces.
pub fn refresh_after(event: HyprEvent) -> (r: Option<Refresh>)
    ensures
        r == refresh_of(event),
{
    match event {
        HyprEvent::Reload => Some(Refresh { workspaces: true, monitors: true }),
        HyprEvent::MonitorAdded
        | HyprEvent::ActiveMonitorChanged
        | HyprEvent::MonitorRemoved
        | HyprEvent::WorkspaceChanged => Some(Refresh { workspaces: false, monitors: true }),
        HyprEvent::WorkspaceMoved
        | HyprEvent::WorkspaceAdded
        | HyprEvent::WorkspaceDeleted
        | HyprEvent::WorkspaceRenamed => Some(Refresh { workspaces: true, monitors: false }),
        HyprEvent::Other => None,
    }
}

/// A monitor: its number, its name and the workspace that it shows.
#[derive(Debug)]
pub struct HyprMonitor {
    pub id: i128,
    pub name: String,
    pub active_workspace: i32,
}

/// A workspace: its number, its name and the monitor that it is on.
#[derive(Debug)]
pub struct HyprWorkspace {
    pub id: i32,
    pub name: String,
    pub monitor_id: Option<i128>,
}

/// What is known of the compositor.
#[derive(Debug)]
pub struct HyprState {
    pub workspaces: Vec<HyprWorkspace>,
    pub monitors: HashMap<i128, (String, i32)>,
}

/// The monitors that are known after a report. Monitors that are not in it stay
/// known.
pub open spec fn monitors_known(
    known: Map<i128, (String, i32)>,
    report: Seq<HyprMonitor>,
) -> Map<i128, (String, i32)>
    decreases report.len(),
{
    if report.len() == 0 {
        known
    } else {
        monitors_known(known, report.drop_last()).insert(
            report.last().id,
            (report.last().name, report.last().active_workspace),
        )
    }
}

/// What a [`BasicWorkspace`] says.
#[verifier::ext_equal]
pub struct WorkspaceView {
    pub id: Seq<char>,
    pub name: Seq<char>,
    pub monitor: Option<Seq<char>>,
    pub is_active: bool,
}

impl View for BasicWorkspace {
    type V = WorkspaceView;

    open spec fn view(&self) -> WorkspaceView {
        WorkspaceView {
            id: self.id@,
            name: self.name@,
            monitor: match self.monitor {
                Some(name) => Some(name@),
                None => None,
            },
            is_active: self.is_active,
        }
    }
}

/// A workspace with what its monitor adds to it: where it is, and whether it is
/// the one that is shown there.
pub open spec fn workspace_of(
    ws: HyprWorkspace,
    monitors: Map<i128, (String, i32)>,
) -> WorkspaceView {
    let monitor = match ws.monitor_id {
        Some(id) if monitors.dom().contains(id) => Some(monitors[id]),
        _ => None,
    };
    WorkspaceView {
        id: dec_signed(ws.id as int),
        name: ws.name@,
        monitor: match monitor {
            Some((name, _)) => Some(name@),
            None => None,
        },
        is_active: monitor matches Some((_, active)) && active == ws.id,
    }
}

/// All workspaces, in the order of the report.
pub open spec fn workspaces_of(
    list: Seq<HyprWorkspace>,
    monitors: Map<i128, (String, i32)>,
) -> Seq<WorkspaceView> {
    Seq::new(list.len(), |i: int| workspace_of(list[i], monitors))
}

/// Whether a text comes before another, or is the same: by the first character
/// in which they differ, or else by their lengths.
pub open spec fn text_le(a: Seq<char>, b: Seq<char>) -> bool
    decreases a.len(),
{
    if a.len() == 0 {
        true
    } else if b.len() == 0 {
        false
    } else if a[0] != b[0] {
        (a[0] as int) < (b[0] as int)
    } else {
        text_le(a.drop_first(), b.drop_first())
    }
}

/// Of two texts one comes before the other, or they are the same.
pub proof fn law_text_order_is_total(a: Seq<char>, b: Seq<char>)
    ensures
        text_le(a, b) || text_le(b, a),
    decreases a.len(),
{
    if a.len() > 0 && b.len() > 0 {
        if a[0] == b[0] {
            law_text_order_is_total(a.drop_first(), b.drop_first());
            assert(text_le(a, b) == text_le(a.drop_first(), b.drop_first()));
            assert(text_le(b, a) == text_le(b.drop_first(), a.drop_first()));
        } else {
            assert(a[0] as int != b[0] as int);
        }
    }
}

/// The order of texts is transitive.
pub proof fn law_text_order_is_transitive(a: Seq<char>, b: Seq<char>, c: Seq<char>)
    requires
        text_le(a, b),
        text_le(b, c),
    ensures
        text_le(a, c),
    decreases a.len(),
{
    if a.len() > 0 && b.len() > 0 && c.len() > 0 && a[0] == b[0] && b[0] == c[0] {
        law_text_order_is_transitive(a.drop_first(), b.drop_first(), c.drop_first());
    }
}

/// Two texts that come before each other are the same.
pub proof fn law_text_order_is_antisymmetric(a: Seq<char>, b: Seq<char>)
    requires
        text_le(a, b),
        text_le(b, a),
    ensures
        a == b,
    decreases a.len(),
{
    if a.len() > 0 && b.len() > 0 {
        law_text_order_is_antisymmetric(a.drop_first(), b.drop_first());
        assert(a =~= seq![a[0]] + a.drop_first());
        assert(b =~= seq![b[0]] + b.drop_first());
    } else {
        assert(a =~= b);
    }
}

proof fn lemma_text_le_prefix(a: Seq<char>, b: Seq<char>, n: int)
    requires
        0 <= n <= a.len(),
        n <= b.len(),
        a.take(n) == b.take(n),
    ensures
        text_le(a, b) == text_le(a.skip(n), b.skip(n)),
    decreases n,
{
    if n == 0 {
        assert(a.skip(0) =~= a && b.skip(0) =~= b);
    } else {
        assert(a.take(n)[0] == a[0] && b.take(n)[0] == b[0]);
        let x = a.drop_first();
        let y = b.drop_first();
        assert(text_le(a, b) == text_le(x, y));
        assert forall|i: int| 0 <= i < n - 1 implies #[trigger] x[i] == y[i] by {
            assert(a.take(n)[i + 1] == a[i + 1] && b.take(n)[i + 1] == b[i + 1]);
        }
        assert(x.take(n - 1) =~= y.take(n - 1));
        lemma_text_le_prefix(x, y, n - 1);
        assert(x.skip(n - 1) =~= a.skip(n));
        assert(y.skip(n - 1) =~= b.skip(n));
    }
}

/// The number of a character.
fn char_code(c: char) -> (r: u32)
    ensures
        r as int == c as int,
{
    c as u32
}

/// Whether a text comes before another, or is the same.
pub fn comes_before(a: &String, b: &String) -> (r: bool)
    ensures
        r == text_le(a@, b@),
{
    let x = chars_of(a);
    let y = chars_of(b);
    let mut i: usize = 0;
    while i < x.len() && i < y.len() && x[i] == y[i]
        invariant
            0 <= i <= x@.len(),
            i <= y@.len(),
            x@ == a@,
            y@ == b@,
            forall|j: int| 0 <= j < i ==> x@[j] == y@[j],
        decreases x@.len() - i,
    {
        i += 1;
    }
    proof {
        assert(a@.take(i as int) =~= b@.take(i as int));
        lemma_text_le_prefix(a@, b@, i as int);
    }
    if i == x.len() {
        true
    } else if i == y.len() {
        false
    } else {
        char_code(x[i]) < char_code(y[i])
    }
}

/// What a list of workspaces says.
pub open spec fn workspace_views(list: Seq<BasicWorkspace>) -> Seq<WorkspaceView> {
    Seq::new(list.len(), |i: int| list[i]@)
}

/// Whether workspaces are in the order of their names.
pub open spec fn sorted_by_name(list: Seq<WorkspaceView>) -> bool {
    forall|i: int, j: int|
        0 <= i < j < list.len() ==> text_le((#[trigger] list[i]).name, (#[trigger] list[j]).name)
}

proof fn lemma_insert_multiset<A>(s: Seq<A>, i: int, x: A)
    requires
        0 <= i <= s.len(),
    ensures
        s.insert(i, x).to_multiset() == s.to_multiset().insert(x),
{
    let t = s.insert(i, x);
    broadcast use vstd::seq_lib::group_to_multiset_ensures;

    assert(t.remove(i) =~= s);
    assert(t[i] == x);
    assert(t.contains(x));
    assert(t.to_multiset().count(x) > 0);
    assert(t.remove(i).to_multiset() =~= t.to_multiset().remove(x));
    assert(t.to_multiset() =~= s.to_multiset().insert(x));
}

/// Puts a workspace in its place among sorted ones.
fn insert_sorted(list: &mut Vec<BasicWorkspace>, ws: BasicWorkspace)
    requires
        sorted_by_name(workspace_views(old(list)@)),
    ensures
        sorted_by_name(workspace_views(final(list)@)),
        workspace_views(final(list)@).to_multiset() == workspace_views(
            old(list)@,
        ).to_multiset().insert(ws@),
{
    let ghost before = workspace_views(list@);
    let mut i: usize = 0;
    while i < list.len() && comes_before(&list[i].name, &ws.name)
        invariant
            0 <= i <= list@.len(),
            before == workspace_views(list@),
            forall|j: int| 0 <= j < i ==> text_le((#[trigger] before[j]).name, ws.name@),
        decreases list@.len() - i,
    {
        i += 1;
    }
    let ghost at = i as int;
    proof {
        if at < before.len() {
            law_text_order_is_total(ws.name@, before[at].name);
        }
    }
    list.insert(i, ws);
    proof {
        let after = workspace_views(list@);
        assert(after =~= before.insert(at, ws@));
        lemma_insert_multiset(before, at, ws@);
        assert forall|a: int, b: int| 0 <= a < b < after.len() implies text_le(
            (#[trigger] after[a]).name,
            (#[trigger] after[b]).name,
        ) by {
            if b < at {
                assert(after[a] == before[a] && after[b] == before[b]);
            } else if b == at {
                assert(after[a] == before[a]);
            } else if a < at {
                assert(after[a] == before[a] && after[b] == before[b - 1]);
            } else if a == at {
                assert(after[b] == before[b - 1]);
                if b - 1 > at {
                    law_text_order_is_transitive(ws.name@, before[at].name, before[b - 1].name);
                }
            } else {
                assert(after[a] == before[a - 1] && after[b] == before[b - 1]);
            }
        }
    }
}

impl HyprState {
    pub fn new() -> (r: Self)
        ensures
            r.workspaces@.len() == 0,
            r.monitors@ == Map::<i128, (String, i32)>::empty(),
    {
        HyprState { workspaces: Vec::new(), monitors: HashMap::new() }
    }

    /// Takes in a report of the monitors.
    pub fn set_monitors(&mut self, report: Vec<HyprMonitor>)
        ensures
            final(self).workspaces == old(self).workspaces,
            final(self).monitors@ == monitors_known(old(self).monitors@, report@),
    {
        let ghost before = self.monitors@;
        let mut i: usize = 0;
        proof {
            assert(report@.take(0) =~= Seq::empty());
        }
        while i < report.len()
            invariant
                0 <= i <= report@.len(),
                self.workspaces == old(self).workspaces,
                self.monitors@ == monitors_known(before, report@.take(i as int)),
            decreases report@.len() - i,
        {
            proof {
                assert(report@.take(i + 1).drop_last() =~= report@.take(i as int));
                assert(report@.take(i + 1).last() == report@[i as int]);
            }
            let _ = self.monitors.insert(
                report[i].id,
                (report[i].name.clone(), report[i].active_workspace),
            );
            i += 1;
        }
        proof {
            assert(report@.take(i as int) =~= report@);
        }
    }

    /// The workspaces as they are shown: in the order of their names.
    pub fn desktop(&self) -> (r: BasicDesktopState)
        ensures
            sorted_by_name(workspace_views(r.workspaces@)),
            workspace_views(r.workspaces@).to_multiset() == workspaces_of(
                self.workspaces@,
                self.monitors@,
            ).to_multiset(),
    {
        let mut list: Vec<BasicWorkspace> = Vec::new();
        let ghost all = workspaces_of(self.workspaces@, self.monitors@);
        let mut i: usize = 0;
        proof {
            assert(workspace_views(list@) =~= Seq::empty());
            assert(all.take(0) =~= Seq::empty());
        }
        while i < self.workspaces.len()
            invariant
                0 <= i <= self.workspaces@.len(),
                all == workspaces_of(self.workspaces@, self.monitors@),
                sorted_by_name(workspace_views(list@)),
                workspace_views(list@).to_multiset() == all.take(i as int).to_multiset(),
            decreases self.workspaces@.len() - i,
        {
            let ws = &self.workspaces[i];
            let found = match ws.monitor_id {
                Some(id) => self.monitors.get(&id),
                None => None,
            };
            let mut id: String = String::new();
            push_dec_signed(&mut id, ws.id as i64);
            proof {
                assert(id@ =~= dec_signed(ws.id as int));
            }
            let item = match found {
                Some((name, active)) => BasicWorkspace {
                    id: WorkspaceId { id },
                    name: ws.name.clone(),
                    monitor: Some(name.clone()),
                    is_active: *active == ws.id,
                },
                None => BasicWorkspace {
                    id: WorkspaceId { id },
                    name: ws.name.clone(),
                    monitor: None,
                    is_active: false,
                },
            };
            proof {
                assert(item@ == all[i as int]);
                assert(all.take(i + 1) =~= all.take(i as int).push(all[i as int]));
                all.take(i as int).to_multiset_ensures();
            }
            insert_sorted(&mut list, item);
            i += 1;
        }
        proof {
            assert(all.take(i as int) =~= all);
        }
        BasicDesktopState { workspaces: list }
    }
}

/// A workspace keeps its number and its name. It is on the monitor whose number it
/// gives, by the name of that monitor, and is active exactly if that monitor shows
/// it. One without a monitor, or on an unknown one, is nowhere and not active.
pub proof fn law_workspace_is_where_its_monitor_is(
    ws: HyprWorkspace,
    monitors: Map<i128, (String, i32)>,
)
    ensures
        workspace_of(ws, monitors).id == dec_signed(ws.id as int),
        workspace_of(ws, monitors).name == ws.name@,
        ws.monitor_id matches Some(id) ==> (monitors.dom().contains(id) ==> {
            &&& workspace_of(ws, monitors).monitor == Some(monitors[id].0@)
            &&& workspace_of(ws, monitors).is_active <==> monitors[id].1 == ws.id
        }),
        (ws.monitor_id is None || !monitors.dom().contains(ws.monitor_id->0)) ==> {
            &&& workspace_of(ws, monitors).monitor is None
            &&& !workspace_of(ws, monitors).is_active
        },
{
}

/// A report names each monitor as it says last; what it does not speak of stays
/// as it was known.
pub proof fn law_report_of_monitors_counts(
    known: Map<i128, (String, i32)>,
    report: Seq<HyprMonitor>,
    id: i128,
)
    ensures
        (forall|i: int| 0 <= i < report.len() ==> (#[trigger] report[i]).id != id) ==> {
            &&& monitors_known(known, report).dom().contains(id) <==> known.dom().contains(id)
            &&& known.dom().contains(id) ==> monitors_known(known, report)[id] == known[id]
        },
        forall|i: int|
            0 <= i < report.len() && (#[trigger] report[i]).id == id && (forall|j: int|
                i < j < report.len() ==> (#[trigger] report[j]).id != id) ==> {
                &&& monitors_known(known, report).dom().contains(id)
                &&& monitors_known(known, report)[id] == (
                    report[i].name,
                    report[i].active_workspace,
                )
            },
    decreases report.len(),
{
    if report.len() > 0 {
        let front = report.drop_last();
        law_report_of_monitors_counts(known, front, id);
        let last = report.last();
        assert(report[report.len() - 1] == last);
        if forall|i: int| 0 <= i < report.len() ==> (#[trigger] report[i]).id != id {
            assert forall|i: int| 0 <= i < front.len() implies (#[trigger] front[i]).id != id by {
                assert(front[i] == report[i]);
            }
        }
        assert forall|i: int|
            0 <= i < report.len() && (#[trigger] report[i]).id == id && (forall|j: int|
                i < j < report.len() ==> (#[trigger] report[j]).id != id) implies {
            &&& monitors_known(known, report).dom().contains(id)
            &&& monitors_known(known, report)[id] == (report[i].name, report[i].active_workspace)
        } by {
            if i < front.len() {
                assert(front[i] == report[i]);
                assert forall|j: int| i < j < front.len() implies (#[trigger] front[j]).id != id by {
                    assert(front[j] == report[j]);
                }
                assert(last.id != id);
            }
        }
    }
}

/// Of two texts the one with the smaller character comes first, at the first place
/// where they differ; a text comes before any that goes on where it ends.
pub proof fn law_first_difference_decides(
    start: Seq<char>,
    a: char,
    b: char,
    more: Seq<char>,
    other: Seq<char>,
)
    ensures
        a < b ==> text_le(start + seq![a] + more, start + seq![b] + other) && !text_le(
            start + seq![b] + other,
            start + seq![a] + more,
        ),
        text_le(start, start + more),
{
    let x = start + seq![a] + more;
    let y = start + seq![b] + other;
    let n = start.len() as int;
    assert(x.take(n) =~= y.take(n));
    lemma_text_le_prefix(x, y, n);
    lemma_text_le_prefix(y, x, n);
    assert(x.skip(n)[0] == a);
    assert(y.skip(n)[0] == b);
    assert((start + more).take(n) =~= start.take(n));
    lemma_text_le_prefix(start, start + more, n);
}

/// Each workspace of a report is there, in its place, before they are put in the order
/// of their names; then no name comes before one that is smaller.
pub proof fn law_workspaces_are_said_one_by_one(
    list: Seq<HyprWorkspace>,
    monitors: Map<i128, (String, i32)>,
    shown: Seq<BasicWorkspace>,
    i: int,
    j: int,
)
    ensures
        workspaces_of(list, monitors).len() == list.len(),
        0 <= i < list.len() ==> workspaces_of(list, monitors)[i] == workspace_of(list[i], monitors),
        workspace_views(shown).len() == shown.len(),
        0 <= i < shown.len() ==> {
            let said = workspace_views(shown)[i];
            &&& said.id == shown[i].id@
            &&& said.name == shown[i].name@
            &&& said.is_active == shown[i].is_active
            &&& shown[i].monitor matches Some(name) ==> said.monitor == Some(name@)
            &&& shown[i].monitor is None ==> said.monitor is None
        },
        sorted_by_name(workspace_views(shown)) && 0 <= i < j < shown.len() ==> text_le(
            shown[i].name@,
            shown[j].name@,
        ),
{
    if sorted_by_name(workspace_views(shown)) && 0 <= i < j < shown.len() {
        let said = workspace_views(shown);
        assert(text_le(said[i].name, said[j].name));
    }
}

} // verus!
