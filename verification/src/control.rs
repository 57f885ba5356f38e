//! The controller: modules that show something in the bar, and the menus that
//! belong to them.
use vstd::prelude::*;
use crate::api::{MenuKind, RegisterMenu};
use crate::assoc::{as_map, has_key, keys_unique, lemma_entry, place_of, Assoc};
use crate::bar_states::{set_for, updated, HostState};
use crate::host::{
    BarSelect, BarUpdate, HostEvent, HostUpdate, InteractEvent, OpenMenu, OpenMenuOpts, SetBarTui,
    SetBarTuiOpts, TermEvent, TermInfo, TermKind,
};
use crate::tags::{mk_fresh_interact_tag, tag_bytes, TagCounter};
use crate::tui::{
    auto_view, fill_view, interactive_view, stack_view, Axis, CustomId, Elem, ElemView,
    InteractKind, ItemView, StackItemOpts,
};
use crate::xtui::StackBuilder;

pub mod hypr;
pub mod time;
pub mod tray;

verus! {

/// What a module shows: something on each monitor, the same on all, or nothing;
/// or room between modules.
#[derive(Debug)]
pub enum BarTuiElem {
    ByMonitor(Assoc<Elem>),
    Shared(Elem),
    Hide,
    FillSpace(u16),
    Spacing(u16),
}

impl From<Elem> for BarTuiElem {
    fn from(value: Elem) -> (r: Self) {
        BarTuiElem::Shared(value)
    }
}

impl vstd::std_specs::convert::FromSpecImpl<Elem> for BarTuiElem {
    open spec fn obeys_from_spec() -> bool {
        true
    }

    open spec fn from_spec(value: Elem) -> Self {
        BarTuiElem::Shared(value)
    }
}

impl BarTuiElem {
    pub open spec fn wf(self) -> bool {
        self matches BarTuiElem::ByMonitor(elems) ==> elems.wf()
    }

    /// What goes into the bar of every monitor.
    pub open spec fn common(self) -> Seq<ItemView> {
        match self {
            BarTuiElem::ByMonitor(_) => Seq::empty(),
            BarTuiElem::Shared(elem) => seq![auto_view(elem@)],
            BarTuiElem::Hide => Seq::empty(),
            BarTuiElem::FillSpace(weight) => seq![fill_view(weight, ElemView::Empty)],
            BarTuiElem::Spacing(len) => seq![auto_view(ElemView::Spacing { axis: Axis::X, len })],
        }
    }

    /// What goes into the bar of a monitor.
    pub open spec fn on(self, monitor: Seq<char>) -> Seq<ItemView> {
        match self {
            BarTuiElem::ByMonitor(elems) => if elems@.dom().contains(monitor) {
                seq![auto_view(elems@[monitor]@)]
            } else {
                Seq::empty()
            },
            _ => self.common(),
        }
    }
}

/// The bar of a monitor: what each module has for it, one after the other.
pub open spec fn bar_on(elems: Seq<BarTuiElem>, monitor: Seq<char>) -> Seq<ItemView>
    decreases elems.len(),
{
    if elems.len() == 0 {
        Seq::empty()
    } else {
        bar_on(elems.drop_last(), monitor) + elems.last().on(monitor)
    }
}

/// The bar of a monitor that no module knows.
pub open spec fn bar_elsewhere(elems: Seq<BarTuiElem>) -> Seq<ItemView>
    decreases elems.len(),
{
    if elems.len() == 0 {
        Seq::empty()
    } else {
        bar_elsewhere(elems.drop_last()) + elems.last().common()
    }
}

/// Whether a module has something of its own for a monitor.
pub open spec fn mentioned(elems: Seq<BarTuiElem>, monitor: Seq<char>) -> bool {
    exists|i: int|
        0 <= i < elems.len() && ((#[trigger] elems[i]) matches BarTuiElem::ByMonitor(own)
            && own@.dom().contains(monitor))
}

/// A monitor that no module has anything of its own for shows what all others
/// like it show.
pub proof fn law_unmentioned_monitors_share(elems: Seq<BarTuiElem>, monitor: Seq<char>)
    requires
        !mentioned(elems, monitor),
    ensures
        bar_on(elems, monitor) == bar_elsewhere(elems),
    decreases elems.len(),
{
    if elems.len() > 0 {
        let front = elems.drop_last();
        assert(!mentioned(front, monitor)) by {
            if mentioned(front, monitor) {
                let i = choose|i: int|
                    0 <= i < front.len() && ((#[trigger] front[i]) matches BarTuiElem::ByMonitor(own)
                        && own@.dom().contains(monitor));
                assert(elems[i] == front[i]);
            }
        }
        law_unmentioned_monitors_share(front, monitor);
        assert(elems[elems.len() - 1] == elems.last());
    }
}

/// Modules that are hidden take no room in the bars.
pub proof fn law_hidden_modules_take_no_room(elems: Seq<BarTuiElem>, monitor: Seq<char>)
    ensures
        bar_on(elems, monitor) == bar_on(
            elems.filter(|elem: BarTuiElem| elem !is Hide),
            monitor,
        ),
    decreases elems.len(),
{
    reveal(Seq::filter);
    let shown = |elem: BarTuiElem| elem !is Hide;
    if elems.len() > 0 {
        law_hidden_modules_take_no_room(elems.drop_last(), monitor);
        let front = elems.drop_last().filter(shown);
        assert(front.push(elems.last()).drop_last() =~= front);
        assert(bar_on(front, monitor) + Seq::<ItemView>::empty() =~= bar_on(front, monitor));
    }
}

/// What goes into the bar of a monitor from one module: what it has for that
/// monitor, what it has for all, nothing where it hides or has something for
/// other monitors only, and room where it asks for room.
pub proof fn law_module_on_a_monitor(
    own: Assoc<Elem>,
    elem: Elem,
    len: u16,
    monitor: Seq<char>,
)
    ensures
        own@.dom().contains(monitor) ==> BarTuiElem::ByMonitor(own).on(monitor) == seq![
            ItemView {
                elem: own@[monitor]@,
                opts: StackItemOpts { length: None, fill_weight: 0 },
            },
        ],
        !own@.dom().contains(monitor) ==> BarTuiElem::ByMonitor(own).on(monitor).len() == 0,
        BarTuiElem::Shared(elem).on(monitor) == seq![
            ItemView { elem: elem@, opts: StackItemOpts { length: None, fill_weight: 0 } },
        ],
        BarTuiElem::Hide.on(monitor).len() == 0,
        BarTuiElem::FillSpace(len).on(monitor) == seq![
            ItemView {
                elem: ElemView::Empty,
                opts: StackItemOpts { length: None, fill_weight: len },
            },
        ],
        BarTuiElem::Spacing(len).on(monitor) == seq![
            ItemView {
                elem: ElemView::Spacing { axis: Axis::X, len },
                opts: StackItemOpts { length: None, fill_weight: 0 },
            },
        ],
{
}

/// The bar of a monitor holds its modules from the first to the last: what the
/// first ones have comes before what the others have.
pub proof fn law_modules_stand_in_order(
    first: Seq<BarTuiElem>,
    others: Seq<BarTuiElem>,
    monitor: Seq<char>,
)
    ensures
        bar_on(first + others, monitor) == bar_on(first, monitor) + bar_on(others, monitor),
    decreases others.len(),
{
    if others.len() == 0 {
        assert(first + others =~= first);
        assert(bar_on(first, monitor) + bar_on(others, monitor) =~= bar_on(first, monitor));
    } else {
        assert((first + others).drop_last() =~= first + others.drop_last());
        assert((first + others).last() == others.last());
        law_modules_stand_in_order(first, others.drop_last(), monitor);
        assert(bar_on(first + others, monitor) =~= bar_on(first, monitor) + bar_on(others, monitor));
    }
}

/// A bar of one module is what that module has for the monitor.
pub proof fn law_bar_of_one_module(elem: BarTuiElem, monitor: Seq<char>)
    ensures
        bar_on(seq![elem], monitor) == elem.on(monitor),
        bar_on(Seq::empty(), monitor).len() == 0,
{
    assert(seq![elem].drop_last() =~= Seq::<BarTuiElem>::empty());
    assert(bar_on(seq![elem].drop_last(), monitor).len() == 0);
    assert(bar_on(seq![elem], monitor) == bar_on(seq![elem].drop_last(), monitor) + elem.on(monitor));
    assert(bar_on(seq![elem], monitor) =~= elem.on(monitor));
}

proof fn lemma_mentioned_push(elems: Seq<BarTuiElem>, n: int, monitor: Seq<char>)
    requires
        0 <= n < elems.len(),
    ensures
        mentioned(elems.take(n + 1), monitor) <==> mentioned(elems.take(n), monitor) || (
        elems[n] matches BarTuiElem::ByMonitor(own) && own@.dom().contains(monitor)),
{
    let small = elems.take(n);
    let big = elems.take(n + 1);
    if mentioned(small, monitor) {
        let i = choose|i: int|
            0 <= i < small.len() && ((#[trigger] small[i]) matches BarTuiElem::ByMonitor(own)
                && own@.dom().contains(monitor));
        assert(big[i] == small[i]);
    }
    if mentioned(big, monitor) {
        let i = choose|i: int|
            0 <= i < big.len() && ((#[trigger] big[i]) matches BarTuiElem::ByMonitor(own)
                && own@.dom().contains(monitor));
        if i < n {
            assert(small[i] == big[i]);
        }
    }
    assert(big[n] == elems[n]);
}

/// The stacks of the monitors that modules know, and of all others.
struct Stacks {
    by_monitor: Assoc<StackBuilder>,
    fallback: StackBuilder,
}

impl Stacks {
    /// The stacks hold what the first modules have for each monitor.
    spec fn hold(&self, elems: Seq<BarTuiElem>) -> bool {
        &&& self.by_monitor.wf()
        &&& self.fallback.axis == Axis::X
        &&& self.fallback@ == bar_elsewhere(elems)
        &&& forall|i: int|
            0 <= i < self.by_monitor.entries@.len() ==> {
                let (name, stack) = #[trigger] self.by_monitor.entries@[i];
                &&& stack.axis == Axis::X
                &&& stack@ == bar_on(elems, name@)
            }
        &&& forall|name: Seq<char>| #[trigger]
            self.by_monitor@.dom().contains(name) <==> mentioned(elems, name)
    }

    /// Adds the same to all stacks.
    fn push_everywhere(&mut self, elem: &BarTuiElem, Ghost(elems): Ghost<Seq<BarTuiElem>>)
        requires
            old(self).hold(elems),
            elem !is ByMonitor,
        ensures
            final(self).hold(elems.push(*elem)),
    {
        let ghost more = elems.push(*elem);
        let ghost before = self.by_monitor.entries@;
        proof {
            assert(more.drop_last() =~= elems);
            assert(more.last() == *elem);
        }
        let mut i: usize = 0;
        while i < self.by_monitor.entries.len()
            invariant
                0 <= i <= self.by_monitor.entries@.len(),
                elem !is ByMonitor,
                more == elems.push(*elem),
                more.drop_last() == elems,
                more.last() == *elem,
                keys_unique(before),
                self.by_monitor.entries@.len() == before.len(),
                self.fallback.axis == Axis::X,
                self.fallback@ == bar_elsewhere(elems),
                forall|j: int|
                    0 <= j < before.len() ==> (#[trigger] self.by_monitor.entries@[j]).0 == before[j].0,
                forall|j: int|
                    0 <= j < before.len() ==> {
                        let (name, stack) = #[trigger] self.by_monitor.entries@[j];
                        &&& stack.axis == Axis::X
                        &&& stack@ == (if j < i {
                            bar_on(more, name@)
                        } else {
                            bar_on(elems, name@)
                        })
                    },
            decreases before.len() - i,
        {
            let name = self.by_monitor.entries[i].0.clone();
            let mut stack = self.by_monitor.entries[i].1.clone();
            let ghost had = stack@;
            proof {
                assert(self.by_monitor.entries@[i as int].1@ == bar_on(elems, name@));
            }
            push_common(&mut stack, elem);
            proof {
                assert(elem.on(name@) == elem.common());
                assert(stack@ == bar_on(more, name@));
            }
            self.by_monitor.entries.set(i, (name, stack));
            i += 1;
        }
        push_common(&mut self.fallback, elem);
        proof {
            let after = self.by_monitor.entries@;
            assert(keys_unique(after));
            assert(more.take(elems.len() as int) =~= elems);
            assert(more.take(elems.len() as int + 1) =~= more);
            assert forall|name: Seq<char>| #[trigger] self.by_monitor@.dom().contains(name) <==> mentioned(
                more,
                name,
            ) by {
                lemma_mentioned_push(more, elems.len() as int, name);
                assert(has_key(after, name) == has_key(before, name)) by {
                    if has_key(after, name) {
                        assert(before[place_of(after, name)].0@ == name);
                    }
                    if has_key(before, name) {
                        assert(after[place_of(before, name)].0@ == name);
                    }
                }
                assert(old(self).by_monitor@.dom().contains(name) <==> mentioned(elems, name));
            }
        }
    }

    /// Adds to each stack what a module has for its monitor.
    fn push_own(&mut self, own: &Assoc<Elem>, Ghost(elems): Ghost<Seq<BarTuiElem>>)
        requires
            old(self).hold(elems),
            own.wf(),
        ensures
            final(self).hold(elems.push(BarTuiElem::ByMonitor(*own))),
    {
        let ghost elem = BarTuiElem::ByMonitor(*own);
        let ghost more = elems.push(elem);
        proof {
            assert(more.drop_last() =~= elems);
            assert(more.last() == elem);
            assert(more.take(elems.len() as int) =~= elems);
            assert(more.take(elems.len() as int + 1) =~= more);
        }
        let mut i: usize = 0;
        while i < own.entries.len()
            invariant
                0 <= i <= own.entries@.len(),
                own.wf(),
                elem == BarTuiElem::ByMonitor(*own),
                more == elems.push(elem),
                more.drop_last() == elems,
                more.last() == elem,
                self.by_monitor.wf(),
                self.fallback.axis == Axis::X,
                self.fallback@ == bar_elsewhere(elems),
                forall|j: int|
                    0 <= j < self.by_monitor.entries@.len() ==> (
                    #[trigger] self.by_monitor.entries@[j]).1.axis == Axis::X,
                forall|name: Seq<char>| #[trigger]
                    self.by_monitor@.dom().contains(name) <==> mentioned(elems, name) || has_key(
                        own.entries@.take(i as int),
                        name,
                    ),
                forall|name: Seq<char>| #[trigger]
                    self.by_monitor@.dom().contains(name) ==> self.by_monitor@[name]@ == (if has_key(
                        own.entries@.take(i as int),
                        name,
                    ) {
                        bar_on(more, name)
                    } else {
                        bar_on(elems, name)
                    }),
            decreases own.entries@.len() - i,
        {
            let (monitor, shown) = &own.entries[i];
            let ghost front = own.entries@.take(i as int);
            let ghost next = own.entries@.take(i + 1);
            let ghost had = self.by_monitor@;
            proof {
                lemma_entry(own.entries@, i as int);
                assert(own@.dom().contains(monitor@) && own@[monitor@] == *shown);
                assert(elem.on(monitor@) == seq![auto_view(shown@)]);
                assert forall|name: Seq<char>| has_key(next, name) <==> has_key(front, name) || name
                    == monitor@ by {
                    if has_key(next, name) && name != monitor@ {
                        let j = place_of(next, name);
                        assert(front[j].0@ == name);
                    }
                    if has_key(front, name) {
                        let j = place_of(front, name);
                        assert(next[j].0@ == name);
                    }
                    assert(next[i as int].0@ == monitor@);
                }
                if has_key(front, monitor@) {
                    let j = place_of(front, monitor@);
                    assert(own.entries@[j].0@ == own.entries@[i as int].0@);
                }
            }
            let mut stack = match self.by_monitor.get(monitor) {
                Some(stack) => {
                    proof {
                        let j = place_of(self.by_monitor.entries@, monitor@);
                        assert(self.by_monitor.entries@[j].0@ == monitor@);
                        lemma_entry(self.by_monitor.entries@, j);
                    }
                    stack.clone()
                },
                None => {
                    proof {
                        law_unmentioned_monitors_share(elems, monitor@);
                    }
                    self.fallback.clone()
                },
            };
            proof {
                assert(stack@ == bar_on(elems, monitor@));
            }
            stack.push(shown.clone());
            proof {
                assert(stack@ =~= bar_on(more, monitor@));
            }
            let ghost before = self.by_monitor.entries@;
            self.by_monitor.insert(monitor.clone(), stack);
            proof {
                let after = self.by_monitor.entries@;
                assert forall|j: int| 0 <= j < after.len() implies (#[trigger] after[j]).1.axis
                    == Axis::X by {
                    lemma_entry(after, j);
                    let name = after[j].0@;
                    if name != monitor@ {
                        assert(had.dom().contains(name));
                        let k = place_of(before, name);
                        assert(before[k].0@ == name);
                        lemma_entry(before, k);
                    }
                }
            }
            i += 1;
        }
        proof {
            let after = self.by_monitor.entries@;
            assert(own.entries@.take(i as int) =~= own.entries@);
            assert(elem.common() =~= Seq::empty());
            assert(bar_elsewhere(more) =~= bar_elsewhere(elems));
            assert forall|name: Seq<char>| #[trigger] self.by_monitor@.dom().contains(name) <==> mentioned(
                more,
                name,
            ) by {
                lemma_mentioned_push(more, elems.len() as int, name);
            }
            assert forall|j: int| 0 <= j < after.len() implies ({
                let (name, stack) = #[trigger] after[j];
                &&& stack.axis == Axis::X
                &&& stack@ == bar_on(more, name@)
            }) by {
                lemma_entry(after, j);
                let name = after[j].0@;
                if !has_key(own.entries@, name) {
                    assert(elem.on(name) =~= Seq::empty());
                    assert(bar_on(more, name) =~= bar_on(elems, name));
                }
            }
        }
    }
}

/// Adds to a stack what goes into the bar of every monitor.
fn push_common(stack: &mut StackBuilder, elem: &BarTuiElem)
    requires
        old(stack).axis == Axis::X,
        elem !is ByMonitor,
    ensures
        final(stack).axis == Axis::X,
        final(stack)@ == old(stack)@ + elem.common(),
{
    let ghost before = stack@;
    match elem {
        BarTuiElem::ByMonitor(_) => {},
        BarTuiElem::Shared(elem) => {
            stack.push(elem.clone());
        },
        BarTuiElem::Hide => {},
        BarTuiElem::FillSpace(weight) => {
            stack.fill(*weight, Elem::empty());
        },
        BarTuiElem::Spacing(len) => {
            stack.spacing(*len);
        },
    }
    proof {
        assert(stack@ =~= before + elem.common());
    }
}

/// Whether an update sets the bar of a monitor to what its modules have for it.
pub open spec fn sets_bar(update: HostUpdate, elems: Seq<BarTuiElem>) -> bool {
    update matches HostUpdate::UpdateBars(BarSelect::OnMonitor { monitor_name }, BarUpdate::SetTui(set))
        && mentioned(elems, monitor_name@) && set.tui@ == stack_view(
        Axis::X,
        bar_on(elems, monitor_name@),
    )
}

/// The name of the monitor that an update is for.
pub open spec fn update_monitor(update: HostUpdate) -> Seq<char> {
    match update {
        HostUpdate::UpdateBars(BarSelect::OnMonitor { monitor_name }, _) => monitor_name@,
        _ => Seq::empty(),
    }
}

/// Whether updates make the bars show what the modules have for them: first the
/// default is set, then once each monitor that a module has something of its own
/// for.
pub open spec fn are_bar_updates(updates: Seq<HostUpdate>, elems: Seq<BarTuiElem>) -> bool {
    &&& updates.len() > 0
    &&& updates[0] matches HostUpdate::SetDefaultTui(set) && set.tui@ == stack_view(
        Axis::X,
        bar_elsewhere(elems),
    )
    &&& forall|i: int| 1 <= i < updates.len() ==> sets_bar(#[trigger] updates[i], elems)
    &&& forall|i: int, j: int|
        1 <= i < j < updates.len() ==> update_monitor(#[trigger] updates[i]) != update_monitor(
            #[trigger] updates[j],
        )
    &&& forall|monitor: Seq<char>| #[trigger]
        mentioned(elems, monitor) ==> exists|i: int|
            1 <= i < updates.len() && update_monitor(#[trigger] updates[i]) == monitor
}

/// The updates that make the bars show what the modules have for them: first
/// the default, then each monitor that a module has something of its own for.
pub fn send_bar_tui(bar_tui: &Vec<BarTuiElem>) -> (r: Vec<HostUpdate>)
    requires
        forall|i: int| 0 <= i < bar_tui@.len() ==> (#[trigger] bar_tui@[i]).wf(),
    ensures
        are_bar_updates(r@, bar_tui@),
{
    let mut stacks = Stacks { by_monitor: Assoc::new(), fallback: StackBuilder::new(Axis::X) };
    let mut i: usize = 0;
    while i < bar_tui.len()
        invariant
            0 <= i <= bar_tui@.len(),
            forall|i: int| 0 <= i < bar_tui@.len() ==> (#[trigger] bar_tui@[i]).wf(),
            stacks.hold(bar_tui@.take(i as int)),
        decreases bar_tui@.len() - i,
    {
        let ghost done = bar_tui@.take(i as int);
        proof {
            assert(bar_tui@.take(i + 1) =~= done.push(bar_tui@[i as int]));
        }
        match &bar_tui[i] {
            BarTuiElem::ByMonitor(own) => {
                stacks.push_own(own, Ghost(done));
            },
            elem => {
                stacks.push_everywhere(elem, Ghost(done));
            },
        }
        i += 1;
    }
    proof {
        assert(bar_tui@.take(i as int) =~= bar_tui@);
    }
    let ghost known = stacks.by_monitor@;
    proof {
        assert forall|j: int| 0 <= j < stacks.by_monitor.entries@.len() implies mentioned(
            bar_tui@,
            (#[trigger] stacks.by_monitor.entries@[j]).0@,
        ) by {
            lemma_entry(stacks.by_monitor.entries@, j);
            assert(known.dom().contains(stacks.by_monitor.entries@[j].0@));
        }
    }
    let mut updates: Vec<HostUpdate> = Vec::new();
    let Stacks { by_monitor, fallback } = stacks;
    let ghost entries = by_monitor.entries@;
    updates.push(
        HostUpdate::SetDefaultTui(
            SetBarTui { tui: fallback.build(), options: SetBarTuiOpts {  } },
        ),
    );
    let mut k: usize = 0;
    while k < by_monitor.entries.len()
        invariant
            0 <= k <= entries.len(),
            by_monitor.entries@ == entries,
            keys_unique(entries),
            known == as_map(entries),
            forall|j: int|
                0 <= j < entries.len() ==> {
                    let (name, stack) = #[trigger] entries[j];
                    &&& stack.axis == Axis::X
                    &&& stack@ == bar_on(bar_tui@, name@)
                    &&& mentioned(bar_tui@, name@)
                },
            updates@.len() == k + 1,
            updates@[0] matches HostUpdate::SetDefaultTui(set) && set.tui@ == stack_view(
                Axis::X,
                bar_elsewhere(bar_tui@),
            ),
            forall|j: int|
                1 <= j < updates@.len() ==> sets_bar(#[trigger] updates@[j], bar_tui@)
                    && update_monitor(updates@[j]) == entries[j - 1].0@,
        decreases entries.len() - k,
    {
        let name = by_monitor.entries[k].0.clone();
        let tui = by_monitor.entries[k].1.clone().build();
        updates.push(
            HostUpdate::UpdateBars(
                BarSelect::OnMonitor { monitor_name: name },
                BarUpdate::SetTui(SetBarTui { tui, options: SetBarTuiOpts {  } }),
            ),
        );
        k += 1;
    }
    proof {
        assert(forall|name: Seq<char>| #[trigger]
            known.dom().contains(name) <==> mentioned(bar_tui@, name));
        assert forall|monitor: Seq<char>| #[trigger] mentioned(bar_tui@, monitor) implies exists|i: int|
            1 <= i < updates@.len() && update_monitor(#[trigger] updates@[i]) == monitor by {
            assert(known.dom().contains(monitor));
            let j = place_of(entries, monitor);
            assert(entries[j].0@ == monitor);
            assert(update_monitor(updates@[j + 1]) == monitor);
        }
    }
    updates
}

/// The updates begin with the default, which is the bar of a monitor that no module
/// knows; each of the others sets the bar of one monitor that a module has something
/// for to what the modules have for it, and no monitor is set twice.
pub proof fn law_each_bar_is_set_once(
    updates: Seq<HostUpdate>,
    elems: Seq<BarTuiElem>,
    monitor: Seq<char>,
    i: int,
    j: int,
)
    requires
        are_bar_updates(updates, elems),
        1 <= i < j < updates.len(),
        !mentioned(elems, monitor),
    ensures
        updates[0] matches HostUpdate::SetDefaultTui(set) && set.tui@ == (ElemView::Stack {
            axis: Axis::X,
            items: bar_on(elems, monitor),
        }),
        updates[i] matches HostUpdate::UpdateBars(
            BarSelect::OnMonitor { monitor_name },
            BarUpdate::SetTui(set),
        ) && mentioned(elems, monitor_name@) && set.tui@ == (ElemView::Stack {
            axis: Axis::X,
            items: bar_on(elems, monitor_name@),
        }) && (updates[j] matches HostUpdate::UpdateBars(
            BarSelect::OnMonitor { monitor_name: other },
            _,
        ) && other@ != monitor_name@),
{
    law_unmentioned_monitors_share(elems, monitor);
    assert(sets_bar(updates[i], elems));
    assert(sets_bar(updates[j], elems));
    assert(update_monitor(updates[i]) != update_monitor(updates[j]));
}

/// Whether states follow from each other by updates, one by one.
pub open spec fn states_follow(states: Seq<HostState>, updates: Seq<HostUpdate>) -> bool {
    &&& states.len() == updates.len() + 1
    &&& forall|i: int|
        0 <= i < updates.len() ==> #[trigger] updated(states[i], updates[i], states[i + 1])
}

/// What a monitor shows after the first `n` updates.
proof fn lemma_shown_after(
    elems: Seq<BarTuiElem>,
    updates: Seq<HostUpdate>,
    states: Seq<HostState>,
    monitor: Seq<char>,
    n: int,
)
    requires
        are_bar_updates(updates, elems),
        states_follow(states, updates),
        1 <= n <= updates.len(),
    ensures
        states[n].bars.defaults.tui@ == stack_view(Axis::X, bar_elsewhere(elems)),
        (exists|i: int| 1 <= i < n && update_monitor(#[trigger] updates[i]) == monitor)
            ==> states[n].bars.shown(monitor) == stack_view(Axis::X, bar_on(elems, monitor)),
        !(exists|i: int| 1 <= i < n && update_monitor(#[trigger] updates[i]) == monitor) ==> set_for(
            states[n].bars.by_monitor@,
            monitor,
        ).tui == set_for(states[0].bars.by_monitor@, monitor).tui,
    decreases n,
{
    assert(updated(states[n - 1], updates[n - 1], states[n - 1 + 1]));
    if n > 1 {
        lemma_shown_after(elems, updates, states, monitor, n - 1);
        assert(sets_bar(updates[n - 1], elems));
        if update_monitor(updates[n - 1]) == monitor {
            assert(states[n].bars.shown(monitor) == stack_view(Axis::X, bar_on(elems, monitor)));
        } else if exists|i: int| 1 <= i < n && update_monitor(#[trigger] updates[i]) == monitor {
            let i = choose|i: int| 1 <= i < n && update_monitor(#[trigger] updates[i]) == monitor;
            assert(1 <= i < n - 1 && update_monitor(updates[i]) == monitor);
        }
    }
}

/// A host that takes in the updates shows, on every monitor, what the modules
/// have for it, in their order. A monitor that was given something else before
/// is set right where a module has something of its own for it.
pub proof fn law_bars_show_the_modules(
    elems: Seq<BarTuiElem>,
    updates: Seq<HostUpdate>,
    states: Seq<HostState>,
    monitor: Seq<char>,
)
    requires
        are_bar_updates(updates, elems),
        states_follow(states, updates),
        mentioned(elems, monitor) || set_for(states[0].bars.by_monitor@, monitor).tui is None,
    ensures
        states.last().bars.shown(monitor) == stack_view(Axis::X, bar_on(elems, monitor)),
{
    let n = updates.len() as int;
    lemma_shown_after(elems, updates, states, monitor, n);
    if mentioned(elems, monitor) {
        let i = choose|i: int|
            1 <= i < updates.len() && update_monitor(#[trigger] updates[i]) == monitor;
        assert(1 <= i < n && update_monitor(updates[i]) == monitor);
    } else {
        law_unmentioned_monitors_share(elems, monitor);
        if exists|i: int| 1 <= i < n && update_monitor(#[trigger] updates[i]) == monitor {
        } else {
            assert(states[n].bars.shown(monitor) == states[n].bars.defaults.tui@);
        }
    }
}

/// The menus that were registered for elements of the bar.
#[derive(Debug)]
pub struct BarMenus {
    pub menus: Vec<RegisterMenu>,
}

impl BarMenus {
    /// There is one menu for each element and each thing to do with it.
    pub open spec fn wf(&self) -> bool {
        forall|i: int, j: int|
            0 <= i < j < self.menus@.len() ==> !((#[trigger] self.menus@[i]).on_tag@ == (
            #[trigger] self.menus@[j]).on_tag@ && self.menus@[i].on_kind == self.menus@[j].on_kind)
    }

    /// Whether a menu is the one at that place.
    pub open spec fn is_at(self, i: int, tag: Seq<u8>, kind: InteractKind) -> bool {
        0 <= i < self.menus@.len() && self.menus@[i].on_tag@ == tag && self.menus@[i].on_kind == kind
    }

    /// The menu that opens, if there is one.
    pub open spec fn lookup(self, tag: Seq<u8>, kind: InteractKind) -> Option<RegisterMenu> {
        if exists|i: int| self.is_at(i, tag, kind) {
            Some(self.menus@[choose|i: int| self.is_at(i, tag, kind)])
        } else {
            None
        }
    }

    pub fn new() -> (r: Self)
        ensures
            r.wf(),
            forall|tag: Seq<u8>, kind: InteractKind| r.lookup(tag, kind) is None,
    {
        BarMenus { menus: Vec::new() }
    }

    /// The place of the menu that opens.
    fn position(&self, tag: &CustomId, kind: InteractKind) -> (r: Option<usize>)
        ensures
            r is None ==> forall|i: int| !self.is_at(i, tag@, kind),
            r matches Some(i) ==> self.is_at(i as int, tag@, kind),
    {
        let mut i: usize = 0;
        while i < self.menus.len()
            invariant
                0 <= i <= self.menus@.len(),
                forall|j: int| j < i ==> !self.is_at(j, tag@, kind),
            decreases self.menus@.len() - i,
        {
            if self.menus[i].on_tag.same(tag) && self.menus[i].on_kind == kind {
                return Some(i);
            }
            i += 1;
        }
        None
    }

    proof fn lemma_lookup(self, i: int, tag: Seq<u8>, kind: InteractKind)
        requires
            self.wf(),
            self.is_at(i, tag, kind),
        ensures
            self.lookup(tag, kind) == Some(self.menus@[i]),
    {
        let j = choose|j: int| self.is_at(j, tag, kind);
        if i < j {
            assert(self.menus@[i].on_tag@ == self.menus@[j].on_tag@);
        } else if j < i {
            assert(self.menus@[j].on_tag@ == self.menus@[i].on_tag@);
        }
    }

    /// The menu that opens, if there is one.
    pub fn get(&self, tag: &CustomId, kind: InteractKind) -> (r: Option<&RegisterMenu>)
        requires
            self.wf(),
        ensures
            r is Some <==> self.lookup(tag@, kind) is Some,
            r matches Some(menu) ==> self.lookup(tag@, kind) == Some(*menu),
    {
        match self.position(tag, kind) {
            Some(i) => {
                proof {
                    self.lemma_lookup(i as int, tag@, kind);
                }
                Some(&self.menus[i])
            },
            None => None,
        }
    }

    /// Registers a menu, in the place of the one that was registered for the same.
    pub fn register_menu(&mut self, menu: RegisterMenu)
        requires
            old(self).wf(),
        ensures
            final(self).wf(),
            forall|tag: Seq<u8>, kind: InteractKind| #[trigger]
                final(self).lookup(tag, kind) == (if tag == menu.on_tag@ && kind == menu.on_kind {
                    Some(menu)
                } else {
                    old(self).lookup(tag, kind)
                }),
    {
        let ghost before = *self;
        let ghost at: int;
        match self.position(&menu.on_tag, menu.on_kind) {
            Some(i) => {
                proof {
                    at = i as int;
                }
                self.menus.set(i, menu);
            },
            None => {
                proof {
                    at = self.menus@.len() as int;
                }
                self.menus.push(menu);
                proof {
                    assert forall|i: int, j: int| 0 <= i < j < self.menus@.len() implies !((
                    #[trigger] self.menus@[i]).on_tag@ == (#[trigger] self.menus@[j]).on_tag@
                        && self.menus@[i].on_kind == self.menus@[j].on_kind) by {
                        if j == at {
                            assert(!before.is_at(i, menu.on_tag@, menu.on_kind));
                        }
                    }
                }
            },
        }
        proof {
            assert(self.wf());
            assert forall|tag: Seq<u8>, kind: InteractKind| #[trigger] self.lookup(tag, kind) == (if tag
                == menu.on_tag@ && kind == menu.on_kind {
                Some(menu)
            } else {
                before.lookup(tag, kind)
            }) by {
                if tag == menu.on_tag@ && kind == menu.on_kind {
                    assert(self.is_at(at, tag, kind));
                    self.lemma_lookup(at, tag, kind);
                } else {
                    assert(!self.is_at(at, tag, kind));
                    if exists|i: int| before.is_at(i, tag, kind) {
                        let i = choose|i: int| before.is_at(i, tag, kind);
                        before.lemma_lookup(i, tag, kind);
                        assert(i != at);
                        assert(self.is_at(i, tag, kind));
                        self.lemma_lookup(i, tag, kind);
                    } else {
                        assert forall|i: int| !self.is_at(i, tag, kind) by {
                            if self.is_at(i, tag, kind) {
                                assert(i != at);
                                assert(before.is_at(i, tag, kind));
                            }
                        }
                    }
                }
            }
        }
    }
}

/// The menu that is open: which it is, what the user did to open it, of what kind it
/// is, and where it belongs.
#[derive(Debug)]
pub struct CurMenu {
    pub bar_anchor: CustomId,
    pub on_kind: InteractKind,
    pub menu_kind: MenuKind,
    pub monitor: String,
    pub tui: Elem,
}

/// Whether a tooltip is open.
pub open spec fn tooltip_open(cur: Option<CurMenu>) -> bool {
    cur matches Some(cur) && cur.menu_kind == MenuKind::Tooltip
}

/// Closing the open menu where the condition holds.
pub open spec fn closed_if(cur: Option<CurMenu>, cond: bool) -> Option<CurMenu> {
    if cond {
        None
    } else {
        cur
    }
}

/// The menu that is open after an event.
pub open spec fn menu_after(cur: Option<CurMenu>, event: HostEvent, menus: BarMenus) -> Option<
    CurMenu,
> {
    match event {
        HostEvent::Term(info, TermEvent::Interact(InteractEvent { kind, tag })) => match info.kind {
            TermKind::Bar => {
                let found = match tag {
                    Some(tag) => menus.lookup(tag@, kind),
                    None => None,
                };
                match found {
                    Some(menu) => if menu.menu_kind == MenuKind::Tooltip && cur is Some
                        && !tooltip_open(cur) {
                        cur
                    } else {
                        Some(
                            CurMenu {
                                bar_anchor: tag->0,
                                on_kind: kind,
                                menu_kind: menu.menu_kind,
                                monitor: info.monitor,
                                tui: menu.tui,
                            },
                        )
                    },
                    None => closed_if(cur, tooltip_open(cur) || kind != InteractKind::Hover),
                }
            },
            TermKind::Menu => closed_if(cur, tooltip_open(cur)),
        },
        HostEvent::Term(info, TermEvent::MouseLeave) => closed_if(cur, info.kind == TermKind::Menu),
    }
}

/// Whether the host is to be told after an event.
pub open spec fn tells_host(cur: Option<CurMenu>, event: HostEvent, menus: BarMenus) -> bool {
    match event {
        HostEvent::Term(info, TermEvent::Interact(InteractEvent { kind, tag })) => match info.kind {
            TermKind::Bar => {
                let found = match tag {
                    Some(tag) => menus.lookup(tag@, kind),
                    None => None,
                };
                match found {
                    Some(menu) => !(menu.menu_kind == MenuKind::Tooltip && cur is Some
                        && !tooltip_open(cur)),
                    None => cur is Some && (tooltip_open(cur) || kind != InteractKind::Hover),
                }
            },
            TermKind::Menu => tooltip_open(cur),
        },
        HostEvent::Term(info, TermEvent::MouseLeave) => info.kind == TermKind::Menu,
    }
}

/// Takes in an event: opens and closes menus. The result says whether the host
/// is to be told.
pub fn handle_event(cur: &mut Option<CurMenu>, event: HostEvent, menus: &BarMenus) -> (r: bool)
    requires
        menus.wf(),
    ensures
        *final(cur) == menu_after(*old(cur), event, *menus),
        r == tells_host(*old(cur), event, *menus),
{
    let open = cur.is_some();
    let tooltip = match &*cur {
        Some(menu) => menu.menu_kind == MenuKind::Tooltip,
        None => false,
    };
    match event {
        HostEvent::Term(info, TermEvent::Interact(InteractEvent { kind, tag })) => match info.kind {
            TermKind::Bar => {
                let found = match &tag {
                    Some(tag) => menus.get(tag, kind),
                    None => None,
                };
                match (found, tag) {
                    (Some(menu), Some(tag)) => {
                        // A tooltip does not take the place of another menu.
                        if menu.menu_kind == MenuKind::Tooltip && open && !tooltip {
                            return false;
                        }
                        *cur = Some(
                            CurMenu {
                                bar_anchor: tag,
                                on_kind: kind,
                                menu_kind: menu.menu_kind.internal_clone(),
                                monitor: info.monitor,
                                tui: menu.tui.clone(),
                            },
                        );
                        true
                    },
                    _ => {
                        if open && (tooltip || kind != InteractKind::Hover) {
                            *cur = None;
                            true
                        } else {
                            false
                        }
                    },
                }
            },
            TermKind::Menu => {
                if tooltip {
                    *cur = None;
                    true
                } else {
                    false
                }
            },
        },
        HostEvent::Term(info, TermEvent::MouseLeave) => match info.kind {
            TermKind::Menu => {
                *cur = None;
                true
            },
            TermKind::Bar => false,
        },
    }
}

/// The element that an event is about, and what the user did with it.
pub open spec fn callback_of(event: HostEvent) -> Option<(CustomId, InteractKind)> {
    match event {
        HostEvent::Term(_, TermEvent::Interact(InteractEvent { kind, tag: Some(tag) })) => Some(
            (tag, kind),
        ),
        _ => None,
    }
}

/// The element that reacts by itself to an event, and what the user did with it.
pub fn event_callback(event: &HostEvent) -> (r: Option<(CustomId, InteractKind)>)
    ensures
        r == callback_of(*event),
{
    match event {
        HostEvent::Term(_, TermEvent::Interact(InteractEvent { kind, tag })) => match tag {
            Some(tag) => Some((tag.clone(), *kind)),
            None => None,
        },
        _ => None,
    }
}

/// Whether the open menu is the given one.
pub open spec fn is_open(cur: Option<CurMenu>, menu: RegisterMenu) -> bool {
    cur matches Some(cur) && cur.bar_anchor@ == menu.on_tag@ && cur.on_kind == menu.on_kind
        && cur.menu_kind == menu.menu_kind
}

/// The open menu after a menu has got new content: with that content, if it is
/// the one.
pub open spec fn refreshed(cur: Option<CurMenu>, menu: RegisterMenu) -> Option<CurMenu> {
    if is_open(cur, menu) {
        Some(CurMenu { tui: menu.tui, ..cur->0 })
    } else {
        cur
    }
}

/// Puts the new content of a menu into the open one, if that is it. The result
/// says whether the host is to be told.
pub fn refresh_menu(cur: &mut Option<CurMenu>, menu: &RegisterMenu) -> (r: bool)
    ensures
        r == is_open(*old(cur), *menu),
        *final(cur) == refreshed(*old(cur), *menu),
{
    match cur {
        Some(open) => {
            if open.bar_anchor.same(&menu.on_tag) && open.on_kind == menu.on_kind && open.menu_kind
                == menu.menu_kind {
                open.tui = menu.tui.clone();
                true
            } else {
                false
            }
        },
        None => false,
    }
}

/// Whether an update asks the host for the open menu, or for none. `tag` is the
/// one under which all of a tooltip reacts.
pub open spec fn asks_for_menu(update: HostUpdate, cur: Option<CurMenu>, tag: Seq<u8>) -> bool {
    match cur {
        Some(cur) => update matches HostUpdate::OpenMenu(open) && open.monitor == cur.monitor
            && open.bar_anchor == cur.bar_anchor && open.tui@ == (if cur.menu_kind
            == MenuKind::Tooltip {
            interactive_view(cur.tui@, tag)
        } else {
            cur.tui@
        }),
        None => update is CloseMenu,
    }
}

/// What the host is told of the open menu. All of a tooltip reacts to the
/// mouse, so that anything done with it closes it.
pub fn menu_request(cur: &Option<CurMenu>, counter: &mut TagCounter) -> (r: HostUpdate)
    ensures
        final(counter).order == old(counter).order,
        asks_for_menu(r, *cur, tag_bytes(old(counter).next, old(counter).order)),
        match *cur {
            Some(cur) => {
                &&& cur.menu_kind == MenuKind::Context ==> *final(counter) == *old(counter)
                &&& cur.menu_kind == MenuKind::Tooltip ==> final(counter).next == (if old(
                    counter,
                ).next == u64::MAX {
                    0
                } else {
                    (old(counter).next + 1) as u64
                })
            },
            None => *final(counter) == *old(counter),
        },
{
    match cur {
        Some(cur) => {
            let mut tui = cur.tui.clone();
            if cur.menu_kind == MenuKind::Tooltip {
                tui = tui.interactive(mk_fresh_interact_tag(counter));
            }
            HostUpdate::OpenMenu(
                OpenMenu {
                    tui,
                    monitor: cur.monitor.clone(),
                    bar_anchor: cur.bar_anchor.clone(),
                    opts: OpenMenuOpts {  },
                },
            )
        },
        None => HostUpdate::CloseMenu,
    }
}

/// While a context menu is open, the mouse that moves over the bar neither
/// closes nor replaces it, and the host is told nothing.
pub proof fn law_context_menu_survives_hovering(
    cur: CurMenu,
    info: TermInfo,
    tag: Option<CustomId>,
    menus: BarMenus,
)
    requires
        cur.menu_kind == MenuKind::Context,
        info.kind == TermKind::Bar,
        tag matches Some(tag) ==> (menus.lookup(tag@, InteractKind::Hover) matches Some(menu)
            ==> menu.menu_kind == MenuKind::Tooltip),
    ensures
        ({
            let event = HostEvent::Term(
                info,
                TermEvent::Interact(InteractEvent { kind: InteractKind::Hover, tag }),
            );
            &&& menu_after(Some(cur), event, menus) == Some(cur)
            &&& !tells_host(Some(cur), event, menus)
        }),
{
}

/// Anything done with a tooltip closes it.
pub proof fn law_touching_a_tooltip_closes_it(
    cur: CurMenu,
    info: TermInfo,
    interact: InteractEvent,
    menus: BarMenus,
)
    requires
        cur.menu_kind == MenuKind::Tooltip,
        info.kind == TermKind::Menu,
    ensures
        menu_after(
            Some(cur),
            HostEvent::Term(info, TermEvent::Interact(interact)),
            menus,
        ) is None,
{
}

/// The mouse that leaves the menu closes it, whatever it is.
pub proof fn law_leaving_the_menu_closes_it(
    cur: Option<CurMenu>,
    info: TermInfo,
    menus: BarMenus,
)
    requires
        info.kind == TermKind::Menu,
    ensures
        menu_after(cur, HostEvent::Term(info, TermEvent::MouseLeave), menus) is None,
{
}

/// The host is told whenever another menu is open than before, or none.
pub proof fn law_host_hears_of_every_change(cur: Option<CurMenu>, event: HostEvent, menus: BarMenus)
    requires
        menu_after(cur, event, menus) != cur,
    ensures
        tells_host(cur, event, menus),
{
}

/// A menu that is found for an element and a thing to do with it was registered
/// for just these; one that was registered is found.
pub proof fn law_found_menu_was_registered(menus: BarMenus, tag: Seq<u8>, kind: InteractKind)
    requires
        menus.wf(),
    ensures
        menus.lookup(tag, kind) matches Some(menu) ==> menu.on_tag@ == tag && menu.on_kind == kind
            && menus.menus@.contains(menu),
        forall|i: int|
            0 <= i < menus.menus@.len() && (#[trigger] menus.menus@[i]).on_tag@ == tag
                && menus.menus@[i].on_kind == kind ==> menus.lookup(tag, kind) == Some(
                menus.menus@[i],
            ),
{
    assert forall|i: int|
        0 <= i < menus.menus@.len() && (#[trigger] menus.menus@[i]).on_tag@ == tag
            && menus.menus@[i].on_kind == kind implies menus.lookup(tag, kind) == Some(
        menus.menus@[i],
    ) by {
        assert(menus.is_at(i, tag, kind));
        menus.lemma_lookup(i, tag, kind);
    }
}

/// Whatever menu is open, a click or a turn of the wheel on the bar for which no
/// menu is registered leaves none open, and the host is told.
pub proof fn law_click_beside_the_menu_closes_it(
    cur: CurMenu,
    info: TermInfo,
    kind: InteractKind,
    tag: Option<CustomId>,
    menus: BarMenus,
)
    requires
        info.kind == TermKind::Bar,
        kind != InteractKind::Hover,
        tag matches Some(tag) ==> menus.lookup(tag@, kind) is None,
    ensures
        ({
            let event = HostEvent::Term(info, TermEvent::Interact(InteractEvent { kind, tag }));
            &&& menu_after(Some(cur), event, menus) is None
            &&& tells_host(Some(cur), event, menus)
        }),
{
}

/// A mouse that moves on to something in the bar without a tooltip closes the
/// tooltip that is open, and the host is told.
pub proof fn law_moving_on_closes_a_tooltip(
    cur: CurMenu,
    info: TermInfo,
    kind: InteractKind,
    tag: Option<CustomId>,
    menus: BarMenus,
)
    requires
        cur.menu_kind == MenuKind::Tooltip,
        info.kind == TermKind::Bar,
        tag matches Some(tag) ==> menus.lookup(tag@, kind) is None,
    ensures
        ({
            let event = HostEvent::Term(info, TermEvent::Interact(InteractEvent { kind, tag }));
            &&& menu_after(Some(cur), event, menus) is None
            &&& tells_host(Some(cur), event, menus)
        }),
{
}

/// What is done with an element of the bar opens the menu that is registered for
/// it, on the monitor where it was done, and the host is told. Only a tooltip
/// does not take the place of a context menu.
pub proof fn law_registered_menu_opens(
    cur: Option<CurMenu>,
    info: TermInfo,
    kind: InteractKind,
    tag: CustomId,
    menu: RegisterMenu,
    menus: BarMenus,
)
    requires
        info.kind == TermKind::Bar,
        menus.lookup(tag@, kind) == Some(menu),
        menu.menu_kind == MenuKind::Context || cur is None || cur->0.menu_kind
            == MenuKind::Tooltip,
    ensures
        ({
            let event = HostEvent::Term(
                info,
                TermEvent::Interact(InteractEvent { kind, tag: Some(tag) }),
            );
            &&& menu_after(cur, event, menus) == Some(
                CurMenu {
                    bar_anchor: tag,
                    on_kind: kind,
                    menu_kind: menu.menu_kind,
                    monitor: info.monitor,
                    tui: menu.tui,
                },
            )
            &&& tells_host(cur, event, menus)
        }),
{
}

/// A tooltip never takes the place of a context menu, and the host is not told.
pub proof fn law_tooltip_waits_for_a_context_menu(
    cur: CurMenu,
    info: TermInfo,
    kind: InteractKind,
    tag: CustomId,
    menus: BarMenus,
)
    requires
        cur.menu_kind == MenuKind::Context,
        info.kind == TermKind::Bar,
        menus.lookup(tag@, kind) matches Some(menu) && menu.menu_kind == MenuKind::Tooltip,
    ensures
        ({
            let event = HostEvent::Term(
                info,
                TermEvent::Interact(InteractEvent { kind, tag: Some(tag) }),
            );
            &&& menu_after(Some(cur), event, menus) == Some(cur)
            &&& !tells_host(Some(cur), event, menus)
        }),
{
}

/// What is done inside a context menu leaves it open, and what is done inside a
/// tooltip closes it. The host is told of the second alone.
pub proof fn law_use_of_the_menu(
    cur: CurMenu,
    info: TermInfo,
    interact: InteractEvent,
    menus: BarMenus,
)
    requires
        info.kind == TermKind::Menu,
    ensures
        ({
            let event = HostEvent::Term(info, TermEvent::Interact(interact));
            &&& cur.menu_kind == MenuKind::Context ==> menu_after(Some(cur), event, menus) == Some(
                cur,
            ) && !tells_host(Some(cur), event, menus)
            &&& cur.menu_kind == MenuKind::Tooltip ==> menu_after(Some(cur), event, menus) is None
                && tells_host(Some(cur), event, menus)
        }),
{
}

/// A mouse that leaves the bar changes nothing, and one that leaves the menu
/// closes it. The host is told of the second alone.
pub proof fn law_leaving_a_terminal(cur: Option<CurMenu>, info: TermInfo, menus: BarMenus)
    ensures
        ({
            let event = HostEvent::Term(info, TermEvent::MouseLeave);
            &&& info.kind == TermKind::Bar ==> menu_after(cur, event, menus) == cur && !tells_host(
                cur,
                event,
                menus,
            )
            &&& info.kind == TermKind::Menu ==> menu_after(cur, event, menus) is None
                && tells_host(cur, event, menus)
        }),
{
}

/// Where no menu is open, none opens but one that is registered for what was
/// done, and then the host has nothing to hear of the bar or of the menu.
pub proof fn law_nothing_opens_by_itself(
    info: TermInfo,
    kind: InteractKind,
    tag: Option<CustomId>,
    menus: BarMenus,
)
    requires
        info.kind == TermKind::Menu || (tag matches Some(tag) ==> menus.lookup(tag@, kind) is None),
    ensures
        ({
            let event = HostEvent::Term(info, TermEvent::Interact(InteractEvent { kind, tag }));
            &&& menu_after(None, event, menus) is None
            &&& !tells_host(None, event, menus)
        }),
{
}

/// The menu that has just been opened is the one that counts as open, so new
/// content for it reaches the screen; content for another element, another
/// thing to do with it or another kind of menu does not.
pub proof fn law_opened_menu_is_open(
    cur: Option<CurMenu>,
    info: TermInfo,
    kind: InteractKind,
    tag: CustomId,
    menu: RegisterMenu,
    other: RegisterMenu,
    menus: BarMenus,
)
    requires
        menus.wf(),
        info.kind == TermKind::Bar,
        menus.lookup(tag@, kind) == Some(menu),
        menu.menu_kind == MenuKind::Context || cur is None || cur->0.menu_kind
            == MenuKind::Tooltip,
    ensures
        ({
            let event = HostEvent::Term(
                info,
                TermEvent::Interact(InteractEvent { kind, tag: Some(tag) }),
            );
            let after = menu_after(cur, event, menus);
            is_open(after, other) <==> other.on_tag@ == tag@ && other.on_kind == kind
                && other.menu_kind == menu.menu_kind
        }),
{
    law_found_menu_was_registered(menus, tag@, kind);
}

/// No menu counts as open where none is.
pub proof fn law_closed_menu_is_not_open(menu: RegisterMenu)
    ensures
        !is_open(None, menu),
{
}

/// An event is about the element that it names, and about what was done with it;
/// one that names none, and a mouse that leaves, are about none.
pub proof fn law_event_is_about_its_element(
    info: TermInfo,
    kind: InteractKind,
    tag: CustomId,
)
    ensures
        callback_of(
            HostEvent::Term(info, TermEvent::Interact(InteractEvent { kind, tag: Some(tag) })),
        ) == Some((tag, kind)),
        callback_of(
            HostEvent::Term(info, TermEvent::Interact(InteractEvent { kind, tag: None })),
        ) is None,
        callback_of(HostEvent::Term(info, TermEvent::MouseLeave)) is None,
{
}

/// New content goes into the open menu where it is the same menu of the same
/// element: it stays where it is and what it is. Any other menu stays as it is.
pub proof fn law_new_content_goes_into_the_open_menu(cur: CurMenu, menu: RegisterMenu)
    ensures
        ({
            let same = cur.bar_anchor@ == menu.on_tag@ && cur.on_kind == menu.on_kind
                && cur.menu_kind == menu.menu_kind;
            &&& same ==> refreshed(Some(cur), menu) == Some(
                CurMenu {
                    bar_anchor: cur.bar_anchor,
                    on_kind: cur.on_kind,
                    menu_kind: cur.menu_kind,
                    monitor: cur.monitor,
                    tui: menu.tui,
                },
            )
            &&& !same ==> refreshed(Some(cur), menu) == Some(cur)
            &&& refreshed(None, menu) is None
            &&& is_open(refreshed(Some(cur), menu), menu) == same
        }),
{
}

/// The host is asked to open the menu on its monitor and under its element. A
/// context menu is passed on as it is, a tooltip so that all of it reacts under one
/// tag. Where none is open, the host is asked to close it.
pub proof fn law_host_is_asked_for_the_menu(update: HostUpdate, cur: CurMenu, tag: Seq<u8>)
    ensures
        asks_for_menu(update, Some(cur), tag) ==> (update matches HostUpdate::OpenMenu(open) && {
            &&& open.monitor == cur.monitor
            &&& open.bar_anchor == cur.bar_anchor
            &&& cur.menu_kind == MenuKind::Context ==> open.tui@ == cur.tui@
            &&& cur.menu_kind == MenuKind::Tooltip ==> open.tui@ == (ElemView::Interactive {
                inner: Box::new(cur.tui@),
                tag,
                hovered: None,
            })
        }),
        asks_for_menu(update, None, tag) ==> update is CloseMenu,
{
}

/// A menu that is registered for what the user does with an element of the bar gets
/// to the screen: the host then holds a menu for the monitor and the element where
/// it was done, with the registered content. A click for which none is registered
/// leaves the host without a menu.
pub proof fn law_menus_get_to_the_host(
    cur: Option<CurMenu>,
    info: TermInfo,
    kind: InteractKind,
    tag: CustomId,
    menus: BarMenus,
    update: HostUpdate,
    own_tag: Seq<u8>,
    before: HostState,
    after: HostState,
)
    requires
        info.kind == TermKind::Bar,
        ({
            let event = HostEvent::Term(
                info,
                TermEvent::Interact(InteractEvent { kind, tag: Some(tag) }),
            );
            asks_for_menu(update, menu_after(cur, event, menus), own_tag)
        }),
        updated(before, update, after),
    ensures
        menus.lookup(tag@, kind) matches Some(menu) ==> (menu.menu_kind == MenuKind::Context ==> (
        after.open_menu matches Some(open) && open.monitor == info.monitor && open.bar_anchor == tag
            && open.tui@ == menu.tui@)),
        kind != InteractKind::Hover && menus.lookup(tag@, kind) is None ==> after.open_menu is None,
{
}

/// The bar before any module has shown anything, and the places of the modules
/// in it.
pub fn initial_bar() -> (r: Vec<BarTuiElem>)
    ensures
        r@ == seq![
            BarTuiElem::Spacing(1),
            BarTuiElem::Hide,
            BarTuiElem::FillSpace(1),
            BarTuiElem::Hide,
            BarTuiElem::Spacing(3),
            BarTuiElem::Hide,
            BarTuiElem::Spacing(3),
            BarTuiElem::Hide,
            BarTuiElem::Spacing(3),
            BarTuiElem::Hide,
            BarTuiElem::Hide,
            BarTuiElem::Spacing(3),
            BarTuiElem::Hide,
            BarTuiElem::Spacing(1),
        ],
{
    let r = vec![
        BarTuiElem::Spacing(1),
        // Workspaces.
        BarTuiElem::Hide,
        BarTuiElem::FillSpace(1),
        // The tray.
        BarTuiElem::Hide,
        BarTuiElem::Spacing(3),
        // The microphone.
        BarTuiElem::Hide,
        BarTuiElem::Spacing(3),
        // The loudspeaker.
        BarTuiElem::Hide,
        BarTuiElem::Spacing(3),
        // The power profile and the battery.
        BarTuiElem::Hide,
        BarTuiElem::Hide,
        BarTuiElem::Spacing(3),
        // The time.
        BarTuiElem::Hide,
        BarTuiElem::Spacing(1),
    ];
    proof {
        assert(r@ =~= seq![
            BarTuiElem::Spacing(1),
            BarTuiElem::Hide,
            BarTuiElem::FillSpace(1),
            BarTuiElem::Hide,
            BarTuiElem::Spacing(3),
            BarTuiElem::Hide,
            BarTuiElem::Spacing(3),
            BarTuiElem::Hide,
            BarTuiElem::Spacing(3),
            BarTuiElem::Hide,
            BarTuiElem::Hide,
            BarTuiElem::Spacing(3),
            BarTuiElem::Hide,
            BarTuiElem::Spacing(1),
        ]);
    }
    r
}

} // verus!
