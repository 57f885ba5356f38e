//! What the bars of all monitors show, and how a controller changes it.
use vstd::prelude::*;
use crate::assoc::{as_map, has_key, keys_unique, lemma_entry, place_of, Assoc};
use crate::host::{BarSelect, BarUpdate, HostUpdate, OpenMenu, SetBarTui};
use crate::monitors::{
    changed_names, info_names, lemma_listed_monitors, lemma_listed_names, lists_monitors,
    lists_names, removed_names, MonitorEvent, MonitorInfo,
};
use crate::strs::{lemma_take_more, texts};
use crate::tui::{Elem, ElemView};

verus! {

/// What a bar shows and whether it is shown.
#[derive(Debug)]
pub struct BarTuiState {
    pub tui: Elem,
    pub hidden: bool,
}

/// What was set for the bar of one monitor. What was not set follows the
/// defaults, also when they change.
#[derive(Debug)]
pub struct MonitorBar {
    pub tui: Option<Elem>,
    pub hidden: Option<bool>,
}

#[derive(Debug)]
pub struct BarTuiStates {
    pub by_monitor: Assoc<MonitorBar>,
    pub defaults: BarTuiState,
}

/// What the host holds on behalf of its controller.
#[derive(Debug)]
pub struct HostState {
    pub bars: BarTuiStates,
    pub open_menu: Option<OpenMenu>,
}

/// Who has to look again after an update.
#[derive(Debug)]
pub enum Notice {
    /// The bars of all monitors.
    AllBars,
    /// The bar of one monitor.
    Bar(String),
    /// The bars whose content follows the default.
    Followers,
    /// The menus.
    Menus,
}

/// A monitor for which nothing was set.
pub open spec fn following() -> MonitorBar {
    MonitorBar { tui: None, hidden: None }
}

/// All monitors follow the default content.
pub open spec fn all_follow_tui(bars: Map<Seq<char>, MonitorBar>) -> Map<Seq<char>, MonitorBar> {
    Map::new(
        |name: Seq<char>| bars.dom().contains(name),
        |name: Seq<char>| MonitorBar { tui: None, hidden: bars[name].hidden },
    )
}

/// All monitors follow the default visibility.
pub open spec fn all_follow_hidden(bars: Map<Seq<char>, MonitorBar>) -> Map<
    Seq<char>,
    MonitorBar,
> {
    Map::new(
        |name: Seq<char>| bars.dom().contains(name),
        |name: Seq<char>| MonitorBar { tui: bars[name].tui, hidden: None },
    )
}

/// What was set for a monitor, known or not.
pub open spec fn set_for(bars: Map<Seq<char>, MonitorBar>, name: Seq<char>) -> MonitorBar {
    if bars.dom().contains(name) {
        bars[name]
    } else {
        following()
    }
}

impl BarTuiStates {
    pub open spec fn wf(&self) -> bool {
        self.by_monitor.wf()
    }

    /// What the bar of a monitor shows.
    pub open spec fn shown(&self, name: Seq<char>) -> ElemView {
        match set_for(self.by_monitor@, name).tui {
            Some(tui) => tui@,
            None => self.defaults.tui@,
        }
    }

    /// Whether the bar of a monitor is hidden.
    pub open spec fn hidden_on(&self, name: Seq<char>) -> bool {
        match set_for(self.by_monitor@, name).hidden {
            Some(hidden) => hidden,
            None => self.defaults.hidden,
        }
    }

    /// No monitor is known, and the default is an empty bar.
    pub fn new() -> (r: Self)
        ensures
            r.wf(),
            r.by_monitor@ == Map::<Seq<char>, MonitorBar>::empty(),
            r.defaults.tui@ == ElemView::Empty,
            !r.defaults.hidden,
    {
        BarTuiStates {
            by_monitor: Assoc::new(),
            defaults: BarTuiState { tui: Elem::empty(), hidden: false },
        }
    }

    /// What the bar of a monitor is to show now.
    pub fn state_of(&self, name: &String) -> (r: BarTuiState)
        requires
            self.wf(),
        ensures
            r.tui@ == self.shown(name@),
            r.hidden == self.hidden_on(name@),
    {
        match self.by_monitor.get(name) {
            Some(bar) => {
                let tui = match &bar.tui {
                    Some(tui) => tui.clone(),
                    None => self.defaults.tui.clone(),
                };
                let hidden = match bar.hidden {
                    Some(hidden) => hidden,
                    None => self.defaults.hidden,
                };
                BarTuiState { tui, hidden }
            },
            None => BarTuiState { tui: self.defaults.tui.clone(), hidden: self.defaults.hidden },
        }
    }

    /// Makes a monitor known. What was set for it stays.
    pub fn get_or_mk_monitor(&mut self, name: String) -> (r: usize)
        requires
            old(self).wf(),
        ensures
            final(self).wf(),
            final(self).defaults == old(self).defaults,
            final(self).by_monitor@ == old(self).by_monitor@.insert(
                name@,
                set_for(old(self).by_monitor@, name@),
            ),
            r < final(self).by_monitor.entries@.len(),
            final(self).by_monitor.entries@[r as int].0@ == name@,
    {
        match self.by_monitor.position(&name) {
            Some(i) => {
                proof {
                    lemma_entry(self.by_monitor.entries@, i as int);
                    assert(self.by_monitor@.insert(
                        name@,
                        set_for(self.by_monitor@, name@),
                    ) =~= self.by_monitor@);
                }
                i
            },
            None => {
                let i: usize = self.by_monitor.entries.len();
                self.by_monitor.insert(name, MonitorBar { tui: None, hidden: None });
                i
            },
        }
    }

    /// Sets the content of the bar of one monitor, known or not.
    fn set_tui_on(&mut self, name: String, tui: Elem)
        requires
            old(self).wf(),
        ensures
            final(self).wf(),
            final(self).defaults == old(self).defaults,
            final(self).by_monitor@ == old(self).by_monitor@.insert(
                name@,
                MonitorBar { tui: Some(tui), hidden: set_for(old(self).by_monitor@, name@).hidden },
            ),
    {
        let hidden = match self.by_monitor.get(&name) {
            Some(bar) => bar.hidden,
            None => None,
        };
        self.by_monitor.insert(name, MonitorBar { tui: Some(tui), hidden });
    }

    /// Hides or shows the bar of one monitor, known or not.
    fn set_hidden_on(&mut self, name: String, hidden: bool)
        requires
            old(self).wf(),
        ensures
            final(self).wf(),
            final(self).defaults == old(self).defaults,
            final(self).by_monitor@ == old(self).by_monitor@.insert(
                name@,
                MonitorBar { tui: set_for(old(self).by_monitor@, name@).tui, hidden: Some(hidden) },
            ),
    {
        let tui = match self.by_monitor.get(&name) {
            Some(bar) => match &bar.tui {
                Some(tui) => Some(tui.clone()),
                None => None,
            },
            None => None,
        };
        self.by_monitor.insert(name, MonitorBar { tui, hidden: Some(hidden) });
    }

    /// Sets the default content and makes every monitor follow it.
    fn set_tui_everywhere(&mut self, tui: Elem)
        requires
            old(self).wf(),
        ensures
            final(self).wf(),
            final(self).defaults == (BarTuiState { tui, hidden: old(self).defaults.hidden }),
            final(self).by_monitor@ == all_follow_tui(old(self).by_monitor@),
    {
        let ghost before = self.by_monitor.entries@;
        self.defaults.tui = tui;
        let mut i: usize = 0;
        while i < self.by_monitor.entries.len()
            invariant
                keys_unique(before),
                0 <= i <= self.by_monitor.entries@.len(),
                self.by_monitor.entries@.len() == before.len(),
                self.defaults == (BarTuiState { tui, hidden: old(self).defaults.hidden }),
                forall|j: int|
                    0 <= j < before.len() ==> (#[trigger] self.by_monitor.entries@[j]).0 == before[j].0,
                forall|j: int|
                    0 <= j < i ==> (#[trigger] self.by_monitor.entries@[j]).1 == (MonitorBar {
                        tui: None,
                        hidden: before[j].1.hidden,
                    }),
                forall|j: int|
                    i <= j < before.len() ==> (#[trigger] self.by_monitor.entries@[j]) == before[j],
            decreases before.len() - i,
        {
            let name = self.by_monitor.entries[i].0.clone();
            let hidden = self.by_monitor.entries[i].1.hidden;
            self.by_monitor.entries.set(i, (name, MonitorBar { tui: None, hidden }));
            i += 1;
        }
        proof {
            let after = self.by_monitor.entries@;
            assert(keys_unique(after));
            assert forall|name: Seq<char>| has_key(after, name) == has_key(before, name) by {
                if has_key(after, name) {
                    assert(before[place_of(after, name)].0@ == name);
                }
                if has_key(before, name) {
                    assert(after[place_of(before, name)].0@ == name);
                }
            }
            assert forall|name: Seq<char>| has_key(before, name) implies as_map(after)[name]
                == all_follow_tui(as_map(before))[name] by {
                let j = place_of(before, name);
                lemma_entry(before, j);
                assert(after[j].0@ == name);
                lemma_entry(after, j);
            }
            assert(as_map(after) =~= all_follow_tui(as_map(before)));
        }
    }

    /// Sets the default visibility and makes every monitor follow it.
    fn set_hidden_everywhere(&mut self, hidden: bool)
        requires
            old(self).wf(),
        ensures
            final(self).wf(),
            final(self).defaults == (BarTuiState { tui: old(self).defaults.tui, hidden }),
            final(self).by_monitor@ == all_follow_hidden(old(self).by_monitor@),
    {
        let ghost before = self.by_monitor.entries@;
        self.defaults.hidden = hidden;
        let mut i: usize = 0;
        while i < self.by_monitor.entries.len()
            invariant
                keys_unique(before),
                0 <= i <= self.by_monitor.entries@.len(),
                self.by_monitor.entries@.len() == before.len(),
                self.defaults == (BarTuiState { tui: old(self).defaults.tui, hidden }),
                forall|j: int|
                    0 <= j < before.len() ==> (#[trigger] self.by_monitor.entries@[j]).0 == before[j].0,
                forall|j: int|
                    0 <= j < i ==> (#[trigger] self.by_monitor.entries@[j]).1 == (MonitorBar {
                        tui: before[j].1.tui,
                        hidden: None,
                    }),
                forall|j: int|
                    i <= j < before.len() ==> (#[trigger] self.by_monitor.entries@[j]) == before[j],
            decreases before.len() - i,
        {
            let name = self.by_monitor.entries[i].0.clone();
            let tui = match &self.by_monitor.entries[i].1.tui {
                Some(tui) => Some(tui.clone()),
                None => None,
            };
            self.by_monitor.entries.set(i, (name, MonitorBar { tui, hidden: None }));
            i += 1;
        }
        proof {
            let after = self.by_monitor.entries@;
            assert(keys_unique(after));
            assert forall|name: Seq<char>| has_key(after, name) == has_key(before, name) by {
                if has_key(after, name) {
                    assert(before[place_of(after, name)].0@ == name);
                }
                if has_key(before, name) {
                    assert(after[place_of(before, name)].0@ == name);
                }
            }
            assert forall|name: Seq<char>| has_key(before, name) implies as_map(after)[name]
                == all_follow_hidden(as_map(before))[name] by {
                let j = place_of(before, name);
                lemma_entry(before, j);
                assert(after[j].0@ == name);
                lemma_entry(after, j);
            }
            assert(as_map(after) =~= all_follow_hidden(as_map(before)));
        }
    }

    /// Forgets the monitors that are gone and makes the new ones known. The
    /// result names the monitors whose panels are to be stopped and those whose
    /// panels are to be started, in place of the ones that ran for them before.
    pub fn apply_monitors(&mut self, event: &MonitorEvent) -> (r: (Vec<String>, Vec<MonitorInfo>))
        requires
            old(self).wf(),
            event.wf(),
        ensures
            final(self).wf(),
            final(self).defaults == old(self).defaults,
            lists_names(r.0@, removed_names(event.prev@, event.data@)),
            lists_monitors(r.1@, changed_names(event.prev@, event.data@), event.data@),
            final(self).by_monitor@ == monitors_applied(
                old(self).by_monitor@,
                removed_names(event.prev@, event.data@),
                changed_names(event.prev@, event.data@),
            ),
    {
        let removed = event.removed();
        let started = event.added_or_changed();
        let ghost gone = removed_names(event.prev@, event.data@);
        let ghost changed = changed_names(event.prev@, event.data@);
        let ghost before = self.by_monitor@;
        let ghost first = texts(removed@);
        let ghost second = info_names(started@);
        let mut i: usize = 0;
        proof {
            assert(self.by_monitor@ =~= before.remove_keys(first.take(0).to_set()));
        }
        while i < removed.len()
            invariant
                0 <= i <= removed@.len(),
                first == texts(removed@),
                self.wf(),
                self.defaults == old(self).defaults,
                self.by_monitor@ == before.remove_keys(first.take(i as int).to_set()),
            decreases removed@.len() - i,
        {
            let _ = self.by_monitor.remove(&removed[i]);
            proof {
                lemma_take_more(first, i as int);
                assert(self.by_monitor@ =~= before.remove_keys(first.take(i + 1).to_set()));
            }
            i += 1;
        }
        proof {
            assert(first.take(i as int) =~= first);
            lemma_listed_names(removed@, gone);
        }
        let ghost left = before.remove_keys(gone);
        let mut j: usize = 0;
        proof {
            assert(self.by_monitor@ =~= with_known(left, second.take(0).to_set()));
        }
        while j < started.len()
            invariant
                0 <= j <= started@.len(),
                second == info_names(started@),
                self.wf(),
                self.defaults == old(self).defaults,
                self.by_monitor@ == with_known(left, second.take(j as int).to_set()),
            decreases started@.len() - j,
        {
            let _ = self.get_or_mk_monitor(started[j].name.clone());
            proof {
                lemma_take_more(second, j as int);
                assert(self.by_monitor@ =~= with_known(left, second.take(j + 1).to_set()));
            }
            j += 1;
        }
        proof {
            assert(second.take(j as int) =~= second);
            lemma_listed_monitors(started@, changed, event.data@);
            assert(self.by_monitor@ =~= monitors_applied(before, gone, changed));
        }
        (removed, started)
    }
}

/// The monitors of `bars` and those named by `names`.
pub open spec fn with_known(
    bars: Map<Seq<char>, MonitorBar>,
    names: Set<Seq<char>>,
) -> Map<Seq<char>, MonitorBar> {
    Map::new(
        |name: Seq<char>| bars.dom().contains(name) || names.contains(name),
        |name: Seq<char>| set_for(bars, name),
    )
}

/// The monitors that are gone are forgotten, the changed ones are known.
pub open spec fn monitors_applied(
    bars: Map<Seq<char>, MonitorBar>,
    gone: Set<Seq<char>>,
    changed: Set<Seq<char>>,
) -> Map<Seq<char>, MonitorBar> {
    with_known(bars.remove_keys(gone), changed)
}

impl HostState {
    pub open spec fn wf(&self) -> bool {
        self.bars.wf()
    }

    pub fn new() -> (r: Self)
        ensures
            r.wf(),
            r.bars.by_monitor@ == Map::<Seq<char>, MonitorBar>::empty(),
            r.bars.defaults.tui@ == ElemView::Empty,
            !r.bars.defaults.hidden,
            r.open_menu is None,
    {
        HostState { bars: BarTuiStates::new(), open_menu: None }
    }

    /// Does what a controller asks for.
    pub fn handle_update(&mut self, update: HostUpdate) -> (r: Notice)
        requires
            old(self).wf(),
        ensures
            final(self).wf(),
            updated(*old(self), update, *final(self)),
            notice_due(update, r),
    {
        match update {
            HostUpdate::UpdateBars(BarSelect::All, update) => {
                match update {
                    BarUpdate::SetTui(SetBarTui { tui, options: _ }) => {
                        self.bars.set_tui_everywhere(tui);
                    },
                    BarUpdate::Hide => {
                        self.bars.set_hidden_everywhere(true);
                    },
                    BarUpdate::Show => {
                        self.bars.set_hidden_everywhere(false);
                    },
                }
                Notice::AllBars
            },
            HostUpdate::UpdateBars(BarSelect::OnMonitor { monitor_name }, update) => {
                match update {
                    BarUpdate::SetTui(SetBarTui { tui, options: _ }) => {
                        self.bars.set_tui_on(monitor_name.clone(), tui);
                    },
                    BarUpdate::Hide => {
                        self.bars.set_hidden_on(monitor_name.clone(), true);
                    },
                    BarUpdate::Show => {
                        self.bars.set_hidden_on(monitor_name.clone(), false);
                    },
                }
                Notice::Bar(monitor_name)
            },
            HostUpdate::SetDefaultTui(SetBarTui { tui, options: _ }) => {
                self.bars.defaults.tui = tui;
                Notice::Followers
            },
            HostUpdate::OpenMenu(open) => {
                self.open_menu = Some(open);
                Notice::Menus
            },
            HostUpdate::CloseMenu => {
                self.open_menu = None;
                Notice::Menus
            },
        }
    }
}

/// What an update of a bar sets: the content or the visibility.
pub open spec fn bar_set(bar: MonitorBar, update: BarUpdate) -> MonitorBar {
    match update {
        BarUpdate::SetTui(set) => MonitorBar { tui: Some(set.tui), hidden: bar.hidden },
        BarUpdate::Hide => MonitorBar { tui: bar.tui, hidden: Some(true) },
        BarUpdate::Show => MonitorBar { tui: bar.tui, hidden: Some(false) },
    }
}

/// What an update of all bars makes of the defaults.
pub open spec fn defaults_set(defaults: BarTuiState, update: BarUpdate) -> BarTuiState {
    match update {
        BarUpdate::SetTui(set) => BarTuiState { tui: set.tui, hidden: defaults.hidden },
        BarUpdate::Hide => BarTuiState { tui: defaults.tui, hidden: true },
        BarUpdate::Show => BarTuiState { tui: defaults.tui, hidden: false },
    }
}

/// What an update of all bars makes of the monitors.
pub open spec fn all_follow(
    bars: Map<Seq<char>, MonitorBar>,
    update: BarUpdate,
) -> Map<Seq<char>, MonitorBar> {
    match update {
        BarUpdate::SetTui(_) => all_follow_tui(bars),
        BarUpdate::Hide => all_follow_hidden(bars),
        BarUpdate::Show => all_follow_hidden(bars),
    }
}

/// How an update leads from one state to the next.
pub open spec fn updated(before: HostState, update: HostUpdate, after: HostState) -> bool {
    match update {
        HostUpdate::UpdateBars(BarSelect::All, bar_update) => {
            &&& after.open_menu == before.open_menu
            &&& after.bars.defaults == defaults_set(before.bars.defaults, bar_update)
            &&& after.bars.by_monitor@ == all_follow(before.bars.by_monitor@, bar_update)
        },
        HostUpdate::UpdateBars(BarSelect::OnMonitor { monitor_name }, bar_update) => {
            &&& after.open_menu == before.open_menu
            &&& after.bars.defaults == before.bars.defaults
            &&& after.bars.by_monitor@ == before.bars.by_monitor@.insert(
                monitor_name@,
                bar_set(set_for(before.bars.by_monitor@, monitor_name@), bar_update),
            )
        },
        HostUpdate::SetDefaultTui(set) => {
            &&& after.open_menu == before.open_menu
            &&& after.bars.defaults == (BarTuiState {
                tui: set.tui,
                hidden: before.bars.defaults.hidden,
            })
            &&& after.bars.by_monitor == before.bars.by_monitor
        },
        HostUpdate::OpenMenu(open) => {
            &&& after.open_menu == Some(open)
            &&& after.bars == before.bars
        },
        HostUpdate::CloseMenu => {
            &&& after.open_menu is None
            &&& after.bars == before.bars
        },
    }
}

/// Who has to look again after an update.
pub open spec fn notice_due(update: HostUpdate, notice: Notice) -> bool {
    match update {
        HostUpdate::UpdateBars(BarSelect::All, _) => notice is AllBars,
        HostUpdate::UpdateBars(BarSelect::OnMonitor { monitor_name }, _) => notice
            == Notice::Bar(monitor_name),
        HostUpdate::SetDefaultTui(_) => notice is Followers,
        HostUpdate::OpenMenu(_) => notice is Menus,
        HostUpdate::CloseMenu => notice is Menus,
    }
}

/// Setting the content of all bars makes every monitor show it, known or not.
pub proof fn law_set_all_shows_everywhere(
    before: HostState,
    set: SetBarTui,
    after: HostState,
    name: Seq<char>,
)
    requires
        updated(before, HostUpdate::UpdateBars(BarSelect::All, BarUpdate::SetTui(set)), after),
    ensures
        after.bars.shown(name) == set.tui@,
        after.bars.hidden_on(name) == before.bars.hidden_on(name),
{
}

/// Setting the bar of one monitor leaves what every other monitor shows, and
/// whether it is hidden, as it was.
pub proof fn law_set_one_leaves_others(
    before: HostState,
    monitor_name: String,
    update: BarUpdate,
    after: HostState,
    name: Seq<char>,
)
    requires
        updated(
            before,
            HostUpdate::UpdateBars(BarSelect::OnMonitor { monitor_name }, update),
            after,
        ),
        name != monitor_name@,
    ensures
        after.bars.shown(name) == before.bars.shown(name),
        after.bars.hidden_on(name) == before.bars.hidden_on(name),
{
}

/// What is set for one monitor is what that monitor shows. Content and visibility
/// do not depend on each other.
pub proof fn law_set_one_shows_there(
    before: HostState,
    monitor_name: String,
    update: BarUpdate,
    after: HostState,
)
    requires
        updated(
            before,
            HostUpdate::UpdateBars(BarSelect::OnMonitor { monitor_name }, update),
            after,
        ),
    ensures
        match update {
            BarUpdate::SetTui(set) => {
                &&& after.bars.shown(monitor_name@) == set.tui@
                &&& after.bars.hidden_on(monitor_name@) == before.bars.hidden_on(monitor_name@)
            },
            BarUpdate::Hide => {
                &&& after.bars.shown(monitor_name@) == before.bars.shown(monitor_name@)
                &&& after.bars.hidden_on(monitor_name@)
            },
            BarUpdate::Show => {
                &&& after.bars.shown(monitor_name@) == before.bars.shown(monitor_name@)
                &&& !after.bars.hidden_on(monitor_name@)
            },
        },
{
}

/// A monitor that is gone follows the defaults should it come back. Every other one
/// keeps what was set for it, also where it has changed.
pub proof fn law_monitors_keep_what_was_set(
    bars: Map<Seq<char>, MonitorBar>,
    gone: Set<Seq<char>>,
    changed: Set<Seq<char>>,
    name: Seq<char>,
)
    ensures
        set_for(monitors_applied(bars, gone, changed), name) == (if gone.contains(name) {
            following()
        } else {
            set_for(bars, name)
        }),
{
}

/// Bars and menus do not depend on each other: what is asked of the one leaves the
/// other as it was.
pub proof fn law_bars_and_menus_are_apart(
    before: HostState,
    update: HostUpdate,
    after: HostState,
    name: Seq<char>,
)
    requires
        updated(before, update, after),
    ensures
        update is OpenMenu || update is CloseMenu ==> after.bars.shown(name) == before.bars.shown(name)
            && after.bars.hidden_on(name) == before.bars.hidden_on(name),
        !(update is OpenMenu || update is CloseMenu) ==> after.open_menu == before.open_menu,
{
}

/// A monitor that was given content of its own keeps it when the default
/// changes. Every other one shows the new default.
pub proof fn law_default_reaches_followers(
    before: HostState,
    set: SetBarTui,
    after: HostState,
    name: Seq<char>,
)
    requires
        updated(before, HostUpdate::SetDefaultTui(set), after),
    ensures
        set_for(before.bars.by_monitor@, name).tui is Some ==> after.bars.shown(name)
            == before.bars.shown(name),
        set_for(before.bars.by_monitor@, name).tui is None ==> after.bars.shown(name) == set.tui@,
        after.bars.hidden_on(name) == before.bars.hidden_on(name),
{
}

/// Hiding all bars and then showing one leaves exactly that one visible.
pub proof fn law_hide_all_show_one(
    before: HostState,
    between: HostState,
    after: HostState,
    monitor_name: String,
    name: Seq<char>,
)
    requires
        updated(before, HostUpdate::UpdateBars(BarSelect::All, BarUpdate::Hide), between),
        updated(
            between,
            HostUpdate::UpdateBars(BarSelect::OnMonitor { monitor_name }, BarUpdate::Show),
            after,
        ),
    ensures
        after.bars.hidden_on(name) == (name != monitor_name@),
{
}

/// Hiding or showing all bars does so on every monitor, known or not, and leaves
/// what they show as it was.
pub proof fn law_hide_all_hides_everywhere(
    before: HostState,
    hidden: HostState,
    shown: HostState,
    name: Seq<char>,
)
    requires
        updated(before, HostUpdate::UpdateBars(BarSelect::All, BarUpdate::Hide), hidden),
        updated(before, HostUpdate::UpdateBars(BarSelect::All, BarUpdate::Show), shown),
    ensures
        hidden.bars.hidden_on(name),
        !shown.bars.hidden_on(name),
        hidden.bars.shown(name) == before.bars.shown(name),
        shown.bars.shown(name) == before.bars.shown(name),
{
}

/// After the content of all bars was set, every monitor follows the default again:
/// a new default shows everywhere.
pub proof fn law_set_all_makes_followers(
    before: HostState,
    first: SetBarTui,
    between: HostState,
    second: SetBarTui,
    after: HostState,
    name: Seq<char>,
)
    requires
        updated(before, HostUpdate::UpdateBars(BarSelect::All, BarUpdate::SetTui(first)), between),
        updated(between, HostUpdate::SetDefaultTui(second), after),
    ensures
        after.bars.shown(name) == second.tui@,
{
}

/// The menu that is open is the one that was asked for last; none is open after it
/// was closed.
pub proof fn law_last_menu_is_open(before: HostState, open: OpenMenu, after: HostState)
    ensures
        updated(before, HostUpdate::OpenMenu(open), after) ==> after.open_menu == Some(open),
        updated(before, HostUpdate::CloseMenu, after) ==> after.open_menu is None,
{
}

/// What a monitor shows is what was set for it, or else the default; and so it is
/// with whether it is hidden.
pub proof fn law_unset_follows_the_default(states: BarTuiStates, name: Seq<char>)
    ensures
        !states.by_monitor@.dom().contains(name) ==> states.shown(name) == states.defaults.tui@
            && states.hidden_on(name) == states.defaults.hidden,
        states.by_monitor@.dom().contains(name) ==> {
            let set = states.by_monitor@[name];
            &&& set.tui matches Some(tui) ==> states.shown(name) == tui@
            &&& set.tui is None ==> states.shown(name) == states.defaults.tui@
            &&& set.hidden matches Some(hidden) ==> states.hidden_on(name) == hidden
            &&& set.hidden is None ==> states.hidden_on(name) == states.defaults.hidden
        },
{
}

/// Whoever shows something else after an update has to look again: a monitor whose
/// bar has changed is among those that the notice speaks of.
pub proof fn law_notice_reaches_who_changed(
    before: HostState,
    update: HostUpdate,
    after: HostState,
    notice: Notice,
    name: Seq<char>,
)
    requires
        updated(before, update, after),
        notice_due(update, notice),
    ensures
        (after.bars.shown(name) != before.bars.shown(name) || after.bars.hidden_on(name)
            != before.bars.hidden_on(name)) ==> {
            ||| notice is AllBars
            ||| notice matches Notice::Bar(monitor) && monitor@ == name
            ||| notice is Followers && set_for(after.bars.by_monitor@, name).tui is None
        },
        after.open_menu != before.open_menu ==> notice is Menus,
        notice is Menus <==> update is OpenMenu || update is CloseMenu,
{
}

} // verus!
