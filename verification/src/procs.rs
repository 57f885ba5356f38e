//! The panels of the monitors and the process that controls them.
use vstd::prelude::*;
use crate::assoc::Assoc;
use crate::monitors::{
    changed_names, info_names, lemma_list_more, lemma_listed_monitors, lemma_listed_names,
    lists_monitors, lists_names, removed_names, MonitorEvent, MonitorInfo,
};
use crate::strs::{joined, lemma_take_more, owned, texts};

pub mod bar_panel;
pub mod controller;
pub mod menu_panel;

verus! {

/// The edge of the screen at which the bar stands.
pub const EDGE: &'static str = "top";

/// The panels that are running, by the name of their monitor.
#[derive(Debug)]
pub struct PanelSet {
    pub running: Assoc<()>,
}

/// The panels that have to make room when the monitors change: those of monitors
/// that are gone, and those that are started anew.
pub open spec fn outdated(running: Set<Seq<char>>, event: MonitorEvent) -> Set<Seq<char>> {
    running.intersect(
        removed_names(event.prev@, event.data@).union(changed_names(event.prev@, event.data@)),
    )
}

/// Two sequences one behind the other hold what either of them holds.
proof fn lemma_concat_set<A>(first: Seq<A>, second: Seq<A>)
    ensures
        (first + second).to_set() == first.to_set().union(second.to_set()),
{
    let both = first + second;
    assert forall|x: A| #[trigger] both.to_set().contains(x) == first.to_set().union(
        second.to_set(),
    ).contains(x) by {
        if first.contains(x) {
            let i = choose|i: int| 0 <= i < first.len() && first[i] == x;
            assert(both[i] == x);
        }
        if second.contains(x) {
            let i = choose|i: int| 0 <= i < second.len() && second[i] == x;
            assert(both[first.len() + i] == x);
        }
    }
    assert(both.to_set() =~= first.to_set().union(second.to_set()));
}

impl PanelSet {
    pub open spec fn wf(&self) -> bool {
        self.running.wf()
    }

    /// The monitors with a running panel.
    pub open spec fn names(&self) -> Set<Seq<char>> {
        self.running@.dom()
    }

    pub fn new() -> (r: Self)
        ensures
            r.wf(),
            r.names() == Set::<Seq<char>>::empty(),
    {
        let r = PanelSet { running: Assoc::new() };
        proof {
            assert(r.names() =~= Set::<Seq<char>>::empty());
        }
        r
    }

    /// Takes a panel out and notes it, if it is running.
    fn stop(&mut self, name: &String, stopped: &mut Vec<String>)
        requires
            old(self).wf(),
        ensures
            final(self).wf(),
            final(self).names() == old(self).names().remove(name@),
            old(self).names().contains(name@) ==> final(stopped)@ == old(stopped)@.push(*name),
            !old(self).names().contains(name@) ==> final(stopped)@ == old(stopped)@,
    {
        let found = self.running.remove(name);
        if found.is_some() {
            stopped.push(name.clone());
        }
        proof {
            assert(self.names() =~= old(self).names().remove(name@));
        }
    }

    /// Stops those of the named panels that are running. The result lists them.
    fn stop_all(&mut self, names: &Vec<String>) -> (r: Vec<String>)
        requires
            old(self).wf(),
        ensures
            final(self).wf(),
            final(self).names() == old(self).names().difference(texts(names@).to_set()),
            lists_names(r@, old(self).names().intersect(texts(names@).to_set())),
    {
        let ghost start = self.names();
        let ghost all = texts(names@);
        let mut stopped: Vec<String> = Vec::new();
        let mut i: usize = 0;
        proof {
            assert(start.difference(all.take(0).to_set()) =~= start);
        }
        while i < names.len()
            invariant
                0 <= i <= names@.len(),
                all == texts(names@),
                self.wf(),
                self.names() == start.difference(all.take(i as int).to_set()),
                lists_names(stopped@, start.intersect(all.take(i as int).to_set())),
            decreases names@.len() - i,
        {
            let ghost had = stopped@;
            let ghost before = self.names();
            self.stop(&names[i], &mut stopped);
            proof {
                let name = names@[i as int];
                let seen = all.take(i as int).to_set();
                lemma_take_more(all, i as int);
                assert(self.names() =~= start.difference(seen.insert(name@)));
                if before.contains(name@) {
                    lemma_list_more(had, start.intersect(seen), name);
                    assert(start.intersect(seen.insert(name@)) =~= start.intersect(seen).insert(
                        name@,
                    ));
                } else {
                    assert(start.intersect(seen.insert(name@)) =~= start.intersect(seen));
                }
            }
            i += 1;
        }
        proof {
            assert(all.take(i as int) =~= all);
        }
        stopped
    }

    /// Stops the panels that have to make room. The result lists those, and the
    /// monitors for which a panel is to be started. None of these is running.
    pub fn apply_monitors(&mut self, event: &MonitorEvent) -> (r: (Vec<String>, Vec<MonitorInfo>))
        requires
            old(self).wf(),
            event.wf(),
        ensures
            final(self).wf(),
            final(self).names() == old(self).names().difference(
                removed_names(event.prev@, event.data@),
            ).difference(changed_names(event.prev@, event.data@)),
            lists_names(r.0@, outdated(old(self).names(), *event)),
            lists_monitors(r.1@, changed_names(event.prev@, event.data@), event.data@),
            forall|i: int|
                0 <= i < r.1@.len() ==> !final(self).names().contains((#[trigger] r.1@[i]).name@),
    {
        let removed = event.removed();
        let started = event.added_or_changed();
        let ghost gone = removed_names(event.prev@, event.data@);
        let ghost changed = changed_names(event.prev@, event.data@);
        let ghost first = texts(removed@);
        let ghost second = info_names(started@);
        proof {
            lemma_listed_names(removed@, gone);
            lemma_listed_monitors(started@, changed, event.data@);
        }
        let mut names: Vec<String> = removed;
        let mut i: usize = 0;
        proof {
            assert(texts(names@) =~= first + second.take(0));
        }
        while i < started.len()
            invariant
                0 <= i <= started@.len(),
                second == info_names(started@),
                texts(names@) == first + second.take(i as int),
            decreases started@.len() - i,
        {
            let ghost had = texts(names@);
            names.push(started[i].name.clone());
            proof {
                assert(texts(names@) =~= had.push(second[i as int]));
                assert(texts(names@) =~= first + second.take(i + 1));
            }
            i += 1;
        }
        proof {
            assert(second.take(i as int) =~= second);
            lemma_concat_set(first, second);
        }
        let ghost start = self.names();
        let stopped = self.stop_all(&names);
        proof {
            assert(self.names() =~= start.difference(gone).difference(changed));
            assert(start.intersect(gone.union(changed)) =~= outdated(start, *event));
            assert forall|k: int| 0 <= k < started@.len() implies !self.names().contains(
                (#[trigger] started@[k]).name@,
            ) by {
                assert(changed.contains(started@[k].name@));
            }
        }
        (stopped, started)
    }

    /// Notes that a panel was started.
    pub fn started(&mut self, name: String)
        requires
            old(self).wf(),
        ensures
            final(self).wf(),
            final(self).names() == old(self).names().insert(name@),
    {
        self.running.insert(name, ());
        proof {
            assert(self.names() =~= old(self).names().insert(name@));
        }
    }

    /// Stops the panels that no longer listen.
    pub fn drop_closed(&mut self, closed: &Vec<String>) -> (r: Vec<String>)
        requires
            old(self).wf(),
        ensures
            final(self).wf(),
            forall|name: Seq<char>| #[trigger]
                final(self).names().contains(name) <==> old(self).names().contains(name)
                    && !texts(closed@).contains(name),
            lists_names(
                r@,
                Set::new(
                    |name: Seq<char>| old(self).names().contains(name) && texts(closed@).contains(name),
                ),
            ),
    {
        let ghost start = self.names();
        let stopped = self.stop_all(closed);
        proof {
            let due = Set::new(
                |name: Seq<char>| start.contains(name) && texts(closed@).contains(name),
            );
            assert(start.intersect(texts(closed@).to_set()) =~= due);
        }
        stopped
    }
}

/// The arguments with which the terminal of a bar panel is started.
pub open spec fn bar_panel_args(monitor: Seq<char>) -> Seq<Seq<char>> {
    seq![
        "--output-name="@ + monitor,
        "-o=forward_stdio=yes"@,
        "--config=NONE"@,
        "-o=foreground=white"@,
        "-o=background=black"@,
        "--edge="@ + EDGE@,
        "-o=mouse_hide_wait=0"@,
    ]
}

pub fn mk_bar_panel_args(monitor: &str) -> (r: Vec<String>)
    ensures
        texts(r@) == bar_panel_args(monitor@),
{
    let r = vec![
        joined("--output-name=", monitor),
        // Logging goes to the standard streams that the terminal forwards.
        owned("-o=forward_stdio=yes"),
        // The user's own configuration of the terminal is left out.
        owned("--config=NONE"),
        owned("-o=foreground=white"),
        owned("-o=background=black"),
        joined("--edge=", EDGE),
        // The mouse stays visible.
        owned("-o=mouse_hide_wait=0"),
    ];
    proof {
        assert(texts(r@) =~= bar_panel_args(monitor@));
    }
    r
}

/// The arguments with which the terminal of a menu panel is started. The script
/// at `watcher` tells when the panel is hidden from outside.
pub open spec fn menu_panel_args(monitor: Seq<char>, watcher: Seq<char>) -> Seq<Seq<char>> {
    seq![
        "-o=watcher="@ + watcher,
        "--output-name="@ + monitor,
        "-o=allow_remote_control=socket-only"@,
        "--listen-on=unix:/tmp/kitty-bar-menu-panel.sock"@,
        "-o=forward_stdio=yes"@,
        "--config=NONE"@,
        "-o=background_opacity=0.85"@,
        "-o=background=black"@,
        "-o=foreground=white"@,
        "--edge=top"@,
        "-o=mouse_hide_wait=0"@,
        "--exclusive-zone=0"@,
        "--override-exclusive-zone"@,
        "--layer=overlay"@,
        "--focus-policy=on-demand"@,
        "--hide-on-focus-loss"@,
        "-o=resize_debounce_time=0 0"@,
    ]
}

pub fn mk_menu_panel_args(monitor: &str, watcher: &str) -> (r: Vec<String>)
    ensures
        texts(r@) == menu_panel_args(monitor@, watcher@),
{
    let r = vec![
        joined("-o=watcher=", watcher),
        joined("--output-name=", monitor),
        owned("-o=allow_remote_control=socket-only"),
        owned("--listen-on=unix:/tmp/kitty-bar-menu-panel.sock"),
        owned("-o=forward_stdio=yes"),
        owned("--config=NONE"),
        owned("-o=background_opacity=0.85"),
        owned("-o=background=black"),
        owned("-o=foreground=white"),
        owned("--edge=top"),
        owned("-o=mouse_hide_wait=0"),
        // The panel lies on top of the windows and takes no room from them.
        owned("--exclusive-zone=0"),
        owned("--override-exclusive-zone"),
        owned("--layer=overlay"),
        // Mouse events stop at the edge of the panel, so leaving it shows only in
        // the focus.
        owned("--focus-policy=on-demand"),
        owned("--hide-on-focus-loss"),
        // Resizes come from the program, so there is nothing to wait for.
        owned("-o=resize_debounce_time=0 0"),
    ];
    proof {
        assert(texts(r@) =~= menu_panel_args(monitor@, watcher@));
    }
    r
}

/// The panels that make room are running ones, of monitors that are gone, new or
/// not what they were; those of unchanged monitors stay.
pub proof fn law_unchanged_monitors_keep_their_panels(
    running: Set<Seq<char>>,
    event: MonitorEvent,
    name: Seq<char>,
)
    ensures
        outdated(running, event).contains(name) ==> running.contains(name),
        event.data@.dom().contains(name) && event.prev@.dom().contains(name)
            && event.prev@[name].equals(event.data@[name]) ==> !outdated(running, event).contains(
            name,
        ),
        running.contains(name) && !event.data@.dom().contains(name) && event.prev@.dom().contains(
            name,
        ) ==> outdated(running, event).contains(name),
        running.contains(name) && event.data@.dom().contains(name) && !(
        event.prev@.dom().contains(name) && event.prev@[name].equals(event.data@[name]))
            ==> outdated(running, event).contains(name),
{
}

/// The terminals are started on the monitor that they are for, and the one of the
/// menu with the script that watches it.
pub proof fn law_panels_start_on_their_monitor(monitor: Seq<char>, watcher: Seq<char>)
    ensures
        bar_panel_args(monitor).contains("--output-name="@ + monitor),
        bar_panel_args(monitor).contains("--edge="@ + "top"@),
        menu_panel_args(monitor, watcher).contains("--output-name="@ + monitor),
        menu_panel_args(monitor, watcher).contains("-o=watcher="@ + watcher),
        menu_panel_args(monitor, watcher).contains("--hide-on-focus-loss"@),
        menu_panel_args(monitor, watcher).contains("--edge=top"@),
{
    let bar = bar_panel_args(monitor);
    let menu = menu_panel_args(monitor, watcher);
    assert(bar[0] == "--output-name="@ + monitor);
    assert(bar[5] == "--edge="@ + "top"@);
    assert(menu[0] == "-o=watcher="@ + watcher);
    assert(menu[1] == "--output-name="@ + monitor);
    assert(menu[9] == "--edge=top"@);
    assert(menu[15] == "--hide-on-focus-loss"@);
}

} // verus!
