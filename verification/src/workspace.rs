//! The workspace indicator: a tracker of windows and occupied workspaces fed
//! by the compositor's event lines, the batching of its updates, and the
//! state of the workspace buttons.

use vstd::prelude::*;
use crate::text::{
    chars_of, chars_are, copy_range, trim_chars, splitn_chars, split_once_chars, views, trim,
    splitn_on, split_once_pair,
};
use crate::numbers::{parse_i32, parsed_i32, decimal, decimal_chars};
use vstd::string::*;

verus! {

/// The abstract state of the tracker: the workspace of each open window, by
/// window address, and the set of workspaces known to hold windows.
pub struct TrackerState {
    pub windows: Map<Seq<char>, i32>,
    pub occupied: Set<i32>,
}

/// What the tracker reports after an event line.
pub enum EventView {
    /// The focused workspace changed.
    Active(i32),
    /// The set of occupied workspaces, after a change.
    Occupied(Set<i32>),
    /// The first report: the focused workspace and the occupied ones.
    Initial(i32, Set<i32>),
}

/// A report of the tracker.
pub enum WorkspaceEvent {
    /// The focused workspace changed.
    Active(i32),
    /// The occupied workspaces, without duplicates.
    Occupied(Vec<i32>),
    /// The first report: the focused workspace and the occupied ones.
    Initial { active: i32, occupied: Vec<i32> },
}

impl View for WorkspaceEvent {
    type V = EventView;

    open spec fn view(&self) -> EventView {
        match self {
            WorkspaceEvent::Active(id) => EventView::Active(*id),
            WorkspaceEvent::Occupied(set) => EventView::Occupied(set@.to_set()),
            WorkspaceEvent::Initial { active, occupied } => EventView::Initial(
                *active,
                occupied@.to_set(),
            ),
        }
    }
}

/// The view of an optional report.
pub open spec fn event_view(e: Option<WorkspaceEvent>) -> Option<EventView> {
    match e {
        Some(ev) => Some(ev@),
        None => None,
    }
}

/// An open window and the workspace it is on.
struct Window {
    address: Vec<char>,
    workspace: i32,
}

/// The windows as (address, workspace) pairs.
spec fn window_pairs(w: Seq<Window>) -> Seq<(Seq<char>, i32)> {
    w.map_values(|x: Window| (x.address@, x.workspace))
}

/// The map from address to workspace of a list of pairs.
pub open spec fn pairs_map(w: Seq<(Seq<char>, i32)>) -> Map<Seq<char>, i32> {
    Map::new(
        |k: Seq<char>| exists|i: int| 0 <= i < w.len() && w[i].0 == k,
        |k: Seq<char>| w[choose|i: int| 0 <= i < w.len() && w[i].0 == k].1,
    )
}

/// No address occurs twice.
pub open spec fn distinct_keys(w: Seq<(Seq<char>, i32)>) -> bool {
    forall|i: int, j: int| 0 <= i < w.len() && 0 <= j < w.len() && i != j ==> w[i].0 != w[j].0
}

/// The entry of `w` at `i` is what the map holds for its key.
pub proof fn lemma_pairs_map_at(w: Seq<(Seq<char>, i32)>, i: int)
    requires
        distinct_keys(w),
        0 <= i < w.len(),
    ensures
        pairs_map(w).contains_key(w[i].0),
        pairs_map(w)[w[i].0] == w[i].1,
{
    let k = w[i].0;
    assert(exists|j: int| 0 <= j < w.len() && w[j].0 == k);
    let c = choose|j: int| 0 <= j < w.len() && w[j].0 == k;
    assert(c == i);
}

/// Two maps with the same keys and the same values are equal.
proof fn lemma_map_ext(m1: Map<Seq<char>, i32>, m2: Map<Seq<char>, i32>)
    requires
        forall|k: Seq<char>| #[trigger] m1.contains_key(k) == m2.contains_key(k),
        forall|k: Seq<char>| #[trigger] m1.contains_key(k) ==> m1[k] == m2[k],
    ensures
        m1 == m2,
{
    assert(m1 =~= m2);
}

/// Whether some window is on workspace `ws`.
pub open spec fn hosts_window(windows: Map<Seq<char>, i32>, ws: i32) -> bool {
    exists|k: Seq<char>| windows.contains_key(k) && windows[k] == ws
}

/// The state after a window `addr` opens on workspace `ws`: the window is
/// recorded (replacing what was known of it) and `ws` becomes occupied.
pub open spec fn open_window(s: TrackerState, addr: Seq<char>, ws: i32) -> TrackerState {
    TrackerState { windows: s.windows.insert(addr, ws), occupied: s.occupied.insert(ws) }
}

/// The state and report after window `addr` closes: it is forgotten, and its
/// workspace stops being occupied, and is reported, when no other window is
/// on it. Closing an unknown window changes and reports nothing.
pub open spec fn close_window(s: TrackerState, addr: Seq<char>) -> (TrackerState, Option<EventView>) {
    if s.windows.contains_key(addr) {
        let ws = s.windows[addr];
        let rest = s.windows.remove(addr);
        if hosts_window(rest, ws) {
            (TrackerState { windows: rest, occupied: s.occupied }, None)
        } else {
            let occupied = s.occupied.remove(ws);
            (TrackerState { windows: rest, occupied }, Some(EventView::Occupied(occupied)))
        }
    } else {
        (s, None)
    }
}

/// The workspace id in the data of an event: the whole data, trimmed.
pub open spec fn event_id(data: Seq<char>) -> Option<i32> {
    parsed_i32(trim(data))
}

/// What one line of the compositor's event stream (`EVENT>>DATA`) does to
/// the tracker, and what it reports:
/// - `workspace>>ID` reports `ID` as the focused workspace;
/// - `focusedmon>>MONITOR,ID` does the same;
/// - `destroyworkspace>>ID` removes `ID` from the occupied workspaces and
///   reports them;
/// - `openwindow>>ADDRESS,WORKSPACE,...` records the window (on workspace 1
///   when the workspace does not parse), marks its workspace occupied and
///   reports the occupied workspaces;
/// - `closewindow>>ADDRESS` is `close_window`.
/// Any other line, or one whose id does not parse, changes nothing and
/// reports nothing.
pub open spec fn tracker_step(s: TrackerState, line: Seq<char>) -> (TrackerState, Option<EventView>) {
    match split_once_pair(line, '>', '>') {
        None => (s, None),
        Some((name, data)) => if name == "workspace"@ {
            match event_id(data) {
                Some(id) => (s, Some(EventView::Active(id))),
                None => (s, None),
            }
        } else if name == "destroyworkspace"@ {
            match event_id(data) {
                Some(id) => {
                    let occupied = s.occupied.remove(id);
                    (
                        TrackerState { windows: s.windows, occupied },
                        Some(EventView::Occupied(occupied)),
                    )
                },
                None => (s, None),
            }
        } else if name == "openwindow"@ {
            let parts = splitn_on(data, 4, ',');
            if parts.len() >= 2 {
                let ws = match parsed_i32(parts[1]) {
                    Some(v) => v,
                    None => 1,
                };
                let t = open_window(s, parts[0], ws);
                (t, Some(EventView::Occupied(t.occupied)))
            } else {
                (s, None)
            }
        } else if name == "closewindow"@ {
            close_window(s, trim(data))
        } else if name == "focusedmon"@ {
            let parts = splitn_on(data, 2, ',');
            if parts.len() >= 2 {
                match event_id(parts[1]) {
                    Some(id) => (s, Some(EventView::Active(id))),
                    None => (s, None),
                }
            } else {
                (s, None)
            }
        } else {
            (s, None)
        },
    }
}

/// Closing a window that was just opened undoes the opening, when the window
/// was new and the occupied workspaces agreed with the windows on `ws`.
pub proof fn lemma_close_undoes_open(s: TrackerState, addr: Seq<char>, ws: i32)
    requires
        !s.windows.contains_key(addr),
        s.occupied.contains(ws) <==> hosts_window(s.windows, ws),
    ensures
        close_window(open_window(s, addr, ws), addr).0 == s,
{
    let t = open_window(s, addr, ws);
    assert(t.windows.remove(addr) =~= s.windows);
    if hosts_window(s.windows, ws) {
        assert(s.occupied.insert(ws) =~= s.occupied);
    } else {
        assert(s.occupied.insert(ws).remove(ws) =~= s.occupied);
    }
}

/// A workspace stays occupied while a window remains on it: closing one of
/// two windows opened on `ws` keeps `ws` occupied and reports nothing.
pub proof fn lemma_shared_workspace_stays_occupied(
    s: TrackerState,
    a: Seq<char>,
    b: Seq<char>,
    ws: i32,
)
    requires
        a != b,
    ensures
        ({
            let (t, e) = close_window(open_window(open_window(s, a, ws), b, ws), b);
            t.occupied.contains(ws) && e is None && t.windows.contains_key(a)
        }),
{
    let u = open_window(open_window(s, a, ws), b, ws);
    let rest = u.windows.remove(b);
    assert(rest.contains_key(a) && rest[a] == ws);
    assert(hosts_window(rest, ws));
}

/// The name of the event on a line `EVENT>>DATA`, if the line has one.
pub open spec fn event_name(line: Seq<char>) -> Option<Seq<char>> {
    match split_once_pair(line, '>', '>') {
        Some((name, _)) => Some(name),
        None => None,
    }
}

/// Whether the line carries one of the events that the tracker acts on.
pub open spec fn handled_event(line: Seq<char>) -> bool {
    match event_name(line) {
        Some(name) => name == "workspace"@ || name == "focusedmon"@ || name == "destroyworkspace"@
            || name == "openwindow"@ || name == "closewindow"@,
        None => false,
    }
}

/// A line of any other event (such as `createworkspace` or `activewindow`),
/// or a line without an event, leaves the tracker as it was and reports
/// nothing.
pub proof fn lemma_other_events_ignored(s: TrackerState, line: Seq<char>)
    requires
        !handled_event(line),
    ensures
        tracker_step(s, line) == (s, None::<EventView>),
{
}

/// A workspace becomes occupied only when a window is opened on it: after
/// any line, a workspace that is occupied now and was not before is the
/// workspace of an `openwindow` line, and a known window is on it.
pub proof fn lemma_occupied_only_by_open(s: TrackerState, line: Seq<char>, x: i32)
    ensures
        ({
            let t = tracker_step(s, line).0;
            t.occupied.contains(x) && !s.occupied.contains(x) ==> event_name(line) == Some(
                "openwindow"@,
            ) && hosts_window(t.windows, x)
        }),
{
    let (t, e) = tracker_step(s, line);
    match split_once_pair(line, '>', '>') {
        None => {
            assert(t == s);
        },
        Some((name, data)) => {
            assert(event_name(line) == Some(name));
            if name == "workspace"@ {
                assert(t == s);
            } else if name == "destroyworkspace"@ {
                match event_id(data) {
                    Some(id) => {
                        assert(t.occupied == s.occupied.remove(id));
                    },
                    None => {
                        assert(t == s);
                    },
                }
            } else if name == "openwindow"@ {
                let parts = splitn_on(data, 4, ',');
                if parts.len() >= 2 {
                    let ws = match parsed_i32(parts[1]) {
                        Some(v) => v,
                        None => 1,
                    };
                    assert(t == open_window(s, parts[0], ws));
                    assert(t.windows.contains_key(parts[0]) && t.windows[parts[0]] == ws);
                } else {
                    assert(t == s);
                }
            } else if name == "closewindow"@ {
                let addr = trim(data);
                assert((t, e) == close_window(s, addr));
                if s.windows.contains_key(addr) {
                    let ws = s.windows[addr];
                    assert(t.occupied == s.occupied || t.occupied == s.occupied.remove(ws));
                } else {
                    assert(t == s);
                }
            } else {
                assert(t == s);
            }
        },
    }
}

/// Only `openwindow` and `closewindow` lines change the known windows.
pub proof fn lemma_windows_change_only_on_open_close(s: TrackerState, line: Seq<char>)
    requires
        event_name(line) != Some("openwindow"@),
        event_name(line) != Some("closewindow"@),
    ensures
        tracker_step(s, line).0.windows == s.windows,
{
    match split_once_pair(line, '>', '>') {
        None => {},
        Some((name, data)) => {
            assert(event_name(line) == Some(name));
            assert(name != "openwindow"@ && name != "closewindow"@);
            if name == "workspace"@ {
            } else if name == "destroyworkspace"@ {
            } else if name == "focusedmon"@ {
            } else {
            }
        },
    }
}

/// Only `workspace` and `focusedmon` lines report a focused workspace, and
/// no line gives a first report.
pub proof fn lemma_focus_reported_only_on_focus(s: TrackerState, line: Seq<char>)
    ensures
        tracker_step(s, line).1 matches Some(EventView::Active(_)) ==> event_name(line) == Some(
            "workspace"@,
        ) || event_name(line) == Some("focusedmon"@),
        !(tracker_step(s, line).1 matches Some(EventView::Initial(_, _))),
{
    let e = tracker_step(s, line).1;
    match split_once_pair(line, '>', '>') {
        None => {
            assert(e is None);
        },
        Some((name, data)) => {
            assert(event_name(line) == Some(name));
            if name == "workspace"@ {
            } else if name == "destroyworkspace"@ {
                assert(e is None || e matches Some(EventView::Occupied(_)));
            } else if name == "openwindow"@ {
                assert(e is None || e matches Some(EventView::Occupied(_)));
            } else if name == "closewindow"@ {
                let addr = trim(data);
                assert(tracker_step(s, line) == close_window(s, addr));
                assert(e is None || e matches Some(EventView::Occupied(_)));
            } else if name == "focusedmon"@ {
            } else {
                assert(e is None);
            }
        },
    }
}

/// A report of occupied workspaces is the tracker's new set of them.
pub proof fn lemma_occupied_report_is_state(s: TrackerState, line: Seq<char>)
    ensures
        tracker_step(s, line).1 matches Some(EventView::Occupied(o)) ==> o == tracker_step(
            s,
            line,
        ).0.occupied,
{
    match split_once_pair(line, '>', '>') {
        None => {},
        Some((name, data)) => {
            if name == "workspace"@ {
            } else if name == "destroyworkspace"@ {
            } else if name == "openwindow"@ {
            } else if name == "closewindow"@ {
                let addr = trim(data);
                assert(tracker_step(s, line) == close_window(s, addr));
            } else {
            }
        },
    }
}

/// Tracks the open windows and the occupied workspaces.
pub struct WorkspaceTracker {
    windows: Vec<Window>,
    occupied: Vec<i32>,
}

impl View for WorkspaceTracker {
    type V = TrackerState;

    closed spec fn view(&self) -> TrackerState {
        TrackerState {
            windows: pairs_map(window_pairs(self.windows@)),
            occupied: self.occupied@.to_set(),
        }
    }
}

/// Adding an element at the end adds it to the set of elements.
pub proof fn lemma_push_to_set(s: Seq<i32>, x: i32)
    ensures
        s.push(x).to_set() == s.to_set().insert(x),
{
    assert forall|a: i32| s.push(x).contains(a) <==> (s.contains(a) || a == x) by {
        if s.push(x).contains(a) {
            let i = choose|i: int| 0 <= i < s.len() + 1 && s.push(x)[i] == a;
            if i < s.len() {
                assert(s[i] == a);
            }
        }
        if s.contains(a) {
            let i = choose|i: int| 0 <= i < s.len() && s[i] == a;
            assert(s.push(x)[i] == a);
        }
        if a == x {
            assert(s.push(x)[s.len() as int] == x);
        }
    };
    assert forall|a: i32| s.push(x).to_set().contains(a) == s.to_set().insert(x).contains(a) by {
        assert(s.push(x).contains(a) <==> (s.contains(a) || a == x));
    };
    assert(s.push(x).to_set() =~= s.to_set().insert(x));
}

/// Removing the element at `i` of a list without repetitions removes it from
/// the set of elements.
pub proof fn lemma_remove_to_set(s: Seq<i32>, i: int)
    requires
        s.no_duplicates(),
        0 <= i < s.len(),
    ensures
        s.remove(i).to_set() == s.to_set().remove(s[i]),
        s.remove(i).no_duplicates(),
{
    let r = s.remove(i);
    assert forall|a: i32| r.contains(a) <==> (s.contains(a) && a != s[i]) by {
        if r.contains(a) {
            let j = choose|j: int| 0 <= j < r.len() && r[j] == a;
            if j < i {
                assert(s[j] == a);
            } else {
                assert(s[j + 1] == a);
            }
        }
        if s.contains(a) && a != s[i] {
            let j = choose|j: int| 0 <= j < s.len() && s[j] == a;
            if j < i {
                assert(r[j] == a);
            } else {
                assert(r[j - 1] == a);
            }
        }
    };
    assert forall|a: i32| r.to_set().contains(a) == s.to_set().remove(s[i]).contains(a) by {
        assert(r.contains(a) <==> (s.contains(a) && a != s[i]));
    };
    assert(r.to_set() =~= s.to_set().remove(s[i]));
    assert forall|a: int, b: int| 0 <= a < r.len() && 0 <= b < r.len() && a != b implies r[a] != r[b] by {
        let sa = if a < i { a } else { a + 1 };
        let sb = if b < i { b } else { b + 1 };
        assert(r[a] == s[sa]);
        assert(r[b] == s[sb]);
    };
}

/// A copy of a list of workspace ids.
fn copy_ids(v: &Vec<i32>) -> (r: Vec<i32>)
    ensures
        r@ == v@,
{
    let mut r: Vec<i32> = Vec::new();
    for i in 0..v.len()
        invariant
            r@ == v@.take(i as int),
    {
        r.push(v[i]);
        assert(v@.take(i + 1) == v@.take(i as int).push(v@[i as int]));
    }
    assert(v@.take(v@.len() as int) == v@);
    r
}

/// The ids of `v` without repetitions, first occurrences kept in order.
pub fn distinct_ids(v: &Vec<i32>) -> (r: Vec<i32>)
    ensures
        r@.no_duplicates(),
        r@.to_set() == v@.to_set(),
{
    let mut r: Vec<i32> = Vec::new();
    for i in 0..v.len()
        invariant
            r@.no_duplicates(),
            r@.to_set() == v@.take(i as int).to_set(),
    {
        let x = v[i];
        assert(v@.take(i + 1) == v@.take(i as int).push(x));
        let ghost old_r = r@;
        if !contains_id(&r, x) {
            r.push(x);
        }
        proof {
            lemma_push_to_set(v@.take(i as int), x);
            if !old_r.contains(x) {
                lemma_push_to_set(old_r, x);
            } else {
                assert(old_r.to_set().insert(x) =~= old_r.to_set());
            }
        }
    }
    assert(v@.take(v@.len() as int) == v@);
    r
}

/// Whether `x` is in `v`.
pub fn contains_id(v: &Vec<i32>, x: i32) -> (r: bool)
    ensures
        r == v@.contains(x),
{
    for i in 0..v.len()
        invariant
            forall|j: int| 0 <= j < i ==> v@[j] != x,
    {
        if v[i] == x {
            assert(v@[i as int] == x);
            return true;
        }
    }
    false
}

impl WorkspaceTracker {
    /// Well-formed: no window address twice, no workspace id twice.
    pub closed spec fn wf(&self) -> bool {
        &&& distinct_keys(window_pairs(self.windows@))
        &&& self.occupied@.no_duplicates()
    }

    /// A tracker with no known windows and the given occupied workspaces.
    pub fn new(initial_occupied: &Vec<i32>) -> (t: Self)
        ensures
            t.wf(),
            t@.windows == Map::<Seq<char>, i32>::empty(),
            t@.occupied == initial_occupied@.to_set(),
    {
        let t = WorkspaceTracker { windows: Vec::new(), occupied: distinct_ids(initial_occupied) };
        assert(t@.windows =~= Map::<Seq<char>, i32>::empty());
        t
    }

    /// The position of the window with address `addr`.
    fn window_index(&self, addr: &Vec<char>) -> (r: Option<usize>)
        ensures
            match r {
                Some(i) => i < self.windows@.len() && self.windows@[i as int].address@ == addr@,
                None => forall|i: int|
                    0 <= i < self.windows@.len() ==> self.windows@[i].address@ != addr@,
            },
    {
        for i in 0..self.windows.len()
            invariant
                forall|j: int| 0 <= j < i ==> self.windows@[j].address@ != addr@,
        {
            if crate::text::same_chars(self.windows[i].address.as_slice(), addr.as_slice()) {
                return Some(i);
            }
        }
        None
    }

    /// Records that the window `addr` is on workspace `ws`.
    fn put_window(&mut self, addr: Vec<char>, ws: i32)
        requires
            old(self).wf(),
        ensures
            final(self).wf(),
            final(self)@.windows == old(self)@.windows.insert(addr@, ws),
            final(self)@.occupied == old(self)@.occupied,
    {
        let ghost w = window_pairs(self.windows@);
        let ghost key = addr@;
        match self.window_index(&addr) {
            Some(i) => {
                self.windows.set(i, Window { address: addr, workspace: ws });
                let ghost w2 = window_pairs(self.windows@);
                assert(w2 =~= w.update(i as int, (key, ws)));
                proof {
                    assert(distinct_keys(w2)) by {
                        assert forall|a: int, b: int|
                            0 <= a < w2.len() && 0 <= b < w2.len() && a != b implies w2[a].0
                            != w2[b].0 by {
                            assert(w[i as int].0 == key);
                        };
                    };
                    assert forall|k: Seq<char>|
                        #![trigger pairs_map(w2).contains_key(k)]
                        #![trigger pairs_map(w).insert(key, ws).contains_key(k)]
                        pairs_map(w2).contains_key(k) == pairs_map(w).insert(key, ws).contains_key(k)
                            && (pairs_map(w2).contains_key(k) ==> pairs_map(w2)[k] == pairs_map(
                            w,
                        ).insert(key, ws)[k]) by {
                        if k == key {
                            lemma_pairs_map_at(w2, i as int);
                        } else {
                            if pairs_map(w).contains_key(k) {
                                let j = choose|j: int| 0 <= j < w.len() && w[j].0 == k;
                                lemma_pairs_map_at(w, j);
                                lemma_pairs_map_at(w2, j);
                            }
                            if pairs_map(w2).contains_key(k) {
                                let j = choose|j: int| 0 <= j < w2.len() && w2[j].0 == k;
                                assert(w[j].0 == k);
                            }
                        }
                    };
                    lemma_map_ext(pairs_map(w2), pairs_map(w).insert(key, ws));
                }
            },
            None => {
                self.windows.push(Window { address: addr, workspace: ws });
                let ghost w2 = window_pairs(self.windows@);
                assert(w2 =~= w.push((key, ws)));
                proof {
                    assert(distinct_keys(w2)) by {
                        assert forall|a: int, b: int|
                            0 <= a < w2.len() && 0 <= b < w2.len() && a != b implies w2[a].0
                            != w2[b].0 by {
                            if a < w.len() {
                                assert(w2[a] == w[a]);
                            }
                            if b < w.len() {
                                assert(w2[b] == w[b]);
                            }
                        };
                    };
                    assert forall|k: Seq<char>|
                        #![trigger pairs_map(w2).contains_key(k)]
                        #![trigger pairs_map(w).insert(key, ws).contains_key(k)]
                        pairs_map(w2).contains_key(k) == pairs_map(w).insert(key, ws).contains_key(k)
                            && (pairs_map(w2).contains_key(k) ==> pairs_map(w2)[k] == pairs_map(
                            w,
                        ).insert(key, ws)[k]) by {
                        if k == key {
                            lemma_pairs_map_at(w2, w.len() as int);
                        } else {
                            if pairs_map(w).contains_key(k) {
                                let j = choose|j: int| 0 <= j < w.len() && w[j].0 == k;
                                lemma_pairs_map_at(w, j);
                                lemma_pairs_map_at(w2, j);
                            }
                            if pairs_map(w2).contains_key(k) {
                                let j = choose|j: int| 0 <= j < w2.len() && w2[j].0 == k;
                                assert(j < w.len());
                                assert(w[j].0 == k);
                            }
                        }
                    };
                    lemma_map_ext(pairs_map(w2), pairs_map(w).insert(key, ws));
                }
            },
        }
    }

    /// Forgets the window `addr`, giving back its workspace.
    fn take_window(&mut self, addr: &Vec<char>) -> (r: Option<i32>)
        requires
            old(self).wf(),
        ensures
            final(self).wf(),
            final(self)@.occupied == old(self)@.occupied,
            match r {
                Some(ws) => old(self)@.windows.contains_key(addr@) && ws == old(self)@.windows[addr@]
                    && final(self)@.windows == old(self)@.windows.remove(addr@),
                None => !old(self)@.windows.contains_key(addr@) && final(self)@.windows == old(
                    self,
                )@.windows,
            },
    {
        let ghost w = window_pairs(self.windows@);
        let ghost key = addr@;
        match self.window_index(addr) {
            Some(i) => {
                let ws = self.windows[i].workspace;
                proof {
                    lemma_pairs_map_at(w, i as int);
                }
                let _gone = self.windows.remove(i);
                let ghost w2 = window_pairs(self.windows@);
                assert(w2 =~= w.remove(i as int));
                proof {
                    assert(distinct_keys(w2)) by {
                        assert forall|a: int, b: int|
                            0 <= a < w2.len() && 0 <= b < w2.len() && a != b implies w2[a].0
                            != w2[b].0 by {
                            let sa = if a < i { a } else { a + 1 };
                            let sb = if b < i { b } else { b + 1 };
                            assert(w2[a] == w[sa]);
                            assert(w2[b] == w[sb]);
                        };
                    };
                    assert forall|k: Seq<char>|
                        #![trigger pairs_map(w2).contains_key(k)]
                        #![trigger pairs_map(w).remove(key).contains_key(k)]
                        pairs_map(w2).contains_key(k) == pairs_map(w).remove(key).contains_key(k)
                            && (pairs_map(w2).contains_key(k) ==> pairs_map(w2)[k] == pairs_map(
                            w,
                        ).remove(key)[k]) by {
                        if pairs_map(w2).contains_key(k) {
                            let j = choose|j: int| 0 <= j < w2.len() && w2[j].0 == k;
                            let sj = if j < i { j } else { j + 1 };
                            assert(w2[j] == w[sj]);
                            assert(sj != i);
                            lemma_pairs_map_at(w2, j);
                            lemma_pairs_map_at(w, sj);
                        }
                        if pairs_map(w).contains_key(k) && k != key {
                            let j = choose|j: int| 0 <= j < w.len() && w[j].0 == k;
                            assert(j != i);
                            let dj = if j < i { j } else { j - 1 };
                            assert(w2[dj] == w[j]);
                        }
                        if k == key && pairs_map(w2).contains_key(k) {
                            let j = choose|j: int| 0 <= j < w2.len() && w2[j].0 == k;
                            let sj = if j < i { j } else { j + 1 };
                            assert(w2[j] == w[sj]);
                        }
                    };
                    lemma_map_ext(pairs_map(w2), pairs_map(w).remove(key));
                }
                Some(ws)
            },
            None => {
                assert(!pairs_map(w).contains_key(key)) by {
                    if pairs_map(w).contains_key(key) {
                        let j = choose|j: int| 0 <= j < w.len() && w[j].0 == key;
                        assert(self.windows@[j].address@ == key);
                    }
                };
                None
            },
        }
    }

    /// Whether some window is on workspace `ws`.
    fn hosts(&self, ws: i32) -> (r: bool)
        requires
            self.wf(),
        ensures
            r == hosts_window(self@.windows, ws),
    {
        let ghost w = window_pairs(self.windows@);
        for i in 0..self.windows.len()
            invariant
                w == window_pairs(self.windows@),
                distinct_keys(w),
                forall|j: int| 0 <= j < i ==> self.windows@[j].workspace != ws,
        {
            if self.windows[i].workspace == ws {
                proof {
                    lemma_pairs_map_at(w, i as int);
                }
                return true;
            }
        }
        assert(!hosts_window(self@.windows, ws)) by {
            if hosts_window(self@.windows, ws) {
                let k = choose|k: Seq<char>| pairs_map(w).contains_key(k) && pairs_map(w)[k] == ws;
                let j = choose|j: int| 0 <= j < w.len() && w[j].0 == k;
                lemma_pairs_map_at(w, j);
                assert(self.windows@[j].workspace == ws);
            }
        };
        false
    }

    /// Marks workspace `ws` as occupied.
    fn mark_occupied(&mut self, ws: i32)
        requires
            old(self).wf(),
        ensures
            final(self).wf(),
            final(self)@.windows == old(self)@.windows,
            final(self)@.occupied == old(self)@.occupied.insert(ws),
    {
        let ghost before = self.occupied@;
        if !contains_id(&self.occupied, ws) {
            self.occupied.push(ws);
            proof {
                lemma_push_to_set(before, ws);
                assert(self.occupied@.no_duplicates()) by {
                    assert forall|a: int, b: int|
                        0 <= a < self.occupied@.len() && 0 <= b < self.occupied@.len() && a != b implies
                        self.occupied@[a] != self.occupied@[b] by {
                        if a < before.len() && b < before.len() {
                            assert(self.occupied@[a] == before[a]);
                            assert(self.occupied@[b] == before[b]);
                        } else if a < before.len() {
                            assert(self.occupied@[a] == before[a]);
                        } else if b < before.len() {
                            assert(self.occupied@[b] == before[b]);
                        }
                    };
                };
            }
        } else {
            assert(before.to_set().insert(ws) =~= before.to_set());
        }
    }

    /// Marks workspace `ws` as not occupied.
    fn clear_occupied(&mut self, ws: i32)
        requires
            old(self).wf(),
        ensures
            final(self).wf(),
            final(self)@.windows == old(self)@.windows,
            final(self)@.occupied == old(self)@.occupied.remove(ws),
    {
        let ghost before = self.occupied@;
        let mut i: usize = 0;
        while i < self.occupied.len()
            invariant
                self.occupied@ == before,
                self.windows@ == old(self).windows@,
                before == old(self).occupied@,
                old(self).wf(),
                forall|j: int| 0 <= j < i ==> before[j] != ws,
            decreases self.occupied@.len() - i,
        {
            if self.occupied[i] == ws {
                self.occupied.remove(i);
                proof {
                    lemma_remove_to_set(before, i as int);
                }
                return;
            }
            i = i + 1;
        }
        assert(before.to_set().remove(ws) =~= before.to_set());
    }

    /// Takes in one line of the compositor's event stream.
    pub fn handle_line(&mut self, line: &str) -> (e: Option<WorkspaceEvent>)
        requires
            old(self).wf(),
        ensures
            final(self).wf(),
            (final(self)@, event_view(e)) == tracker_step(old(self)@, line@),
            e matches Some(WorkspaceEvent::Occupied(v)) ==> v@.no_duplicates(),
            !handled_event(line@) ==> final(self)@ == old(self)@ && e is None,
            forall|x: i32|
                #[trigger] final(self)@.occupied.contains(x) && !old(self)@.occupied.contains(x)
                    ==> event_name(line@) == Some("openwindow"@) && hosts_window(
                    final(self)@.windows,
                    x,
                ),
    {
        let ghost before = self@;
        let e = self.step_line(line);
        proof {
            if !handled_event(line@) {
                lemma_other_events_ignored(before, line@);
            }
            assert forall|x: i32|
                #[trigger] self@.occupied.contains(x) && !before.occupied.contains(x) implies event_name(
                line@,
            ) == Some("openwindow"@) && hosts_window(self@.windows, x) by {
                lemma_occupied_only_by_open(before, line@, x);
            };
        }
        e
    }

    /// One line of the event stream: the state change and the report.
    fn step_line(&mut self, line: &str) -> (e: Option<WorkspaceEvent>)
        requires
            old(self).wf(),
        ensures
            final(self).wf(),
            (final(self)@, event_view(e)) == tracker_step(old(self)@, line@),
            e matches Some(WorkspaceEvent::Occupied(v)) ==> v@.no_duplicates(),
    {
        let lv = chars_of(line);
        match split_once_chars(lv.as_slice(), '>', '>') {
            None => None,
            Some((name, data)) => {
                if chars_are(name.as_slice(), "workspace") {
                    let id = parse_i32(trim_chars(data.as_slice()).as_slice());
                    match id {
                        Some(id) => Some(WorkspaceEvent::Active(id)),
                        None => None,
                    }
                } else if chars_are(name.as_slice(), "destroyworkspace") {
                    let id = parse_i32(trim_chars(data.as_slice()).as_slice());
                    match id {
                        Some(id) => {
                            self.clear_occupied(id);
                            Some(WorkspaceEvent::Occupied(self.occupied_ids()))
                        },
                        None => None,
                    }
                } else if chars_are(name.as_slice(), "openwindow") {
                    let parts = splitn_chars(data.as_slice(), 4, ',');
                    assert(views(parts@) == splitn_on(data@, 4, ','));
                    if parts.len() >= 2 {
                        assert(views(parts@)[0] == parts@[0]@);
                        assert(views(parts@)[1] == parts@[1]@);
                        let ws = match parse_i32(parts[1].as_slice()) {
                            Some(v) => v,
                            None => 1,
                        };
                        let addr = copy_range(parts[0].as_slice(), 0, parts[0].len());
                        assert(parts@[0]@.subrange(0, parts@[0]@.len() as int) == parts@[0]@);
                        self.put_window(addr, ws);
                        self.mark_occupied(ws);
                        Some(WorkspaceEvent::Occupied(self.occupied_ids()))
                    } else {
                        None
                    }
                } else if chars_are(name.as_slice(), "closewindow") {
                    let addr = trim_chars(data.as_slice());
                    match self.take_window(&addr) {
                        Some(ws) => {
                            if self.hosts(ws) {
                                None
                            } else {
                                self.clear_occupied(ws);
                                Some(WorkspaceEvent::Occupied(self.occupied_ids()))
                            }
                        },
                        None => None,
                    }
                } else if chars_are(name.as_slice(), "focusedmon") {
                    let parts = splitn_chars(data.as_slice(), 2, ',');
                    if parts.len() >= 2 {
                        assert(views(parts@)[1] == parts@[1]@);
                        let id = parse_i32(trim_chars(parts[1].as_slice()).as_slice());
                        match id {
                            Some(id) => Some(WorkspaceEvent::Active(id)),
                            None => None,
                        }
                    } else {
                        None
                    }
                } else {
                    None
                }
            },
        }
    }

    /// The occupied workspaces, without duplicates.
    pub fn occupied_ids(&self) -> (r: Vec<i32>)
        requires
            self.wf(),
        ensures
            r@.no_duplicates(),
            r@.to_set() == self@.occupied,
    {
        copy_ids(&self.occupied)
    }
}


/// What a batch of reports changes: the last focused workspace reported and
/// the last set of occupied workspaces reported, each if any.
pub struct PendingUpdate {
    pub active: Option<i32>,
    pub occupied: Option<Vec<i32>>,
}

impl View for PendingUpdate {
    type V = (Option<i32>, Option<Set<i32>>);

    open spec fn view(&self) -> (Option<i32>, Option<Set<i32>>) {
        (
            self.active,
            match self.occupied {
                Some(v) => Some(v@.to_set()),
                None => None,
            },
        )
    }
}

/// The reports of a batch in order, a later one overriding an earlier one.
pub open spec fn fold_events(events: Seq<EventView>) -> (Option<i32>, Option<Set<i32>>)
    decreases events.len(),
{
    if events.len() == 0 {
        (None, None)
    } else {
        let (a, o) = fold_events(events.drop_last());
        match events.last() {
            EventView::Active(id) => (Some(id), o),
            EventView::Occupied(set) => (a, Some(set)),
            EventView::Initial(id, set) => (Some(id), Some(set)),
        }
    }
}

/// The views of a list of reports.
pub open spec fn event_views(events: Seq<WorkspaceEvent>) -> Seq<EventView> {
    events.map_values(|e: WorkspaceEvent| e@)
}

/// Sums up a batch of reports, as they were received.
pub fn collect_updates(events: &Vec<WorkspaceEvent>) -> (u: PendingUpdate)
    ensures
        u@ == fold_events(event_views(events@)),
{
    let mut active: Option<i32> = None;
    let mut occupied: Option<Vec<i32>> = None;
    let ghost ev = event_views(events@);
    for i in 0..events.len()
        invariant
            ev == event_views(events@),
            (PendingUpdate { active, occupied })@ == fold_events(ev.take(i as int)),
    {
        assert(ev.take(i + 1).drop_last() == ev.take(i as int));
        assert(ev.take(i + 1).last() == events@[i as int]@);
        match &events[i] {
            WorkspaceEvent::Active(id) => {
                active = Some(*id);
            },
            WorkspaceEvent::Occupied(set) => {
                occupied = Some(copy_ids(set));
            },
            WorkspaceEvent::Initial { active: id, occupied: set } => {
                active = Some(*id);
                occupied = Some(copy_ids(set));
            },
        }
    }
    assert(ev.take(events@.len() as int) == ev);
    PendingUpdate { active, occupied }
}

/// A later batch overrides what it reports and keeps the rest: summing up
/// two batches received one after the other is summing up each and letting
/// the second win.
pub proof fn lemma_fold_events_append(a: Seq<EventView>, b: Seq<EventView>)
    ensures
        fold_events(a + b) == ({
            let (a1, o1) = fold_events(a);
            let (a2, o2) = fold_events(b);
            (
                match a2 {
                    Some(x) => Some(x),
                    None => a1,
                },
                match o2 {
                    Some(x) => Some(x),
                    None => o1,
                },
            )
        }),
    decreases b.len(),
{
    if b.len() == 0 {
        assert(a + b =~= a);
    } else {
        lemma_fold_events_append(a, b.drop_last());
        assert((a + b).drop_last() =~= a + b.drop_last());
        assert((a + b).last() == b.last());
    }
}

/// The look of a workspace button: focused, and holding windows.
/// The focused workspace that a report names, if it names one.
pub open spec fn focus_of(e: EventView) -> Option<i32> {
    match e {
        EventView::Active(id) => Some(id),
        EventView::Initial(id, _) => Some(id),
        EventView::Occupied(_) => None,
    }
}

/// The occupied workspaces that a report lists, if it lists them.
pub open spec fn occupancy_of(e: EventView) -> Option<Set<i32>> {
    match e {
        EventView::Active(_) => None,
        EventView::Initial(_, o) => Some(o),
        EventView::Occupied(o) => Some(o),
    }
}

/// In a batch the newest report wins: the batch's focus is the one named by
/// the last report that names a focus (none when no report does), and its
/// occupied set is the one listed by the last report that lists one.
pub proof fn lemma_newest_report_wins(events: Seq<EventView>)
    ensures
        match fold_events(events).0 {
            Some(a) => exists|i: int|
                0 <= i < events.len() && focus_of(#[trigger] events[i]) == Some(a) && forall|j: int|
                    i < j < events.len() ==> focus_of(#[trigger] events[j]) is None,
            None => forall|i: int| 0 <= i < events.len() ==> focus_of(#[trigger] events[i]) is None,
        },
        match fold_events(events).1 {
            Some(o) => exists|i: int|
                0 <= i < events.len() && occupancy_of(#[trigger] events[i]) == Some(o) && forall|
                    j: int,
                | i < j < events.len() ==> occupancy_of(#[trigger] events[j]) is None,
            None => forall|i: int|
                0 <= i < events.len() ==> occupancy_of(#[trigger] events[i]) is None,
        },
    decreases events.len(),
{
    if events.len() > 0 {
        let pre = events.drop_last();
        let n = events.len() - 1;
        lemma_newest_report_wins(pre);
        let last = events.last();
        assert(events[n] == last);
        assert forall|j: int| 0 <= j < n implies #[trigger] events[j] == pre[j] by {};
        if focus_of(last) is None {
            match fold_events(pre).0 {
                Some(a) => {
                    let i = choose|i: int|
                        0 <= i < pre.len() && focus_of(#[trigger] pre[i]) == Some(a) && forall|j: int|
                            i < j < pre.len() ==> focus_of(#[trigger] pre[j]) is None;
                    assert(events[i] == pre[i]);
                    assert forall|j: int| i < j < events.len() implies focus_of(
                        #[trigger] events[j],
                    ) is None by {
                        if j < n {
                            assert(events[j] == pre[j]);
                        }
                    };
                },
                None => {
                    assert forall|i: int| 0 <= i < events.len() implies focus_of(
                        #[trigger] events[i],
                    ) is None by {
                        if i < n {
                            assert(events[i] == pre[i]);
                        }
                    };
                },
            }
        }
        if occupancy_of(last) is None {
            match fold_events(pre).1 {
                Some(o) => {
                    let i = choose|i: int|
                        0 <= i < pre.len() && occupancy_of(#[trigger] pre[i]) == Some(o) && forall|
                            j: int,
                        | i < j < pre.len() ==> occupancy_of(#[trigger] pre[j]) is None;
                    assert(events[i] == pre[i]);
                    assert forall|j: int| i < j < events.len() implies occupancy_of(
                        #[trigger] events[j],
                    ) is None by {
                        if j < n {
                            assert(events[j] == pre[j]);
                        }
                    };
                },
                None => {
                    assert forall|i: int| 0 <= i < events.len() implies occupancy_of(
                        #[trigger] events[i],
                    ) is None by {
                        if i < n {
                            assert(events[i] == pre[i]);
                        }
                    };
                },
            }
        }
    }
}

#[derive(Clone, Copy)]
pub struct ButtonState {
    pub active: bool,
    pub occupied: bool,
}

/// The look of the button of workspace `ws_id` after an update: focused when
/// the update names it as focused; occupied when the update lists it as
/// occupied and does not name it as focused. What the update does not report
/// stays as it was.
pub open spec fn button_after(b: ButtonState, ws_id: int, u: (Option<i32>, Option<Set<i32>>)) -> ButtonState {
    ButtonState {
        active: match u.0 {
            Some(a) => ws_id == a,
            None => b.active,
        },
        occupied: match u.1 {
            Some(o) => o.contains(ws_id as i32) && !(u.0 == Some(ws_id as i32)),
            None => b.occupied,
        },
    }
}

/// Applies a batch update to the buttons; button `i` shows workspace `i + 1`.
pub fn apply_update(buttons: &mut Vec<ButtonState>, update: &PendingUpdate)
    requires
        old(buttons)@.len() < i32::MAX,
    ensures
        final(buttons)@.len() == old(buttons)@.len(),
        forall|i: int|
            0 <= i < old(buttons)@.len() ==> #[trigger] final(buttons)@[i] == button_after(
                old(buttons)@[i],
                i + 1,
                update@,
            ),
        update.occupied is None ==> forall|i: int|
            0 <= i < old(buttons)@.len() ==> #[trigger] final(buttons)@[i].occupied == old(
                buttons,
            )@[i].occupied,
        update.active is None ==> forall|i: int|
            0 <= i < old(buttons)@.len() ==> #[trigger] final(buttons)@[i].active == old(
                buttons,
            )@[i].active,
{
    let n = buttons.len();
    for i in 0..n
        invariant
            n == buttons@.len() == old(buttons)@.len(),
            n < i32::MAX,
            forall|j: int|
                0 <= j < i ==> #[trigger] buttons@[j] == button_after(old(buttons)@[j], j + 1, update@),
            forall|j: int| i <= j < n ==> #[trigger] buttons@[j] == old(buttons)@[j],
    {
        let ws_id = (i + 1) as i32;
        let old_state = buttons[i];
        let active = match update.active {
            Some(a) => ws_id == a,
            None => old_state.active,
        };
        let is_active = match update.active {
            Some(a) => ws_id == a,
            None => false,
        };
        let occupied = match &update.occupied {
            Some(set) => contains_id(set, ws_id) && !is_active,
            None => old_state.occupied,
        };
        buttons.set(i, ButtonState { active, occupied });
    }
}

/// After an update that names the focused workspace, only its button is
/// focused, and a button is never shown both focused and occupied by an
/// update that reports both.
pub proof fn lemma_update_single_focus(
    buttons: Seq<ButtonState>,
    u: (Option<i32>, Option<Set<i32>>),
    i: int,
    j: int,
)
    requires
        u.0 is Some,
        0 <= i < buttons.len(),
        0 <= j < buttons.len(),
        button_after(buttons[i], i + 1, u).active,
        button_after(buttons[j], j + 1, u).active,
    ensures
        i == j,
        u.1 is Some ==> !button_after(buttons[i], i + 1, u).occupied,
{
}


/// What an update does not report stays as it was: without a set of
/// occupied workspaces no button's occupied look changes, whatever the update
/// says of focus; without a focused workspace no button's focus changes; and
/// a reported focus marks exactly the button of that workspace.
pub proof fn lemma_unreported_stays(
    buttons: Seq<ButtonState>,
    u: (Option<i32>, Option<Set<i32>>),
    i: int,
)
    requires
        0 <= i < buttons.len(),
    ensures
        u.1 is None ==> button_after(buttons[i], i + 1, u).occupied == buttons[i].occupied,
        u.0 is None ==> button_after(buttons[i], i + 1, u).active == buttons[i].active,
        u.0 matches Some(a) ==> button_after(buttons[i], i + 1, u).active == (i + 1 == a),
        u.1 matches Some(o) ==> (button_after(buttons[i], i + 1, u).occupied ==> o.contains(
            (i + 1) as i32,
        )),
{
}


/// The fields that the bar reads from a JSON object: `id` and `windows`,
/// each when it is an integer that fits in an `i64`.
#[derive(Clone, Copy)]
pub struct JsonFields {
    pub id: Option<i64>,
    pub windows: Option<i64>,
}

/// What the bar reads from a JSON document of `hyprctl`: the fields of the
/// document itself, and, when the document is an array, those of each item.
pub struct JsonDoc {
    pub top: JsonFields,
    pub items: Option<Vec<JsonFields>>,
}

/// The plain values of a `JsonDoc`.
pub struct JsonDocView {
    pub top: JsonFields,
    pub items: Option<Seq<JsonFields>>,
}

impl View for JsonDoc {
    type V = JsonDocView;

    open spec fn view(&self) -> JsonDocView {
        JsonDocView {
            top: self.top,
            items: match self.items {
                Some(v) => Some(v@),
                None => None,
            },
        }
    }
}

/// The view of an optional document.
pub open spec fn doc_view(d: Option<JsonDoc>) -> Option<JsonDocView> {
    match d {
        Some(x) => Some(x@),
        None => None,
    }
}

/// What `serde_json` reads from the bytes `bytes`: `None` when they are not
/// one JSON value, else the fields of the value and of its items.
pub uninterp spec fn hyprctl_json(bytes: Seq<u8>) -> Option<JsonDocView>;

/// Parses `bytes` with `serde_json::from_slice::<serde_json::Value>` and
/// reads `value["id"].as_i64()` and `value["windows"].as_i64()` of the value
/// and, when `value.as_array()` is some, of each item. The contract claims
/// only that the result is a function of the bytes alone (the name
/// `hyprctl_json`); what JSON text gives which fields is left to serde_json.
#[verifier::external_body]
fn read_json(bytes: &[u8]) -> (r: Option<JsonDoc>)
    ensures
        doc_view(r) == hyprctl_json(bytes@),
{
    let fields = |v: &serde_json::Value| JsonFields { id: v["id"].as_i64(), windows: v["windows"].as_i64() };
    match serde_json::from_slice::<serde_json::Value>(bytes) {
        Ok(v) => Some(JsonDoc {
            top: fields(&v),
            items: v.as_array().map(|a| a.iter().map(|w| fields(w)).collect()),
        }),
        Err(_) => None,
    }
}

/// The focused workspace that `hyprctl activeworkspace -j` reports: its `id`
/// (cut to 32 bits), or workspace 1 when there is none.
pub open spec fn active_from(doc: Option<JsonDocView>) -> i32 {
    match doc {
        Some(d) => match d.top.id {
            Some(id) => id as i32,
            None => 1,
        },
        None => 1,
    }
}

/// Whether an item of `hyprctl workspaces -j` is a workspace holding windows.
pub open spec fn holds_windows(f: JsonFields) -> bool {
    f.id is Some && f.windows is Some && f.windows->0 > 0
}

/// The occupied workspaces that `hyprctl workspaces -j` reports: the ids (cut
/// to 32 bits) of the items that have an id and more than zero windows.
pub open spec fn occupied_from(doc: Option<JsonDocView>) -> Set<i32> {
    match doc {
        Some(d) => match d.items {
            Some(items) => Set::new(
                |x: i32|
                    exists|i: int|
                        0 <= i < items.len() && holds_windows(items[i]) && items[i].id->0 as i32
                            == x,
            ),
            None => Set::empty(),
        },
        None => Set::empty(),
    }
}

/// The focused workspace and the occupied ones, from the documents that the
/// two queries returned (`None` for a query that failed).
pub fn snapshot_from_documents(active: &Option<JsonDoc>, list: &Option<JsonDoc>) -> (r: (i32, Vec<i32>))
    ensures
        r.0 == active_from(doc_view(*active)),
        r.1@.no_duplicates(),
        r.1@.to_set() == occupied_from(doc_view(*list)),
{
    let focused = match active {
        Some(d) => match d.top.id {
            Some(id) => id as i32,
            None => 1,
        },
        None => 1,
    };
    let mut ids: Vec<i32> = Vec::new();
    match list {
        Some(d) => match &d.items {
            Some(items) => {
                let ghost its = items@;
                for i in 0..items.len()
                    invariant
                        its == items@,
                        ids@.no_duplicates(),
                        ids@.to_set() == Set::new(
                            |x: i32|
                                exists|j: int|
                                    0 <= j < i && holds_windows(its[j]) && its[j].id->0 as i32
                                        == x,
                        ),
                {
                    let f = items[i];
                    let ghost before = ids@;
                    let ghost prev = ids@.to_set();
                    if let (Some(id), Some(w)) = (f.id, f.windows) {
                        if w > 0 {
                            let x = id as i32;
                            if !contains_id(&ids, x) {
                                ids.push(x);
                                proof {
                                    lemma_push_to_set(before, x);
                                    assert(ids@.no_duplicates()) by {
                                        assert forall|a: int, b: int|
                                            0 <= a < ids@.len() && 0 <= b < ids@.len() && a != b implies ids@[a] != ids@[b] by {
                                            if a < before.len() {
                                                assert(ids@[a] == before[a]);
                                            }
                                            if b < before.len() {
                                                assert(ids@[b] == before[b]);
                                            }
                                        };
                                    };
                                }
                            }
                        }
                    }
                    assert(ids@.to_set() =~= Set::new(
                        |x: i32|
                            exists|j: int|
                                0 <= j < i + 1 && holds_windows(its[j]) && its[j].id->0 as i32 == x,
                    )) by {
                        assert forall|x: i32| #[trigger] ids@.to_set().contains(x) == (exists|j: int|
                                0 <= j < i + 1 && holds_windows(its[j]) && its[j].id->0 as i32 == x) by {
                            if exists|j: int| 0 <= j < i + 1 && holds_windows(its[j]) && its[j].id->0 as i32 == x {
                                let j = choose|j: int| 0 <= j < i + 1 && holds_windows(its[j]) && its[j].id->0 as i32 == x;
                                if j < i {
                                    assert(prev.contains(x));
                                }
                            }
                        };
                    };
                }
            },
            None => {
                assert(ids@.to_set() =~= Set::<i32>::empty());
            },
        },
        None => {
            assert(ids@.to_set() =~= Set::<i32>::empty());
        },
    }
    (focused, ids)
}

/// The focused workspace and the occupied ones, from the outputs of
/// `hyprctl activeworkspace -j` and `hyprctl workspaces -j` (`None` for a
/// command that could not be run).
pub fn workspace_snapshot(active_output: Option<&[u8]>, list_output: Option<&[u8]>) -> (r: (
    i32,
    Vec<i32>,
))
    ensures
        r.0 == active_from(
            match active_output {
                Some(b) => hyprctl_json(b@),
                None => None,
            },
        ),
        r.1@.no_duplicates(),
        r.1@.to_set() == occupied_from(
            match list_output {
                Some(b) => hyprctl_json(b@),
                None => None,
            },
        ),
{
    let active = match active_output {
        Some(b) => read_json(b),
        None => None,
    };
    let list = match list_output {
        Some(b) => read_json(b),
        None => None,
    };
    snapshot_from_documents(&active, &list)
}

/// The path of the compositor's event socket: `RUNTIME/hypr/INSTANCE/.socket2.sock`.
pub fn hyprland_socket_path(runtime_dir: &str, instance: &str) -> (p: String)
    ensures
        p@ == runtime_dir@ + "/hypr/"@ + instance@ + "/.socket2.sock"@,
{
    let mut p = String::new();
    p.append(runtime_dir);
    p.append("/hypr/");
    p.append(instance);
    p.append("/.socket2.sock");
    p
}

/// The label of the button of workspace `n`: its number.
pub fn workspace_label(n: u64) -> (s: String)
    ensures
        s@ == decimal(n as nat),
{
    crate::text::string_from(&decimal_chars(n))
}

/// The shell command that switches to workspace `n`.
pub fn workspace_dispatch_command(n: u64) -> (s: String)
    ensures
        s@ == "hyprctl dispatch workspace "@ + decimal(n as nat),
{
    let mut s = String::new();
    s.append("hyprctl dispatch workspace ");
    let digits = decimal_chars(n);
    for i in 0..digits.len()
        invariant
            s@ == "hyprctl dispatch workspace "@ + digits@.take(i as int),
    {
        crate::text::push_char(&mut s, digits[i]);
        assert(digits@.take(i + 1) == digits@.take(i as int).push(digits@[i as int]));
    }
    assert(digits@.take(digits@.len() as int) == digits@);
    s
}

} // verus!
