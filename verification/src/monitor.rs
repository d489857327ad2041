//! The set of windows whose pointer events are captured, and how it follows
//! the windows that are visible.

use vstd::prelude::*;

verus! {

/// A window handle, as the number the system identifies the window by.
pub type Hwnd = isize;

/// The windows whose pointer events are captured. It is a set: a handle is in
/// it or not, and the order of arrival means nothing.
pub struct MonitoredWindows {
    handles: Vec<Hwnd>,
}

impl View for MonitoredWindows {
    type V = Set<Hwnd>;

    closed spec fn view(&self) -> Set<Hwnd> {
        self.handles@.to_set()
    }
}

/// Where `hwnd` stands in `handles`, if it is there.
fn position(handles: &[Hwnd], hwnd: Hwnd) -> (found: Option<usize>)
    ensures
        match found {
            Some(at) => at < handles.len() && handles[at as int] == hwnd,
            None => !handles@.contains(hwnd),
        },
{
    let mut at: usize = 0;
    while at < handles.len()
        invariant
            at <= handles.len(),
            forall|i: int| 0 <= i < at ==> handles[i] != hwnd,
        decreases handles.len() - at,
    {
        if handles[at] == hwnd {
            return Some(at);
        }
        at += 1;
    }
    None
}

impl MonitoredWindows {
    #[verifier::type_invariant]
    spec fn holds_no_handle_twice(self) -> bool {
        self.handles@.no_duplicates()
    }

    /// The empty set.
    pub fn new() -> (list: MonitoredWindows)
        ensures
            list@ == Set::<Hwnd>::empty(),
    {
        let list = MonitoredWindows { handles: Vec::new() };
        assert(list.handles@.to_set() =~= Set::<Hwnd>::empty());
        list
    }

    /// Whether the window is monitored.
    pub fn contains(&self, hwnd: Hwnd) -> (monitored: bool)
        ensures
            monitored == self@.contains(hwnd),
    {
        position(self.handles.as_slice(), hwnd).is_some()
    }

    /// The monitored windows, each once, in no order that callers may rely on.
    pub fn handles(&self) -> (handles: Vec<Hwnd>)
        ensures
            handles@.no_duplicates(),
            handles@.to_set() == self@,
    {
        proof {
            use_type_invariant(self);
        }
        self.handles.clone()
    }
}

/// Adds the window to the monitored set.
pub fn add_process_to_monitor(list: &mut MonitoredWindows, hwnd: Hwnd)
    ensures
        final(list)@ == old(list)@.insert(hwnd),
{
    proof {
        use_type_invariant(&*list);
    }
    if position(list.handles.as_slice(), hwnd).is_none() {
        let mut handles: Vec<Hwnd> = Vec::new();
        std::mem::swap(&mut list.handles, &mut handles);
        handles.push(hwnd);
        list.handles = handles;
        proof {
            old(list).handles@.lemma_push_to_set_commute(hwnd);
        }
    } else {
        assert(old(list)@.insert(hwnd) =~= old(list)@);
    }
}

/// Takes the window out of the monitored set.
pub fn remove_process_from_monitor(list: &mut MonitoredWindows, hwnd: Hwnd)
    ensures
        final(list)@ == old(list)@.remove(hwnd),
{
    proof {
        use_type_invariant(&*list);
    }
    match position(list.handles.as_slice(), hwnd) {
        Some(at) => {
            let mut handles: Vec<Hwnd> = Vec::new();
            std::mem::swap(&mut list.handles, &mut handles);
            handles.remove(at);
            list.handles = handles;
            proof {
                let before = old(list).handles@;
                let after = list.handles@;
                assert(after =~= before.remove(at as int));
                assert forall|x: Hwnd| after.to_set().contains(x) <==> before.to_set().remove(
                    hwnd,
                ).contains(x) by {
                    if after.contains(x) {
                        let k = choose|k: int| 0 <= k < after.len() && after[k] == x;
                        if k < at {
                            assert(before[k] == x);
                        } else {
                            assert(before[k + 1] == x);
                        }
                    }
                    if before.contains(x) && x != hwnd {
                        let j = choose|j: int| 0 <= j < before.len() && before[j] == x;
                        if j < at {
                            assert(after[j] == x);
                        } else {
                            assert(after[j - 1] == x);
                        }
                    }
                }
                assert(after.to_set() =~= before.to_set().remove(hwnd));
            }
        },
        None => {
            assert(old(list)@.remove(hwnd) =~= old(list)@);
        },
    }
}

/// The handles of the windows that were found visible, in the order of the
/// enumeration. An entry is a window and whether it was found visible.
pub open spec fn visible_windows(enumerated: Seq<(Hwnd, bool)>) -> Seq<Hwnd>
    decreases enumerated.len(),
{
    if enumerated.len() == 0 {
        Seq::empty()
    } else if enumerated.last().1 {
        visible_windows(enumerated.drop_last()).push(enumerated.last().0)
    } else {
        visible_windows(enumerated.drop_last())
    }
}

/// Picks the visible windows from an enumeration of the top-level windows.
pub fn get_all_visible_windows(enumerated: &[(Hwnd, bool)]) -> (windows: Vec<Hwnd>)
    ensures
        windows@ == visible_windows(enumerated@),
{
    let mut windows: Vec<Hwnd> = Vec::new();
    let mut at: usize = 0;
    proof {
        assert(enumerated@.take(0) =~= Seq::empty());
    }
    while at < enumerated.len()
        invariant
            at <= enumerated.len(),
            windows@ == visible_windows(enumerated@.take(at as int)),
        decreases enumerated.len() - at,
    {
        let (hwnd, visible) = enumerated[at];
        proof {
            assert(enumerated@.take(at + 1).drop_last() =~= enumerated@.take(at as int));
            assert(enumerated@.take(at + 1).last() == (hwnd, visible));
        }
        if visible {
            windows.push(hwnd);
        }
        at += 1;
    }
    proof {
        assert(enumerated@.take(at as int) =~= enumerated@);
    }
    windows
}

/// The test that a window is not among `current`.
pub open spec fn is_new(current: Seq<Hwnd>) -> spec_fn(Hwnd) -> bool {
    |hwnd: Hwnd| !current.contains(hwnd)
}

/// The windows of `all_windows` that are not among `current`, in the order
/// and as often as `all_windows` has them.
pub open spec fn new_windows(current: Seq<Hwnd>, all_windows: Seq<Hwnd>) -> Seq<Hwnd> {
    all_windows.filter(is_new(current))
}

/// Picks from the visible windows those that are not yet known.
pub fn find_new_processes(current_processes: &[Hwnd], all_windows: &[Hwnd]) -> (new: Vec<Hwnd>)
    ensures
        new@ == new_windows(current_processes@, all_windows@),
{
    let mut new: Vec<Hwnd> = Vec::new();
    let mut at: usize = 0;
    proof {
        reveal(Seq::filter);
        assert(all_windows@.take(0) =~= Seq::empty());
    }
    while at < all_windows.len()
        invariant
            at <= all_windows.len(),
            new@ == new_windows(current_processes@, all_windows@.take(at as int)),
        decreases all_windows.len() - at,
    {
        let hwnd = all_windows[at];
        proof {
            assert(all_windows@.take(at + 1) =~= all_windows@.take(at as int).push(hwnd));
            all_windows@.take(at as int).lemma_filter_push(hwnd, is_new(current_processes@));
        }
        if position(current_processes, hwnd).is_none() {
            new.push(hwnd);
        }
        at += 1;
    }
    proof {
        assert(all_windows@.take(at as int) =~= all_windows@);
    }
    new
}

/// The first half of a poll: takes into the monitored set every visible
/// window that it does not hold yet. `all_windows` is what the enumeration of
/// the visible top-level windows gave. The result lists the windows that are
/// monitored now, each once: the second half of the poll,
/// `remove_invisible_processes`, wants a report on each, whether it is still
/// visible.
pub fn monitor_visible_processes(list: &mut MonitoredWindows, all_windows: &[Hwnd]) -> (to_report:
    Vec<Hwnd>)
    ensures
        final(list)@ == old(list)@.union(all_windows@.to_set()),
        to_report@.no_duplicates(),
        to_report@.to_set() == final(list)@,
{
    let new = find_new_processes(list.handles.as_slice(), all_windows);
    let mut at: usize = 0;
    proof {
        assert(new@.take(0).to_set() =~= Set::<Hwnd>::empty());
        assert(old(list)@.union(Set::<Hwnd>::empty()) =~= old(list)@);
    }
    while at < new.len()
        invariant
            at <= new.len(),
            list@ == old(list)@.union(new@.take(at as int).to_set()),
        decreases new.len() - at,
    {
        proof {
            assert(new@.take(at + 1) =~= new@.take(at as int).push(new[at as int]));
            new@.take(at as int).lemma_push_to_set_commute(new[at as int]);
            assert(old(list)@.union(new@.take(at as int).to_set()).insert(new[at as int])
                =~= old(list)@.union(new@.take(at + 1).to_set()));
        }
        add_process_to_monitor(list, new[at]);
        at += 1;
    }
    proof {
        assert(new@.take(at as int) =~= new@);
        let known = old(list).handles@;
        assert forall|hwnd: Hwnd|
            old(list)@.union(new@.to_set()).contains(hwnd) <==> old(list)@.union(
                all_windows@.to_set(),
            ).contains(hwnd) by {
            lemma_new_windows_contains(known, all_windows@, hwnd);
        }
        assert(old(list)@.union(new@.to_set()) =~= old(list)@.union(all_windows@.to_set()));
    }
    list.handles()
}

/// A window is new exactly if it is visible and not yet known.
pub proof fn lemma_new_windows_contains(current: Seq<Hwnd>, all_windows: Seq<Hwnd>, hwnd: Hwnd)
    ensures
        new_windows(current, all_windows).contains(hwnd) <==> all_windows.contains(hwnd)
            && !current.contains(hwnd),
{
    let new = new_windows(current, all_windows);
    if new.contains(hwnd) {
        let k = choose|k: int| 0 <= k < new.len() && new[k] == hwnd;
        all_windows.lemma_filter_pred(is_new(current), k);
        all_windows.lemma_filter_contains_rev(is_new(current), hwnd);
    }
    if all_windows.contains(hwnd) && !current.contains(hwnd) {
        let j = choose|j: int| 0 <= j < all_windows.len() && all_windows[j] == hwnd;
        all_windows.lemma_filter_contains(is_new(current), j);
    }
}

/// The windows that a list of reports holds as no longer visible. A report
/// is a window and whether it was found visible.
pub open spec fn hidden_windows(reports: Seq<(Hwnd, bool)>) -> Set<Hwnd> {
    Set::new(|hwnd: Hwnd| reports.contains((hwnd, false)))
}

/// The second half of a poll: takes out of the monitored set every window
/// that a report holds as no longer visible. A window whose handle went stale
/// is reported as not visible, and leaves the set like any other.
pub fn remove_invisible_processes(list: &mut MonitoredWindows, reports: &[(Hwnd, bool)])
    ensures
        final(list)@ == old(list)@.difference(hidden_windows(reports@)),
{
    let mut at: usize = 0;
    proof {
        assert(reports@.take(0) =~= Seq::empty());
        assert(old(list)@.difference(hidden_windows(reports@.take(0))) =~= old(list)@);
    }
    while at < reports.len()
        invariant
            at <= reports.len(),
            list@ == old(list)@.difference(hidden_windows(reports@.take(at as int))),
        decreases reports.len() - at,
    {
        let (hwnd, visible) = reports[at];
        let ghost seen = reports@.take(at as int);
        let ghost next = reports@.take(at + 1);
        proof {
            assert(next =~= seen.push((hwnd, visible)));
            assert forall|h: Hwnd| hidden_windows(next).contains(h) <==> (hidden_windows(
                seen,
            ).contains(h) || (h == hwnd && !visible)) by {
                if seen.contains((h, false)) {
                    let k = choose|k: int| 0 <= k < seen.len() && seen[k] == (h, false);
                    assert(next[k] == (h, false));
                }
                if h == hwnd && !visible {
                    assert(next[at as int] == (h, false));
                }
                if next.contains((h, false)) {
                    let k = choose|k: int| 0 <= k < next.len() && next[k] == (h, false);
                    if k < at {
                        assert(seen[k] == (h, false));
                    }
                }
            }
        }
        if !visible {
            remove_process_from_monitor(list, hwnd);
            assert(list@ =~= old(list)@.difference(hidden_windows(next)));
        } else {
            assert(list@ =~= old(list)@.difference(hidden_windows(next)));
        }
        at += 1;
    }
    proof {
        assert(reports@.take(at as int) =~= reports@);
    }
}

/// The monitored set after one poll that enumerated `all_windows` and then
/// got the reports `reports`.
pub open spec fn after_poll(monitored: Set<Hwnd>, all_windows: Seq<Hwnd>, reports: Seq<(Hwnd, bool)>)
    -> Set<Hwnd> {
    monitored.union(all_windows.to_set()).difference(hidden_windows(reports))
}

/// One poll brings the monitored set in line with what it saw. A window that
/// the enumeration lists and no report holds as hidden is monitored
/// afterwards, whether it was before or not. A window that a report holds as
/// hidden is not monitored afterwards. And no window is monitored afterwards that was
/// neither monitored before nor enumerated.
pub proof fn lemma_poll_follows_visibility(
    monitored: Set<Hwnd>,
    all_windows: Seq<Hwnd>,
    reports: Seq<(Hwnd, bool)>,
    hwnd: Hwnd,
)
    ensures
        all_windows.contains(hwnd) && !reports.contains((hwnd, false)) ==> after_poll(
            monitored,
            all_windows,
            reports,
        ).contains(hwnd),
        reports.contains((hwnd, false)) ==> !after_poll(monitored, all_windows, reports).contains(
            hwnd,
        ),
        after_poll(monitored, all_windows, reports).contains(hwnd) ==> monitored.contains(hwnd)
            || all_windows.contains(hwnd),
{
}

} // verus!
