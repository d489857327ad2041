//! The process behind a window: how its name is made of what the system
//! reports, and how processes are looked up by name.

use crate::monitor::Hwnd;
use vstd::prelude::*;

verus! {

/// A window with the process that owns it.
#[derive(Debug, PartialEq, Eq)]
pub struct ProcessInfo {
    pub hwnd: Hwnd,
    pub pid: u32,
    /// The name of the executable, empty where it could not be found out.
    pub name: String,
}

/// The text that UTF-16 code units decode to, with U+FFFD in place of every
/// surrogate that has no partner.
pub uninterp spec fn utf16_lossy(units: Seq<u16>) -> Seq<char>;

/// `String::from_utf16_lossy` of std: decodes UTF-16 code units and puts the
/// replacement character where they are invalid. The result depends on the
/// units alone.
#[verifier::external_body]
fn decode_utf16_lossy(units: &[u16]) -> (text: String)
    ensures
        text@ == utf16_lossy(units@),
{
    String::from_utf16_lossy(units)
}

/// Whether `keyword` occurs in `name` as a run of consecutive characters. The
/// empty keyword occurs in every name.
pub open spec fn occurs_in(keyword: Seq<char>, name: Seq<char>) -> bool {
    exists|at: int|
        0 <= at && at + keyword.len() <= name.len() && #[trigger] name.subrange(
            at,
            at + keyword.len(),
        ) == keyword
}

/// `str::contains` of std with a string as the pattern: whether the pattern
/// matches a part of the text.
#[verifier::external_body]
fn name_contains(name: &str, keyword: &str) -> (found: bool)
    ensures
        found == occurs_in(keyword@, name@),
{
    name.contains(keyword)
}

/// The test that a code unit is not the terminating zero.
pub open spec fn is_not_nul() -> spec_fn(u16) -> bool {
    |unit: u16| unit != 0
}

/// The name that a buffer of UTF-16 code units holds: its units but the
/// zeros, decoded.
pub open spec fn buffer_text(buffer: Seq<u16>) -> Seq<char> {
    utf16_lossy(buffer.filter(is_not_nul()))
}

/// The code units of the buffer that are not zero, in their order.
pub fn strip_nuls(buffer: &[u16]) -> (units: Vec<u16>)
    ensures
        units@ == buffer@.filter(is_not_nul()),
{
    let mut units: Vec<u16> = Vec::new();
    let mut at: usize = 0;
    proof {
        reveal(Seq::filter);
        assert(buffer@.take(0) =~= Seq::empty());
    }
    while at < buffer.len()
        invariant
            at <= buffer.len(),
            units@ == buffer@.take(at as int).filter(is_not_nul()),
        decreases buffer.len() - at,
    {
        let unit = buffer[at];
        proof {
            assert(buffer@.take(at + 1) =~= buffer@.take(at as int).push(unit));
            buffer@.take(at as int).lemma_filter_push(unit, is_not_nul());
        }
        if unit != 0 {
            units.push(unit);
        }
        at += 1;
    }
    proof {
        assert(buffer@.take(at as int) =~= buffer@);
    }
    units
}

/// The name of the process as `get_process_info` gives it: the text of the
/// buffer that holds the module's base name, or the empty name where the
/// system gave none.
pub open spec fn process_name(module_name: Option<&[u16]>) -> Seq<char> {
    match module_name {
        Some(buffer) => buffer_text(buffer@),
        None => Seq::empty(),
    }
}

/// Describes the process that owns a window. `pid` is the process the system
/// names as the owner, `module_name` the buffer into which it wrote the base
/// name of the process's first module, or `None` where the process could not
/// be opened or gave no name. The name is then empty: that is no error.
pub fn get_process_info(hwnd: Hwnd, pid: u32, module_name: Option<&[u16]>) -> (info: ProcessInfo)
    ensures
        info.hwnd == hwnd,
        info.pid == pid,
        info.name@ == process_name(module_name),
{
    let name = match module_name {
        Some(buffer) => {
            let units = strip_nuls(buffer);
            decode_utf16_lossy(units.as_slice())
        },
        None => String::new(),
    };
    ProcessInfo { hwnd, pid, name }
}

/// The name of the process that owns a window, empty where it could not be
/// found out.
pub fn get_hwnd_process_name(hwnd: Hwnd, pid: u32, module_name: Option<&[u16]>) -> (name: String)
    ensures
        name@ == process_name(module_name),
{
    let process = get_process_info(hwnd, pid, module_name);
    process.name
}

/// The text of a window's title: the first `len` code units of the buffer,
/// or all of them where it holds fewer, decoded.
pub fn get_window_text(buffer: &[u16], len: usize) -> (text: String)
    ensures
        text@ == utf16_lossy(
            buffer@.take(
                if len <= buffer.len() {
                    len as int
                } else {
                    buffer.len() as int
                },
            ),
        ),
{
    let mut units: Vec<u16> = Vec::new();
    let end = if len <= buffer.len() {
        len
    } else {
        buffer.len()
    };
    let mut at: usize = 0;
    while at < end
        invariant
            at <= end <= buffer.len(),
            units@ == buffer@.take(at as int),
        decreases end - at,
    {
        units.push(buffer[at]);
        proof {
            assert(buffer@.take(at + 1) =~= buffer@.take(at as int).push(buffer[at as int]));
        }
        at += 1;
    }
    decode_utf16_lossy(units.as_slice())
}

/// Finds the window of the first process in the list whose name contains the
/// keyword.
pub fn find_process_by_keyword(processes: &[ProcessInfo], keyword: &str) -> (found: Option<Hwnd>)
    ensures
        match found {
            Some(hwnd) => exists|at: int|
                0 <= at < processes.len() && occurs_in(keyword@, (#[trigger] processes[at]).name@)
                    && processes[at].hwnd == hwnd && forall|before: int|
                    0 <= before < at ==> !occurs_in(
                        keyword@,
                        (#[trigger] processes[before]).name@,
                    ),
            None => forall|at: int|
                0 <= at < processes.len() ==> !occurs_in(
                    keyword@,
                    (#[trigger] processes[at]).name@,
                ),
        },
{
    let mut at: usize = 0;
    while at < processes.len()
        invariant
            at <= processes.len(),
            forall|before: int|
                0 <= before < at ==> !occurs_in(keyword@, (#[trigger] processes[before]).name@),
        decreases processes.len() - at,
    {
        if name_contains(processes[at].name.as_str(), keyword) {
            return Some(processes[at].hwnd);
        }
        at += 1;
    }
    None
}

/// The test that a window belongs to another process than `pid`.
pub open spec fn is_other_process(pid: u32) -> spec_fn(ProcessInfo) -> bool {
    |window: ProcessInfo| window.pid != pid
}

/// One window for each process among `windows`: the last one that the list
/// has for the process. The windows stand in the order in which `windows` has
/// them.
pub open spec fn one_per_process(windows: Seq<ProcessInfo>) -> Seq<ProcessInfo>
    decreases windows.len(),
{
    if windows.len() == 0 {
        Seq::empty()
    } else {
        one_per_process(windows.drop_last()).filter(is_other_process(windows.last().pid)).push(
            windows.last(),
        )
    }
}

/// What `one_per_process` keeps: no two windows of one process; only
/// windows of the list; and a window of every process that has one in the
/// list.
pub proof fn lemma_one_per_process(windows: Seq<ProcessInfo>)
    ensures
        forall|i: int, j: int|
            0 <= i < j < one_per_process(windows).len() ==> (#[trigger] one_per_process(
                windows,
            )[i]).pid != (#[trigger] one_per_process(windows)[j]).pid,
        forall|k: int|
            0 <= k < one_per_process(windows).len() ==> windows.contains(
                #[trigger] one_per_process(windows)[k],
            ),
        forall|i: int|
            0 <= i < windows.len() ==> exists|k: int|
                0 <= k < one_per_process(windows).len() && (#[trigger] one_per_process(
                    windows,
                )[k]).pid == (#[trigger] windows[i]).pid,
    decreases windows.len(),
{
    if windows.len() > 0 {
        let earlier = windows.drop_last();
        let last = windows.last();
        let others = is_other_process(last.pid);
        let before = one_per_process(earlier);
        let kept = before.filter(others);
        let result = one_per_process(windows);
        lemma_one_per_process(earlier);
        assert(result == kept.push(last));
        // The windows kept are windows of `before`, in the order of `before`.
        assert forall|k: int| 0 <= k < kept.len() implies others(#[trigger] kept[k])
            && before.contains(kept[k]) by {
            before.lemma_filter_pred(others, k);
            assert(kept.contains(kept[k]));
            before.lemma_filter_contains_rev(others, kept[k]);
        }
        lemma_filter_keeps_distinct_pids(before, others);
        assert forall|i: int, j: int| 0 <= i < j < result.len() implies (#[trigger] result[i]).pid
            != (#[trigger] result[j]).pid by {
            if j < kept.len() {
                assert(kept[i].pid != kept[j].pid);
            } else {
                assert(others(kept[i]));
            }
        }
        assert forall|k: int| 0 <= k < result.len() implies windows.contains(
            #[trigger] result[k],
        ) by {
            if k < kept.len() {
                assert(before.contains(kept[k]));
                let at = choose|at: int| 0 <= at < before.len() && before[at] == kept[k];
                assert(earlier.contains(before[at]));
                let from = choose|from: int| 0 <= from < earlier.len() && earlier[from] == kept[k];
                assert(windows[from] == kept[k]);
            } else {
                assert(windows[windows.len() - 1] == result[k]);
            }
        }
        assert forall|i: int| 0 <= i < windows.len() implies exists|k: int|
            0 <= k < result.len() && (#[trigger] result[k]).pid == (#[trigger] windows[i]).pid by {
            if windows[i].pid == last.pid {
                assert(result[result.len() - 1].pid == windows[i].pid);
            } else {
                assert(earlier[i] == windows[i]);
                let at = choose|at: int|
                    0 <= at < before.len() && (#[trigger] before[at]).pid == earlier[i].pid;
                assert(others(before[at]));
                before.lemma_filter_contains(others, at);
                let k = choose|k: int| 0 <= k < kept.len() && kept[k] == before[at];
                assert(result[k].pid == windows[i].pid);
            }
        }
    }
}

/// A filter takes windows out and leaves the others in their order, so
/// process ids that were distinct stay distinct.
proof fn lemma_filter_keeps_distinct_pids(windows: Seq<ProcessInfo>, keep: spec_fn(ProcessInfo) -> bool)
    requires
        forall|i: int, j: int|
            0 <= i < j < windows.len() ==> (#[trigger] windows[i]).pid != (#[trigger] windows[j]).pid,
    ensures
        forall|i: int, j: int|
            0 <= i < j < windows.filter(keep).len() ==> (#[trigger] windows.filter(keep)[i]).pid
                != (#[trigger] windows.filter(keep)[j]).pid,
    decreases windows.len(),
{
    reveal(Seq::filter);
    if windows.len() > 0 {
        let earlier = windows.drop_last();
        let last = windows.last();
        lemma_filter_keeps_distinct_pids(earlier, keep);
        let kept = earlier.filter(keep);
        if keep(last) {
            assert forall|i: int, j: int| 0 <= i < j < kept.push(last).len() implies (
            #[trigger] kept.push(last)[i]).pid != (#[trigger] kept.push(last)[j]).pid by {
                if j == kept.len() {
                    assert(kept.contains(kept[i]));
                    earlier.lemma_filter_contains_rev(keep, kept[i]);
                    let at = choose|at: int| 0 <= at < earlier.len() && earlier[at] == kept[i];
                    assert(windows[at].pid != windows[windows.len() - 1].pid);
                }
            }
        }
    }
}

/// A copy of the description.
fn copy_of(window: &ProcessInfo) -> (copy: ProcessInfo)
    ensures
        copy == *window,
{
    ProcessInfo { hwnd: window.hwnd, pid: window.pid, name: window.name.clone() }
}

/// Reduces the windows that an enumeration found to one per process: of
/// several windows of one process the last one found stays.
pub fn get_all_processes_info(windows: &[ProcessInfo]) -> (processes: Vec<ProcessInfo>)
    ensures
        processes@ == one_per_process(windows@),
{
    let mut processes: Vec<ProcessInfo> = Vec::new();
    let mut at: usize = 0;
    proof {
        assert(windows@.take(0) =~= Seq::empty());
    }
    while at < windows.len()
        invariant
            at <= windows.len(),
            processes@ == one_per_process(windows@.take(at as int)),
        decreases windows.len() - at,
    {
        let window = &windows[at];
        let ghost others = is_other_process(window.pid);
        let mut kept: Vec<ProcessInfo> = Vec::new();
        let mut k: usize = 0;
        proof {
            reveal(Seq::filter);
            assert(processes@.take(0) =~= Seq::empty());
        }
        while k < processes.len()
            invariant
                k <= processes.len(),
                others == is_other_process(window.pid),
                kept@ == processes@.take(k as int).filter(others),
            decreases processes.len() - k,
        {
            proof {
                assert(processes@.take(k + 1) =~= processes@.take(k as int).push(
                    processes[k as int],
                ));
                processes@.take(k as int).lemma_filter_push(processes[k as int], others);
            }
            if processes[k].pid != window.pid {
                kept.push(copy_of(&processes[k]));
            }
            k += 1;
        }
        kept.push(copy_of(window));
        proof {
            assert(processes@.take(k as int) =~= processes@);
            assert(windows@.take(at + 1).drop_last() =~= windows@.take(at as int));
            assert(windows@.take(at + 1).last() == *window);
        }
        processes = kept;
        at += 1;
    }
    proof {
        assert(windows@.take(at as int) =~= windows@);
    }
    processes
}

/// The UTF-16 code units that a text encodes to.
pub uninterp spec fn utf16_units(text: Seq<char>) -> Seq<u16>;

/// `str::encode_utf16` of std, collected: the UTF-16 code units of the text.
/// The result depends on the text alone.
#[verifier::external_body]
fn encode_utf16(text: &str) -> (units: Vec<u16>)
    ensures
        units@ == utf16_units(text@),
{
    text.encode_utf16().collect()
}

/// Whether two runs of code units are the same.
fn same_units(a: &[u16], b: &[u16]) -> (same: bool)
    ensures
        same == (a@ == b@),
{
    if a.len() != b.len() {
        return false;
    }
    let mut at: usize = 0;
    while at < a.len()
        invariant
            a.len() == b.len(),
            at <= a.len(),
            forall|i: int| 0 <= i < at ==> a[i] == b[i],
        decreases a.len() - at,
    {
        if a[at] != b[at] {
            return false;
        }
        at += 1;
    }
    assert(a@ =~= b@);
    true
}

/// A child window with the UTF-16 code units of its class name.
pub struct ChildWindow {
    pub hwnd: Hwnd,
    pub class_name: Vec<u16>,
}

/// The window of the first child in the list whose class name is `wanted`,
/// unit for unit.
pub open spec fn first_child_with_class(children: Seq<ChildWindow>, wanted: Seq<u16>) -> Option<
    Hwnd,
>
    decreases children.len(),
{
    if children.len() == 0 {
        None
    } else if children[0].class_name@ == wanted {
        Some(children[0].hwnd)
    } else {
        first_child_with_class(children.skip(1), wanted)
    }
}

/// Finds the first child window in the list whose class name has exactly the
/// code units `wanted`.
pub fn find_child_window_with_class(children: &[ChildWindow], wanted: &[u16]) -> (found: Option<
    Hwnd,
>)
    ensures
        found == first_child_with_class(children@, wanted@),
{
    let mut at: usize = 0;
    proof {
        assert(children@.skip(0) =~= children@);
    }
    while at < children.len()
        invariant
            at <= children.len(),
            first_child_with_class(children@, wanted@) == first_child_with_class(
                children@.skip(at as int),
                wanted@,
            ),
        decreases children.len() - at,
    {
        proof {
            assert(children@.skip(at as int)[0] == children[at as int]);
            assert(children@.skip(at as int).skip(1) =~= children@.skip(at + 1));
        }
        if same_units(children[at].class_name.as_slice(), wanted) {
            return Some(children[at].hwnd);
        }
        at += 1;
    }
    None
}

/// Finds the first child window in the list whose class name is exactly
/// `class_name`: name and class name are compared by their UTF-16 code units.
pub fn find_child_window_by_class(children: &[ChildWindow], class_name: &str) -> (found: Option<
    Hwnd,
>)
    ensures
        found == first_child_with_class(children@, utf16_units(class_name@)),
{
    let wanted = encode_utf16(class_name);
    find_child_window_with_class(children, wanted.as_slice())
}

} // verus!
