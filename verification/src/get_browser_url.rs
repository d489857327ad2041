//! Finding the address bar in a window's accessibility tree and reading the
//! URL it shows.

use crate::controls::ControlType;
use vstd::prelude::*;

verus! {

/// One element of a window's accessibility tree, with the elements below it.
#[derive(Debug, PartialEq, Eq)]
pub struct Element {
    pub name: String,
    pub classname: String,
    pub controltype: ControlType,
    /// The text the element holds, where it could be read.
    pub value: Option<String>,
    pub children: Vec<Element>,
}

/// What an element must look like to be the one searched for. A field that is
/// `None` admits every element.
#[derive(Debug)]
pub struct ElementCriteria {
    pub name: Option<String>,
    pub classname: Option<String>,
    pub controltype: Option<ControlType>,
}

/// The criteria as plain values.
pub struct CriteriaView {
    pub name: Option<Seq<char>>,
    pub classname: Option<Seq<char>>,
    pub controltype: Option<ControlType>,
}

/// The characters of an optional string.
pub open spec fn text_of(text: Option<String>) -> Option<Seq<char>> {
    match text {
        Some(s) => Some(s@),
        None => None,
    }
}

impl View for ElementCriteria {
    type V = CriteriaView;

    open spec fn view(&self) -> CriteriaView {
        CriteriaView {
            name: text_of(self.name),
            classname: text_of(self.classname),
            controltype: self.controltype,
        }
    }
}

/// Whether the element meets every criterion that is given.
pub open spec fn matches_criteria(element: Element, criteria: CriteriaView) -> bool {
    &&& criteria.name matches Some(name) ==> element.name@ == name
    &&& criteria.classname matches Some(classname) ==> element.classname@ == classname
    &&& criteria.controltype matches Some(controltype) ==> element.controltype == controltype
}

/// The first element, in depth-first pre-order, of the tree under `element`
/// that meets the criteria: the element itself if it does, else the first such
/// element below its first child, else below its second child, and so on.
pub open spec fn first_match(element: Element, criteria: CriteriaView) -> Option<Element>
    decreases element, element.children.len() + 1,
{
    if matches_criteria(element, criteria) {
        Some(element)
    } else {
        first_match_from(element, 0, criteria)
    }
}

/// The first element in pre-order that meets the criteria in the subtrees of
/// the children of `parent` from the child at `start` onwards.
pub open spec fn first_match_from(parent: Element, start: int, criteria: CriteriaView) -> Option<
    Element,
>
    decreases parent, parent.children.len() - start,
{
    if 0 <= start < parent.children.len() {
        match first_match(parent.children[start], criteria) {
            Some(found) => Some(found),
            None => first_match_from(parent, start + 1, criteria),
        }
    } else {
        None
    }
}

/// The elements of the tree under `element` in depth-first pre-order: the
/// element itself, then the elements under its first child, then those under
/// its second child, and so on.
pub open spec fn pre_order(element: Element) -> Seq<Element>
    decreases element, element.children.len() + 1,
{
    seq![element] + pre_order_from(element, 0)
}

/// The elements under the children of `parent` from the child at `start`
/// onwards, in pre-order.
pub open spec fn pre_order_from(parent: Element, start: int) -> Seq<Element>
    decreases parent, parent.children.len() - start,
{
    if 0 <= start < parent.children.len() {
        pre_order(parent.children[start]) + pre_order_from(parent, start + 1)
    } else {
        Seq::empty()
    }
}

/// The first element of the sequence that meets the criteria.
pub open spec fn first_admitted(elements: Seq<Element>, criteria: CriteriaView) -> Option<Element>
    decreases elements.len(),
{
    if elements.len() == 0 {
        None
    } else if matches_criteria(elements[0], criteria) {
        Some(elements[0])
    } else {
        first_admitted(elements.skip(1), criteria)
    }
}

/// The first admitted element of two sequences in a row is that of the first
/// sequence, or else that of the second.
proof fn lemma_first_admitted_of_concatenation(
    front: Seq<Element>,
    back: Seq<Element>,
    criteria: CriteriaView,
)
    ensures
        first_admitted(front + back, criteria) == match first_admitted(front, criteria) {
            Some(found) => Some(found),
            None => first_admitted(back, criteria),
        },
    decreases front.len(),
{
    if front.len() == 0 {
        assert(front + back =~= back);
    } else {
        assert((front + back)[0] == front[0]);
        assert((front + back).skip(1) =~= front.skip(1) + back);
        lemma_first_admitted_of_concatenation(front.skip(1), back, criteria);
    }
}

/// What the search finds is the first element that meets the criteria when
/// the elements of the tree are lined up in pre-order.
pub proof fn lemma_first_match_is_first_in_pre_order(element: Element, criteria: CriteriaView)
    ensures
        first_match(element, criteria) == first_admitted(pre_order(element), criteria),
    decreases element, element.children.len() + 1,
{
    lemma_first_match_from_is_first_in_pre_order(element, 0, criteria);
    let below = pre_order_from(element, 0);
    assert((seq![element] + below)[0] == element);
    assert((seq![element] + below).skip(1) =~= below);
}

/// The same for the subtrees of the children from `start` onwards.
pub proof fn lemma_first_match_from_is_first_in_pre_order(
    parent: Element,
    start: int,
    criteria: CriteriaView,
)
    ensures
        first_match_from(parent, start, criteria) == first_admitted(
            pre_order_from(parent, start),
            criteria,
        ),
    decreases parent, parent.children.len() - start,
{
    if 0 <= start < parent.children.len() {
        lemma_first_match_is_first_in_pre_order(parent.children[start], criteria);
        lemma_first_match_from_is_first_in_pre_order(parent, start + 1, criteria);
        lemma_first_admitted_of_concatenation(
            pre_order(parent.children[start]),
            pre_order_from(parent, start + 1),
            criteria,
        );
    }
}

/// An element that the search finds meets the criteria and stands in the
/// tree; where the search finds none, no element of the tree meets them.
pub proof fn lemma_first_match_is_sound_and_complete(element: Element, criteria: CriteriaView)
    ensures
        match first_match(element, criteria) {
            Some(found) => matches_criteria(found, criteria) && pre_order(element).contains(found),
            None => forall|i: int|
                0 <= i < pre_order(element).len() ==> !matches_criteria(
                    #[trigger] pre_order(element)[i],
                    criteria,
                ),
        },
{
    lemma_first_match_is_first_in_pre_order(element, criteria);
    lemma_first_admitted_is_sound_and_complete(pre_order(element), criteria);
}

/// The first admitted element of a sequence meets the criteria and stands in
/// the sequence; where there is none, no element of the sequence meets them.
proof fn lemma_first_admitted_is_sound_and_complete(elements: Seq<Element>, criteria: CriteriaView)
    ensures
        match first_admitted(elements, criteria) {
            Some(found) => matches_criteria(found, criteria) && elements.contains(found),
            None => forall|i: int|
                0 <= i < elements.len() ==> !matches_criteria(#[trigger] elements[i], criteria),
        },
    decreases elements.len(),
{
    if elements.len() > 0 {
        if matches_criteria(elements[0], criteria) {
        } else {
            let rest = elements.skip(1);
            lemma_first_admitted_is_sound_and_complete(rest, criteria);
            match first_admitted(rest, criteria) {
                Some(found) => {
                    let k = choose|k: int| 0 <= k < rest.len() && rest[k] == found;
                    assert(elements[k + 1] == found);
                },
                None => {
                    assert forall|i: int| 0 <= i < elements.len() implies !matches_criteria(
                        #[trigger] elements[i],
                        criteria,
                    ) by {
                        if i > 0 {
                            assert(rest[i - 1] == elements[i]);
                        }
                    }
                },
            }
        }
    }
}

/// Tests one element against the criteria.
pub fn element_matches_criteria(element: &Element, criteria: &ElementCriteria) -> (admitted: bool)
    ensures
        admitted == matches_criteria(*element, criteria@),
{
    if let Some(name) = &criteria.name {
        if element.name != *name {
            return false;
        }
    }
    if let Some(classname) = &criteria.classname {
        if element.classname != *classname {
            return false;
        }
    }
    if let Some(controltype) = &criteria.controltype {
        if element.controltype != *controltype {
            return false;
        }
    }
    true
}

/// The number of elements in the tree under `element`, the element included.
pub open spec fn tree_size(element: Element) -> nat
    decreases element, element.children.len() + 1,
{
    1 + forest_size(element, 0)
}

/// The number of elements in the subtrees of the children of `parent` from the
/// child at `start` onwards.
pub open spec fn forest_size(parent: Element, start: int) -> nat
    decreases parent, parent.children.len() - start,
{
    if 0 <= start < parent.children.len() {
        tree_size(parent.children[start]) + forest_size(parent, start + 1)
    } else {
        0
    }
}

/// The first match among what a stack of frames has still to visit. A frame
/// `(parent, next)` stands for the children of `parent` from `next` onwards;
/// the frame on top of the stack is visited first.
spec fn pending_match(frames: Seq<(&Element, usize)>, criteria: CriteriaView) -> Option<Element>
    decreases frames.len(),
{
    if frames.len() == 0 {
        None
    } else {
        match first_match_from(*frames.last().0, frames.last().1 as int, criteria) {
            Some(found) => Some(found),
            None => pending_match(frames.drop_last(), criteria),
        }
    }
}

/// A bound on the steps that a stack of frames still takes: two for each
/// element to visit and one for each frame to drop.
spec fn pending_work(frames: Seq<(&Element, usize)>) -> nat
    decreases frames.len(),
{
    if frames.len() == 0 {
        0
    } else {
        2 * forest_size(*frames.last().0, frames.last().1 as int) + 1 + pending_work(
            frames.drop_last(),
        )
    }
}

/// What a frame pushed on a stack adds to what the stack has still to visit.
proof fn lemma_frame_on_top(
    below: Seq<(&Element, usize)>,
    parent: &Element,
    next: usize,
    criteria: CriteriaView,
)
    ensures
        pending_match(below.push((parent, next)), criteria) == match first_match_from(
            *parent,
            next as int,
            criteria,
        ) {
            Some(found) => Some(found),
            None => pending_match(below, criteria),
        },
        pending_work(below.push((parent, next))) == 2 * forest_size(*parent, next as int) + 1
            + pending_work(below),
{
    assert(below.push((parent, next)).drop_last() =~= below);
}

/// What the children of `parent` from `next` onwards hold: nothing where
/// there is no such child; else the child at `next`, then what is below it,
/// then the children after it.
proof fn lemma_children_from(parent: &Element, next: usize, criteria: CriteriaView)
    ensures
        next >= parent.children.len() ==> first_match_from(*parent, next as int, criteria)
            is None,
        next >= parent.children.len() ==> forest_size(*parent, next as int) == 0,
        next < parent.children.len() ==> first_match_from(*parent, next as int, criteria) == (
        if matches_criteria(parent.children[next as int], criteria) {
            Some(parent.children[next as int])
        } else {
            match first_match_from(parent.children[next as int], 0, criteria) {
                Some(found) => Some(found),
                None => first_match_from(*parent, next + 1, criteria),
            }
        }),
        next < parent.children.len() ==> forest_size(*parent, next as int) == 1 + forest_size(
            parent.children[next as int],
            0,
        ) + forest_size(*parent, next + 1),
{
    if next < parent.children.len() {
        let child = parent.children[next as int];
        assert(first_match(child, criteria) == if matches_criteria(child, criteria) {
            Some(child)
        } else {
            first_match_from(child, 0, criteria)
        });
        assert(tree_size(child) == 1 + forest_size(child, 0));
    }
}

/// Searches the tree under `element` depth-first and in pre-order for the
/// first element that meets the criteria. The elements still to visit are kept
/// on a stack of frames, one frame for each element whose children are being
/// visited, so the depth of the tree does not grow the call stack.
pub fn find_element_with_criteria<'a>(element: &'a Element, criteria: &ElementCriteria) -> (found:
    Option<&'a Element>)
    ensures
        match found {
            Some(e) => first_match(*element, criteria@) == Some(*e),
            None => first_match(*element, criteria@) is None,
        },
{
    if element_matches_criteria(element, criteria) {
        return Some(element);
    }
    let mut frames: Vec<(&'a Element, usize)> = Vec::new();
    frames.push((element, 0));
    proof {
        lemma_frame_on_top(Seq::empty(), element, 0, criteria@);
        assert(frames@ =~= Seq::empty().push((element, 0usize)));
    }
    while frames.len() > 0
        invariant
            pending_match(frames@, criteria@) == first_match(*element, criteria@),
        decreases pending_work(frames@),
    {
        let ghost before = frames@;
        let (parent, next) = frames.pop().unwrap();
        let ghost below = frames@;
        proof {
            lemma_frame_on_top(below, parent, next, criteria@);
            lemma_children_from(parent, next, criteria@);
            assert(before =~= below.push((parent, next)));
        }
        if next < parent.children.len() {
            let child = &parent.children[next];
            if element_matches_criteria(child, criteria) {
                return Some(child);
            }
            // The children of `parent` after `child` wait below the children
            // of `child`.
            frames.push((parent, next + 1));
            frames.push((child, 0));
            proof {
                let resumed = below.push((parent, (next + 1) as usize));
                lemma_frame_on_top(below, parent, (next + 1) as usize, criteria@);
                lemma_frame_on_top(resumed, child, 0, criteria@);
                assert(frames@ =~= resumed.push((child, 0usize)));
            }
        }
    }
    None
}

/// The text of the first element of the tree under `window` that meets the
/// criteria: nothing where no element meets them, or where the text of the one
/// that does could not be read.
pub open spec fn address_bar_value(window: Element, criteria: CriteriaView) -> Option<Seq<char>> {
    match first_match(window, criteria) {
        Some(element) => text_of(element.value),
        None => None,
    }
}

/// Reads the text of the first element of the window's tree that meets the
/// criteria.
pub fn get_brower_url_by_criteria(window: &Element, criteria: ElementCriteria) -> (url: Option<
    String,
>)
    ensures
        text_of(url) == address_bar_value(*window, criteria@),
{
    match find_element_with_criteria(window, &criteria) {
        Some(element) => match &element.value {
            Some(text) => Some(text.clone()),
            None => None,
        },
        None => None,
    }
}

/// The name of the address bar in a browser with Chinese labels.
pub const CHINESE_ADDRESS_BAR: &'static str = "\u{5730}\u{5740}\u{548c}\u{641c}\u{7d22}\u{680f}";

/// The name of the address bar in a browser with English labels.
pub const DEFAULT_ADDRESS_BAR: &'static str = "Address and search bar";

/// Which set of labels the browser uses, as far as it is known.
#[derive(Clone, Copy, Debug, PartialEq, Eq, Structural)]
pub enum LocaleState {
    Unknown,
    ChineseLabels,
    DefaultLabels,
}

/// The criteria that find the address bar under the given labels. While the
/// labels are unknown these are the criteria of the probe, the Chinese ones.
pub open spec fn locale_criteria(locale: LocaleState) -> CriteriaView {
    CriteriaView {
        name: Some(
            match locale {
                LocaleState::DefaultLabels => DEFAULT_ADDRESS_BAR@,
                _ => CHINESE_ADDRESS_BAR@,
            },
        ),
        classname: None,
        controltype: None,
    }
}

/// Whether the probe finds an address bar with the Chinese label, and its
/// text, in the window. It fails on a window whose tree could not be reached.
pub open spec fn probe_succeeds(window: Option<&Element>) -> bool {
    match window {
        Some(tree) => address_bar_value(*tree, locale_criteria(LocaleState::Unknown)) is Some,
        None => false,
    }
}

/// The labels in use after a look at the window: those already known, or else
/// what the probe says.
pub open spec fn resolved_locale(locale: LocaleState, window: Option<&Element>) -> LocaleState {
    match locale {
        LocaleState::Unknown => if probe_succeeds(window) {
            LocaleState::ChineseLabels
        } else {
            LocaleState::DefaultLabels
        },
        known => known,
    }
}

/// The text that the address bar of the window shows under the given labels.
pub open spec fn browser_url(locale: LocaleState, window: Option<&Element>) -> Option<Seq<char>> {
    match window {
        Some(tree) => address_bar_value(*tree, locale_criteria(locale)),
        None => None,
    }
}

impl LocaleState {
    /// The criteria that find the address bar under these labels.
    pub fn criteria(self) -> (criteria: ElementCriteria)
        ensures
            criteria@ == locale_criteria(self),
    {
        let label = match self {
            LocaleState::DefaultLabels => DEFAULT_ADDRESS_BAR,
            _ => CHINESE_ADDRESS_BAR,
        };
        ElementCriteria { name: Some(label.to_owned()), classname: None, controltype: None }
    }
}

/// The labels of the browser, found out once and kept from then on.
pub struct LocaleCache {
    state: LocaleState,
}

impl View for LocaleCache {
    type V = LocaleState;

    closed spec fn view(&self) -> LocaleState {
        self.state
    }
}

impl LocaleCache {
    /// A cache that knows nothing yet.
    pub fn new() -> (cache: LocaleCache)
        ensures
            cache@ == LocaleState::Unknown,
    {
        LocaleCache { state: LocaleState::Unknown }
    }

    /// What the cache holds.
    pub fn state(&self) -> (state: LocaleState)
        ensures
            state == self@,
    {
        self.state
    }
}

/// Gives the criteria that find the address bar of the browser. The first call
/// probes the window with the Chinese label and keeps the outcome; every later
/// call answers from what is kept, whatever the window holds by then.
pub fn resolve_address_bar_criteria(cache: &mut LocaleCache, window: Option<&Element>) -> (criteria:
    ElementCriteria)
    ensures
        final(cache)@ == resolved_locale(old(cache)@, window),
        criteria@ == locale_criteria(final(cache)@),
{
    if cache.state == LocaleState::Unknown {
        let found = match window {
            Some(tree) => get_brower_url_by_criteria(tree, LocaleState::Unknown.criteria()),
            None => None,
        };
        cache.state = if found.is_some() {
            LocaleState::ChineseLabels
        } else {
            LocaleState::DefaultLabels
        };
    }
    cache.state.criteria()
}

/// Reads the URL that the browser window shows in its address bar, under the
/// labels that the cache holds after this look at the window. A window whose
/// tree could not be reached yields nothing. Where the first look finds the
/// address bar by its Chinese label, what the probe read is the URL, and the
/// tree is searched once; in every later look it is searched once as well.
pub fn get_brower_url(cache: &mut LocaleCache, window: Option<&Element>) -> (url: Option<String>)
    ensures
        final(cache)@ == resolved_locale(old(cache)@, window),
        text_of(url) == browser_url(final(cache)@, window),
{
    if cache.state == LocaleState::Unknown {
        let found = match window {
            Some(tree) => get_brower_url_by_criteria(tree, LocaleState::Unknown.criteria()),
            None => None,
        };
        if found.is_some() {
            cache.state = LocaleState::ChineseLabels;
            return found;
        }
        cache.state = LocaleState::DefaultLabels;
    }
    match window {
        Some(tree) => get_brower_url_by_criteria(tree, cache.state.criteria()),
        None => None,
    }
}

/// Once the labels are known, a look at a window changes nothing: the outcome
/// does not depend on the window, so no probe is made again.
pub proof fn lemma_known_locale_is_kept(locale: LocaleState, window: Option<&Element>)
    requires
        locale != LocaleState::Unknown,
    ensures
        resolved_locale(locale, window) == locale,
{
}

/// After the first look the labels are known, and every later look, at the
/// same window or another, leaves them as the first one found them.
pub proof fn lemma_locale_resolution_is_idempotent(
    locale: LocaleState,
    first: Option<&Element>,
    later: Option<&Element>,
)
    ensures
        resolved_locale(locale, first) != LocaleState::Unknown,
        resolved_locale(resolved_locale(locale, first), later) == resolved_locale(locale, first),
{
}

} // verus!
