use mouse_listener::controls::ControlType;
use mouse_listener::get_browser_url::{
    element_matches_criteria, find_element_with_criteria, get_brower_url,
    get_brower_url_by_criteria, resolve_address_bar_criteria, Element, ElementCriteria,
    LocaleCache, LocaleState, CHINESE_ADDRESS_BAR, DEFAULT_ADDRESS_BAR,
};

fn element(
    name: &str,
    classname: &str,
    controltype: ControlType,
    value: Option<&str>,
    children: Vec<Element>,
) -> Element {
    Element {
        name: name.to_string(),
        classname: classname.to_string(),
        controltype,
        value: value.map(|v| v.to_string()),
        children,
    }
}

fn by_name(name: &str) -> ElementCriteria {
    ElementCriteria { name: Some(name.to_string()), classname: None, controltype: None }
}

fn browser_window(label: &str, url: &str) -> Element {
    element(
        "Example - Browser",
        "Chrome_WidgetWin_1",
        ControlType::Window,
        None,
        vec![element(
            "",
            "BrowserRootView",
            ControlType::Pane,
            None,
            vec![element(
                label,
                "OmniboxViewViews",
                ControlType::Edit,
                Some(url),
                vec![],
            )],
        )],
    )
}

#[test]
fn address_bar_below_window_and_pane_is_found() {
    let window = browser_window("Address and search bar", "https://example.org/a");
    let url = get_brower_url_by_criteria(&window, by_name("Address and search bar"));
    assert_eq!(url, Some("https://example.org/a".to_string()));
    let found = find_element_with_criteria(&window, &by_name("Address and search bar"));
    assert_eq!(found.map(|e| e.controltype), Some(ControlType::Edit));
}

#[test]
fn search_without_a_match_finds_nothing() {
    let window = browser_window("Address and search bar", "https://example.org/a");
    assert!(find_element_with_criteria(&window, &by_name("Search")).is_none());
    assert_eq!(get_brower_url_by_criteria(&window, by_name("Search")), None);
}

#[test]
fn root_that_matches_is_returned_before_its_children() {
    let window = element(
        "bar",
        "root",
        ControlType::Edit,
        Some("root value"),
        vec![element("bar", "child", ControlType::Edit, Some("child value"), vec![])],
    );
    let found = find_element_with_criteria(&window, &by_name("bar")).unwrap();
    assert_eq!(found.classname, "root");
}

#[test]
fn first_match_in_pre_order_wins_over_a_shallower_later_one() {
    // root
    //   a
    //     a1 (match, deep, first in pre-order)
    //   b (match, shallow, later in pre-order)
    let window = element(
        "root",
        "",
        ControlType::Window,
        None,
        vec![
            element(
                "a",
                "",
                ControlType::Pane,
                None,
                vec![element("bar", "a1", ControlType::Edit, Some("deep"), vec![])],
            ),
            element("bar", "b", ControlType::Edit, Some("shallow"), vec![]),
        ],
    );
    let found = find_element_with_criteria(&window, &by_name("bar")).unwrap();
    assert_eq!(found.classname, "a1");
    assert_eq!(get_brower_url_by_criteria(&window, by_name("bar")), Some("deep".to_string()));
}

#[test]
fn later_sibling_is_reached_after_an_exhausted_subtree() {
    let window = element(
        "root",
        "",
        ControlType::Window,
        None,
        vec![
            element(
                "a",
                "",
                ControlType::Pane,
                None,
                vec![
                    element("a1", "", ControlType::Text, None, vec![]),
                    element("a2", "", ControlType::Text, None, vec![]),
                ],
            ),
            element("b", "", ControlType::Pane, None, vec![]),
            element(
                "c",
                "",
                ControlType::Pane,
                None,
                vec![element("bar", "c1", ControlType::Edit, Some("third"), vec![])],
            ),
        ],
    );
    let found = find_element_with_criteria(&window, &by_name("bar")).unwrap();
    assert_eq!(found.classname, "c1");
}

#[test]
fn absent_criteria_admit_every_element() {
    let window = browser_window("Address and search bar", "https://example.org/a");
    let any = ElementCriteria { name: None, classname: None, controltype: None };
    assert!(element_matches_criteria(&window, &any));
    let found = find_element_with_criteria(&window, &any).unwrap();
    assert_eq!(found.classname, "Chrome_WidgetWin_1");
}

#[test]
fn every_given_criterion_must_be_met() {
    let edit = element("bar", "Omnibox", ControlType::Edit, Some("v"), vec![]);
    let all = ElementCriteria {
        name: Some("bar".to_string()),
        classname: Some("Omnibox".to_string()),
        controltype: Some(ControlType::Edit),
    };
    assert!(element_matches_criteria(&edit, &all));
    let wrong_name = ElementCriteria {
        name: Some("baz".to_string()),
        classname: Some("Omnibox".to_string()),
        controltype: Some(ControlType::Edit),
    };
    assert!(!element_matches_criteria(&edit, &wrong_name));
    let wrong_class = ElementCriteria {
        name: Some("bar".to_string()),
        classname: Some("Other".to_string()),
        controltype: Some(ControlType::Edit),
    };
    assert!(!element_matches_criteria(&edit, &wrong_class));
    let wrong_type = ElementCriteria {
        name: Some("bar".to_string()),
        classname: Some("Omnibox".to_string()),
        controltype: Some(ControlType::Button),
    };
    assert!(!element_matches_criteria(&edit, &wrong_type));
}

#[test]
fn search_by_class_and_by_control_type() {
    let window = browser_window("Address and search bar", "https://example.org/a");
    let by_class = ElementCriteria {
        name: None,
        classname: Some("BrowserRootView".to_string()),
        controltype: None,
    };
    assert_eq!(
        find_element_with_criteria(&window, &by_class).map(|e| e.controltype),
        Some(ControlType::Pane)
    );
    let by_type =
        ElementCriteria { name: None, classname: None, controltype: Some(ControlType::Edit) };
    assert_eq!(
        find_element_with_criteria(&window, &by_type).map(|e| e.name.as_str()),
        Some("Address and search bar")
    );
}

#[test]
fn match_whose_text_cannot_be_read_yields_nothing() {
    let window = element(
        "root",
        "",
        ControlType::Window,
        None,
        vec![
            element("bar", "first", ControlType::Edit, None, vec![]),
            element("bar", "second", ControlType::Edit, Some("readable"), vec![]),
        ],
    );
    assert_eq!(get_brower_url_by_criteria(&window, by_name("bar")), None);
}

#[test]
fn empty_text_is_a_value() {
    let window = browser_window("Address and search bar", "");
    assert_eq!(
        get_brower_url_by_criteria(&window, by_name("Address and search bar")),
        Some(String::new())
    );
}

#[test]
fn searching_twice_gives_the_same_element() {
    let window = browser_window("Address and search bar", "https://example.org/a");
    let criteria = by_name("Address and search bar");
    let first = find_element_with_criteria(&window, &criteria);
    let second = find_element_with_criteria(&window, &criteria);
    assert_eq!(first, second);
    assert!(std::ptr::eq(first.unwrap(), second.unwrap()));
}

#[test]
fn deep_tree_is_searched_without_recursion() {
    let depth = 2000;
    let mut tree = element("bar", "leaf", ControlType::Edit, Some("bottom"), vec![]);
    for level in 0..depth {
        tree = element("pane", &format!("level{}", level), ControlType::Pane, None, vec![tree]);
    }
    let found = find_element_with_criteria(&tree, &by_name("bar")).unwrap();
    assert_eq!(found.classname, "leaf");
    assert!(find_element_with_criteria(&tree, &by_name("absent")).is_none());
}

#[test]
fn labels_are_the_chinese_and_the_english_name_of_the_address_bar() {
    assert_eq!(CHINESE_ADDRESS_BAR, "地址和搜索栏");
    assert_eq!(CHINESE_ADDRESS_BAR.chars().count(), 6);
    assert_eq!(DEFAULT_ADDRESS_BAR, "Address and search bar");
}

#[test]
fn criteria_of_each_locale() {
    assert_eq!(LocaleState::ChineseLabels.criteria().name.as_deref(), Some(CHINESE_ADDRESS_BAR));
    assert_eq!(LocaleState::DefaultLabels.criteria().name.as_deref(), Some(DEFAULT_ADDRESS_BAR));
    assert_eq!(LocaleState::Unknown.criteria().name.as_deref(), Some(CHINESE_ADDRESS_BAR));
    let criteria = LocaleState::DefaultLabels.criteria();
    assert_eq!(criteria.classname, None);
    assert_eq!(criteria.controltype, None);
}

#[test]
fn new_cache_knows_nothing() {
    assert_eq!(LocaleCache::new().state(), LocaleState::Unknown);
}

#[test]
fn probe_that_succeeds_settles_on_chinese_labels() {
    let window = browser_window(CHINESE_ADDRESS_BAR, "https://example.cn/");
    let mut cache = LocaleCache::new();
    let criteria = resolve_address_bar_criteria(&mut cache, Some(&window));
    assert_eq!(cache.state(), LocaleState::ChineseLabels);
    assert_eq!(criteria.name.as_deref(), Some(CHINESE_ADDRESS_BAR));
}

#[test]
fn probe_that_fails_settles_on_default_labels() {
    let window = browser_window(DEFAULT_ADDRESS_BAR, "https://example.org/");
    let mut cache = LocaleCache::new();
    let criteria = resolve_address_bar_criteria(&mut cache, Some(&window));
    assert_eq!(cache.state(), LocaleState::DefaultLabels);
    assert_eq!(criteria.name.as_deref(), Some(DEFAULT_ADDRESS_BAR));
}

#[test]
fn probe_of_an_unreachable_window_settles_on_default_labels() {
    let mut cache = LocaleCache::new();
    let criteria = resolve_address_bar_criteria(&mut cache, None);
    assert_eq!(cache.state(), LocaleState::DefaultLabels);
    assert_eq!(criteria.name.as_deref(), Some(DEFAULT_ADDRESS_BAR));
}

#[test]
fn probe_needs_the_text_of_the_address_bar() {
    let window = element(
        "root",
        "",
        ControlType::Window,
        None,
        vec![element(CHINESE_ADDRESS_BAR, "", ControlType::Edit, None, vec![])],
    );
    let mut cache = LocaleCache::new();
    resolve_address_bar_criteria(&mut cache, Some(&window));
    assert_eq!(cache.state(), LocaleState::DefaultLabels);
}

#[test]
fn resolved_locale_is_never_probed_again() {
    let chinese = browser_window(CHINESE_ADDRESS_BAR, "https://example.cn/");
    let english = browser_window(DEFAULT_ADDRESS_BAR, "https://example.org/");

    let mut cache = LocaleCache::new();
    resolve_address_bar_criteria(&mut cache, Some(&english));
    assert_eq!(cache.state(), LocaleState::DefaultLabels);
    for window in [Some(&chinese), Some(&english), None, Some(&chinese)] {
        let criteria = resolve_address_bar_criteria(&mut cache, window);
        assert_eq!(cache.state(), LocaleState::DefaultLabels);
        assert_eq!(criteria.name.as_deref(), Some(DEFAULT_ADDRESS_BAR));
    }

    let mut cache = LocaleCache::new();
    resolve_address_bar_criteria(&mut cache, Some(&chinese));
    assert_eq!(cache.state(), LocaleState::ChineseLabels);
    for window in [Some(&english), None, Some(&chinese)] {
        let criteria = resolve_address_bar_criteria(&mut cache, window);
        assert_eq!(cache.state(), LocaleState::ChineseLabels);
        assert_eq!(criteria.name.as_deref(), Some(CHINESE_ADDRESS_BAR));
    }
}

#[test]
fn url_is_read_on_the_first_look_under_either_label() {
    let chinese = browser_window(CHINESE_ADDRESS_BAR, "https://example.cn/");
    let mut cache = LocaleCache::new();
    assert_eq!(get_brower_url(&mut cache, Some(&chinese)), Some("https://example.cn/".to_string()));
    assert_eq!(cache.state(), LocaleState::ChineseLabels);

    let english = browser_window(DEFAULT_ADDRESS_BAR, "https://example.org/");
    let mut cache = LocaleCache::new();
    assert_eq!(
        get_brower_url(&mut cache, Some(&english)),
        Some("https://example.org/".to_string())
    );
    assert_eq!(cache.state(), LocaleState::DefaultLabels);
}

#[test]
fn stale_labels_find_nothing_in_a_browser_of_the_other_language() {
    let chinese = browser_window(CHINESE_ADDRESS_BAR, "https://example.cn/");
    let english = browser_window(DEFAULT_ADDRESS_BAR, "https://example.org/");
    let mut cache = LocaleCache::new();
    assert!(get_brower_url(&mut cache, Some(&english)).is_some());
    assert_eq!(get_brower_url(&mut cache, Some(&chinese)), None);
    assert_eq!(get_brower_url(&mut cache, Some(&english)), Some("https://example.org/".to_string()));
}

#[test]
fn unreachable_window_has_no_url() {
    let mut cache = LocaleCache::new();
    assert_eq!(get_brower_url(&mut cache, None), None);
    assert_eq!(cache.state(), LocaleState::DefaultLabels);
    assert_eq!(get_brower_url(&mut cache, None), None);
}
