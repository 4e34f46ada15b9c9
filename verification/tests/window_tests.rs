use screenshot::cli::WindowHandle;
use screenshot::window_query::{
    find_exact_window, find_window, lowercased_title_matches, window_query_report, WindowInfo,
    WindowQueryRow,
};

fn window(handle: isize, title: &str) -> WindowInfo {
    WindowInfo {
        handle: WindowHandle(handle),
        title: title.to_string(),
    }
}

fn handles(ws: &[WindowInfo]) -> Vec<isize> {
    ws.iter().map(|w| w.handle.0).collect()
}

#[test]
fn search_is_case_insensitive_and_ordered() {
    let list = vec![
        window(1, "Windows Terminal"),
        window(2, "Notepad"),
        window(3, "terminal - admin"),
        window(4, "TERMINAL"),
    ];
    assert_eq!(handles(&find_window(&list, "Terminal")), vec![1, 3, 4]);
    assert_eq!(handles(&find_window(&list, "")), vec![1, 2, 3, 4]);
    assert_eq!(handles(&find_window(&list, "paint")), Vec::<isize>::new());
    assert_eq!(handles(&find_window(&vec![window(5, "ÜBER")], "über")), vec![5]);
    assert!(lowercased_title_matches("windows terminal", "term"));
    assert!(!lowercased_title_matches("windows", "term"));
}

#[test]
fn exact_search_is_within_search() {
    let list = vec![
        window(1, "Terminal"),
        window(2, "terminal"),
        window(3, "Terminal"),
    ];
    let exact = find_exact_window(&list, "Terminal");
    assert_eq!(handles(&exact), vec![1, 3]);
    let loose = handles(&find_window(&list, "Terminal"));
    for h in handles(&exact) {
        assert!(loose.contains(&h));
    }
}

#[test]
fn query_report() {
    let rows = vec![
        WindowQueryRow {
            pid: 42,
            process_name: Some("explorer.exe".to_string()),
            title: "Files".to_string(),
        },
        WindowQueryRow {
            pid: 7,
            process_name: None,
            title: "Other".to_string(),
        },
    ];
    let expected = format!(
        "2 windows found matching 'fi':\n  PID         Process Name                  Window Title\n{}\n{}\n",
        format!("  {:>6}      {:<25}     {}", 42, "explorer.exe", "Files"),
        format!("  {:>6}      {:<25}     {}", 7, "<Unknown>", "Other"),
    );
    assert_eq!(window_query_report("fi", &rows), Ok(expected));
    assert_eq!(
        window_query_report("zz", &vec![]),
        Err("No window matching 'zz' found!".to_string())
    );
}

#[test]
fn empty_query_and_ascii_case() {
    let list = vec![window(1, "Alpha"), window(2, "beta"), window(3, "GAMMA ray")];
    assert_eq!(handles(&find_window(&list, "")), vec![1, 2, 3]);
    for q in ["a", "Ray", "ETA", "x"] {
        assert_eq!(
            handles(&find_window(&list, q)),
            handles(&find_window(&list, &q.to_ascii_uppercase()))
        );
    }
}
