use screenshot::cli::WindowHandle;
use screenshot::display_info::{DisplayInfo, Rect};
use screenshot::window_query::WindowInfo;
use screenshot::output::{
    displays_output, window_output, write_output, CaptureOutput, DisplayOutput, DisplaysOutput, OutputFormat, PositionOutput,
    ResolutionOutput, TableOutput, WindowOutput, WindowsOutput,
};

fn example_display() -> DisplayOutput {
    DisplayOutput {
        id: 1,
        hmonitor: "1234".to_string(),
        primary: true,
        resolution: ResolutionOutput {
            width: 2560,
            height: 1440,
        },
        position: PositionOutput { x: 0, y: 0 },
        refresh_hz: 120,
        hdr_enabled: Some(false),
        device_name: r"\\.\DISPLAY1".to_string(),
        display_name: "Example Display".to_string(),
    }
}

#[test]
fn displays_output_renders_table() {
    let output = DisplaysOutput::new(vec![example_display()]);
    let mut bytes = Vec::new();

    write_output(&mut bytes, OutputFormat::Table, &output, &[]);

    let table = String::from_utf8(bytes).unwrap();
    assert!(table.contains("1 displays found:"));
    assert!(table.contains("2560x1440"));
    assert!(table.contains("Example Display"));
}

#[test]
fn displays_table_exact_layout() {
    let mut second = example_display();
    second.id = 12;
    second.primary = false;
    second.resolution = ResolutionOutput {
        width: 1920,
        height: 1080,
    };
    second.position = PositionOutput { x: -1920, y: 360 };
    second.refresh_hz = 60;
    second.hdr_enabled = None;
    second.hmonitor = "65537".to_string();
    second.device_name = r"\\.\DISPLAY2".to_string();
    second.display_name = "Side".to_string();
    let output = DisplaysOutput::new(vec![example_display(), second]);
    let expected = format!(
        "{} displays found:\n{}\n{}\n{}\n",
        2,
        "  ID  HMONITOR              Primary  Resolution    Position          Refresh  HDR      Device          Display Name",
        format!(
            "  {:>2}  {:<20}  {:<7}  {:<12}  {:<16}  {:>3} Hz  {:<7}  {:<14}  {}",
            1, "1234", "Yes", "2560x1440", "(0, 0)", 120, "No", r"\\.\DISPLAY1", "Example Display"
        ),
        format!(
            "  {:>2}  {:<20}  {:<7}  {:<12}  {:<16}  {:>3} Hz  {:<7}  {:<14}  {}",
            12, "65537", "No", "1920x1080", "(-1920, 360)", 60, "Unknown", r"\\.\DISPLAY2", "Side"
        ),
    );
    assert_eq!(output.table(), expected);
    assert_eq!(output.schema_version, 1);
}

#[test]
fn displays_table_of_no_display() {
    let output = DisplaysOutput::new(vec![]);
    let table = output.table();
    assert_eq!(table.lines().count(), 2);
    assert!(table.starts_with("0 displays found:\n"));
}

fn example_window(pid: u32, name: Option<&str>, title: &str) -> WindowOutput {
    WindowOutput {
        hwnd: "9007199254740993".to_string(),
        pid,
        process_name: name.map(|n| n.to_string()),
        title: title.to_string(),
    }
}

#[test]
fn windows_table_with_query() {
    let output = WindowsOutput::new(
        Some("terminal".to_string()),
        vec![
            example_window(42, None, "Terminal"),
            example_window(7, Some("WindowsTerminal.exe"), "Terminal 2"),
        ],
    );
    let expected = format!(
        "2 windows found matching 'terminal':\n{}\n{}\n{}\n",
        "  HWND                  PID         Process Name                  Window Title",
        format!(
            "  {:<20}  {:>6}      {:<25}     {}",
            "9007199254740993", 42, "<Unknown>", "Terminal"
        ),
        format!(
            "  {:<20}  {:>6}      {:<25}     {}",
            "9007199254740993", 7, "WindowsTerminal.exe", "Terminal 2"
        ),
    );
    assert_eq!(output.table(), expected);
    assert_eq!(output.schema_version, 1);
}

#[test]
fn windows_table_without_query() {
    let output = WindowsOutput::new(None, vec![example_window(1, Some("a.exe"), "A")]);
    assert!(output.table().starts_with("1 windows found:\n"));
}

#[test]
fn empty_window_listing_writes_nothing() {
    let output = WindowsOutput::new(Some("x".to_string()), vec![]);
    let mut bytes = vec![1u8];
    output.write_table(&mut bytes);
    assert_eq!(bytes, vec![1u8]);
}

#[test]
fn capture_report_line() {
    let output = CaptureOutput::new("shot.png".to_string(), 1920, 1080, "png".to_string());
    assert_eq!(
        output.table(),
        "Screenshot saved to 'shot.png' (1920x1080, png).\n"
    );
    let mut bytes = Vec::new();
    write_output(&mut bytes, OutputFormat::Table, &output, b"ignored");
    assert_eq!(bytes, b"Screenshot saved to 'shot.png' (1920x1080, png).\n".to_vec());
}

#[test]
fn json_output_is_framed_with_a_line_break() {
    let output = CaptureOutput::new("shot.png".to_string(), 1, 1, "png".to_string());
    let mut bytes = b"prefix".to_vec();
    write_output(&mut bytes, OutputFormat::Json, &output, b"{\"a\":1}");
    assert_eq!(bytes, b"prefix{\"a\":1}\n".to_vec());
}

#[test]
fn output_format_from_flag() {
    assert_eq!(OutputFormat::from_json(true), OutputFormat::Json);
    assert_eq!(OutputFormat::from_json(false), OutputFormat::Table);
}

#[test]
fn table_is_utf8_of_text() {
    let output = WindowsOutput::new(None, vec![example_window(3, Some("ü.exe"), "Grüße")]);
    let mut bytes = Vec::new();
    output.write_table(&mut bytes);
    assert_eq!(String::from_utf8(bytes).unwrap(), output.table());
    assert!(output.table().contains(&format!("{:<25}", "ü.exe")));
}

#[test]
fn display_listing_from_displays() {
    let info = DisplayInfo {
        handle: 65537,
        rect: Rect {
            left: -1920,
            top: 0,
            right: 0,
            bottom: 1080,
        },
        device_name: r"\\.\DISPLAY2".to_string(),
        display_name: "Side".to_string(),
        frequency: 60,
        is_primary: false,
        hdr_enabled: None,
    };
    let mut second = info.clone();
    second.handle = -3;
    second.is_primary = true;
    let output = displays_output(&vec![info, second]);
    assert_eq!(output.schema_version, 1);
    assert_eq!(output.displays.len(), 2);
    let d = &output.displays[0];
    assert_eq!(d.id, 1);
    assert_eq!(d.hmonitor, "65537");
    assert_eq!(d.resolution.width, 1920);
    assert_eq!(d.resolution.height, 1080);
    assert_eq!(d.position.x, -1920);
    assert_eq!(d.position.y, 0);
    assert_eq!(d.refresh_hz, 60);
    assert_eq!(d.hdr_enabled, None);
    assert_eq!(d.display_name, "Side");
    assert_eq!(output.displays[1].id, 2);
    assert_eq!(output.displays[1].hmonitor, "-3");
    assert!(output.displays[1].primary);
}

#[test]
fn window_listing_row() {
    let window = WindowInfo {
        handle: WindowHandle(9007199254740993),
        title: "Terminal".to_string(),
    };
    let row = window_output(&window, 42, None);
    assert_eq!(row.hwnd, "9007199254740993");
    assert_eq!(row.pid, 42);
    assert_eq!(row.process_name, None);
    assert_eq!(row.title, "Terminal");
}

fn windows_output_json(output: &WindowsOutput) -> Vec<u8> {
    let mut root = serde_json::Map::new();
    root.insert(
        "schema_version".to_string(),
        serde_json::Value::from(output.schema_version),
    );
    root.insert(
        "query".to_string(),
        match &output.query {
            Some(q) => serde_json::Value::String(q.clone()),
            None => serde_json::Value::Null,
        },
    );
    let mut windows = Vec::new();
    for w in &output.windows {
        let mut entry = serde_json::Map::new();
        entry.insert("hwnd".to_string(), serde_json::Value::String(w.hwnd.clone()));
        entry.insert("pid".to_string(), serde_json::Value::from(w.pid));
        entry.insert(
            "process_name".to_string(),
            match &w.process_name {
                Some(n) => serde_json::Value::String(n.clone()),
                None => serde_json::Value::Null,
            },
        );
        entry.insert("title".to_string(), serde_json::Value::String(w.title.clone()));
        windows.push(serde_json::Value::Object(entry));
    }
    root.insert("windows".to_string(), serde_json::Value::Array(windows));
    serde_json::to_vec(&serde_json::Value::Object(root)).unwrap()
}

#[test]
fn windows_output_serializes_handles_as_strings() {
    let output = WindowsOutput::new(
        Some("terminal".to_string()),
        vec![WindowOutput {
            hwnd: "9007199254740993".to_string(),
            pid: 42,
            process_name: None,
            title: "Terminal".to_string(),
        }],
    );
    let mut bytes = Vec::new();

    let json_bytes = windows_output_json(&output);
    write_output(&mut bytes, OutputFormat::Json, &output, &json_bytes);

    assert_eq!(bytes.last(), Some(&b'\n'));
    let json: serde_json::Value = serde_json::from_slice(&bytes).unwrap();
    assert_eq!(json["schema_version"], 1);
    assert_eq!(json["windows"][0]["hwnd"], "9007199254740993");
    assert!(json["windows"][0]["process_name"].is_null());
}
