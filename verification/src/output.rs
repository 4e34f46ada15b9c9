//! The reports of the tool: a table for people, or JSON framed by the caller.

use vstd::prelude::*;
use vstd::string::*;
use vstd::utf8::encode_utf8;

use crate::display_info::DisplayInfo;
use crate::window_query::WindowInfo;
use crate::text::{int_decimal, nat_decimal, pad_left, pad_right, push_i64, push_padded_left, push_padded_right, push_u64};

verus! {

/// How a report is rendered.
#[derive(Copy, Clone, Debug, PartialEq, Eq, Structural)]
pub enum OutputFormat {
    Table,
    Json,
}

impl OutputFormat {
    /// JSON when asked for, a table otherwise.
    pub fn from_json(json: bool) -> (f: Self)
        ensures
            f == (if json {
                OutputFormat::Json
            } else {
                OutputFormat::Table
            }),
    {
        if json {
            Self::Json
        } else {
            Self::Table
        }
    }
}

/// A report that can be rendered as a table.
pub trait TableOutput {
    /// The text of the table.
    spec fn table_text(&self) -> Seq<char>;

    /// The table, as a string.
    fn table(&self) -> (s: String)
        ensures
            s@ == self.table_text(),
    ;

    /// Writes the table, UTF-8 encoded, at the end of `writer`.
    fn write_table(&self, writer: &mut Vec<u8>)
        ensures
            final(writer)@ == old(writer)@ + encode_utf8(self.table_text()),
    ;
}

/// Appends the UTF-8 bytes of `text` to `writer`.
pub fn write_str(writer: &mut Vec<u8>, text: &str)
    ensures
        final(writer)@ == old(writer)@ + encode_utf8(text@),
{
    let bytes = text.as_bytes();
    let ghost before = writer@;
    writer.extend_from_slice(bytes);
    assert(writer@ =~= before + encode_utf8(text@));
}

/// Writes a report: its table, or the JSON serialization `json` of it followed by
/// a line break.
pub fn write_output<T: TableOutput>(
    writer: &mut Vec<u8>,
    format: OutputFormat,
    output: &T,
    json: &[u8],
)
    ensures
        final(writer)@ == match format {
            OutputFormat::Table => old(writer)@ + encode_utf8(output.table_text()),
            OutputFormat::Json => old(writer)@ + json@ + seq![10u8],
        },
{
    match format {
        OutputFormat::Table => output.write_table(writer),
        OutputFormat::Json => {
            let ghost before = writer@;
            writer.extend_from_slice(json);
            writer.push(10u8);
            assert(writer@ =~= before + json@ + seq![10u8]);
        },
    }
}

/// One window of a window listing.
pub struct WindowOutput {
    pub hwnd: String,
    pub pid: u32,
    pub process_name: Option<String>,
    pub title: String,
}

/// The listing row of a window, given the process that owns it and that
/// process's name when it could be found: the handle is written in decimal.
pub fn window_output(window: &WindowInfo, pid: u32, process_name: Option<String>) -> (w: WindowOutput)
    ensures
        w.hwnd@ == int_decimal(window.handle.0 as int),
        w.pid == pid,
        w.process_name == process_name,
        w.title@ == window.title@,
{
    let mut hwnd = String::new();
    push_i64(&mut hwnd, window.handle.0 as i64);
    assert(hwnd@ =~= int_decimal(window.handle.0 as int));
    WindowOutput { hwnd, pid, process_name, title: window.title.clone() }
}

/// A window listing, with the search that produced it.
pub struct WindowsOutput {
    pub schema_version: u32,
    pub query: Option<String>,
    pub windows: Vec<WindowOutput>,
}

/// The process name of a listing row, or a placeholder when it is unknown.
pub open spec fn process_name_text(name: Option<String>) -> Seq<char> {
    match name {
        Some(n) => n@,
        None => "<Unknown>"@,
    }
}

/// One row of the window table.
pub open spec fn window_row(w: WindowOutput) -> Seq<char> {
    "  "@ + pad_right(w.hwnd@, 20) + "  "@ + pad_left(nat_decimal(w.pid as nat), 6) + "      "@
        + pad_right(process_name_text(w.process_name), 25) + "     "@ + w.title@ + "\n"@
}

/// The rows of the window table, in order.
pub open spec fn window_rows(ws: Seq<WindowOutput>) -> Seq<char>
    decreases ws.len(),
{
    if ws.len() == 0 {
        Seq::empty()
    } else {
        window_rows(ws.drop_last()) + window_row(ws.last())
    }
}

/// The heading line of the window table.
pub open spec fn windows_heading(count: nat, query: Option<String>) -> Seq<char> {
    match query {
        Some(q) => nat_decimal(count) + " windows found matching '"@ + q@ + "':\n"@,
        None => nat_decimal(count) + " windows found:\n"@,
    }
}

/// The window table: nothing for an empty listing; otherwise a heading, the
/// column titles and one row per window.
pub open spec fn windows_table(query: Option<String>, ws: Seq<WindowOutput>) -> Seq<char> {
    if ws.len() == 0 {
        Seq::empty()
    } else {
        windows_heading(ws.len(), query)
            + "  HWND                  PID         Process Name                  Window Title\n"@
            + window_rows(ws)
    }
}

fn push_window_row(out: &mut String, w: &WindowOutput)
    ensures
        final(out)@ == old(out)@ + window_row(*w),
{
    out.append("  ");
    push_padded_right(out, w.hwnd.as_str(), 20);
    out.append("  ");
    let mut pid = String::new();
    push_u64(&mut pid, w.pid as u64);
    assert(pid@ =~= nat_decimal(w.pid as nat));
    push_padded_left(out, pid.as_str(), 6);
    out.append("      ");
    match &w.process_name {
        Some(name) => push_padded_right(out, name.as_str(), 25),
        None => push_padded_right(out, "<Unknown>", 25),
    }
    out.append("     ");
    out.append(w.title.as_str());
    out.append("\n");
    assert(out@ =~= old(out)@ + window_row(*w));
}

/// Each row of the window table ends with the window's whole process name (or
/// `<Unknown>`), spaces up to a 25-character column and five more, the title and a
/// line break: the process-name column pads a short name and never cuts a long one.
pub proof fn lemma_window_row_keeps_process_name(w: WindowOutput)
    ensures
        ({
            let name = match w.process_name {
                Some(n) => n@,
                None => seq!['<', 'U', 'n', 'k', 'n', 'o', 'w', 'n', '>'],
            };
            let gap: nat = if name.len() >= 25 {
                5
            } else {
                (30 - name.len()) as nat
            };
            let tail = name + Seq::new(gap, |k: int| ' ') + w.title@ + seq!['\n'];
            &&& window_row(w).len() >= tail.len()
            &&& window_row(w).subrange(window_row(w).len() - tail.len(), window_row(w).len() as int)
                == tail
        }),
{
    reveal_strlit("<Unknown>");
    reveal_strlit("     ");
    reveal_strlit("\n");
    let name = process_name_text(w.process_name);
    assert(name == match w.process_name {
        Some(n) => n@,
        None => seq!['<', 'U', 'n', 'k', 'n', 'o', 'w', 'n', '>'],
    });
    let gap: nat = if name.len() >= 25 {
        5
    } else {
        (30 - name.len()) as nat
    };
    let tail = name + Seq::new(gap, |k: int| ' ') + w.title@ + seq!['\n'];
    let head = "  "@ + pad_right(w.hwnd@, 20) + "  "@ + pad_left(nat_decimal(w.pid as nat), 6)
        + "      "@;
    assert(pad_right(name, 25) + "     "@ =~= name + Seq::new(gap, |k: int| ' '));
    assert(window_row(w) =~= head + tail);
    assert(window_row(w).subrange(window_row(w).len() - tail.len(), window_row(w).len() as int)
        =~= tail);
}

impl WindowsOutput {
    /// A listing of `windows`, found with the search `query` when there was one.
    pub fn new(query: Option<String>, windows: Vec<WindowOutput>) -> (o: Self)
        ensures
            o.schema_version == 1,
            o.query == query,
            o.windows == windows,
    {
        Self { schema_version: 1, query, windows }
    }
}

impl TableOutput for WindowsOutput {
    open spec fn table_text(&self) -> Seq<char> {
        windows_table(self.query, self.windows@)
    }

    fn table(&self) -> (s: String) {
        let mut out = String::new();
        let n = self.windows.len();
        if n == 0 {
            return out;
        }
        push_u64(&mut out, n as u64);
        match &self.query {
            Some(query) => {
                out.append(" windows found matching '");
                out.append(query.as_str());
                out.append("':\n");
            },
            None => {
                out.append(" windows found:\n");
            },
        }
        out.append("  HWND                  PID         Process Name                  Window Title\n");
        let ghost head = out@;
        assert(head =~= windows_heading(n as nat, self.query)
            + "  HWND                  PID         Process Name                  Window Title\n"@);
        let mut i: usize = 0;
        assert(self.windows@.take(0) =~= Seq::<WindowOutput>::empty());
        while i < n
            invariant
                n == self.windows@.len(),
                i <= n,
                out@ == head + window_rows(self.windows@.take(i as int)),
            decreases n - i,
        {
            push_window_row(&mut out, &self.windows[i]);
            proof {
                assert(self.windows@.take(i + 1).drop_last() =~= self.windows@.take(i as int));
            }
            i = i + 1;
            assert(out@ =~= head + window_rows(self.windows@.take(i as int)));
        }
        assert(self.windows@.take(n as int) =~= self.windows@);
        out
    }

    fn write_table(&self, writer: &mut Vec<u8>) {
        let text = self.table();
        write_str(writer, text.as_str());
    }
}

/// The size of a display in pixels.
pub struct ResolutionOutput {
    pub width: i32,
    pub height: i32,
}

/// The position of a display's top-left corner.
pub struct PositionOutput {
    pub x: i32,
    pub y: i32,
}

/// One display of a display listing.
pub struct DisplayOutput {
    pub id: usize,
    pub hmonitor: String,
    pub primary: bool,
    pub resolution: ResolutionOutput,
    pub position: PositionOutput,
    pub refresh_hz: u32,
    pub hdr_enabled: Option<bool>,
    pub device_name: String,
    pub display_name: String,
}

/// `d` lists display `info` at position `index` of the listing: numbered from 1,
/// its handle in decimal, its size and position taken from its rectangle (the
/// size wrapping into `i32` as the subtraction does), and the rest as described.
pub open spec fn lists_display(d: DisplayOutput, index: int, info: DisplayInfo) -> bool {
    &&& d.id == index + 1
    &&& d.hmonitor@ == int_decimal(info.handle as int)
    &&& d.primary == info.is_primary
    &&& d.resolution.width == ((info.rect.right - info.rect.left) as i32)
    &&& d.resolution.height == ((info.rect.bottom - info.rect.top) as i32)
    &&& d.position.x == info.rect.left
    &&& d.position.y == info.rect.top
    &&& d.refresh_hz == info.frequency
    &&& d.hdr_enabled == info.hdr_enabled
    &&& d.device_name@ == info.device_name@
    &&& d.display_name@ == info.display_name@
}

fn display_output(index: usize, info: &DisplayInfo) -> (d: DisplayOutput)
    requires
        index < usize::MAX,
    ensures
        lists_display(d, index as int, *info),
{
    let mut hmonitor = String::new();
    push_i64(&mut hmonitor, info.handle as i64);
    assert(hmonitor@ =~= int_decimal(info.handle as int));
    let width: i64 = (info.rect.right as i64) - (info.rect.left as i64);
    let height: i64 = (info.rect.bottom as i64) - (info.rect.top as i64);
    DisplayOutput {
        id: index + 1,
        hmonitor,
        primary: info.is_primary,
        resolution: ResolutionOutput { width: width as i32, height: height as i32 },
        position: PositionOutput { x: info.rect.left, y: info.rect.top },
        refresh_hz: info.frequency,
        hdr_enabled: info.hdr_enabled,
        device_name: info.device_name.clone(),
        display_name: info.display_name.clone(),
    }
}

/// The listing of displays, in order.
pub fn displays_output(displays: &Vec<DisplayInfo>) -> (o: DisplaysOutput)
    ensures
        o.schema_version == 1,
        o.displays@.len() == displays@.len(),
        forall|i: int|
            0 <= i < displays@.len() ==> lists_display(#[trigger] o.displays@[i], i, displays@[i]),
{
    let n = displays.len();
    let mut rows: Vec<DisplayOutput> = Vec::new();
    let mut i: usize = 0;
    while i < n
        invariant
            n == displays@.len(),
            i <= n,
            rows@.len() == i,
            forall|j: int| 0 <= j < i ==> lists_display(#[trigger] rows@[j], j, displays@[j]),
        decreases n - i,
    {
        rows.push(display_output(i, &displays[i]));
        i = i + 1;
    }
    DisplaysOutput::new(rows)
}

/// A listed display's size is that of its rectangle (right minus left, bottom
/// minus top, wherever they fit in `i32`) and its position is the rectangle's
/// top-left corner.
pub proof fn lemma_listed_resolution_is_rect_size(d: DisplayOutput, index: int, info: DisplayInfo)
    requires
        lists_display(d, index, info),
        i32::MIN <= info.rect.right - info.rect.left <= i32::MAX,
        i32::MIN <= info.rect.bottom - info.rect.top <= i32::MAX,
    ensures
        d.resolution.width == info.rect.right - info.rect.left,
        d.resolution.height == info.rect.bottom - info.rect.top,
        d.position.x == info.rect.left,
        d.position.y == info.rect.top,
{
}

/// Moving a display's rectangle (the same offset added to its left and right
/// edges, and another to its top and bottom edges) leaves its listed resolution
/// as it was.
pub proof fn lemma_listed_resolution_ignores_position(
    d1: DisplayOutput,
    index1: int,
    info1: DisplayInfo,
    d2: DisplayOutput,
    index2: int,
    info2: DisplayInfo,
    dx: int,
    dy: int,
)
    requires
        lists_display(d1, index1, info1),
        lists_display(d2, index2, info2),
        info2.rect.left == info1.rect.left + dx,
        info2.rect.right == info1.rect.right + dx,
        info2.rect.top == info1.rect.top + dy,
        info2.rect.bottom == info1.rect.bottom + dy,
    ensures
        d2.resolution.width == d1.resolution.width,
        d2.resolution.height == d1.resolution.height,
{
    assert(info2.rect.right - info2.rect.left == info1.rect.right - info1.rect.left);
    assert(info2.rect.bottom - info2.rect.top == info1.rect.bottom - info1.rect.top);
}

/// A display listing.
pub struct DisplaysOutput {
    pub schema_version: u32,
    pub displays: Vec<DisplayOutput>,
}

pub open spec fn yes_no(b: bool) -> Seq<char> {
    if b {
        "Yes"@
    } else {
        "No"@
    }
}

pub open spec fn hdr_text(hdr: Option<bool>) -> Seq<char> {
    match hdr {
        Some(true) => "Yes"@,
        Some(false) => "No"@,
        None => "Unknown"@,
    }
}

/// A resolution written as `WIDTHxHEIGHT`.
pub open spec fn resolution_text(r: ResolutionOutput) -> Seq<char> {
    int_decimal(r.width as int) + "x"@ + int_decimal(r.height as int)
}

/// A position written as `(X, Y)`.
pub open spec fn position_text(p: PositionOutput) -> Seq<char> {
    "("@ + int_decimal(p.x as int) + ", "@ + int_decimal(p.y as int) + ")"@
}

/// The id, handle and primary columns of a display row.
pub open spec fn display_row_head(d: DisplayOutput) -> Seq<char> {
    "  "@ + pad_left(nat_decimal(d.id as nat), 2) + "  "@ + pad_right(d.hmonitor@, 20) + "  "@
        + pad_right(yes_no(d.primary), 7) + "  "@
}

/// The resolution, position and refresh columns of a display row.
pub open spec fn display_row_middle(d: DisplayOutput) -> Seq<char> {
    pad_right(resolution_text(d.resolution), 12) + "  "@ + pad_right(position_text(d.position), 16)
        + "  "@ + pad_left(nat_decimal(d.refresh_hz as nat), 3) + " Hz  "@
}

/// The HDR, device and name columns of a display row, and the line break.
pub open spec fn display_row_tail(d: DisplayOutput) -> Seq<char> {
    pad_right(hdr_text(d.hdr_enabled), 7) + "  "@ + pad_right(d.device_name@, 14) + "  "@
        + d.display_name@ + "\n"@
}

/// One row of the display table.
pub open spec fn display_row(d: DisplayOutput) -> Seq<char> {
    display_row_head(d) + display_row_middle(d) + display_row_tail(d)
}

/// The HDR column of a display row, seven characters wide, reads `Yes` for a
/// display with HDR on, `No` for one with HDR off and `Unknown` when the state is
/// not known.
pub proof fn lemma_display_row_hdr_column(d: DisplayOutput)
    ensures
        ({
            let column = match d.hdr_enabled {
                Some(true) => seq!['Y', 'e', 's', ' ', ' ', ' ', ' '],
                Some(false) => seq!['N', 'o', ' ', ' ', ' ', ' ', ' '],
                None => seq!['U', 'n', 'k', 'n', 'o', 'w', 'n'],
            };
            let start: int = (display_row_head(d).len() + display_row_middle(d).len()) as int;
            &&& display_row_tail(d).len() >= 7
            &&& display_row_tail(d).take(7) == column
            &&& display_row(d).len() >= start + 7
            &&& display_row(d).subrange(start, start + 7) == column
        }),
{
    reveal_strlit("Yes");
    reveal_strlit("No");
    reveal_strlit("Unknown");
    let column = match d.hdr_enabled {
        Some(true) => seq!['Y', 'e', 's', ' ', ' ', ' ', ' '],
        Some(false) => seq!['N', 'o', ' ', ' ', ' ', ' ', ' '],
        None => seq!['U', 'n', 'k', 'n', 'o', 'w', 'n'],
    };
    assert(pad_right(hdr_text(d.hdr_enabled), 7) =~= column);
    let rest = "  "@ + pad_right(d.device_name@, 14) + "  "@ + d.display_name@ + "\n"@;
    assert(display_row_tail(d) =~= column + rest);
    assert(display_row_tail(d).take(7) =~= column);
    let start: int = (display_row_head(d).len() + display_row_middle(d).len()) as int;
    assert(display_row(d) =~= display_row_head(d) + display_row_middle(d) + column + rest);
    assert(display_row(d).subrange(start, start + 7) =~= column);
}

/// The rows of the display table, in order.
pub open spec fn display_rows(ds: Seq<DisplayOutput>) -> Seq<char>
    decreases ds.len(),
{
    if ds.len() == 0 {
        Seq::empty()
    } else {
        display_rows(ds.drop_last()) + display_row(ds.last())
    }
}

/// The display table: a heading, the column titles and one row per display.
pub open spec fn displays_table(ds: Seq<DisplayOutput>) -> Seq<char> {
    nat_decimal(ds.len()) + " displays found:\n"@
        + "  ID  HMONITOR              Primary  Resolution    Position          Refresh  HDR      Device          Display Name\n"@
        + display_rows(ds)
}

fn push_display_row_head(out: &mut String, d: &DisplayOutput)
    ensures
        final(out)@ == old(out)@ + display_row_head(*d),
{
    let mut id = String::new();
    push_u64(&mut id, d.id as u64);
    assert(id@ =~= nat_decimal(d.id as nat));
    let primary = if d.primary {
        "Yes"
    } else {
        "No"
    };
    out.append("  ");
    push_padded_left(out, id.as_str(), 2);
    out.append("  ");
    push_padded_right(out, d.hmonitor.as_str(), 20);
    out.append("  ");
    push_padded_right(out, primary, 7);
    out.append("  ");
    assert(out@ =~= old(out)@ + display_row_head(*d));
}

fn push_display_row_middle(out: &mut String, d: &DisplayOutput)
    ensures
        final(out)@ == old(out)@ + display_row_middle(*d),
{
    let mut resolution = String::new();
    push_i64(&mut resolution, d.resolution.width as i64);
    resolution.append("x");
    push_i64(&mut resolution, d.resolution.height as i64);
    assert(resolution@ =~= resolution_text(d.resolution));
    let mut position = String::new();
    position.append("(");
    push_i64(&mut position, d.position.x as i64);
    position.append(", ");
    push_i64(&mut position, d.position.y as i64);
    position.append(")");
    assert(position@ =~= position_text(d.position));
    let mut refresh = String::new();
    push_u64(&mut refresh, d.refresh_hz as u64);
    assert(refresh@ =~= nat_decimal(d.refresh_hz as nat));
    push_padded_right(out, resolution.as_str(), 12);
    out.append("  ");
    push_padded_right(out, position.as_str(), 16);
    out.append("  ");
    push_padded_left(out, refresh.as_str(), 3);
    out.append(" Hz  ");
    assert(out@ =~= old(out)@ + display_row_middle(*d));
}

fn push_display_row_tail(out: &mut String, d: &DisplayOutput)
    ensures
        final(out)@ == old(out)@ + display_row_tail(*d),
{
    let hdr = match d.hdr_enabled {
        Some(true) => "Yes",
        Some(false) => "No",
        None => "Unknown",
    };
    push_padded_right(out, hdr, 7);
    out.append("  ");
    push_padded_right(out, d.device_name.as_str(), 14);
    out.append("  ");
    out.append(d.display_name.as_str());
    out.append("\n");
    assert(out@ =~= old(out)@ + display_row_tail(*d));
}

fn push_display_row(out: &mut String, d: &DisplayOutput)
    ensures
        final(out)@ == old(out)@ + display_row(*d),
{
    push_display_row_head(out, d);
    push_display_row_middle(out, d);
    push_display_row_tail(out, d);
    assert(out@ =~= old(out)@ + display_row(*d));
}

impl DisplaysOutput {
    /// A listing of `displays`.
    pub fn new(displays: Vec<DisplayOutput>) -> (o: Self)
        ensures
            o.schema_version == 1,
            o.displays == displays,
    {
        Self { schema_version: 1, displays }
    }
}

impl TableOutput for DisplaysOutput {
    open spec fn table_text(&self) -> Seq<char> {
        displays_table(self.displays@)
    }

    fn table(&self) -> (s: String) {
        let mut out = String::new();
        let n = self.displays.len();
        push_u64(&mut out, n as u64);
        out.append(" displays found:\n");
        out.append(
            "  ID  HMONITOR              Primary  Resolution    Position          Refresh  HDR      Device          Display Name\n",
        );
        let ghost head = out@;
        let mut i: usize = 0;
        assert(self.displays@.take(0) =~= Seq::<DisplayOutput>::empty());
        while i < n
            invariant
                n == self.displays@.len(),
                i <= n,
                out@ == head + display_rows(self.displays@.take(i as int)),
            decreases n - i,
        {
            push_display_row(&mut out, &self.displays[i]);
            proof {
                assert(self.displays@.take(i + 1).drop_last() =~= self.displays@.take(i as int));
            }
            i = i + 1;
            assert(out@ =~= head + display_rows(self.displays@.take(i as int)));
        }
        assert(self.displays@.take(n as int) =~= self.displays@);
        assert(out@ =~= displays_table(self.displays@));
        out
    }

    fn write_table(&self, writer: &mut Vec<u8>) {
        let text = self.table();
        write_str(writer, text.as_str());
    }
}

/// The result of a capture: the file written, its size and its format.
pub struct CaptureOutput {
    pub schema_version: u32,
    pub output: String,
    pub width: u32,
    pub height: u32,
    pub format: String,
}

/// The capture report: one line.
pub open spec fn capture_line(output: Seq<char>, width: u32, height: u32, format: Seq<char>) -> Seq<
    char,
> {
    "Screenshot saved to '"@ + output + "' ("@ + nat_decimal(width as nat) + "x"@ + nat_decimal(
        height as nat,
    ) + ", "@ + format + ")."@ + "\n"@
}

impl CaptureOutput {
    /// The report of a capture.
    pub fn new(output: String, width: u32, height: u32, format: String) -> (o: Self)
        ensures
            o.schema_version == 1,
            o.output == output,
            o.width == width,
            o.height == height,
            o.format == format,
    {
        Self { schema_version: 1, output, width, height, format }
    }
}

impl TableOutput for CaptureOutput {
    open spec fn table_text(&self) -> Seq<char> {
        capture_line(self.output@, self.width, self.height, self.format@)
    }

    fn table(&self) -> (s: String) {
        let mut out = String::new();
        out.append("Screenshot saved to '");
        out.append(self.output.as_str());
        out.append("' (");
        push_u64(&mut out, self.width as u64);
        out.append("x");
        push_u64(&mut out, self.height as u64);
        out.append(", ");
        out.append(self.format.as_str());
        out.append(").");
        out.append("\n");
        assert(out@ =~= capture_line(self.output@, self.width, self.height, self.format@));
        out
    }

    fn write_table(&self, writer: &mut Vec<u8>) {
        let text = self.table();
        write_str(writer, text.as_str());
    }
}

} // verus!
