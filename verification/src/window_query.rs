//! Window search by title and the report of a search.

use vstd::prelude::*;
use vstd::string::*;
use vstd::utf8::is_ascii_chars;

use crate::cli::WindowHandle;
use crate::output::process_name_text;
use crate::text::{
    contains_seq, nat_decimal, pad_left, pad_right, push_padded_left, push_padded_right, push_u64,
    str_contains, str_eq,
};

verus! {

/// A top-level window: its handle and its title.
pub struct WindowInfo {
    pub handle: WindowHandle,
    pub title: String,
}

impl View for WindowInfo {
    type V = (WindowHandle, Seq<char>);

    open spec fn view(&self) -> (WindowHandle, Seq<char>) {
        (self.handle, self.title@)
    }
}

impl Clone for WindowInfo {
    fn clone(&self) -> (r: Self)
        ensures
            r@ == self@,
    {
        WindowInfo { handle: self.handle, title: self.title.clone() }
    }
}

/// The handles and titles of a list of windows.
pub open spec fn window_views(ws: Seq<WindowInfo>) -> Seq<(WindowHandle, Seq<char>)> {
    ws.map_values(|w: WindowInfo| w@)
}

/// The lower-case form of a text, as `str::to_lowercase` gives it.
pub uninterp spec fn lowercase(s: Seq<char>) -> Seq<char>;

/// The lower-case form of an ASCII character: `A` to `Z` become `a` to `z`.
pub open spec fn ascii_lower_char(c: char) -> char {
    if 'A' <= c <= 'Z' {
        ((c as int) + 32) as char
    } else {
        c
    }
}

/// The upper-case form of an ASCII character: `a` to `z` become `A` to `Z`.
pub open spec fn ascii_upper_char(c: char) -> char {
    if 'a' <= c <= 'z' {
        ((c as int) - 32) as char
    } else {
        c
    }
}

/// Each letter of an ASCII text in lower case.
pub open spec fn ascii_lowercase(s: Seq<char>) -> Seq<char> {
    s.map_values(|c: char| ascii_lower_char(c))
}

/// Each letter of an ASCII text in upper case (`str::to_ascii_uppercase`).
pub open spec fn ascii_uppercase(s: Seq<char>) -> Seq<char> {
    s.map_values(|c: char| ascii_upper_char(c))
}

/// `str::to_lowercase`: the string whose characters are the Unicode lower-case
/// mappings of those of `s`. The result is taken to depend on `s` alone; the
/// mapping itself is stated only where the documentation makes it plain: the
/// empty text stays empty, and an ASCII text has its letters `A` to `Z` made
/// lower case and its other characters kept.
#[verifier::external_body]
fn to_lowercase(s: &str) -> (r: String)
    ensures
        r@ == lowercase(s@),
        s@.len() == 0 ==> r@.len() == 0,
        is_ascii_chars(s@) ==> r@ == ascii_lowercase(s@),
{
    s.to_lowercase()
}

/// A window matches a search when its lower-cased title contains the lower-cased query.
pub open spec fn search_matches(title: Seq<char>, query: Seq<char>) -> bool {
    contains_seq(lowercase(title), lowercase(query))
}

pub open spec fn search_pred(query: Seq<char>) -> spec_fn((WindowHandle, Seq<char>)) -> bool {
    |w: (WindowHandle, Seq<char>)| search_matches(w.1, query)
}

/// The search predicate for an ASCII query: the lower-cased title contains the
/// query with its letters made lower case.
pub open spec fn ascii_search_pred(query: Seq<char>) -> spec_fn((WindowHandle, Seq<char>)) -> bool {
    |w: (WindowHandle, Seq<char>)| contains_seq(lowercase(w.1), ascii_lowercase(query))
}

pub open spec fn exact_pred(query: Seq<char>) -> spec_fn((WindowHandle, Seq<char>)) -> bool {
    |w: (WindowHandle, Seq<char>)| w.1 == query
}

/// Whether a title, already lower-cased, contains a query, already lower-cased.
pub fn lowercased_title_matches(lowercase_title: &str, lowercase_query: &str) -> (b: bool)
    ensures
        b == contains_seq(lowercase_title@, lowercase_query@),
{
    str_contains(lowercase_title, lowercase_query)
}

proof fn lemma_filter_step(
    ws: Seq<(WindowHandle, Seq<char>)>,
    i: int,
    pred: spec_fn((WindowHandle, Seq<char>)) -> bool,
)
    requires
        0 <= i < ws.len(),
    ensures
        ws.take(i + 1).filter(pred) == if pred(ws[i]) {
            ws.take(i).filter(pred).push(ws[i])
        } else {
            ws.take(i).filter(pred)
        },
{
    reveal_with_fuel(Seq::<_>::filter, 1);
    assert(ws.take(i + 1).drop_last() =~= ws.take(i));
}

proof fn lemma_filter_keeps_all(
    s: Seq<(WindowHandle, Seq<char>)>,
    pred: spec_fn((WindowHandle, Seq<char>)) -> bool,
)
    requires
        forall|i: int| 0 <= i < s.len() ==> pred(s[i]),
    ensures
        s.filter(pred) == s,
    decreases s.len(),
{
    reveal_with_fuel(Seq::<_>::filter, 1);
    if s.len() > 0 {
        lemma_filter_keeps_all(s.drop_last(), pred);
        assert(s.drop_last().push(s.last()) =~= s);
    }
}

/// The windows whose titles contain `window_name`, case-insensitively, in the
/// order of the list.
pub fn find_window(window_list: &Vec<WindowInfo>, window_name: &str) -> (windows: Vec<WindowInfo>)
    ensures
        window_views(windows@) == window_views(window_list@).filter(search_pred(window_name@)),
        window_name@.len() == 0 ==> window_views(windows@) == window_views(window_list@),
        is_ascii_chars(window_name@) ==> window_views(windows@) == window_views(window_list@).filter(
            ascii_search_pred(window_name@),
        ),
{
    let lowercase_query = to_lowercase(window_name);
    proof {
        if window_name@.len() == 0 {
            let all = window_views(window_list@);
            assert forall|i: int| 0 <= i < all.len() implies search_pred(window_name@)(
                all[i],
            ) by {
                let h = lowercase(all[i].1);
                assert(h.subrange(0int, 0int + lowercase(window_name@).len()) =~= lowercase(
                    window_name@,
                ));
            }
            lemma_filter_keeps_all(all, search_pred(window_name@));
        }
        if is_ascii_chars(window_name@) {
            assert(search_pred(window_name@) =~= ascii_search_pred(window_name@));
        }
    }
    let n = window_list.len();
    let mut windows: Vec<WindowInfo> = Vec::new();
    let ghost all = window_views(window_list@);
    let mut i: usize = 0;
    proof {
        reveal_with_fuel(Seq::<_>::filter, 1);
        assert(all.take(0) =~= Seq::<(WindowHandle, Seq<char>)>::empty());
        assert(window_views(windows@) =~= Seq::<(WindowHandle, Seq<char>)>::empty());
    }
    while i < n
        invariant
            n == window_list@.len(),
            i <= n,
            all == window_views(window_list@),
            lowercase_query@ == lowercase(window_name@),
            window_views(windows@) == all.take(i as int).filter(search_pred(window_name@)),
        decreases n - i,
    {
        let window_info = &window_list[i];
        let lowercase_title = to_lowercase(window_info.title.as_str());
        proof {
            lemma_filter_step(all, i as int, search_pred(window_name@));
        }
        if lowercased_title_matches(lowercase_title.as_str(), lowercase_query.as_str()) {
            let ghost before = windows@;
            windows.push(window_info.clone());
            assert(window_views(windows@) =~= window_views(before).push(all[i as int]));
        }
        i = i + 1;
    }
    assert(all.take(n as int) =~= all);
    windows
}

/// The windows whose titles are exactly `window_name`, in the order of the list.
pub fn find_exact_window(window_list: &Vec<WindowInfo>, window_name: &str) -> (windows: Vec<
    WindowInfo,
>)
    ensures
        window_views(windows@) == window_views(window_list@).filter(exact_pred(window_name@)),
{
    let n = window_list.len();
    let mut windows: Vec<WindowInfo> = Vec::new();
    let ghost all = window_views(window_list@);
    let mut i: usize = 0;
    proof {
        reveal_with_fuel(Seq::<_>::filter, 1);
        assert(all.take(0) =~= Seq::<(WindowHandle, Seq<char>)>::empty());
        assert(window_views(windows@) =~= Seq::<(WindowHandle, Seq<char>)>::empty());
    }
    while i < n
        invariant
            n == window_list@.len(),
            i <= n,
            all == window_views(window_list@),
            window_views(windows@) == all.take(i as int).filter(exact_pred(window_name@)),
        decreases n - i,
    {
        let window_info = &window_list[i];
        proof {
            lemma_filter_step(all, i as int, exact_pred(window_name@));
        }
        if str_eq(window_info.title.as_str(), window_name) {
            let ghost before = windows@;
            windows.push(window_info.clone());
            assert(window_views(windows@) =~= window_views(before).push(all[i as int]));
        }
        i = i + 1;
    }
    assert(all.take(n as int) =~= all);
    windows
}

/// A title that is exactly the query is also found by the case-insensitive search.
pub proof fn lemma_exact_title_is_search_match(title: Seq<char>, query: Seq<char>)
    requires
        title == query,
    ensures
        search_matches(title, query),
{
    let t = lowercase(title);
    let q = lowercase(query);
    assert(t.subrange(0int, 0int + q.len()) =~= q);
}

/// The exact search gives the case-insensitive search's results, in their order,
/// with those whose title is not exactly the query left out.
pub proof fn lemma_exact_results_refine_search_results(
    ws: Seq<(WindowHandle, Seq<char>)>,
    query: Seq<char>,
)
    ensures
        ws.filter(exact_pred(query)) == ws.filter(search_pred(query)).filter(exact_pred(query)),
    decreases ws.len(),
{
    reveal_with_fuel(Seq::<_>::filter, 1);
    if ws.len() > 0 {
        let x = ws.last();
        lemma_exact_results_refine_search_results(ws.drop_last(), query);
        let below = ws.drop_last().filter(search_pred(query));
        if search_pred(query)(x) {
            assert(below.push(x).drop_last() =~= below);
        } else if exact_pred(query)(x) {
            lemma_exact_title_is_search_match(x.1, query);
        }
    }
}

proof fn lemma_ascii_lower_of_upper(q: Seq<char>)
    requires
        is_ascii_chars(q),
    ensures
        is_ascii_chars(ascii_uppercase(q)),
        ascii_lowercase(ascii_uppercase(q)) == ascii_lowercase(q),
{
    let u = ascii_uppercase(q);
    assert forall|i: int| 0 <= i < u.len() implies '\0' <= #[trigger] u[i] <= '\u{7f}' by {
        assert('\0' <= q[i] <= '\u{7f}');
    }
    assert forall|i: int| 0 <= i < q.len() implies ascii_lowercase(u)[i] == ascii_lowercase(q)[i] by {
        let c = q[i];
        if 'a' <= c <= 'z' {
            assert(u[i] == ((c as int) - 32) as char);
            assert(('A' <= u[i] <= 'Z'));
            assert(((u[i] as int) + 32) as char == c);
        } else if 'A' <= c <= 'Z' {
            assert(u[i] == c);
        } else {
            assert(u[i] == c);
        }
    }
    assert(ascii_lowercase(u) =~= ascii_lowercase(q));
}

/// For an ASCII query the case of its letters does not matter: the query and its
/// upper-case form select the same windows (through the ensures of `find_window`,
/// which for ASCII queries reads through `ascii_search_pred`).
pub proof fn lemma_ascii_query_case_does_not_matter(query: Seq<char>)
    requires
        is_ascii_chars(query),
    ensures
        is_ascii_chars(ascii_uppercase(query)),
        ascii_search_pred(ascii_uppercase(query)) == ascii_search_pred(query),
{
    lemma_ascii_lower_of_upper(query);
    assert(ascii_search_pred(ascii_uppercase(query)) =~= ascii_search_pred(query));
}

/// Every window that the exact search finds, the case-insensitive search finds too.
pub proof fn lemma_exact_results_within_search_results(
    ws: Seq<(WindowHandle, Seq<char>)>,
    query: Seq<char>,
    w: (WindowHandle, Seq<char>),
)
    requires
        ws.filter(exact_pred(query)).contains(w),
    ensures
        ws.filter(search_pred(query)).contains(w),
{
    broadcast use vstd::seq_lib::group_filter_ensures;

    ws.lemma_filter_contains_rev(exact_pred(query), w);
    let i = choose|i: int| 0 <= i < ws.len() && ws[i] == w;
    let k = choose|k: int| 0 <= k < ws.filter(exact_pred(query)).len() && ws.filter(exact_pred(query))[k] == w;
    assert(exact_pred(query)(ws.filter(exact_pred(query))[k]));
    lemma_exact_title_is_search_match(w.1, query);
    ws.lemma_filter_contains(search_pred(query), i);
}

/// One window of a search report: the process that owns it, that process's
/// name when it could be found, and the window's title.
pub struct WindowQueryRow {
    pub pid: u32,
    pub process_name: Option<String>,
    pub title: String,
}

/// One row of a search report.
pub open spec fn query_row(row: WindowQueryRow) -> Seq<char> {
    "  "@ + pad_left(nat_decimal(row.pid as nat), 6) + "      "@ + pad_right(
        process_name_text(row.process_name),
        25,
    ) + "     "@ + row.title@ + "\n"@
}

/// Each row of a search report ends with the window's whole process name (or
/// `<Unknown>`), spaces up to a 25-character column and five more, the title and a
/// line break: the process-name column pads a short name and never cuts a long one.
pub proof fn lemma_query_row_keeps_process_name(row: WindowQueryRow)
    ensures
        ({
            let name = match row.process_name {
                Some(n) => n@,
                None => seq!['<', 'U', 'n', 'k', 'n', 'o', 'w', 'n', '>'],
            };
            let gap: nat = if name.len() >= 25 {
                5
            } else {
                (30 - name.len()) as nat
            };
            let tail = name + Seq::new(gap, |k: int| ' ') + row.title@ + seq!['\n'];
            &&& query_row(row).len() >= tail.len()
            &&& query_row(row).subrange(query_row(row).len() - tail.len(), query_row(row).len() as int)
                == tail
        }),
{
    reveal_strlit("<Unknown>");
    reveal_strlit("     ");
    reveal_strlit("\n");
    let name = process_name_text(row.process_name);
    assert(name == match row.process_name {
        Some(n) => n@,
        None => seq!['<', 'U', 'n', 'k', 'n', 'o', 'w', 'n', '>'],
    });
    let gap: nat = if name.len() >= 25 {
        5
    } else {
        (30 - name.len()) as nat
    };
    let tail = name + Seq::new(gap, |k: int| ' ') + row.title@ + seq!['\n'];
    let head = "  "@ + pad_left(nat_decimal(row.pid as nat), 6) + "      "@;
    assert(pad_right(name, 25) + "     "@ =~= name + Seq::new(gap, |k: int| ' '));
    assert(query_row(row) =~= head + tail);
    assert(query_row(row).subrange(query_row(row).len() - tail.len(), query_row(row).len() as int)
        =~= tail);
}

/// The rows of a search report, in order.
pub open spec fn query_rows(rows: Seq<WindowQueryRow>) -> Seq<char>
    decreases rows.len(),
{
    if rows.len() == 0 {
        Seq::empty()
    } else {
        query_rows(rows.drop_last()) + query_row(rows.last())
    }
}

/// The report of a search: a refusal when nothing matched; otherwise a heading,
/// the column titles and one row per window.
pub open spec fn window_query_text(query: Seq<char>, rows: Seq<WindowQueryRow>) -> Result<
    Seq<char>,
    Seq<char>,
> {
    if rows.len() == 0 {
        Err("No window matching '"@ + query + "' found!"@)
    } else {
        Ok(
            nat_decimal(rows.len()) + " windows found matching '"@ + query + "':\n"@
                + "  PID         Process Name                  Window Title\n"@ + query_rows(rows),
        )
    }
}

fn push_query_row(out: &mut String, row: &WindowQueryRow)
    ensures
        final(out)@ == old(out)@ + query_row(*row),
{
    let mut pid = String::new();
    push_u64(&mut pid, row.pid as u64);
    assert(pid@ =~= nat_decimal(row.pid as nat));
    out.append("  ");
    push_padded_left(out, pid.as_str(), 6);
    out.append("      ");
    match &row.process_name {
        Some(name) => push_padded_right(out, name.as_str(), 25),
        None => push_padded_right(out, "<Unknown>", 25),
    }
    out.append("     ");
    out.append(row.title.as_str());
    out.append("\n");
    assert(out@ =~= old(out)@ + query_row(*row));
}

/// The report of a window search for `query`; `Err` holds the refusal to print
/// when no window matched.
pub fn window_query_report(query: &str, rows: &Vec<WindowQueryRow>) -> (r: Result<String, String>)
    ensures
        match window_query_text(query@, rows@) {
            Ok(text) => r matches Ok(s) && s@ == text,
            Err(text) => r matches Err(s) && s@ == text,
        },
{
    let n = rows.len();
    if n == 0 {
        let mut m = String::from_str("No window matching '");
        m.append(query);
        m.append("' found!");
        return Err(m);
    }
    let mut out = String::new();
    push_u64(&mut out, n as u64);
    out.append(" windows found matching '");
    out.append(query);
    out.append("':\n");
    out.append("  PID         Process Name                  Window Title\n");
    let ghost head = out@;
    let mut i: usize = 0;
    assert(rows@.take(0) =~= Seq::<WindowQueryRow>::empty());
    while i < n
        invariant
            n == rows@.len(),
            i <= n,
            out@ == head + query_rows(rows@.take(i as int)),
        decreases n - i,
    {
        push_query_row(&mut out, &rows[i]);
        proof {
            assert(rows@.take(i + 1).drop_last() =~= rows@.take(i as int));
        }
        i = i + 1;
        assert(out@ =~= head + query_rows(rows@.take(i as int)));
    }
    assert(rows@.take(n as int) =~= rows@);
    Ok(out)
}

} // verus!
