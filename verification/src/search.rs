//! Content search with ripgrep: reading its JSON output into results, the
//! search panel's state, and the context lines shown around a result.
use vstd::prelude::*;
use crate::text::{
    chars_of, clear_string, decimal, decimal_right_aligned, lines, lines_of, pop_char, push_char,
    space_pad, string_of, views,
};

verus! {

/// A single ripgrep search result.
#[derive(Debug, Clone)]
pub struct SearchResult {
    pub file_path: String,
    pub line_number: usize,
    pub column: usize,
    pub matched_text: String,
    pub line_text: String,
}

/// A search result as values.
pub struct SearchResultView {
    pub file_path: Seq<char>,
    pub line_number: usize,
    pub column: usize,
    pub matched_text: Seq<char>,
    pub line_text: Seq<char>,
}

impl View for SearchResult {
    type V = SearchResultView;

    open spec fn view(&self) -> SearchResultView {
        SearchResultView {
            file_path: self.file_path@,
            line_number: self.line_number,
            column: self.column,
            matched_text: self.matched_text@,
            line_text: self.line_text@,
        }
    }
}

/// One submatch of a ripgrep record: its `match.text` and `start`, where present.
pub struct RgSubmatch {
    pub text: Option<String>,
    pub start: Option<u64>,
}

/// A submatch as values.
pub struct RgSubmatchView {
    pub text: Option<Seq<char>>,
    pub start: Option<u64>,
}

/// The fields of a ripgrep record that a result takes: `data.path.text`,
/// `data.line_number` and `data.lines.text`, where present.
pub struct RgLineFields {
    pub path_text: Option<String>,
    pub line_number: Option<u64>,
    pub line_text: Option<String>,
}

/// The fields of a record as values.
pub struct RgLineFieldsView {
    pub path_text: Option<Seq<char>>,
    pub line_number: Option<u64>,
    pub line_text: Option<Seq<char>>,
}

pub open spec fn opt_text(o: Option<String>) -> Option<Seq<char>> {
    match o {
        Some(s) => Some(s@),
        None => None,
    }
}

pub open spec fn submatch_view(m: RgSubmatch) -> RgSubmatchView {
    RgSubmatchView { text: opt_text(m.text), start: m.start }
}

/// The string at `k1.k2.k3` of a JSON text, as `serde_json` reads it: none when
/// the text is not JSON, or the value there is missing or not a string.
pub uninterp spec fn json_str_at_of(text: Seq<char>, k1: Seq<char>, k2: Seq<char>, k3: Seq<char>) -> Option<Seq<char>>;

/// The unsigned integer at `k1.k2` of a JSON text (`as_u64`).
pub uninterp spec fn json_u64_at_of(text: Seq<char>, k1: Seq<char>, k2: Seq<char>) -> Option<u64>;

/// The length of the array at `k1.k2` of a JSON text.
pub uninterp spec fn json_array_len_of(text: Seq<char>, k1: Seq<char>, k2: Seq<char>) -> Option<usize>;

/// The string at `k3.k4` of element `i` of the array at `k1.k2` of a JSON text.
pub uninterp spec fn json_index_str_of(
    text: Seq<char>,
    k1: Seq<char>,
    k2: Seq<char>,
    i: usize,
    k3: Seq<char>,
    k4: Seq<char>,
) -> Option<Seq<char>>;

/// The unsigned integer at `k3` of element `i` of the array at `k1.k2` of a
/// JSON text.
pub uninterp spec fn json_index_u64_of(text: Seq<char>, k1: Seq<char>, k2: Seq<char>, i: usize, k3: Seq<char>) -> Option<u64>;

/// `serde_json::from_str` of the text, then indexing by `k1`, `k2`, `k3` and
/// `Value::as_str`. Claimed: the result is `json_str_at_of` of the arguments.
#[verifier::external_body]
fn json_str_at(text: &str, k1: &str, k2: &str, k3: &str) -> (r: Option<String>)
    ensures
        opt_text(r) == json_str_at_of(text@, k1@, k2@, k3@),
{
    let v: serde_json::Value = serde_json::from_str(text).ok()?;
    v[k1][k2][k3].as_str().map(String::from)
}

/// `serde_json::from_str` of the text, then indexing by `k1`, `k2` and
/// `Value::as_u64`. Claimed: the result is `json_u64_at_of` of the arguments.
#[verifier::external_body]
fn json_u64_at(text: &str, k1: &str, k2: &str) -> (r: Option<u64>)
    ensures
        r == json_u64_at_of(text@, k1@, k2@),
{
    let v: serde_json::Value = serde_json::from_str(text).ok()?;
    v[k1][k2].as_u64()
}

/// `serde_json::from_str` of the text, then indexing by `k1`, `k2` and the
/// length of `Value::as_array`. Claimed: the result is `json_array_len_of` of
/// the arguments.
#[verifier::external_body]
fn json_array_len(text: &str, k1: &str, k2: &str) -> (r: Option<usize>)
    ensures
        r == json_array_len_of(text@, k1@, k2@),
{
    let v: serde_json::Value = serde_json::from_str(text).ok()?;
    match v[k1][k2].as_array() {
        Some(a) => Some(a.len()),
        None => None,
    }
}

/// `serde_json::from_str` of the text, then indexing by `k1`, `k2`, `i`, `k3`,
/// `k4` and `Value::as_str`. Claimed: the result is `json_index_str_of` of the
/// arguments.
#[verifier::external_body]
fn json_index_str(text: &str, k1: &str, k2: &str, i: usize, k3: &str, k4: &str) -> (r: Option<String>)
    ensures
        opt_text(r) == json_index_str_of(text@, k1@, k2@, i, k3@, k4@),
{
    let v: serde_json::Value = serde_json::from_str(text).ok()?;
    v[k1][k2][i][k3][k4].as_str().map(String::from)
}

/// `serde_json::from_str` of the text, then indexing by `k1`, `k2`, `i`, `k3`
/// and `Value::as_u64`. Claimed: the result is `json_index_u64_of` of the
/// arguments.
#[verifier::external_body]
fn json_index_u64(text: &str, k1: &str, k2: &str, i: usize, k3: &str) -> (r: Option<u64>)
    ensures
        r == json_index_u64_of(text@, k1@, k2@, i, k3@),
{
    let v: serde_json::Value = serde_json::from_str(text).ok()?;
    v[k1][k2][i][k3].as_u64()
}

/// The submatches of a line of ripgrep's JSON output: `None` unless the line is
/// JSON whose `data.submatches` is an array; each element's `match.text` and
/// `start`.
pub open spec fn rg_submatches_of(line: Seq<char>) -> Option<Seq<RgSubmatchView>> {
    match json_array_len_of(line, "data"@, "submatches"@) {
        Some(n) => Some(
            Seq::new(
                n as nat,
                |i: int|
                    RgSubmatchView {
                        text: json_index_str_of(line, "data"@, "submatches"@, i as usize, "match"@, "text"@),
                        start: json_index_u64_of(line, "data"@, "submatches"@, i as usize, "start"@),
                    },
            ),
        ),
        None => None,
    }
}

/// The result fields of a line of ripgrep's JSON output: `data.path.text`,
/// `data.line_number` and `data.lines.text`.
pub open spec fn rg_line_fields_of(line: Seq<char>) -> RgLineFieldsView {
    RgLineFieldsView {
        path_text: json_str_at_of(line, "data"@, "path"@, "text"@),
        line_number: json_u64_at_of(line, "data"@, "line_number"@),
        line_text: json_str_at_of(line, "data"@, "lines"@, "text"@),
    }
}

/// The submatches of a line of ripgrep's JSON output.
fn rg_submatches(line: &str) -> (r: Option<Vec<RgSubmatch>>)
    ensures
        match r {
            Some(v) => rg_submatches_of(line@) == Some(v@.map_values(|m: RgSubmatch| submatch_view(m))),
            None => rg_submatches_of(line@) is None,
        },
{
    let n = match json_array_len(line, "data", "submatches") {
        Some(n) => n,
        None => return None,
    };
    let ghost target = rg_submatches_of(line@)->0;
    let mut out: Vec<RgSubmatch> = Vec::new();
    let mut i: usize = 0;
    while i < n
        invariant
            i <= n,
            json_array_len_of(line@, "data"@, "submatches"@) == Some(n),
            target == rg_submatches_of(line@)->0,
            out@.map_values(|m: RgSubmatch| submatch_view(m)) =~= target.subrange(0, i as int),
        decreases n - i,
    {
        let text = json_index_str(line, "data", "submatches", i, "match", "text");
        let start = json_index_u64(line, "data", "submatches", i, "start");
        let m = RgSubmatch { text, start };
        let ghost before = out@.map_values(|m: RgSubmatch| submatch_view(m));
        out.push(m);
        assert(out@.map_values(|m: RgSubmatch| submatch_view(m)) =~= before.push(submatch_view(m)));
        assert(target[i as int] == submatch_view(m));
        i = i + 1;
    }
    assert(target.subrange(0, n as int) =~= target);
    Some(out)
}

/// The result fields of a line of ripgrep's JSON output.
fn rg_line_fields(line: &str) -> (r: RgLineFields)
    ensures
        (RgLineFieldsView {
            path_text: opt_text(r.path_text),
            line_number: r.line_number,
            line_text: opt_text(r.line_text),
        }) == rg_line_fields_of(line@),
{
    RgLineFields {
        path_text: json_str_at(line, "data", "path", "text"),
        line_number: json_u64_at(line, "data", "line_number"),
        line_text: json_str_at(line, "data", "lines", "text"),
    }
}

/// The result a submatch gives: the record's path (or the searched directory),
/// line number (or 1), the submatch's start (or 0) and text (or empty), and
/// the record's line text (or empty).
pub open spec fn result_of(dir: Seq<char>, f: RgLineFieldsView, m: RgSubmatchView) -> SearchResultView {
    SearchResultView {
        file_path: match f.path_text {
            Some(p) => p,
            None => dir,
        },
        line_number: match f.line_number {
            Some(n) => n as usize,
            None => 1,
        },
        column: match m.start {
            Some(c) => c as usize,
            None => 0,
        },
        matched_text: match m.text {
            Some(t) => t,
            None => Seq::empty(),
        },
        line_text: match f.line_text {
            Some(t) => t,
            None => Seq::empty(),
        },
    }
}

/// The results of the lines of ripgrep's output: one per submatch of every
/// record that has them, in order.
pub open spec fn results_of_lines(dir: Seq<char>, ls: Seq<Seq<char>>) -> Seq<SearchResultView>
    decreases ls.len(),
{
    if ls.len() == 0 {
        Seq::empty()
    } else {
        let prev = results_of_lines(dir, ls.drop_last());
        let line = ls.last();
        match rg_submatches_of(line) {
            Some(ms) => prev + ms.map_values(|m: RgSubmatchView| result_of(dir, rg_line_fields_of(line), m)),
            None => prev,
        }
    }
}

fn opt_or(o: &Option<String>, default: &str) -> (r: String)
    ensures
        r@ == match o {
            Some(s) => s@,
            None => default@,
        },
{
    match o {
        Some(s) => s.clone(),
        None => default.to_owned(),
    }
}

/// Reads ripgrep's `--json` output into results; `dir` is the searched
/// directory, used for records without a path.
pub fn parse_search_output(stdout: &str, dir: &str) -> (r: Vec<SearchResult>)
    ensures
        r@.map_values(|x: SearchResult| x@) == results_of_lines(dir@, lines_of(stdout@)),
{
    let ls = lines(stdout);
    let ghost lv = views(ls@);
    let mut out: Vec<SearchResult> = Vec::new();
    let mut i: usize = 0;
    while i < ls.len()
        invariant
            i <= ls.len(),
            lv == views(ls@),
            lv == lines_of(stdout@),
            out@.map_values(|x: SearchResult| x@) =~= results_of_lines(dir@, lv.subrange(0, i as int)),
        decreases ls.len() - i,
    {
        let line = string_of(&ls[i]);
        assert(lv.subrange(0, i + 1).drop_last() =~= lv.subrange(0, i as int));
        assert(lv.subrange(0, i + 1).last() == line@);
        match rg_submatches(line.as_str()) {
            Some(subs) => {
                let f = rg_line_fields(line.as_str());
                let ghost fv = rg_line_fields_of(line@);
                let ghost base = out@.map_values(|x: SearchResult| x@);
                let ghost msv = subs@.map_values(|m: RgSubmatch| submatch_view(m));
                let mut j: usize = 0;
                while j < subs.len()
                    invariant
                        j <= subs.len(),
                        msv == subs@.map_values(|m: RgSubmatch| submatch_view(m)),
                        fv == (RgLineFieldsView {
                            path_text: opt_text(f.path_text),
                            line_number: f.line_number,
                            line_text: opt_text(f.line_text),
                        }),
                        out@.map_values(|x: SearchResult| x@) =~= base + msv.subrange(0, j as int).map_values(
                            |m: RgSubmatchView| result_of(dir@, fv, m),
                        ),
                    decreases subs.len() - j,
                {
                    let m = &subs[j];
                    let file_path = opt_or(&f.path_text, dir);
                    let line_number: usize = match f.line_number {
                        Some(n) => n as usize,
                        None => 1,
                    };
                    let column: usize = match m.start {
                        Some(c) => c as usize,
                        None => 0,
                    };
                    let matched_text = opt_or(&m.text, "");
                    let line_text = opt_or(&f.line_text, "");
                    let res = SearchResult { file_path, line_number, column, matched_text, line_text };
                    proof {
                        assert(""@ =~= Seq::<char>::empty()) by {
                            reveal_strlit("");
                        }
                        assert(res@ == result_of(dir@, fv, msv[j as int]));
                    }
                    let ghost before = out@.map_values(|x: SearchResult| x@);
                    out.push(res);
                    assert(out@.map_values(|x: SearchResult| x@) =~= before.push(res@));
                    assert(msv.subrange(0, j + 1).map_values(|m: RgSubmatchView| result_of(dir@, fv, m))
                        =~= msv.subrange(0, j as int).map_values(|m: RgSubmatchView| result_of(dir@, fv, m)).push(
                        result_of(dir@, fv, msv[j as int]),
                    ));
                    j = j + 1;
                }
                assert(msv.subrange(0, subs.len() as int) =~= msv);
            },
            None => {},
        }
        i = i + 1;
    }
    assert(lv.subrange(0, ls.len() as int) =~= lv);
    out
}

/// The error text of a failed ripgrep run.
pub open spec fn ripgrep_error_text(stderr: Seq<char>) -> Seq<char> {
    "ripgrep error: "@ + stderr
}

/// What a ripgrep run comes to: an error when it failed (exit code other than
/// 0 and 1, 1 meaning no match), its results otherwise.
pub fn search_outcome(succeeded: bool, exit_code: Option<i32>, stdout: &str, stderr: &str, dir: &str) -> (r: Result<Vec<SearchResult>, String>)
    ensures
        match r {
            Ok(v) => (succeeded || exit_code == Some(1i32)) && v@.map_values(|x: SearchResult| x@)
                == results_of_lines(dir@, lines_of(stdout@)),
            Err(e) => !succeeded && exit_code != Some(1i32) && e@ == ripgrep_error_text(stderr@),
        },
{
    let failed = !succeeded && match exit_code {
        Some(c) => c != 1,
        None => true,
    };
    if failed {
        let mut e = "ripgrep error: ".to_owned();
        e.append(stderr);
        Err(e)
    } else {
        Ok(parse_search_output(stdout, dir))
    }
}

/// Search state for the UI.
#[derive(Debug, Clone)]
pub struct SearchState {
    pub visible: bool,
    pub query: String,
    pub results: Vec<SearchResult>,
    pub selected: usize,
    pub scroll_offset: usize,
    pub error: Option<String>,
}

impl SearchState {
    pub fn new() -> (s: Self)
        ensures
            !s.visible,
            s.query@.len() == 0,
            s.results@.len() == 0,
            s.selected == 0,
            s.scroll_offset == 0,
            s.error is None,
    {
        SearchState {
            visible: false,
            query: String::new(),
            results: Vec::new(),
            selected: 0,
            scroll_offset: 0,
            error: None,
        }
    }

    /// Opens the panel with an empty query and no results.
    pub fn open(&mut self)
        ensures
            final(self).visible,
            final(self).query@.len() == 0,
            final(self).results@.len() == 0,
            final(self).selected == 0,
            final(self).scroll_offset == 0,
            final(self).error is None,
    {
        self.visible = true;
        clear_string(&mut self.query);
        self.results.clear();
        self.selected = 0;
        self.scroll_offset = 0;
        self.error = None;
    }

    /// Hides the panel; everything else is kept.
    pub fn close(&mut self)
        ensures
            !final(self).visible,
            final(self).query == old(self).query,
            final(self).results == old(self).results,
            final(self).selected == old(self).selected,
            final(self).scroll_offset == old(self).scroll_offset,
            final(self).error == old(self).error,
    {
        self.visible = false;
    }

    pub fn push_char(&mut self, c: char)
        ensures
            final(self).query@ == old(self).query@.push(c),
            final(self).visible == old(self).visible,
            final(self).results == old(self).results,
            final(self).selected == old(self).selected,
            final(self).scroll_offset == old(self).scroll_offset,
            final(self).error == old(self).error,
    {
        push_char(&mut self.query, c);
    }

    pub fn pop_char(&mut self)
        ensures
            final(self).query@ == if old(self).query@.len() > 0 {
                old(self).query@.drop_last()
            } else {
                old(self).query@
            },
            final(self).visible == old(self).visible,
            final(self).results == old(self).results,
            final(self).selected == old(self).selected,
            final(self).scroll_offset == old(self).scroll_offset,
            final(self).error == old(self).error,
    {
        pop_char(&mut self.query);
    }

    /// Moves the selection down by `n`, stopping at the last result.
    pub fn move_down(&mut self, n: usize)
        requires
            old(self).results@.len() > 0 ==> old(self).selected + n <= usize::MAX,
        ensures
            final(self).selected == if old(self).results@.len() == 0 {
                old(self).selected as int
            } else if old(self).selected + n < old(self).results@.len() - 1 {
                old(self).selected + n
            } else {
                old(self).results@.len() - 1
            },
            final(self).results == old(self).results,
            final(self).query == old(self).query,
            final(self).visible == old(self).visible,
            final(self).scroll_offset == old(self).scroll_offset,
            final(self).error == old(self).error,
    {
        if self.results.len() == 0 {
            return;
        }
        let target = self.selected + n;
        let last = self.results.len() - 1;
        self.selected = if target < last {
            target
        } else {
            last
        };
    }

    /// Moves the selection up by `n`, stopping at the first result.
    pub fn move_up(&mut self, n: usize)
        ensures
            final(self).selected == if old(self).selected >= n {
                old(self).selected - n
            } else {
                0
            },
            final(self).results == old(self).results,
            final(self).query == old(self).query,
            final(self).visible == old(self).visible,
            final(self).scroll_offset == old(self).scroll_offset,
            final(self).error == old(self).error,
    {
        self.selected = if self.selected >= n {
            self.selected - n
        } else {
            0
        };
    }

    /// The query to hand to ripgrep, or `None` when the query is empty (no
    /// search is run then).
    pub fn search_query(&self) -> (r: Option<String>)
        ensures
            match r {
                Some(q) => q@ == self.query@ && self.query@.len() > 0,
                None => self.query@.len() == 0,
            },
    {
        if self.query.as_str().unicode_len() == 0 {
            None
        } else {
            Some(self.query.clone())
        }
    }

    /// Takes in the outcome of a search: with an empty query the results are
    /// cleared and the outcome ignored; otherwise results replace the old ones
    /// (selection and scroll reset, error cleared), and an error is recorded
    /// with the results cleared.
    pub fn execute_search(&mut self, outcome: Result<Vec<SearchResult>, String>)
        ensures
            final(self).query == old(self).query,
            final(self).visible == old(self).visible,
            old(self).query@.len() == 0 ==> {
                &&& final(self).results@.len() == 0
                &&& final(self).selected == old(self).selected
                &&& final(self).scroll_offset == old(self).scroll_offset
                &&& final(self).error == old(self).error
            },
            old(self).query@.len() > 0 ==> match outcome {
                Ok(v) => {
                    &&& final(self).results == v
                    &&& final(self).selected == 0
                    &&& final(self).scroll_offset == 0
                    &&& final(self).error is None
                },
                Err(e) => {
                    &&& final(self).results@.len() == 0
                    &&& final(self).error == Some(e)
                    &&& final(self).selected == old(self).selected
                    &&& final(self).scroll_offset == old(self).scroll_offset
                },
            },
    {
        if self.query.as_str().unicode_len() == 0 {
            self.results.clear();
            return;
        }
        match outcome {
            Ok(results) => {
                self.results = results;
                self.selected = 0;
                self.scroll_offset = 0;
                self.error = None;
            },
            Err(e) => {
                self.error = Some(e);
                self.results.clear();
            },
        }
    }

    /// The selected result, if the selection is within the results.
    pub fn selected_result(&self) -> (r: Option<&SearchResult>)
        ensures
            match r {
                Some(x) => self.selected < self.results@.len() && *x == self.results@[self.selected as int],
                None => self.selected >= self.results@.len(),
            },
    {
        if self.selected < self.results.len() {
            Some(&self.results[self.selected])
        } else {
            None
        }
    }
}

/// The numbered preview line `{:4} | {}` for line number `n`.
pub open spec fn numbered_line(n: nat, line: Seq<char>) -> Seq<char> {
    space_pad(decimal(n), 4) + seq![' ', '|', ' '] + line
}

/// The preview lines around `target_line` (numbered from 1) with `context`
/// lines on each side, each marked when it is the target; for an unreadable
/// file, the single line `[binary or unreadable file]`.
pub open spec fn preview_lines_of(content: Option<Seq<char>>, target_line: nat, context: nat) -> Seq<(Seq<char>, bool)> {
    match content {
        None => seq![("[binary or unreadable file]"@, false)],
        Some(c) => {
            let all = lines_of(c);
            let start: int = if target_line >= context + 1 {
                target_line - context - 1
            } else {
                0
            };
            let end: int = if target_line + context < all.len() {
                (target_line + context) as int
            } else {
                all.len() as int
            };
            Seq::new(
                if end > start {
                    (end - start) as nat
                } else {
                    0
                },
                |k: int| (numbered_line((start + k + 1) as nat, all[start + k]), start + k + 1 == target_line),
            )
        },
    }
}

/// Line `n` is at most `context` lines from line `target_line`.
pub open spec fn within_context(n: int, target_line: nat, context: nat) -> bool {
    target_line <= n + context && n <= target_line + context
}

/// The preview around line `target_line` of a readable text with `context`
/// lines of context shows, in order, exactly the lines whose number `n`
/// (counted from 1) is within `context` of the target: row `i` is line
/// `first + i` for some first line number, numbered and with its text, marked
/// exactly when it is the target; every row's line is within `context` of the
/// target; and every line of the text within `context` of the target is shown.
pub proof fn law_preview_window(c: Seq<char>, target_line: nat, context: nat)
    ensures
        exists|first: int|
            #![trigger first + 0]
            {
                let r = preview_lines_of(Some(c), target_line, context);
                let all = lines_of(c);
                &&& first >= 1
                &&& forall|i: int|
                    0 <= i < r.len() ==> {
                        &&& first + i <= all.len()
                        &&& within_context(first + i, target_line, context)
                        &&& #[trigger] r[i] == (
                            numbered_line((first + i) as nat, all[first + i - 1]),
                            first + i == target_line,
                        )
                    }
                &&& forall|n: int|
                    1 <= n <= all.len() && #[trigger] within_context(n, target_line, context) ==> first <= n < first
                        + r.len()
            },
{
    let r = preview_lines_of(Some(c), target_line, context);
    let all = lines_of(c);
    let start: int = if target_line >= context + 1 {
        target_line - context - 1
    } else {
        0
    };
    let first = start + 1;
    assert(first + 0 == first);
}

/// The characters of the optional preview lines, and their marks.
pub open spec fn marked_views(v: Seq<(String, bool)>) -> Seq<(Seq<char>, bool)> {
    v.map_values(|p: (String, bool)| (p.0@, p.1))
}

/// Lines of context around a search result, from a file's text (`None` when the
/// file could not be read as text).
pub fn get_preview_lines(content: Option<&str>, target_line: usize, context_lines: usize) -> (r: Vec<(String, bool)>)
    requires
        context_lines < usize::MAX,
        target_line + context_lines <= usize::MAX,
    ensures
        marked_views(r@) == preview_lines_of(
            match content {
                Some(c) => Some(c@),
                None => None,
            },
            target_line as nat,
            context_lines as nat,
        ),
{
    let mut out: Vec<(String, bool)> = Vec::new();
    match content {
        None => {
            out.push(("[binary or unreadable file]".to_owned(), false));
            assert(marked_views(out@) =~= seq![("[binary or unreadable file]"@, false)]);
            out
        },
        Some(c) => {
            let all = lines(c);
            let ghost av = views(all@);
            let start: usize = if target_line >= context_lines + 1 {
                target_line - context_lines - 1
            } else {
                0
            };
            let end: usize = if target_line + context_lines < all.len() {
                target_line + context_lines
            } else {
                all.len()
            };
            let mut idx: usize = start;
            if start < end {
                while idx < end
                    invariant
                        start <= idx <= end,
                        end <= all@.len(),
                        av == views(all@),
                        out@.len() == idx - start,
                        forall|k: int| 0 <= k < out@.len() ==> (#[trigger] marked_views(out@)[k]) == (
                            numbered_line((start + k + 1) as nat, av[start + k]),
                            start + k + 1 == target_line,
                        ),
                    decreases end - idx,
                {
                    let line_num = idx + 1;
                    let mut text = decimal_right_aligned(line_num as u128, 4);
                    push_char(&mut text, ' ');
                    push_char(&mut text, '|');
                    push_char(&mut text, ' ');
                    let body = string_of(&all[idx]);
                    text.append(body.as_str());
                    let ghost before = out@;
                    assert(text@ =~= numbered_line(line_num as nat, av[idx as int]));
                    out.push((text, line_num == target_line));
                    assert(marked_views(out@) =~= marked_views(before).push((text@, line_num == target_line)));
                    idx = idx + 1;
                }
            }
            proof {
                let spec = preview_lines_of(Some(c@), target_line as nat, context_lines as nat);
                assert(marked_views(out@) =~= spec);
            }
            out
        },
    }
}

} // verus!
