//! Searching the vault with outside tools: which arguments the tools get and
//! what is made of what they report. Running the tools and reading their
//! output is left to the caller.
use vstd::prelude::*;
use crate::config::AppContext;
use crate::decimal::{decimal, push_decimal};
use crate::text::{push_str, string_of, string_views};

verus! {

/// A text of a ripgrep report.
pub struct RgText {
    pub text: String,
}

/// The data of a ripgrep report about a matching line.
pub struct RgData {
    pub path: RgText,
    pub lines: RgText,
    pub line_number: usize,
}

/// One report of ripgrep: its kind and, for most kinds, its data.
pub struct RgMessage {
    pub kind: String,
    pub data: Option<RgData>,
}

/// A matching line: where it stands and what it holds.
pub struct RgMatch {
    pub path: String,
    pub line: String,
    pub line_number: usize,
}

/// What a matching line holds, as plain text.
pub struct MatchView {
    pub path: Seq<char>,
    pub line: Seq<char>,
    pub line_number: usize,
}

impl View for RgMatch {
    type V = MatchView;

    open spec fn view(&self) -> MatchView {
        MatchView { path: self.path@, line: self.line@, line_number: self.line_number }
    }
}

/// Why a search failed.
#[derive(Clone, Copy, PartialEq, Eq, Structural, Debug)]
pub enum SearchError {
    /// ripgrep ended with a status that is neither success nor "no match".
    Exited { code: Option<i32> },
}

/// The matching line that a report is about, if it is about one.
pub open spec fn match_of(m: RgMessage) -> Option<MatchView> {
    if m.kind@ == "match"@ {
        match m.data {
            Some(d) => Some(
                MatchView { path: d.path.text@, line: d.lines.text@, line_number: d.line_number },
            ),
            None => None,
        }
    } else {
        None
    }
}

/// `s` without the line feeds at its end.
pub open spec fn without_final_newlines(s: Seq<char>) -> Seq<char>
    decreases s.len(),
{
    if s.len() > 0 && s.last() == '\n' {
        without_final_newlines(s.drop_last())
    } else {
        s
    }
}

/// A matching line as it is shown: path, line number, and the line.
pub open spec fn shown(m: MatchView) -> Seq<char> {
    m.path + seq![':'] + decimal(m.line_number as nat) + seq![':', ' '] + without_final_newlines(
        m.line,
    )
}

/// The matching lines among the reports, as they are shown, in order. A
/// report that could not be read counts as none.
pub open spec fn hits(reports: Seq<Option<RgMessage>>) -> Seq<Seq<char>>
    decreases reports.len(),
{
    if reports.len() == 0 {
        Seq::empty()
    } else {
        let before = hits(reports.drop_last());
        match reports.last() {
            Some(m) => match match_of(m) {
                Some(v) => before.push(shown(v)),
                None => before,
            },
            None => before,
        }
    }
}

/// The first `n` of the texts, or all of them where there are fewer.
pub open spec fn first_n(s: Seq<Seq<char>>, n: int) -> Seq<Seq<char>> {
    if n <= s.len() {
        s.take(n)
    } else {
        s
    }
}

impl RgMessage {
    /// The matching line that this report is about, if it is about one.
    pub fn match_data(&self) -> (r: Option<RgMatch>)
        ensures
            match r {
                Some(m) => match_of(*self) == Some(m@),
                None => match_of(*self) is None,
            },
    {
        let is_match = crate::text::same_text(self.kind.as_str(), "match");
        if is_match {
            match &self.data {
                Some(d) => Some(
                    RgMatch {
                        path: d.path.text.clone(),
                        line: d.lines.text.clone(),
                        line_number: d.line_number,
                    },
                ),
                None => None,
            }
        } else {
            None
        }
    }
}

impl RgMatch {
    /// This matching line as it is shown.
    pub fn format(&self) -> (s: String)
        ensures
            s@ == shown(self@),
    {
        let mut out: Vec<char> = Vec::new();
        push_str(&mut out, self.path.as_str());
        out.push(':');
        push_decimal(&mut out, self.line_number);
        out.push(':');
        out.push(' ');
        let line = crate::text::chars_of(self.line.as_str());
        let mut end = line.len();
        proof {
            assert(line@.take(line@.len() as int) =~= line@);
        }
        while end > 0 && line[end - 1] == '\n'
            invariant
                end <= line@.len(),
                without_final_newlines(line@) == without_final_newlines(line@.take(end as int)),
            decreases end,
        {
            proof {
                assert(line@.take(end as int).drop_last() =~= line@.take(end - 1));
            }
            end -= 1;
        }
        let ghost head = out@;
        let mut i: usize = 0;
        while i < end
            invariant
                i <= end <= line@.len(),
                out@ == head + line@.take(i as int),
            decreases end - i,
        {
            out.push(line[i]);
            assert(out@ =~= head + line@.take(i + 1));
            i += 1;
        }
        let s = string_of(out.as_slice());
        assert(s@ =~= shown(self@));
        s
    }
}

/// The search over a vault.
pub struct SearchService {
    root: String,
}

impl SearchService {
    /// The directory in which the tools run.
    pub closed spec fn spec_root(&self) -> Seq<char> {
        self.root@
    }

    /// The search over the vault of the context.
    pub fn new(ctx: &AppContext) -> (s: SearchService)
        ensures
            s.spec_root() == ctx.spec_vault_root(),
    {
        SearchService { root: ctx.vault_root().to_owned() }
    }

    /// The directory in which the tools run.
    pub fn root(&self) -> (r: &str)
        ensures
            r@ == self.spec_root(),
    {
        self.root.as_str()
    }

    /// The arguments with which ripgrep looks for `query` in the vault.
    pub fn grep(&self, query: &str) -> (args: Vec<String>)
        ensures
            args@.len() == 5,
            args@[0]@ == "--hidden"@,
            args@[1]@ == "--glob"@,
            args@[2]@ == "!.git"@,
            args@[3]@ == query@,
            args@[4]@ == "."@,
    {
        let mut args: Vec<String> = Vec::new();
        args.push("--hidden".to_owned());
        args.push("--glob".to_owned());
        args.push("!.git".to_owned());
        args.push(query.to_owned());
        args.push(".".to_owned());
        args
    }

    /// The arguments with which the fuzzy picker starts on `query`; it picks
    /// among the files that ripgrep lists with `--files`.
    pub fn fuzzy(&self, query: &str) -> (args: Vec<String>)
        ensures
            args@.len() == 3,
            args@[0]@ == "--ansi"@,
            args@[1]@ == "--query"@,
            args@[2]@ == query@,
    {
        let mut args: Vec<String> = Vec::new();
        args.push("--ansi".to_owned());
        args.push("--query".to_owned());
        args.push(query.to_owned());
        args
    }

    /// The arguments with which ripgrep reports the matches of `query` as JSON.
    pub fn grep_matches_args(&self, query: &str) -> (args: Vec<String>)
        ensures
            args@.len() == 6,
            args@[0]@ == "--hidden"@,
            args@[1]@ == "--glob"@,
            args@[2]@ == "!.git"@,
            args@[3]@ == "--json"@,
            args@[4]@ == query@,
            args@[5]@ == "."@,
    {
        let mut args: Vec<String> = Vec::new();
        args.push("--hidden".to_owned());
        args.push("--glob".to_owned());
        args.push("!.git".to_owned());
        args.push("--json".to_owned());
        args.push(query.to_owned());
        args.push(".".to_owned());
        args
    }

    /// Whether ripgrep ended well: with success, or with status 1, which
    /// stands for "no match".
    pub fn check_exit(success: bool, code: Option<i32>) -> (r: Result<(), SearchError>)
        ensures
            r is Ok <==> (success || code == Some(1i32)),
            r is Err ==> r == Err::<(), SearchError>(SearchError::Exited { code }),
    {
        let no_match = match code {
            Some(c) => c == 1,
            None => false,
        };
        if !success && !no_match {
            Err(SearchError::Exited { code })
        } else {
            Ok(())
        }
    }

    /// The first `limit` matching lines among the reports, as they are shown.
    pub fn grep_matches(&self, reports: &Vec<Option<RgMessage>>, limit: usize) -> (results: Vec<
        String,
    >)
        ensures
            string_views(results@) == first_n(hits(reports@), limit as int),
    {
        let mut results: Vec<String> = Vec::new();
        let mut i: usize = 0;
        while i < reports.len()
            invariant
                i <= reports@.len(),
                string_views(results@) == first_n(hits(reports@.take(i as int)), limit as int),
            decreases reports@.len() - i,
        {
            let ghost before = string_views(results@);
            proof {
                assert(reports@.take(i + 1).drop_last() =~= reports@.take(i as int));
                assert(reports@.take(i + 1).last() == reports@[i as int]);
            }
            match &reports[i] {
                Some(m) => {
                    match m.match_data() {
                        Some(found) => {
                            if results.len() < limit {
                                let s = found.format();
                                results.push(s);
                                assert(string_views(results@) =~= before.push(shown(found@)));
                            }
                            assert(string_views(results@) =~= first_n(
                                hits(reports@.take(i + 1)),
                                limit as int,
                            ));
                        },
                        None => {},
                    }
                },
                None => {},
            }
            i += 1;
        }
        assert(reports@.take(i as int) =~= reports@);
        results
    }
}

/// Index of the first line feed in `s`, or `s.len()` if there is none.
pub open spec fn find_line_feed(s: Seq<u8>) -> int
    decreases s.len(),
{
    if s.len() == 0 {
        0
    } else if s[0] == 10 {
        0
    } else {
        1 + find_line_feed(s.skip(1))
    }
}

/// The reports in the output of ripgrep: the pieces between line feeds that
/// are not empty, in order.
pub open spec fn report_pieces(s: Seq<u8>) -> Seq<Seq<u8>>
    decreases s.len(),
{
    if s.len() == 0 {
        Seq::empty()
    } else {
        let k = find_line_feed(s);
        let rest = if 0 <= k < s.len() {
            report_pieces(s.skip(k + 1))
        } else {
            Seq::empty()
        };
        if k > 0 {
            seq![s.take(k)] + rest
        } else {
            rest
        }
    }
}

/// The views of a vector of byte strings.
pub open spec fn byte_views(v: Seq<Vec<u8>>) -> Seq<Seq<u8>> {
    Seq::new(v.len(), |i: int| v[i]@)
}

proof fn lemma_find_line_feed(s: Seq<u8>, k: int)
    requires
        0 <= k <= s.len(),
        forall|i: int| 0 <= i < k ==> #[trigger] s[i] != 10,
        k < s.len() ==> s[k] == 10,
    ensures
        find_line_feed(s) == k,
    decreases k,
{
    if k > 0 {
        let r = s.skip(1);
        assert(s[0] != 10);
        assert forall|i: int| 0 <= i < k - 1 implies #[trigger] r[i] != 10 by {
            assert(r[i] == s[i + 1]);
        }
        lemma_find_line_feed(r, k - 1);
    }
}

/// Cuts the output of ripgrep into its reports, one for every line that is
/// not empty.
pub fn report_lines(output: &[u8]) -> (reports: Vec<Vec<u8>>)
    ensures
        byte_views(reports@) == report_pieces(output@),
{
    let n = output.len();
    let mut reports: Vec<Vec<u8>> = Vec::new();
    let mut start: usize = 0;
    proof {
        assert(output@.skip(0) =~= output@);
        assert(byte_views(reports@) + report_pieces(output@) =~= report_pieces(output@));
    }
    while start < n
        invariant
            start <= n == output@.len(),
            byte_views(reports@) + report_pieces(output@.skip(start as int)) == report_pieces(
                output@,
            ),
        decreases n - start,
    {
        let ghost rest = output@.skip(start as int);
        let ghost before = byte_views(reports@);
        let mut piece: Vec<u8> = Vec::new();
        let mut k = start;
        while k < n && output[k] != 10
            invariant
                start <= k <= n == output@.len(),
                piece@ == output@.subrange(start as int, k as int),
                forall|i: int| start <= i < k ==> #[trigger] output@[i] != 10,
            decreases n - k,
        {
            piece.push(output[k]);
            assert(piece@ =~= output@.subrange(start as int, k + 1));
            k += 1;
        }
        proof {
            assert forall|i: int| 0 <= i < k - start implies #[trigger] rest[i] != 10 by {
                assert(rest[i] == output@[start + i]);
            }
            lemma_find_line_feed(rest, k - start);
            assert(rest.take(k - start) =~= piece@);
            if k < n {
                assert(rest.skip(k - start + 1) =~= output@.skip(k + 1));
            } else {
                assert(output@.skip(n as int) =~= Seq::<u8>::empty());
            }
        }
        if k > start {
            reports.push(piece);
            assert(byte_views(reports@) =~= before + seq![rest.take(k - start)]);
        }
        start = if k < n {
            k + 1
        } else {
            n
        };
        assert(byte_views(reports@) + report_pieces(output@.skip(start as int)) =~= before
            + report_pieces(rest));
    }
    proof {
        assert(output@.skip(start as int) =~= Seq::<u8>::empty());
        assert(byte_views(reports@) + Seq::<Seq<u8>>::empty() =~= byte_views(reports@));
    }
    reports
}

/// The decimal writing of a whole number.
pub open spec fn signed_decimal(n: int) -> Seq<char> {
    if n < 0 {
        seq!['-'] + decimal((-n) as nat)
    } else {
        decimal(n as nat)
    }
}

/// What a search error says.
pub open spec fn exit_text(e: SearchError) -> Seq<char> {
    match e {
        SearchError::Exited { code: Some(c) } => "ripgrep exited with "@ + signed_decimal(c as int),
        SearchError::Exited { code: None } => "ripgrep exited with unknown"@,
    }
}

impl SearchError {
    /// What the error says, for the user.
    pub fn message(&self) -> (m: String)
        ensures
            m@ == exit_text(*self),
    {
        match self {
            SearchError::Exited { code: Some(c) } => {
                let mut out: Vec<char> = Vec::new();
                push_str(&mut out, "ripgrep exited with ");
                if *c < 0 {
                    out.push('-');
                    let abs: usize = if *c == i32::MIN {
                        2147483648
                    } else {
                        (-*c) as usize
                    };
                    push_decimal(&mut out, abs);
                } else {
                    push_decimal(&mut out, *c as usize);
                }
                let m = string_of(out.as_slice());
                assert(m@ =~= exit_text(*self));
                m
            },
            SearchError::Exited { code: None } => "ripgrep exited with unknown".to_owned(),
        }
    }
}

/// What to say when a tool could not be started: how to install it where it
/// was not found, else that it could not be run.
pub open spec fn exec_error_text(not_found: bool, tool: Seq<char>) -> Seq<char> {
    if not_found {
        "`"@ + tool
            + "` was not found in PATH. Please install it before using `obsctl search`. For example:\n  \u{2022} macOS (Homebrew): brew install "@
            + tool + "\n  \u{2022} Ubuntu/Debian:   sudo apt-get install "@ + tool
            + "\n  \u{2022} Arch Linux:      sudo pacman -S "@ + tool
    } else {
        "failed to execute "@ + tool
    }
}

/// What to say when a tool could not be started.
pub fn map_exec_error(not_found: bool, tool: &str) -> (m: String)
    ensures
        m@ == exec_error_text(not_found, tool@),
{
    let mut out: Vec<char> = Vec::new();
    if not_found {
        push_str(&mut out, "`");
        push_str(&mut out, tool);
        push_str(
            &mut out,
            "` was not found in PATH. Please install it before using `obsctl search`. For example:\n  \u{2022} macOS (Homebrew): brew install ",
        );
        push_str(&mut out, tool);
        push_str(&mut out, "\n  \u{2022} Ubuntu/Debian:   sudo apt-get install ");
        push_str(&mut out, tool);
        push_str(&mut out, "\n  \u{2022} Arch Linux:      sudo pacman -S ");
        push_str(&mut out, tool);
    } else {
        push_str(&mut out, "failed to execute ");
        push_str(&mut out, tool);
    }
    let m = string_of(out.as_slice());
    assert(m@ =~= exec_error_text(not_found, tool@));
    m
}

} // verus!
