//! Line coverage of tagged code: the lines that were found at compile time
//! against the lines that were executed.

use crate::text::{append_decimal, append_signed_decimal, decimal, signed_decimal};
use vstd::prelude::*;
use vstd::utf8::{encode_utf8, encode_utf8_decode_utf8};
use vstd::wrapping::usize_specs;

verus! {

/// The name of a source file as the instrumentation hands it over.
#[derive(Clone, Copy, Debug)]
pub enum SourceFile<'a> {
    /// No name was given.
    Unknown,
    /// The name given is not valid text.
    Invalid,
    Name(&'a str),
}

/// The text that stands for line `line` of `file`.
pub open spec fn location_text(line: i64, file: SourceFile) -> Seq<char> {
    match file {
        SourceFile::Unknown => "<unknown>:"@ + signed_decimal(line as int),
        SourceFile::Invalid => "<invalid>:"@ + signed_decimal(line as int),
        SourceFile::Name(name) => name@ + ":"@ + signed_decimal(line as int),
    }
}

/// `a` comes before `b` because of what stands at position `k`: the two
/// agree before `k`, and there `a` ends or has the smaller byte.
pub open spec fn precedes_at(a: Seq<u8>, b: Seq<u8>, k: int) -> bool {
    &&& 0 <= k <= a.len()
    &&& k < b.len()
    &&& forall|i: int| 0 <= i < k ==> a[i] == b[i]
    &&& k < a.len() ==> a[k] < b[k]
}

/// `a` comes before `b` in the order of their bytes.
pub open spec fn precedes(a: Seq<u8>, b: Seq<u8>) -> bool {
    exists|k: int| precedes_at(a, b, k)
}

/// The line `a` comes before the line `b`: the order of texts, which is
/// that of their bytes.
pub open spec fn line_precedes(a: Seq<char>, b: Seq<char>) -> bool {
    precedes(encode_utf8(a), encode_utf8(b))
}

/// Each line comes before those after it.
pub open spec fn ascending(lines: Seq<Seq<char>>) -> bool {
    forall|i: int, j: int|
        0 <= i < j < lines.len() ==> line_precedes(#[trigger] lines[i], #[trigger] lines[j])
}

/// `after` is `before` with the line `location` in it: in ascending order,
/// with the lines of `before` and `location`, and longer by one unless
/// `location` stands in `before` already.
pub open spec fn with_line(
    before: Seq<Seq<char>>,
    after: Seq<Seq<char>>,
    location: Seq<char>,
) -> bool {
    &&& ascending(after)
    &&& forall|t: Seq<char>| after.contains(t) <==> (before.contains(t) || t == location)
    &&& after.len() == if before.contains(location) {
        before.len()
    } else {
        before.len() + 1
    }
}

/// The texts of `lines`.
pub open spec fn texts(lines: Seq<String>) -> Seq<Seq<char>> {
    lines.map_values(|line: String| line@)
}

/// How one line stands to another.
#[derive(Clone, Copy, Debug, PartialEq, Eq, Structural)]
pub enum Rank {
    Before,
    Same,
    After,
}

proof fn lemma_precedes_transitive(a: Seq<u8>, b: Seq<u8>, c: Seq<u8>)
    requires
        precedes(a, b),
        precedes(b, c),
    ensures
        precedes(a, c),
{
    let k1 = choose|k: int| precedes_at(a, b, k);
    let k2 = choose|k: int| precedes_at(b, c, k);
    let k = if k1 <= k2 {
        k1
    } else {
        k2
    };
    assert(precedes_at(a, c, k));
}

proof fn lemma_precedes_differs(a: Seq<u8>, b: Seq<u8>)
    requires
        precedes(a, b),
    ensures
        a != b,
{
}

proof fn lemma_same_bytes_same_text(a: Seq<char>, b: Seq<char>)
    requires
        encode_utf8(a) == encode_utf8(b),
    ensures
        a == b,
{
    encode_utf8_decode_utf8(a);
    encode_utf8_decode_utf8(b);
}

/// How the line `a` stands to the line `b`.
pub fn compare_lines(a: &str, b: &str) -> (rank: Rank)
    ensures
        match rank {
            Rank::Before => line_precedes(a@, b@),
            Rank::Same => a@ == b@,
            Rank::After => line_precedes(b@, a@),
        },
{
    let x = a.as_bytes();
    let y = b.as_bytes();
    let mut i: usize = 0;
    while i < x.len() && i < y.len()
        invariant
            i <= x@.len(),
            i <= y@.len(),
            x@ == encode_utf8(a@),
            y@ == encode_utf8(b@),
            forall|j: int| 0 <= j < i ==> x@[j] == y@[j],
        decreases x@.len() - i,
    {
        if x[i] < y[i] {
            assert(precedes_at(x@, y@, i as int));
            return Rank::Before;
        }
        if x[i] > y[i] {
            assert(precedes_at(y@, x@, i as int));
            return Rank::After;
        }
        i += 1;
    }
    if x.len() < y.len() {
        assert(precedes_at(x@, y@, i as int));
        Rank::Before
    } else if x.len() > y.len() {
        assert(precedes_at(y@, x@, i as int));
        Rank::After
    } else {
        assert(x@ =~= y@);
        proof {
            lemma_same_bytes_same_text(a@, b@);
        }
        Rank::Same
    }
}

/// Puts `location` into `lines` at its place, unless it is there already.
fn insert_line(lines: &mut Vec<String>, location: String)
    requires
        ascending(texts(old(lines)@)),
    ensures
        with_line(texts(old(lines)@), texts(final(lines)@), location@),
{
    let ghost before = texts(lines@);
    let mut i: usize = 0;
    while i < lines.len()
        invariant
            i <= lines@.len(),
            lines@ == old(lines)@,
            before == texts(lines@),
            ascending(before),
            forall|j: int| 0 <= j < i ==> line_precedes(#[trigger] before[j], location@),
        ensures
            i < lines@.len() ==> line_precedes(location@, before[i as int]),
        decreases lines@.len() - i,
    {
        match compare_lines(lines[i].as_str(), location.as_str()) {
            Rank::Before => {
                assert(before[i as int] == lines@[i as int]@);
            },
            Rank::Same => {
                assert(before[i as int] == location@);
                return ;
            },
            Rank::After => {
                assert(before[i as int] == lines@[i as int]@);
                break ;
            },
        }
        i += 1;
    }
    proof {
        assert forall|j: int| i <= j < before.len() implies line_precedes(
            location@,
            #[trigger] before[j],
        ) by {
            if j > i {
                lemma_precedes_transitive(
                    encode_utf8(location@),
                    encode_utf8(before[i as int]),
                    encode_utf8(before[j]),
                );
            }
        }
        assert forall|j: int| 0 <= j < before.len() implies #[trigger] before[j] != location@ by {
            if j < i {
                lemma_precedes_differs(encode_utf8(before[j]), encode_utf8(location@));
            } else {
                lemma_precedes_differs(encode_utf8(location@), encode_utf8(before[j]));
            }
        }
    }
    lines.insert(i, location);
    proof {
        let after = texts(lines@);
        assert(after =~= before.insert(i as int, location@));
        assert(after[i as int] == location@);
        assert forall|t: Seq<char>| after.contains(t) <==> (before.contains(t) || t
            == location@) by {
            if before.contains(t) {
                let j = choose|j: int| 0 <= j < before.len() && before[j] == t;
                if j < i {
                    assert(after[j] == t);
                } else {
                    assert(after[j + 1] == t);
                }
            }
            if after.contains(t) {
                let j = choose|j: int| 0 <= j < after.len() && after[j] == t;
                if j < i {
                    assert(before[j] == t);
                } else if j > i {
                    assert(before[j - 1] == t);
                }
            }
        }
        assert forall|j: int, k: int| 0 <= j < k < after.len() implies line_precedes(
            #[trigger] after[j],
            #[trigger] after[k],
        ) by {
            let bj = if j < i {
                j
            } else {
                j - 1
            };
            let bk = if k < i {
                k
            } else {
                k - 1
            };
            if j != i && k != i {
                assert(after[j] == before[bj] && after[k] == before[bk]);
            } else if j == i {
                assert(after[k] == before[bk]);
            } else {
                assert(after[j] == before[bj]);
            }
        }
    }
}

/// What a coverage tracker holds, as plain values.
pub struct CoverageView {
    /// The lines found at compile time, in ascending order, each once.
    pub registered: Seq<Seq<char>>,
    /// The lines that were executed, in ascending order, each once.
    pub executed: Seq<Seq<char>>,
    pub stats_written: bool,
    /// Number of reports handed out.
    pub run_counter: usize,
}

/// Simple coverage tracker: the lines as `file:line` texts.
pub struct UnsafeCoverageTracker {
    registered_lines: Vec<String>,
    executed_lines: Vec<String>,
    stats_written: bool,
    run_counter: usize,
}

/// The figures and the text of a coverage report. The text is in two parts:
/// the line that gives the coverage in percent goes between them.
pub struct CoverageReport {
    pub run_num: usize,
    pub registered_count: usize,
    pub executed_count: usize,
    pub head: String,
    pub tail: String,
}

/// Each line of `lines`, followed by a line break.
pub open spec fn listing(lines: Seq<Seq<char>>) -> Seq<char>
    decreases lines.len(),
{
    if lines.len() == 0 {
        Seq::empty()
    } else {
        listing(lines.drop_last()) + lines.last() + "\n"@
    }
}

/// The text of a report up to the line that gives the coverage in percent.
pub open spec fn report_head(
    run_num: usize,
    registered: Seq<Seq<char>>,
    executed: Seq<Seq<char>>,
    registered_count: usize,
    executed_count: usize,
) -> Seq<char> {
    "=== RUN_"@ + decimal(run_num as nat) + " ===\n=== REGISTERED_LINES ===\n"@ + listing(
        registered,
    ) + "\n=== EXECUTED_LINES ===\n"@ + listing(executed)
        + "\n=== SUMMARY ===\nregistered_count="@ + decimal(registered_count as nat)
        + "\nexecuted_count="@ + decimal(executed_count as nat) + "\n"@
}

/// The text of a report after the line that gives the coverage in percent.
pub open spec fn report_tail(timestamp: u64) -> Seq<char> {
    "run_timestamp="@ + decimal(timestamp as nat) + "\n\n"@
}

/// A call for the report at `timestamp` takes the tracker from `before` to
/// `after` and gives `report`: the first call counts the run and gives the
/// report over the lines, every later call gives `None` and changes nothing.
pub open spec fn written(
    before: CoverageView,
    after: CoverageView,
    timestamp: u64,
    report: Option<CoverageReport>,
) -> bool {
    match report {
        Some(report) => {
            &&& !before.stats_written
            &&& after == (CoverageView {
                stats_written: true,
                run_counter: usize_specs::wrapping_add(before.run_counter, 1),
                ..before
            })
            &&& report.run_num == after.run_counter
            &&& report.registered_count == before.registered.len()
            &&& report.executed_count == before.executed.len()
            &&& report.head@ == report_head(
                report.run_num,
                before.registered,
                before.executed,
                report.registered_count,
                report.executed_count,
            )
            &&& report.tail@ == report_tail(timestamp)
        },
        None => before.stats_written && after == before,
    }
}

fn append_listing(text: &mut String, lines: &Vec<String>)
    ensures
        final(text)@ == old(text)@ + listing(texts(lines@)),
{
    let mut i: usize = 0;
    while i < lines.len()
        invariant
            i <= lines@.len(),
            text@ == old(text)@ + listing(texts(lines@.take(i as int))),
        decreases lines@.len() - i,
    {
        text.append(lines[i].as_str());
        text.append("\n");
        i += 1;
        proof {
            let taken = texts(lines@.take(i as int));
            assert(taken.drop_last() =~= texts(lines@.take(i - 1)));
            assert(taken.last() == lines@[i - 1]@);
            assert(text@ =~= old(text)@ + listing(taken));
        }
    }
    assert(lines@.take(i as int) =~= lines@);
}

impl View for UnsafeCoverageTracker {
    type V = CoverageView;

    closed spec fn view(&self) -> CoverageView {
        CoverageView {
            registered: texts(self.registered_lines@),
            executed: texts(self.executed_lines@),
            stats_written: self.stats_written,
            run_counter: self.run_counter,
        }
    }
}

impl UnsafeCoverageTracker {
    /// Both lists are in ascending order, so that no line stands twice in
    /// either.
    pub open spec fn wf(&self) -> bool {
        &&& ascending(self@.registered)
        &&& ascending(self@.executed)
    }

    /// A tracker without lines.
    pub fn new() -> (tracker: Self)
        ensures
            tracker.wf(),
            tracker@ == (CoverageView {
                registered: Seq::empty(),
                executed: Seq::empty(),
                stats_written: false,
                run_counter: 0,
            }),
    {
        let tracker = UnsafeCoverageTracker {
            registered_lines: Vec::new(),
            executed_lines: Vec::new(),
            stats_written: false,
            run_counter: 0,
        };
        assert(tracker@.registered =~= Seq::empty());
        assert(tracker@.executed =~= Seq::empty());
        tracker
    }

    /// The text that stands for line `line` of `file`.
    pub fn make_location(line: i64, file: SourceFile) -> (location: String)
        ensures
            location@ == location_text(line, file),
    {
        let mut location = String::new();
        match file {
            SourceFile::Unknown => {
                location.append("<unknown>:");
            },
            SourceFile::Invalid => {
                location.append("<invalid>:");
            },
            SourceFile::Name(name) => {
                location.append(name);
                location.append(":");
            },
        }
        append_signed_decimal(&mut location, line);
        assert(location@ =~= location_text(line, file));
        location
    }

    /// Takes line `line` of `file` as found at compile time.
    pub fn register_line(&mut self, line: i64, file: SourceFile)
        requires
            old(self).wf(),
        ensures
            final(self).wf(),
            with_line(old(self)@.registered, final(self)@.registered, location_text(line, file)),
            final(self)@ == (CoverageView { registered: final(self)@.registered, ..old(self)@ }),
    {
        let location = Self::make_location(line, file);
        insert_line(&mut self.registered_lines, location);
    }

    /// Takes line `line` of `file` as executed.
    pub fn track_execution(&mut self, line: i64, file: SourceFile)
        requires
            old(self).wf(),
        ensures
            final(self).wf(),
            with_line(old(self)@.executed, final(self)@.executed, location_text(line, file)),
            final(self)@ == (CoverageView { executed: final(self)@.executed, ..old(self)@ }),
    {
        let location = Self::make_location(line, file);
        insert_line(&mut self.executed_lines, location);
    }

    /// Number of lines found at compile time.
    pub fn get_registered_count(&self) -> (count: usize)
        ensures
            count == self@.registered.len(),
    {
        self.registered_lines.len()
    }

    /// Number of lines that were executed.
    pub fn get_executed_count(&self) -> (count: usize)
        ensures
            count == self@.executed.len(),
    {
        self.executed_lines.len()
    }

    /// Forgets all lines and all reports.
    pub fn reset(&mut self)
        ensures
            final(self).wf(),
            final(self)@ == (CoverageView {
                registered: Seq::empty(),
                executed: Seq::empty(),
                stats_written: false,
                run_counter: 0,
            }),
    {
        self.registered_lines.clear();
        self.executed_lines.clear();
        self.stats_written = false;
        self.run_counter = 0;
        assert(self@.registered =~= Seq::empty());
        assert(self@.executed =~= Seq::empty());
    }

    /// Hands out the coverage report, once until the next `reset`: the first
    /// call counts the run and gives the report, every later call gives
    /// `None` and changes nothing.
    pub fn write_stats(&mut self, timestamp: u64) -> (report: Option<CoverageReport>)
        requires
            old(self).wf(),
        ensures
            final(self).wf(),
            written(old(self)@, final(self)@, timestamp, report),
    {
        if self.stats_written {
            return None;
        }
        self.stats_written = true;
        let registered_count = self.registered_lines.len();
        let executed_count = self.executed_lines.len();
        let run_num = self.run_counter.wrapping_add(1);
        self.run_counter = run_num;
        Some(
            Self::write_detailed_stats(
                run_num,
                &self.registered_lines,
                &self.executed_lines,
                registered_count,
                executed_count,
                timestamp,
            ),
        )
    }

    /// The report of run `run_num` over the lines `registered` and
    /// `executed`, with the counts and the time as given.
    pub fn write_detailed_stats(
        run_num: usize,
        registered: &Vec<String>,
        executed: &Vec<String>,
        registered_count: usize,
        executed_count: usize,
        timestamp: u64,
    ) -> (report: CoverageReport)
        ensures
            report.run_num == run_num,
            report.registered_count == registered_count,
            report.executed_count == executed_count,
            report.head@ == report_head(
                run_num,
                texts(registered@),
                texts(executed@),
                registered_count,
                executed_count,
            ),
            report.tail@ == report_tail(timestamp),
    {
        let mut head = String::new();
        head.append("=== RUN_");
        append_decimal(&mut head, run_num as u64);
        head.append(" ===\n=== REGISTERED_LINES ===\n");
        append_listing(&mut head, registered);
        head.append("\n=== EXECUTED_LINES ===\n");
        append_listing(&mut head, executed);
        head.append("\n=== SUMMARY ===\nregistered_count=");
        append_decimal(&mut head, registered_count as u64);
        head.append("\nexecuted_count=");
        append_decimal(&mut head, executed_count as u64);
        head.append("\n");
        let mut tail = String::new();
        tail.append("run_timestamp=");
        append_decimal(&mut tail, timestamp);
        tail.append("\n\n");
        assert(head@ =~= report_head(
            run_num,
            texts(registered@),
            texts(executed@),
            registered_count,
            executed_count,
        ));
        assert(tail@ =~= report_tail(timestamp));
        CoverageReport { run_num, registered_count, executed_count, head, tail }
    }
}

/// Takes line `line` of `file` as found at compile time.
pub fn register_unsafe_line(tracker: &mut UnsafeCoverageTracker, line: i64, file: SourceFile)
    requires
        old(tracker).wf(),
    ensures
        final(tracker).wf(),
        with_line(old(tracker)@.registered, final(tracker)@.registered, location_text(line, file)),
        final(tracker)@ == (CoverageView { registered: final(tracker)@.registered, ..old(tracker)@ }),
{
    tracker.register_line(line, file);
}

/// Takes line `line` of `file` as executed.
pub fn track_unsafe_line_execution(
    tracker: &mut UnsafeCoverageTracker,
    line: i64,
    file: SourceFile,
)
    requires
        old(tracker).wf(),
    ensures
        final(tracker).wf(),
        with_line(old(tracker)@.executed, final(tracker)@.executed, location_text(line, file)),
        final(tracker)@ == (CoverageView { executed: final(tracker)@.executed, ..old(tracker)@ }),
{
    tracker.track_execution(line, file);
}

/// Number of lines found at compile time.
pub fn get_registered_unsafe_lines_count(tracker: &UnsafeCoverageTracker) -> (count: usize)
    ensures
        count == tracker@.registered.len(),
{
    tracker.get_registered_count()
}

/// Number of lines that were executed.
pub fn get_executed_unsafe_lines_count(tracker: &UnsafeCoverageTracker) -> (count: usize)
    ensures
        count == tracker@.executed.len(),
{
    tracker.get_executed_count()
}

/// Forgets all lines and all reports.
pub fn reset_unsafe_coverage_stats(tracker: &mut UnsafeCoverageTracker)
    ensures
        final(tracker).wf(),
        final(tracker)@ == (CoverageView {
            registered: Seq::empty(),
            executed: Seq::empty(),
            stats_written: false,
            run_counter: 0,
        }),
{
    tracker.reset();
}

/// Hands out the coverage report, once until the next reset.
pub fn print_unsafe_coverage_stats(tracker: &mut UnsafeCoverageTracker, timestamp: u64) -> (report:
    Option<CoverageReport>)
    requires
        old(tracker).wf(),
    ensures
        final(tracker).wf(),
        written(old(tracker)@, final(tracker)@, timestamp, report),
{
    tracker.write_stats(timestamp)
}

proof fn lemma_line_order_is_strict(a: Seq<char>, b: Seq<char>)
    requires
        line_precedes(a, b),
    ensures
        a != b,
        !line_precedes(b, a),
{
    if line_precedes(b, a) {
        lemma_precedes_transitive(encode_utf8(a), encode_utf8(b), encode_utf8(a));
    }
}

/// A set of lines has one listing in ascending order: two ascending lists
/// that hold the same lines are the same list.
pub proof fn lemma_ascending_listing_is_unique(x: Seq<Seq<char>>, y: Seq<Seq<char>>)
    requires
        ascending(x),
        ascending(y),
        forall|t: Seq<char>| x.contains(t) <==> y.contains(t),
    ensures
        x == y,
    decreases x.len(),
{
    if x.len() == 0 {
        if y.len() > 0 {
            assert(y.contains(y[0]));
        }
        assert(x =~= y);
    } else {
        assert(x.contains(x[0]));
        let j = choose|j: int| 0 <= j < y.len() && y[j] == x[0];
        assert(y.contains(y[0]));
        let i = choose|i: int| 0 <= i < x.len() && x[i] == y[0];
        if j > 0 {
            lemma_line_order_is_strict(y[0], y[j]);
            if i > 0 {
                lemma_line_order_is_strict(x[0], x[i]);
            }
        }
        assert(x[0] == y[0]);
        let xs = x.skip(1);
        let ys = y.skip(1);
        assert forall|t: Seq<char>| xs.contains(t) <==> ys.contains(t) by {
            if xs.contains(t) {
                let k = choose|k: int| 0 <= k < xs.len() && xs[k] == t;
                assert(x[k + 1] == t);
                lemma_line_order_is_strict(x[0], x[k + 1]);
                assert(x.contains(t));
                let m = choose|m: int| 0 <= m < y.len() && y[m] == t;
                assert(ys[m - 1] == t);
            }
            if ys.contains(t) {
                let k = choose|k: int| 0 <= k < ys.len() && ys[k] == t;
                assert(y[k + 1] == t);
                lemma_line_order_is_strict(y[0], y[k + 1]);
                assert(y.contains(t));
                let m = choose|m: int| 0 <= m < x.len() && x[m] == t;
                assert(xs[m - 1] == t);
            }
        }
        assert forall|a: int, b: int| 0 <= a < b < xs.len() implies line_precedes(
            #[trigger] xs[a],
            #[trigger] xs[b],
        ) by {
            assert(xs[a] == x[a + 1] && xs[b] == x[b + 1]);
        }
        assert forall|a: int, b: int| 0 <= a < b < ys.len() implies line_precedes(
            #[trigger] ys[a],
            #[trigger] ys[b],
        ) by {
            assert(ys[a] == y[a + 1] && ys[b] == y[b + 1]);
        }
        lemma_ascending_listing_is_unique(xs, ys);
        assert(x =~= seq![x[0]] + xs);
        assert(y =~= seq![y[0]] + ys);
    }
}

} // verus!
