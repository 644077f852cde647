//! Queries over the signals that a store holds.

use vstd::prelude::*;
use vstd::string::StringSliceAdditionalSpecFns;

verus! {

/// Most signals one page holds.
pub const MAX_PAGE: u32 = 200;

/// Signals on a page where no number is asked for.
pub const DEFAULT_PAGE: u32 = 50;

/// Most sessions one list holds.
pub const MAX_SESSIONS: u32 = 100;

/// Sessions in a list where no number is asked for.
pub const DEFAULT_SESSIONS: u32 = 20;

/// Most signals one export holds.
pub const EXPORT_LIMIT: u32 = 10_000;

/// What a request for signals may say.
#[derive(Clone, Debug, PartialEq, Eq)]
pub struct SignalsQueryParams {
    pub limit: Option<u32>,
    pub offset: Option<u32>,
    pub signal_type: Option<String>,
    pub direction: Option<String>,
    pub outcome: Option<String>,
    pub start_date: Option<String>,
    pub end_date: Option<String>,
}

/// What a request for sessions may say.
#[derive(Clone, Copy, Debug, PartialEq, Eq)]
pub struct SessionsQueryParams {
    pub limit: Option<u32>,
}

/// What a request for an export may say.
#[derive(Clone, Debug, PartialEq, Eq)]
pub struct ExportQueryParams {
    pub signal_type: Option<String>,
    pub direction: Option<String>,
    pub outcome: Option<String>,
    pub start_date: Option<String>,
    pub end_date: Option<String>,
    pub format: Option<String>,
}

/// A query for signals.
#[derive(Clone, Debug, PartialEq, Eq)]
pub struct SignalQuery {
    pub limit: Option<u32>,
    pub offset: Option<u32>,
    pub signal_type: Option<String>,
    pub direction: Option<String>,
    pub outcome: Option<String>,
    pub start_date: Option<String>,
    pub end_date: Option<String>,
}

/// Signals by direction.
#[derive(Clone, Copy, Debug, PartialEq, Eq)]
pub struct DirectionStats {
    pub bullish: u32,
    pub bearish: u32,
}

impl SignalsQueryParams {
    /// The query that the request asks for.
    pub fn into_query(self) -> (query: SignalQuery)
        ensures
            query.limit == self.limit,
            query.offset == self.offset,
            query.signal_type == self.signal_type,
            query.direction == self.direction,
            query.outcome == self.outcome,
            query.start_date == self.start_date,
            query.end_date == self.end_date,
    {
        SignalQuery {
            limit: self.limit,
            offset: self.offset,
            signal_type: self.signal_type,
            direction: self.direction,
            outcome: self.outcome,
            start_date: self.start_date,
            end_date: self.end_date,
        }
    }
}

impl SessionsQueryParams {
    /// Number of sessions to list: what is asked for, twenty where nothing
    /// is, and a hundred at most.
    pub fn page_limit(&self) -> (limit: u32)
        ensures
            limit == (match self.limit {
                Some(n) => if n < MAX_SESSIONS {
                    n
                } else {
                    MAX_SESSIONS
                },
                None => DEFAULT_SESSIONS,
            }),
    {
        match self.limit {
            Some(n) => if n < MAX_SESSIONS {
                n
            } else {
                MAX_SESSIONS
            },
            None => DEFAULT_SESSIONS,
        }
    }
}

impl ExportQueryParams {
    /// The query that the export asks for, and whether it is to be written
    /// as CSV: every signal that matches, up to the export limit, from the
    /// first.
    pub fn into_query(self) -> (query: SignalQuery)
        ensures
            query.limit == Some(EXPORT_LIMIT),
            query.offset.is_none(),
            query.signal_type == self.signal_type,
            query.direction == self.direction,
            query.outcome == self.outcome,
            query.start_date == self.start_date,
            query.end_date == self.end_date,
    {
        SignalQuery {
            limit: Some(EXPORT_LIMIT),
            offset: None,
            signal_type: self.signal_type,
            direction: self.direction,
            outcome: self.outcome,
            start_date: self.start_date,
            end_date: self.end_date,
        }
    }
}

impl SignalQuery {
    /// Number of signals on the page: what is asked for, fifty where nothing
    /// is, and two hundred at most.
    pub fn page_limit(&self) -> (limit: u32)
        ensures
            limit == (match self.limit {
                Some(n) => if n < MAX_PAGE {
                    n
                } else {
                    MAX_PAGE
                },
                None => DEFAULT_PAGE,
            }),
    {
        match self.limit {
            Some(n) => if n < MAX_PAGE {
                n
            } else {
                MAX_PAGE
            },
            None => DEFAULT_PAGE,
        }
    }

    /// Number of signals to skip: what is asked for, none where nothing is.
    pub fn page_offset(&self) -> (offset: u32)
        ensures
            offset == (match self.offset {
                Some(n) => n,
                None => 0,
            }),
    {
        match self.offset {
            Some(n) => n,
            None => 0,
        }
    }
}

/// The byte of a slash.
pub const SLASH: u8 = 47;

/// The byte of a plus sign.
pub const PLUS: u8 = 43;

/// The byte of the digit nought.
pub const ZERO: u8 = 48;

/// The byte of the digit nine.
pub const NINE: u8 = 57;

/// Is every byte a decimal digit?
pub open spec fn all_digits(bytes: Seq<u8>) -> bool {
    forall|i: int| 0 <= i < bytes.len() ==> ZERO <= #[trigger] bytes[i] <= NINE
}

/// The number that decimal digits write.
pub open spec fn digits_value(bytes: Seq<u8>) -> nat
    decreases bytes.len(),
{
    if bytes.len() == 0 {
        0
    } else {
        digits_value(bytes.drop_last()) * 10 + (bytes.last() - ZERO) as nat
    }
}

/// The number that digits write, if there is one digit or more, nothing
/// else, and the number is no larger than `max`.
pub open spec fn digits_number(digits: Seq<u8>, max: nat) -> Option<nat> {
    if digits.len() == 0 || !all_digits(digits) || digits_value(digits) > max {
        None
    } else {
        Some(digits_value(digits))
    }
}

/// The number that a text writes, if it writes one no larger than `max`: a
/// plus sign or none, then one decimal digit or more, and nothing else.
pub open spec fn spec_unsigned(bytes: Seq<u8>, max: nat) -> Option<nat> {
    if bytes.len() > 0 && bytes[0] == PLUS {
        digits_number(bytes.subrange(1, bytes.len() as int), max)
    } else {
        digits_number(bytes, max)
    }
}

/// Index of the first slash at or after `from`; the length where there is
/// none.
pub open spec fn slash_from(bytes: Seq<u8>, from: int) -> int
    decreases bytes.len() - from,
{
    if from >= bytes.len() || from < 0 {
        bytes.len() as int
    } else if bytes[from] == SLASH {
        from
    } else {
        slash_from(bytes, from + 1)
    }
}

/// Where the part after the last slash begins; nought where there is no
/// slash.
pub open spec fn after_last_slash(bytes: Seq<u8>) -> int
    decreases bytes.len(),
{
    if bytes.len() == 0 {
        0
    } else if bytes.last() == SLASH {
        bytes.len() as int
    } else {
        after_last_slash(bytes.drop_last())
    }
}

/// The total that a content range such as `0-49/1234` names: the number
/// between its first slash and its second, or its end; nought where there is
/// no slash or no number no larger than `max` there.
pub open spec fn spec_total_after_slash(bytes: Seq<u8>, max: nat) -> nat {
    let first = slash_from(bytes, 0);
    if first >= bytes.len() {
        0
    } else {
        match spec_unsigned(bytes.subrange(first + 1, slash_from(bytes, first + 1)), max) {
            Some(n) => n,
            None => 0,
        }
    }
}

/// The total that a content range names after its last slash: the number
/// there, or the whole text where there is no slash; nought where that is no
/// number no larger than `max`.
pub open spec fn spec_total_after_last_slash(bytes: Seq<u8>, max: nat) -> nat {
    match spec_unsigned(bytes.subrange(after_last_slash(bytes), bytes.len() as int), max) {
        Some(n) => n,
        None => 0,
    }
}

proof fn lemma_digits_grow(bytes: Seq<u8>, i: int)
    requires
        0 <= i <= bytes.len(),
        all_digits(bytes),
    ensures
        digits_value(bytes.take(i)) <= digits_value(bytes),
    decreases bytes.len() - i,
{
    if i == bytes.len() {
        assert(bytes.take(i) =~= bytes);
    } else {
        lemma_digits_grow(bytes, i + 1);
        assert(bytes.take(i + 1).drop_last() =~= bytes.take(i));
        assert(ZERO <= bytes[i] <= NINE);
        assert(bytes.take(i + 1).last() == bytes[i]);
    }
}

/// Reads the number that the bytes from `from` up to `to` write.
pub fn parse_unsigned(bytes: &[u8], from: usize, to: usize, max: u64) -> (number: Option<u64>)
    requires
        from <= to <= bytes@.len(),
    ensures
        number.is_some() == spec_unsigned(bytes@.subrange(from as int, to as int), max as nat).is_some(),
        number.is_some() ==> number.unwrap() == spec_unsigned(
            bytes@.subrange(from as int, to as int),
            max as nat,
        ).unwrap(),
{
    let ghost text = bytes@.subrange(from as int, to as int);
    let start = if from < to && bytes[from] == PLUS {
        from + 1
    } else {
        from
    };
    let ghost digits = bytes@.subrange(start as int, to as int);
    proof {
        if from < to {
            assert(text[0] == bytes@[from as int]);
        }
        if start > from {
            assert(text.subrange(1, text.len() as int) =~= digits);
        } else {
            assert(text =~= digits);
        }
        assert(spec_unsigned(text, max as nat) == digits_number(digits, max as nat));
    }
    if start == to {
        return None;
    }
    let mut value: u64 = 0;
    let mut i: usize = start;
    proof {
        assert(digits.take(0) =~= Seq::<u8>::empty());
    }
    while i < to
        invariant
            start <= i <= to <= bytes@.len(),
            start < to,
            digits == bytes@.subrange(start as int, to as int),
            spec_unsigned(bytes@.subrange(from as int, to as int), max as nat) == digits_number(
                digits,
                max as nat,
            ),
            all_digits(digits.take(i - start)),
            value == digits_value(digits.take(i - start)),
            value <= max,
        decreases to - i,
    {
        let b = bytes[i];
        proof {
            assert(digits[i - start] == b);
            assert(digits.take(i - start + 1).drop_last() =~= digits.take(i - start));
            assert(digits.take(i - start + 1).last() == b);
        }
        if b < ZERO || b > NINE {
            proof {
                assert(!all_digits(digits));
            }
            return None;
        }
        let d = (b - ZERO) as u64;
        if d > max || value > (max - d) / 10 {
            proof {
                assert(value * 10 + d > max) by (nonlinear_arith)
                    requires
                        d > max || value > (max - d) / 10,
                        0 <= d,
                        0 <= value,
                        0 <= max,
                ;
                if all_digits(digits) {
                    lemma_digits_grow(digits, i - start + 1);
                }
            }
            return None;
        }
        proof {
            assert(value * 10 + d <= max) by (nonlinear_arith)
                requires
                    value <= (max - d) / 10,
                    d <= max,
            ;
            assert forall|k: int| 0 <= k < i - start + 1 implies ZERO <= #[trigger] digits.take(
                i - start + 1,
            )[k] <= NINE by {
                if k < i - start {
                    assert(digits.take(i - start)[k] == digits.take(i - start + 1)[k]);
                }
            }
        }
        value = value * 10 + d;
        i += 1;
    }
    proof {
        assert(digits.take(to - start) =~= digits);
    }
    Some(value)
}

/// Index of the first slash at or after `from`.
pub fn find_slash(bytes: &[u8], from: usize) -> (at: usize)
    requires
        from <= bytes@.len(),
    ensures
        at == slash_from(bytes@, from as int),
        from <= at <= bytes@.len(),
{
    let mut i: usize = from;
    while i < bytes.len() && bytes[i] != SLASH
        invariant
            from <= i <= bytes@.len(),
            slash_from(bytes@, from as int) == slash_from(bytes@, i as int),
        decreases bytes@.len() - i,
    {
        i += 1;
    }
    i
}

/// The total that a content range names after its first slash.
pub fn total_after_slash(range: &str) -> (total: u32)
    ensures
        total == spec_total_after_slash(range.spec_bytes(), u32::MAX as nat),
{
    let bytes = range.as_bytes();
    let first = find_slash(bytes, 0);
    if first >= bytes.len() {
        return 0;
    }
    let second = find_slash(bytes, first + 1);
    match parse_unsigned(bytes, first + 1, second, u32::MAX as u64) {
        Some(n) => n as u32,
        None => 0,
    }
}

/// The total that a content range names after its last slash.
pub fn total_after_last_slash(range: &str) -> (total: usize)
    ensures
        total == spec_total_after_last_slash(range.spec_bytes(), usize::MAX as nat),
{
    let bytes = range.as_bytes();
    let mut start: usize = bytes.len();
    proof {
        assert(bytes@.take(start as int) =~= bytes@);
    }
    while start > 0 && bytes[start - 1] != SLASH
        invariant
            0 <= start <= bytes@.len(),
            after_last_slash(bytes@) == after_last_slash(bytes@.take(start as int)),
        decreases start,
    {
        proof {
            assert(bytes@.take(start as int).drop_last() =~= bytes@.take(start - 1));
            assert(bytes@.take(start as int).last() == bytes@[start - 1]);
        }
        start -= 1;
    }
    proof {
        if start > 0 {
            assert(bytes@.take(start as int).last() == bytes@[start - 1]);
        }
    }
    match parse_unsigned(bytes, start, bytes.len(), usize::MAX as u64) {
        Some(n) => n as usize,
        None => 0,
    }
}

/// One stored signal, as far as the roll-up looks at it.
#[derive(Clone, Debug, PartialEq, Eq)]
pub struct SignalSummary {
    pub signal_type: String,
    pub direction: String,
    pub outcome: Option<String>,
}

/// How the stored signals of one kind fared.
#[derive(Clone, Debug, PartialEq, Eq)]
pub struct SignalTypeStats {
    pub signal_type: String,
    pub count: u32,
    pub wins: u32,
    pub losses: u32,
    pub breakeven: u32,
}

/// The roll-up of the stored signals.
#[derive(Clone, Debug, PartialEq, Eq)]
pub struct AggregateStats {
    pub total_signals: u32,
    pub by_type: Vec<SignalTypeStats>,
    pub by_direction: DirectionStats,
}

/// Number of signals that point up: those whose direction reads `bullish`.
pub open spec fn bullish_among(rows: Seq<SignalSummary>) -> nat
    decreases rows.len(),
{
    if rows.len() == 0 {
        0
    } else {
        bullish_among(rows.drop_last()) + if rows.last().direction@ == "bullish"@ {
            1nat
        } else {
            0nat
        }
    }
}

/// Does the signal have this outcome?
pub open spec fn fared(row: SignalSummary, outcome: Seq<char>) -> bool {
    row.outcome.is_some() && row.outcome.unwrap()@ == outcome
}

/// Number of signals of kind `kind` among the rows, and, with an outcome
/// given, of those that have it.
pub open spec fn kind_count(rows: Seq<SignalSummary>, kind: Seq<char>, outcome: Option<Seq<char>>) -> nat
    decreases rows.len(),
{
    if rows.len() == 0 {
        0
    } else {
        kind_count(rows.drop_last(), kind, outcome) + if rows.last().signal_type@ == kind && (
        outcome.is_none() || fared(rows.last(), outcome.unwrap())) {
            1nat
        } else {
            0nat
        }
    }
}

/// The kinds among the rows, in the order they first occur.
pub open spec fn kinds_of(rows: Seq<SignalSummary>) -> Seq<Seq<char>>
    decreases rows.len(),
{
    if rows.len() == 0 {
        Seq::empty()
    } else {
        let before = kinds_of(rows.drop_last());
        if before.contains(rows.last().signal_type@) {
            before
        } else {
            before.push(rows.last().signal_type@)
        }
    }
}

/// Are these the figures of kind `kind`?
pub open spec fn tallies(stats: SignalTypeStats, rows: Seq<SignalSummary>, kind: Seq<char>) -> bool {
    &&& stats.signal_type@ == kind
    &&& stats.count == kind_count(rows, kind, None)
    &&& stats.wins == kind_count(rows, kind, Some("win"@))
    &&& stats.losses == kind_count(rows, kind, Some("loss"@))
    &&& stats.breakeven == kind_count(rows, kind, Some("breakeven"@))
}

/// Is this the roll-up of the rows? Every signal counts as bullish or as
/// bearish; every kind has its figures, the kinds in the order they first
/// occur.
pub open spec fn rolls_up(stats: AggregateStats, rows: Seq<SignalSummary>) -> bool {
    &&& stats.total_signals == rows.len()
    &&& stats.by_direction.bullish == bullish_among(rows)
    &&& stats.by_direction.bearish == rows.len() - bullish_among(rows)
    &&& stats.by_type@.len() == kinds_of(rows).len()
    &&& forall|k: int|
        0 <= k < stats.by_type@.len() ==> tallies(#[trigger] stats.by_type@[k], rows, kinds_of(rows)[k])
}

proof fn lemma_counts_bounded(rows: Seq<SignalSummary>, kind: Seq<char>, outcome: Option<Seq<char>>)
    ensures
        kind_count(rows, kind, outcome) <= rows.len(),
        bullish_among(rows) <= rows.len(),
    decreases rows.len(),
{
    if rows.len() > 0 {
        lemma_counts_bounded(rows.drop_last(), kind, outcome);
    }
}

/// Rolls the stored signals up by direction and by kind.
pub fn aggregate_signals(rows: &Vec<SignalSummary>) -> (stats: AggregateStats)
    requires
        rows@.len() <= u32::MAX,
    ensures
        rolls_up(stats, rows@),
{
    let mut by_type: Vec<SignalTypeStats> = Vec::new();
    let mut bullish: u32 = 0;
    let mut i: usize = 0;
    proof {
        assert(rows@.take(0) =~= Seq::<SignalSummary>::empty());
        reveal_strlit("win");
        reveal_strlit("loss");
        reveal_strlit("breakeven");
    }
    while i < rows.len()
        invariant
            0 <= i <= rows.len(),
            rows@.len() <= u32::MAX,
            bullish == bullish_among(rows@.take(i as int)),
            by_type@.len() == kinds_of(rows@.take(i as int)).len(),
            forall|k: int|
                0 <= k < by_type@.len() ==> tallies(
                    #[trigger] by_type@[k],
                    rows@.take(i as int),
                    kinds_of(rows@.take(i as int))[k],
                ),
        decreases rows.len() - i,
    {
        let row = &rows[i];
        let ghost before = rows@.take(i as int);
        let ghost next = rows@.take(i + 1);
        let ghost kinds = kinds_of(before);
        let ghost kind = row.signal_type@;
        proof {
            assert(next.drop_last() =~= before);
            assert(next.last() == *row);
            lemma_counts_bounded(next, kind, None);
            lemma_counts_bounded(next, kind, Some("win"@));
            lemma_counts_bounded(next, kind, Some("loss"@));
            lemma_counts_bounded(next, kind, Some("breakeven"@));
        }
        if row.direction == "bullish".to_owned() {
            bullish = bullish + 1;
        }
        let is_win = match &row.outcome {
            Some(o) => *o == "win".to_owned(),
            None => false,
        };
        let is_loss = match &row.outcome {
            Some(o) => *o == "loss".to_owned(),
            None => false,
        };
        let is_even = match &row.outcome {
            Some(o) => *o == "breakeven".to_owned(),
            None => false,
        };
        let mut j: usize = 0;
        while j < by_type.len() && by_type[j].signal_type != row.signal_type
            invariant
                0 <= j <= by_type@.len(),
                by_type@.len() == kinds.len(),
                forall|k: int| 0 <= k < by_type@.len() ==> (#[trigger] by_type@[k]).signal_type@ == kinds[k],
                forall|k: int| 0 <= k < j ==> kinds[k] != kind,
                kind == row.signal_type@,
            decreases by_type@.len() - j,
        {
            j += 1;
        }
        let ghost old_types = by_type@;
        if j < by_type.len() {
            proof {
                assert(kinds[j as int] == kind);
                assert(kinds.contains(kind));
                assert(tallies(old_types[j as int], before, kinds[j as int]));
            }
            by_type[j].count = by_type[j].count + 1;
            if is_win {
                by_type[j].wins = by_type[j].wins + 1;
            }
            if is_loss {
                by_type[j].losses = by_type[j].losses + 1;
            }
            if is_even {
                by_type[j].breakeven = by_type[j].breakeven + 1;
            }
        } else {
            proof {
                assert(!kinds.contains(kind)) by {
                    if kinds.contains(kind) {
                        let k = choose|k: int| 0 <= k < kinds.len() && kinds[k] == kind;
                        assert(kinds[k] != kind);
                    }
                }
                lemma_unseen_kind(before, kind, None);
                lemma_unseen_kind(before, kind, Some("win"@));
                lemma_unseen_kind(before, kind, Some("loss"@));
                lemma_unseen_kind(before, kind, Some("breakeven"@));
            }
            by_type.push(
                SignalTypeStats {
                    signal_type: row.signal_type.clone(),
                    count: 1,
                    wins: if is_win {
                        1
                    } else {
                        0
                    },
                    losses: if is_loss {
                        1
                    } else {
                        0
                    },
                    breakeven: if is_even {
                        1
                    } else {
                        0
                    },
                },
            );
        }
        proof {
            lemma_kinds_distinct(before);
            assert forall|k: int| 0 <= k < by_type@.len() implies tallies(
                #[trigger] by_type@[k],
                next,
                kinds_of(next)[k],
            ) by {
                if k < old_types.len() {
                    assert(tallies(old_types[k], before, kinds[k]));
                    if k != j {
                        assert(by_type@[k] == old_types[k]);
                        assert(kinds[k] != kind) by {
                            if j < old_types.len() {
                                assert(kinds[j as int] == kind);
                            } else if kinds[k] == kind {
                                assert(kinds.contains(kind));
                            }
                        }
                    }
                }
            }
        }
        i += 1;
    }
    proof {
        assert(rows@.take(i as int) =~= rows@);
        lemma_counts_bounded(rows@, Seq::empty(), None);
    }
    AggregateStats {
        total_signals: rows.len() as u32,
        by_type,
        by_direction: DirectionStats { bullish, bearish: rows.len() as u32 - bullish },
    }
}

proof fn lemma_kinds_distinct(rows: Seq<SignalSummary>)
    ensures
        forall|k: int, l: int|
            0 <= k < l < kinds_of(rows).len() ==> kinds_of(rows)[k] != kinds_of(rows)[l],
    decreases rows.len(),
{
    if rows.len() > 0 {
        lemma_kinds_distinct(rows.drop_last());
        let before = kinds_of(rows.drop_last());
        let last = rows.last().signal_type@;
        if !before.contains(last) {
            assert forall|k: int, l: int| 0 <= k < l < before.push(last).len() implies before.push(
                last,
            )[k] != before.push(last)[l] by {
                if l == before.len() {
                    if before[k] == last {
                        assert(before.contains(last));
                    }
                }
            }
        }
    }
}

proof fn lemma_unseen_kind(rows: Seq<SignalSummary>, kind: Seq<char>, outcome: Option<Seq<char>>)
    requires
        !kinds_of(rows).contains(kind),
    ensures
        kind_count(rows, kind, outcome) == 0,
    decreases rows.len(),
{
    if rows.len() > 0 {
        let before = kinds_of(rows.drop_last());
        let last = rows.last().signal_type@;
        if before.contains(last) {
            lemma_unseen_kind(rows.drop_last(), kind, outcome);
            assert(last != kind);
        } else {
            assert(before.push(last).last() == last);
            assert(before.push(last).contains(last));
            assert(!before.contains(kind)) by {
                if before.contains(kind) {
                    let k = choose|k: int| 0 <= k < before.len() && before[k] == kind;
                    assert(before.push(last)[k] == kind);
                }
            }
            lemma_unseen_kind(rows.drop_last(), kind, outcome);
        }
    }
}

} // verus!
