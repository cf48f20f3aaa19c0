//! The state of the battery, read from the text the kernel reports it in.
//!
//! The report is a list of lines of the form `KEY=value`. Reading the file
//! is left to the embedding; [`battery_status`] takes the text.

use vstd::prelude::*;
use vstd::string::StringSliceAdditionalSpecFns;

verus! {

pub const LINE_FEED: u8 = 10;

pub const CARRIAGE_RETURN: u8 = 13;

pub const PLUS: u8 = 43;

pub const EQUALS: u8 = 61;

/// The seconds after which the battery's state is read again.
pub const CHECK_INTERVAL: u64 = 5;

pub const NANOS_PER_SECOND: u64 = 1_000_000_000;

/// What the report says of the battery.
#[derive(Clone, Copy, Debug, PartialEq, Eq, Hash, Structural)]
pub struct BatteryState {
    pub percentage: u8,
    pub charging: bool,
    pub error: bool,
    pub critical: bool,
}

/// Why there is no state to show.
#[derive(Clone, Copy, Debug, PartialEq, Eq, Structural)]
pub enum BatteryError {
    /// The report could not be read at all.
    Unreadable,
    /// The report names no capacity, or one that is no number up to 255.
    InvalidData,
}

/// The colour of the fill of the battery icon.
#[derive(Clone, Copy, Debug, PartialEq, Eq, Structural)]
pub enum Tint {
    Charging,
    Critical,
    Normal,
}

/// What the battery icon shows.
#[derive(Clone, Copy, Debug, PartialEq, Eq, Structural)]
pub enum BatteryIcon {
    /// A fill as wide as the charge, and a bolt over it while charging.
    Level { percentage: u8, tint: Tint, bolt: bool },
    /// A warning sign: the state is unknown, or the battery reports an
    /// error.
    Warning,
}

/// The number of bytes of `text` before the first `stop`; all of them if
/// there is none.
pub open spec fn span(text: Seq<u8>, stop: u8) -> nat
    decreases text.len(),
{
    if text.len() == 0 || text[0] == stop {
        0
    } else {
        1 + span(text.drop_first(), stop)
    }
}

/// The first line of `text`, without its line feed and without a carriage
/// return that stands before the line feed.
pub open spec fn first_line(text: Seq<u8>) -> Seq<u8> {
    let end = span(text, LINE_FEED) as int;
    if 0 < end < text.len() && text[end - 1] == CARRIAGE_RETURN {
        text.take(end - 1)
    } else {
        text.take(end)
    }
}

/// The value a line gives to `key`: the line begins with the key and an
/// equals sign, and the value is what follows, up to the next equals sign.
pub open spec fn value_in(line: Seq<u8>, key: Seq<u8>) -> Option<Seq<u8>> {
    let split = span(line, EQUALS) as int;
    if split < line.len() && line.take(split) == key {
        let rest = line.skip(split + 1);
        Some(rest.take(span(rest, EQUALS) as int))
    } else {
        None
    }
}

/// The value the report gives to `key`: that of the last line that gives
/// it one.
pub open spec fn lookup(text: Seq<u8>, key: Seq<u8>) -> Option<Seq<u8>>
    decreases text.len(),
{
    if text.len() == 0 {
        None
    } else {
        let end = span(text, LINE_FEED) as int;
        let later = if end < text.len() {
            lookup(text.skip(end + 1), key)
        } else {
            None
        };
        match later {
            Some(value) => Some(value),
            None => value_in(first_line(text), key),
        }
    }
}

/// The lines of a text. A text that ends in a line feed has no empty line
/// after it.
pub open spec fn lines(text: Seq<u8>) -> Seq<Seq<u8>>
    decreases text.len(),
{
    if text.len() == 0 {
        Seq::empty()
    } else {
        let end = span(text, LINE_FEED) as int;
        let later = if end < text.len() {
            lines(text.skip(end + 1))
        } else {
            Seq::empty()
        };
        seq![first_line(text)] + later
    }
}

pub open spec fn is_digit(byte: u8) -> bool {
    48 <= byte <= 57
}

/// The number that decimal digits write.
pub open spec fn decimal(digits: Seq<u8>) -> nat
    decreases digits.len(),
{
    if digits.len() == 0 {
        0
    } else {
        decimal(digits.drop_last()) * 10 + (digits.last() - 48) as nat
    }
}

pub open spec fn all_digits(text: Seq<u8>) -> bool {
    forall|i: int| 0 <= i < text.len() ==> is_digit(#[trigger] text[i])
}

/// The text without the plus sign it may begin with.
pub open spec fn unsigned(text: Seq<u8>) -> Seq<u8> {
    if text.len() > 0 && text[0] == PLUS {
        text.drop_first()
    } else {
        text
    }
}

/// The number a text writes, if it is one up to 255: decimal digits, at
/// least one, after at most one plus sign.
pub open spec fn number(text: Seq<u8>) -> Option<u8> {
    let digits = unsigned(text);
    if digits.len() > 0 && all_digits(digits) && decimal(digits) <= 255 {
        Some(decimal(digits) as u8)
    } else {
        None
    }
}

pub open spec fn capacity_key() -> Seq<u8> {
    "POWER_SUPPLY_CAPACITY".spec_bytes()
}

pub open spec fn status_key() -> Seq<u8> {
    "POWER_SUPPLY_STATUS".spec_bytes()
}

/// The state a report describes.
///
/// The capacity is owed: without a readable one there is no state. The
/// status is not: a report without one describes a battery that neither
/// charges, nor is critical, nor reports an error.
pub open spec fn state_of(text: Seq<u8>) -> Result<BatteryState, BatteryError> {
    match lookup(text, capacity_key()) {
        None => Err(BatteryError::InvalidData),
        Some(capacity) => match number(capacity) {
            None => Err(BatteryError::InvalidData),
            Some(percentage) => {
                let status = lookup(text, status_key());
                Ok(
                    BatteryState {
                        percentage,
                        charging: status == Some("Charging".spec_bytes()) || status == Some(
                            "Critical (Charging)".spec_bytes(),
                        ),
                        error: status == Some("None".spec_bytes()),
                        critical: status matches Some(word) && "Critical".spec_bytes().is_prefix_of(
                            word,
                        ),
                    },
                )
            },
        },
    }
}

/// `span` counts the bytes before the first `stop`.
pub proof fn lemma_span(text: Seq<u8>, stop: u8)
    ensures
        span(text, stop) <= text.len(),
        forall|i: int| 0 <= i < span(text, stop) ==> #[trigger] text[i] != stop,
        span(text, stop) < text.len() ==> text[span(text, stop) as int] == stop,
    decreases text.len(),
{
    if text.len() > 0 && text[0] != stop {
        let rest = text.drop_first();
        lemma_span(rest, stop);
        assert forall|i: int| 0 <= i < span(text, stop) implies #[trigger] text[i] != stop by {
            if i > 0 {
                assert(text[i] == rest[i - 1]);
            }
        }
        if span(text, stop) < text.len() {
            assert(text[span(text, stop) as int] == rest[span(rest, stop) as int]);
        }
    }
}

/// A count of bytes before the first `stop` is `span`.
pub proof fn lemma_span_is(text: Seq<u8>, stop: u8, count: int)
    requires
        0 <= count <= text.len(),
        forall|i: int| 0 <= i < count ==> #[trigger] text[i] != stop,
        count < text.len() ==> text[count] == stop,
    ensures
        span(text, stop) == count,
{
    lemma_span(text, stop);
    let found = span(text, stop) as int;
    if found < count {
        assert(text[found] != stop);
    } else if found > count {
        assert(text[count] != stop);
    }
}

/// The value the report gives to a key is the value that the last of the
/// lines that give it one gives it; the report gives it none only if no
/// line does.
pub proof fn lookup_reads_the_last_line(text: Seq<u8>, key: Seq<u8>)
    ensures
        match lookup(text, key) {
            Some(value) => exists|at: int|
                {
                    &&& 0 <= at < lines(text).len()
                    &&& value_in(#[trigger] lines(text)[at], key) == Some(value)
                    &&& forall|after: int|
                        at < after < lines(text).len() ==> value_in(
                            #[trigger] lines(text)[after],
                            key,
                        ) is None
                },
            None => forall|at: int|
                0 <= at < lines(text).len() ==> value_in(#[trigger] lines(text)[at], key) is None,
        },
    decreases text.len(),
{
    if text.len() > 0 {
        let end = span(text, LINE_FEED) as int;
        let all = lines(text);
        if end < text.len() {
            let rest = text.skip(end + 1);
            lookup_reads_the_last_line(rest, key);
            assert forall|at: int| 0 < at < all.len() implies #[trigger] all[at] == lines(rest)[at
                - 1] by {}
            match lookup(rest, key) {
                Some(value) => {
                    let found = choose|at: int|
                        {
                            &&& 0 <= at < lines(rest).len()
                            &&& value_in(#[trigger] lines(rest)[at], key) == Some(value)
                            &&& forall|after: int|
                                at < after < lines(rest).len() ==> value_in(
                                    #[trigger] lines(rest)[after],
                                    key,
                                ) is None
                        };
                    assert(all[found + 1] == lines(rest)[found]);
                    assert forall|after: int| found + 1 < after < all.len() implies value_in(
                        #[trigger] all[after],
                        key,
                    ) is None by {
                        assert(all[after] == lines(rest)[after - 1]);
                    }
                },
                None => {
                    assert(all[0] == first_line(text));
                    assert forall|after: int| 0 < after < all.len() implies value_in(
                        #[trigger] all[after],
                        key,
                    ) is None by {
                        assert(all[after] == lines(rest)[after - 1]);
                    }
                },
            }
        } else {
            assert(all =~= seq![first_line(text)]);
            assert(all[0] == first_line(text));
        }
    }
}

/// No line holds a line feed.
pub proof fn lines_hold_no_line_feed(text: Seq<u8>, at: int, within: int)
    requires
        0 <= at < lines(text).len(),
        0 <= within < lines(text)[at].len(),
    ensures
        lines(text)[at][within] != LINE_FEED,
    decreases text.len(),
{
    let end = span(text, LINE_FEED) as int;
    lemma_span(text, LINE_FEED);
    if at == 0 {
        assert(lines(text)[0] == first_line(text));
        assert(first_line(text)[within] == text[within]);
    } else {
        let rest = text.skip(end + 1);
        assert(lines(text)[at] == lines(rest)[at - 1]);
        lines_hold_no_line_feed(rest, at - 1, within);
    }
}

/// A longer row of digits writes no smaller number.
pub proof fn lemma_decimal_grows(digits: Seq<u8>, count: int)
    requires
        0 <= count <= digits.len(),
        all_digits(digits),
    ensures
        decimal(digits.take(count)) <= decimal(digits),
    decreases digits.len(),
{
    if count == digits.len() {
        assert(digits.take(count) =~= digits);
    } else {
        let shorter = digits.drop_last();
        assert(shorter.take(count) =~= digits.take(count));
        assert forall|i: int| 0 <= i < shorter.len() implies is_digit(#[trigger] shorter[i]) by {
            assert(shorter[i] == digits[i]);
        }
        lemma_decimal_grows(shorter, count);
        assert(is_digit(digits[digits.len() - 1]));
    }
}

/// The place of the first `stop` in `text[from..to]`, or `to`.
fn scan(text: &[u8], from: usize, to: usize, stop: u8) -> (at: usize)
    requires
        from <= to <= text@.len(),
    ensures
        from <= at <= to,
        at - from == span(text@.subrange(from as int, to as int), stop),
{
    let mut at: usize = from;
    while at < to && text[at] != stop
        invariant
            from <= at <= to <= text@.len(),
            forall|i: int| from <= i < at ==> #[trigger] text@[i] != stop,
        decreases to - at,
    {
        at = at + 1;
    }
    proof {
        let part = text@.subrange(from as int, to as int);
        assert forall|i: int| 0 <= i < at - from implies #[trigger] part[i] != stop by {
            assert(part[i] == text@[from + i]);
        }
        lemma_span_is(part, stop, at - from);
    }
    at
}

/// Whether `text[from..to]` begins with `word`.
fn begins_with(text: &[u8], from: usize, to: usize, word: &[u8]) -> (begins: bool)
    requires
        from <= to <= text@.len(),
    ensures
        begins == word@.is_prefix_of(text@.subrange(from as int, to as int)),
{
    let ghost part = text@.subrange(from as int, to as int);
    if word.len() > to - from {
        return false;
    }
    let mut matched: usize = 0;
    while matched < word.len()
        invariant
            matched <= word@.len() <= to - from,
            from <= to <= text@.len(),
            part == text@.subrange(from as int, to as int),
            forall|i: int| 0 <= i < matched ==> #[trigger] part[i] == word@[i],
        decreases word@.len() - matched,
    {
        if text[from + matched] != word[matched] {
            assert(part[matched as int] != word@[matched as int]);
            assert(part.subrange(0, word@.len() as int)[matched as int] == part[matched as int]);
            return false;
        }
        matched = matched + 1;
    }
    assert(part.subrange(0, word@.len() as int) =~= word@);
    true
}

/// Whether `text[from..to]` is `word`.
fn is_word(text: &[u8], from: usize, to: usize, word: &[u8]) -> (same: bool)
    requires
        from <= to <= text@.len(),
    ensures
        same == (text@.subrange(from as int, to as int) == word@),
{
    let ghost part = text@.subrange(from as int, to as int);
    if word.len() != to - from {
        return false;
    }
    let begins = begins_with(text, from, to, word);
    assert(part.subrange(0, part.len() as int) =~= part);
    begins
}

/// Where the value of `key` stands in the report.
fn find_value(text: &[u8], key: &[u8]) -> (found: Option<(usize, usize)>)
    ensures
        match found {
            Some((from, to)) => {
                &&& from <= to <= text@.len()
                &&& lookup(text@, key@) == Some(text@.subrange(from as int, to as int))
            },
            None => lookup(text@, key@) is None,
        },
{
    let mut found: Option<(usize, usize)> = None;
    let mut line: usize = 0;
    assert(text@.skip(0) =~= text@);
    while line < text.len()
        invariant
            line <= text@.len(),
            found matches Some((from, to)) ==> from <= to <= text@.len(),
            lookup(text@, key@) == (match lookup(text@.skip(line as int), key@) {
                Some(value) => Some(value),
                None => match found {
                    Some((from, to)) => Some(text@.subrange(from as int, to as int)),
                    None => None,
                },
            }),
        decreases text@.len() - line,
    {
        let ghost rest = text@.skip(line as int);
        assert(rest =~= text@.subrange(line as int, text@.len() as int));
        let feed: usize = scan(text, line, text.len(), LINE_FEED);
        let end: usize = if feed < text.len() && feed > line && text[feed - 1] == CARRIAGE_RETURN {
            feed - 1
        } else {
            feed
        };
        assert(first_line(rest) =~= text@.subrange(line as int, end as int));
        let split: usize = scan(text, line, end, EQUALS);
        if split < end && is_word(text, line, split, key) {
            let stop: usize = scan(text, split + 1, end, EQUALS);
            proof {
                let whole = first_line(rest);
                assert(whole.take(split - line) =~= text@.subrange(line as int, split as int));
                let tail = whole.skip(split - line + 1);
                assert(tail =~= text@.subrange(split + 1, end as int));
                assert(tail.take(stop - split - 1) =~= text@.subrange(split + 1, stop as int));
            }
            found = Some((split + 1, stop));
        } else {
            proof {
                let whole = first_line(rest);
                assert(whole.take(split - line) =~= text@.subrange(line as int, split as int));
            }
        }
        if feed < text.len() {
            assert(rest.skip(feed - line + 1) =~= text@.skip(feed + 1));
            line = feed + 1;
        } else {
            line = feed;
        }
    }
    found
}

/// The number that `text[from..to]` writes.
fn read_number(text: &[u8], from: usize, to: usize) -> (read: Option<u8>)
    requires
        from <= to <= text@.len(),
    ensures
        read == number(text@.subrange(from as int, to as int)),
{
    let ghost part = text@.subrange(from as int, to as int);
    let start: usize = if from < to && text[from] == PLUS {
        from + 1
    } else {
        from
    };
    let ghost digits = text@.subrange(start as int, to as int);
    assert(digits =~= unsigned(part));
    if start == to {
        return None;
    }
    let mut value: u32 = 0;
    let mut at: usize = start;
    while at < to
        invariant
            from <= start <= at <= to <= text@.len(),
            start < to,
            part == text@.subrange(from as int, to as int),
            digits == text@.subrange(start as int, to as int),
            digits == unsigned(part),
            value <= 255,
            value == decimal(digits.take(at - start)),
            forall|i: int| 0 <= i < at - start ==> is_digit(#[trigger] digits[i]),
        decreases to - at,
    {
        let byte: u8 = text[at];
        assert(digits[at - start] == byte);
        if byte < 48 || byte > 57 {
            return None;
        }
        let ghost seen = digits.take(at - start + 1);
        assert(seen.drop_last() =~= digits.take(at - start));
        value = value * 10 + (byte - 48) as u32;
        assert(value == decimal(seen));
        if value > 255 {
            proof {
                if all_digits(digits) {
                    lemma_decimal_grows(digits, at - start + 1);
                }
            }
            return None;
        }
        at = at + 1;
    }
    assert(digits.take(at - start) =~= digits);
    Some(value as u8)
}

/// Reads the state of the battery from the text of its report.
///
/// The lines of the report end in a line feed, or in a carriage return and
/// a line feed; the last may end with the text. A line without an equals
/// sign says nothing. Where two lines give a value to one key, the later
/// line counts.
pub fn battery_status(content: &str) -> (status: Result<BatteryState, BatteryError>)
    ensures
        status == state_of(content.spec_bytes()),
{
    let text: &[u8] = content.as_bytes();
    let capacity: (usize, usize) = match find_value(text, "POWER_SUPPLY_CAPACITY".as_bytes()) {
        Some(range) => range,
        None => {
            return Err(BatteryError::InvalidData);
        },
    };
    let percentage: u8 = match read_number(text, capacity.0, capacity.1) {
        Some(percentage) => percentage,
        None => {
            return Err(BatteryError::InvalidData);
        },
    };
    match find_value(text, "POWER_SUPPLY_STATUS".as_bytes()) {
        Some((from, to)) => {
            let charging: bool = is_word(text, from, to, "Charging".as_bytes()) || is_word(
                text,
                from,
                to,
                "Critical (Charging)".as_bytes(),
            );
            let error: bool = is_word(text, from, to, "None".as_bytes());
            let critical: bool = begins_with(text, from, to, "Critical".as_bytes());
            Ok(BatteryState { percentage, charging, error, critical })
        },
        None => Ok(BatteryState { percentage, charging: false, error: false, critical: false }),
    }
}

/// The battery icon of the status bar: the state it shows, and when that
/// state was read.
#[derive(Clone, Copy, Debug, PartialEq, Eq)]
pub struct BatteryIndicator {
    pub battery_state: Result<BatteryState, BatteryError>,
    /// The reading of a clock that never runs backwards, in nanoseconds.
    pub prev_bat_check: u64,
}

impl BatteryIndicator {
    /// The whole seconds from the last check to `now`. A clock reading
    /// before the last check counts as no time at all.
    pub open spec fn seconds_since_check(self, now: u64) -> int {
        if now >= self.prev_bat_check {
            (now - self.prev_bat_check) / (NANOS_PER_SECOND as int)
        } else {
            0
        }
    }

    /// What the icon shows for a state.
    pub open spec fn icon_of(state: Result<BatteryState, BatteryError>) -> BatteryIcon {
        match state {
            Ok(status) => if status.error {
                BatteryIcon::Warning
            } else {
                BatteryIcon::Level {
                    percentage: status.percentage,
                    tint: if status.charging {
                        Tint::Charging
                    } else if status.critical {
                        Tint::Critical
                    } else {
                        Tint::Normal
                    },
                    bolt: status.charging,
                }
            },
            Err(_) => BatteryIcon::Warning,
        }
    }

    /// An indicator for a state that was read at `now`.
    pub fn new(state: Result<BatteryState, BatteryError>, now: u64) -> (indicator: BatteryIndicator)
        ensures
            indicator == (BatteryIndicator { battery_state: state, prev_bat_check: now }),
    {
        BatteryIndicator { battery_state: state, prev_bat_check: now }
    }

    /// Whether the state is to be read again: more than `CHECK_INTERVAL`
    /// whole seconds have passed since it was read.
    pub fn needs_check(&self, now: u64) -> (due: bool)
        ensures
            due == (self.seconds_since_check(now) > CHECK_INTERVAL),
    {
        if now >= self.prev_bat_check {
            (now - self.prev_bat_check) / NANOS_PER_SECOND > CHECK_INTERVAL
        } else {
            false
        }
    }

    /// Records a state that was read at `now`.
    pub fn update(&mut self, state: Result<BatteryState, BatteryError>, now: u64)
        ensures
            *final(self) == (BatteryIndicator { battery_state: state, prev_bat_check: now }),
    {
        self.battery_state = state;
        self.prev_bat_check = now;
    }

    /// What the icon shows.
    pub fn icon(&self) -> (icon: BatteryIcon)
        ensures
            icon == Self::icon_of(self.battery_state),
    {
        match self.battery_state {
            Ok(status) => if status.error {
                BatteryIcon::Warning
            } else {
                let tint: Tint = if status.charging {
                    Tint::Charging
                } else if status.critical {
                    Tint::Critical
                } else {
                    Tint::Normal
                };
                BatteryIcon::Level { percentage: status.percentage, tint, bolt: status.charging }
            },
            Err(_) => BatteryIcon::Warning,
        }
    }

    /// The percentage to print beside the icon; nothing where no state
    /// could be read.
    pub fn label(&self) -> (percentage: Option<u8>)
        ensures
            percentage == (match self.battery_state {
                Ok(status) => Some(status.percentage),
                Err(_) => None,
            }),
    {
        match self.battery_state {
            Ok(status) => Some(status.percentage),
            Err(_) => None,
        }
    }
}

} // verus!
