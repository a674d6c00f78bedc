//! The threshold store and the text protocol that retunes it.
//!
//! A control message reads `<SIDE>:<VALUE>`: the side is `HOME` or `AWAY` in
//! any letter case, the value an unsigned decimal that fits a `ThreshValue`,
//! and whitespace around either part is ignored.
use vstd::prelude::*;

use vstd::utf8::{decode_utf8, valid_utf8};

use crate::sensor::ThreshValue;
use crate::text::{
    chars_of, decimal, is_digit, lemma_decimal_reads_back, parse_value,
    parse_value_range, trim, trim_end, trim_range, trim_start,
};

verus! {

/// The sensitivity cutoff that every scan uses until a message changes it.
pub const DEFAULT_THRESHOLD: ThreshValue = 50;

/// The single error of the protocol: the message was not understood.
#[derive(Clone, Copy, Debug, PartialEq, Eq, Structural)]
pub struct ParseThreshChangeError;

/// A side of the field, as a control message names it.
#[derive(Clone, Copy, Debug, PartialEq, Eq, Structural)]
pub enum ThreshSide {
    Home,
    Away,
}

/// A request to set the threshold of one side.
#[derive(Clone, Copy, Debug, PartialEq, Eq, Structural)]
pub struct ThreshChange {
    pub side: ThreshSide,
    pub new_value: ThreshValue,
}

pub open spec fn colon_free(s: Seq<char>) -> bool {
    forall|i: int| 0 <= i < s.len() ==> #[trigger] s[i] != ':'
}

/// `s` holds exactly one colon, at `k`.
pub open spec fn splits_at(s: Seq<char>, k: int) -> bool {
    &&& 0 <= k < s.len()
    &&& s[k] == ':'
    &&& colon_free(s.take(k))
    &&& colon_free(s.skip(k + 1))
}

pub open spec fn letter_is(c: char, upper: char, lower: char) -> bool {
    c == upper || c == lower
}

/// The side that a token names, letter case ignored.
pub open spec fn side_token(t: Seq<char>) -> Option<ThreshSide> {
    if t.len() == 4 && letter_is(t[0], 'H', 'h') && letter_is(t[1], 'O', 'o') && letter_is(
        t[2],
        'M',
        'm',
    ) && letter_is(t[3], 'E', 'e') {
        Some(ThreshSide::Home)
    } else if t.len() == 4 && letter_is(t[0], 'A', 'a') && letter_is(t[1], 'W', 'w') && letter_is(
        t[2],
        'A',
        'a',
    ) && letter_is(t[3], 'Y', 'y') {
        Some(ThreshSide::Away)
    } else {
        None
    }
}

/// What a control message asks for: it must split into two parts at its one
/// colon, the trimmed first part naming a side and the trimmed second part a
/// value.
pub open spec fn parse_change(s: Seq<char>) -> Result<ThreshChange, ParseThreshChangeError> {
    if exists|k: int| splits_at(s, k) {
        let k = choose|k: int| splits_at(s, k);
        match (side_token(trim(s.take(k))), parse_value(trim(s.skip(k + 1)))) {
            (Some(side), Some(new_value)) => Ok(ThreshChange { side, new_value }),
            _ => Err(ParseThreshChangeError),
        }
    } else {
        Err(ParseThreshChangeError)
    }
}

proof fn lemma_split_unique(s: Seq<char>, k: int, j: int)
    requires
        splits_at(s, k),
        splits_at(s, j),
    ensures
        k == j,
{
    if k < j {
        assert(s.take(j)[k] == ':');
    } else if j < k {
        assert(s.take(k)[j] == ':');
    }
}

fn side_of_range(v: &Vec<char>, lo: usize, hi: usize) -> (r: Option<ThreshSide>)
    requires
        lo <= hi <= v.len(),
    ensures
        r == side_token(v@.subrange(lo as int, hi as int)),
{
    let ghost t = v@.subrange(lo as int, hi as int);
    if hi - lo != 4 {
        return None;
    }
    let (a, b, c, d) = (v[lo], v[lo + 1], v[lo + 2], v[lo + 3]);
    assert(t[0] == a && t[1] == b && t[2] == c && t[3] == d);
    if (a == 'H' || a == 'h') && (b == 'O' || b == 'o') && (c == 'M' || c == 'm') && (d == 'E'
        || d == 'e') {
        Some(ThreshSide::Home)
    } else if (a == 'A' || a == 'a') && (b == 'W' || b == 'w') && (c == 'A' || c == 'a') && (d
        == 'Y' || d == 'y') {
        Some(ThreshSide::Away)
    } else {
        None
    }
}

impl ThreshChange {
    /// Reads a control message.
    pub fn parse(s: &str) -> (r: Result<ThreshChange, ParseThreshChangeError>)
        ensures
            r == parse_change(s@),
    {
        let v = chars_of(s);
        let n = v.len();
        let mut k: usize = 0;
        while k < n && v[k] != ':'
            invariant
                v@ == s@,
                n == v.len(),
                k <= n,
                colon_free(v@.take(k as int)),
            decreases n - k,
        {
            assert(v@.take(k + 1)[k as int] == v@[k as int]);
            assert(forall|i: int| 0 <= i < k ==> v@.take(k + 1)[i] == #[trigger] v@.take(k as int)[i]);
            k += 1;
        }
        if k == n {
            proof {
                assert forall|j: int| !splits_at(s@, j) by {
                    if 0 <= j < s@.len() {
                        assert(v@.take(k as int)[j] == s@[j]);
                    }
                }
            }
            return Err(ParseThreshChangeError);
        }
        let mut j: usize = k + 1;
        while j < n
            invariant
                v@ == s@,
                n == v.len(),
                k < j <= n,
                v@[k as int] == ':',
                colon_free(v@.take(k as int)),
                colon_free(v@.subrange(k + 1, j as int)),
            decreases n - j,
        {
            if v[j] == ':' {
                proof {
                    assert forall|m: int| !splits_at(s@, m) by {
                        if 0 <= m < k {
                            assert(v@.take(k as int)[m] == s@[m]);
                        } else if m == k {
                            assert(s@.skip(k + 1)[j - k - 1] == ':');
                        } else if k < m < s@.len() {
                            assert(s@.take(m)[k as int] == ':');
                        }
                    }
                }
                return Err(ParseThreshChangeError);
            }
            assert(forall|i: int|
                0 <= i < j - k - 1 ==> v@.subrange(k + 1, j + 1)[i] == #[trigger] v@.subrange(
                    k + 1,
                    j as int,
                )[i]);
            j += 1;
        }
        proof {
            assert(v@.subrange(k + 1, n as int) =~= s@.skip(k + 1));
            assert(splits_at(s@, k as int));
            let c = choose|c: int| splits_at(s@, c);
            lemma_split_unique(s@, k as int, c);
            assert(v@.subrange(0, k as int) =~= s@.take(k as int));
        }
        let (a, b) = trim_range(&v, 0, k);
        let (c, d) = trim_range(&v, k + 1, n);
        match (side_of_range(&v, a, b), parse_value_range(&v, c, d)) {
            (Some(side), Some(new_value)) => Ok(ThreshChange { side, new_value }),
            _ => Err(ParseThreshChangeError),
        }
    }
}

impl std::str::FromStr for ThreshChange {
    type Err = ParseThreshChangeError;

    fn from_str(s: &str) -> (r: Result<ThreshChange, ParseThreshChangeError>)
        ensures
            r == parse_change(s@),
    {
        ThreshChange::parse(s)
    }
}

/// Relies on `std::str::from_utf8`: it accepts exactly the valid UTF-8
/// encodings, and the text it returns holds the characters they encode.
#[verifier::external_body]
fn utf8_text<'a>(data: &'a [u8]) -> (r: Option<&'a str>)
    ensures
        r is Some <==> valid_utf8(data@),
        r matches Some(t) ==> t@ == decode_utf8(data@),
{
    std::str::from_utf8(data).ok()
}

/// The sensitivity cutoff of each side.
#[derive(Clone, Copy, Debug, PartialEq, Eq, Structural)]
pub struct ThresholdStore {
    pub home: ThreshValue,
    pub away: ThreshValue,
}

impl ThresholdStore {
    pub open spec fn spec_threshold(self, side: ThreshSide) -> ThreshValue {
        match side {
            ThreshSide::Home => self.home,
            ThreshSide::Away => self.away,
        }
    }

    /// The store once `change` is applied: its side overwritten, the other
    /// kept.
    pub open spec fn with_change(self, change: ThreshChange) -> ThresholdStore {
        match change.side {
            ThreshSide::Home => ThresholdStore { home: change.new_value, ..self },
            ThreshSide::Away => ThresholdStore { away: change.new_value, ..self },
        }
    }

    /// The store once the control message `msg` is handled: changed as the
    /// message asks, or left as it is when the message is not understood.
    pub open spec fn after_message(self, msg: Seq<char>) -> ThresholdStore {
        match parse_change(msg) {
            Ok(change) => self.with_change(change),
            Err(_) => self,
        }
    }

    /// A store with the same threshold on both sides.
    pub fn new(initial: ThreshValue) -> (r: ThresholdStore)
        ensures
            r.home == initial,
            r.away == initial,
    {
        ThresholdStore { home: initial, away: initial }
    }

    pub fn threshold(&self, side: ThreshSide) -> (r: ThreshValue)
        ensures
            r == self.spec_threshold(side),
    {
        match side {
            ThreshSide::Home => self.home,
            ThreshSide::Away => self.away,
        }
    }

    /// Overwrites the threshold of the change's side; no history is kept.
    pub fn apply(&mut self, change: ThreshChange)
        ensures
            *final(self) == old(self).with_change(change),
            final(self).spec_threshold(change.side) == change.new_value,
    {
        match change.side {
            ThreshSide::Home => self.home = change.new_value,
            ThreshSide::Away => self.away = change.new_value,
        }
    }

    /// Handles one control message: applies it when it parses, and leaves
    /// the store unchanged when it does not.
    pub fn apply_message(&mut self, msg: &str) -> (r: Result<ThreshChange, ParseThreshChangeError>)
        ensures
            r == parse_change(msg@),
            *final(self) == old(self).after_message(msg@),
            r is Err ==> *final(self) == *old(self),
    {
        let r = ThreshChange::parse(msg);
        if let Ok(change) = r {
            self.apply(change);
        }
        r
    }

    /// Handles the raw bytes of one write to the control endpoint: bytes that
    /// are not UTF-8 are rejected, and the text of the others is handled as a
    /// control message.
    pub fn apply_write(&mut self, data: &[u8]) -> (r: Result<ThreshChange, ParseThreshChangeError>)
        ensures
            valid_utf8(data@) ==> r == parse_change(decode_utf8(data@)) && *final(self) == old(
                self,
            ).after_message(decode_utf8(data@)),
            !valid_utf8(data@) ==> r == Err::<ThreshChange, ParseThreshChangeError>(
                ParseThreshChangeError,
            ) && *final(self) == *old(self),
    {
        match utf8_text(data) {
            Some(text) => self.apply_message(text),
            None => Err(ParseThreshChangeError),
        }
    }
}

/// Round trip: a side's name in any letter case, a colon and the decimal
/// text of `n` parse to that side and `n`, and handling that message makes
/// `n` the side's threshold.
pub proof fn lemma_message_round_trip(
    store: ThresholdStore,
    word: Seq<char>,
    side: ThreshSide,
    n: ThreshValue,
)
    requires
        side_token(word) == Some(side),
    ensures
        parse_change(word + seq![':'] + decimal(n as nat)) == Ok::<
            ThreshChange,
            ParseThreshChangeError,
        >(ThreshChange { side, new_value: n }),
        store.after_message(word + seq![':'] + decimal(n as nat)).spec_threshold(side) == n,
{
    let digits = decimal(n as nat);
    let msg = word + seq![':'] + digits;
    lemma_decimal_reads_back(n as nat);
    assert(msg.take(4) =~= word);
    assert(msg.skip(5) =~= digits);
    assert(colon_free(digits)) by {
        assert forall|i: int| 0 <= i < digits.len() implies #[trigger] digits[i] != ':' by {
            assert(is_digit(digits[i]));
        }
    }
    assert(splits_at(msg, 4));
    let k = choose|k: int| splits_at(msg, k);
    lemma_split_unique(msg, 4, k);
    assert(trim_start(word) == word);
    assert(trim_end(word) == word);
    assert(is_digit(digits[0]) && is_digit(digits.last()));
    assert(trim_start(digits) == digits);
    assert(trim_end(digits) == digits);
}

/// An accepted message sets its side to its value; the old value is gone, and
/// the other side keeps its threshold.
pub proof fn lemma_accepted_message_sets_side(
    store: ThresholdStore,
    msg: Seq<char>,
    change: ThreshChange,
    other: ThreshSide,
)
    requires
        parse_change(msg) == Ok::<ThreshChange, ParseThreshChangeError>(change),
        other != change.side,
    ensures
        store.after_message(msg).spec_threshold(change.side) == change.new_value,
        store.after_message(msg).spec_threshold(other) == store.spec_threshold(other),
{
}

/// A message that does not parse leaves the store as it was.
pub proof fn lemma_rejected_message_keeps_store(store: ThresholdStore, msg: Seq<char>)
    requires
        parse_change(msg) is Err,
    ensures
        store.after_message(msg) == store,
{
}

} // verus!
