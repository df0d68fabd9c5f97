//! The fixed time dimension of the grid: half-hour slots from 7:00 up to
//! (but excluding) 20:00, and the conversion of "H:MM" text into a slot index.

use vstd::prelude::*;

verus! {

/// First hour shown on the axis.
pub const AXIS_START_HOUR: u32 = 7;

/// Hour at which the axis ends (exclusive).
pub const AXIS_END_HOUR: u32 = 20;

/// Length of one grid slot, in minutes.
pub const SLOT_MINUTES: u32 = 30;

/// Number of half-hour slots between 7:00 and 20:00.
pub const SLOT_COUNT: u32 = 26;

/// The time text could not be read as `"H:MM"`: it does not consist of one
/// `':'` with a machine-representable decimal number on each side.
#[derive(Clone, Copy, Debug, PartialEq, Eq, Structural)]
pub struct MalformedTimeError;

pub open spec fn is_digit(c: char) -> bool {
    48 <= c as int && c as int <= 57
}

pub open spec fn digit_val(c: char) -> int {
    c as int - 48
}

pub open spec fn all_digits(s: Seq<char>) -> bool {
    forall|i: int| 0 <= i < s.len() ==> is_digit(#[trigger] s[i])
}

/// The number denoted by a sequence of decimal digits (0 for the empty
/// sequence; leading zeroes are allowed and carry no meaning).
pub open spec fn digits_val(s: Seq<char>) -> int
    decreases s.len(),
{
    if s.len() == 0 {
        0
    } else {
        digits_val(s.drop_last()) * 10 + digit_val(s.last())
    }
}

/// `i` is the position of the `':'` that splits `s` into a well-formed
/// hour part and minute part, both non-empty, all digits, and small enough
/// to parse into a `u32`.
pub open spec fn time_parts_at(s: Seq<char>, i: int) -> bool {
    &&& 0 < i
    &&& i + 2 <= s.len()
    &&& s[i] == ':'
    &&& all_digits(s.subrange(0, i))
    &&& all_digits(s.subrange(i + 1, s.len() as int))
    &&& digits_val(s.subrange(0, i)) <= u32::MAX
    &&& digits_val(s.subrange(i + 1, s.len() as int)) <= u32::MAX
}

/// `s` is acceptable time text: exactly one `':'` separating two
/// machine-representable non-negative decimal numbers.
pub open spec fn valid_time_text(s: Seq<char>) -> bool {
    exists|i: int| time_parts_at(s, i)
}

/// Position of the separating `':'` of valid time text.
pub open spec fn colon_index(s: Seq<char>) -> int {
    choose|i: int| time_parts_at(s, i)
}

/// The hour denoted by valid time text.
pub open spec fn hour_of(s: Seq<char>) -> int {
    digits_val(s.subrange(0, colon_index(s)))
}

/// The minute denoted by valid time text.
pub open spec fn minute_of(s: Seq<char>) -> int {
    digits_val(s.subrange(colon_index(s) + 1, s.len() as int))
}

/// Slot index of a time of day on the axis: half hours since 7:00,
/// rounded down. Not clamped: times before 7:00 give a non-positive
/// index, times at or after 20:00 an index beyond the axis.
pub open spec fn slot_of(h: int, m: int) -> int {
    (h - AXIS_START_HOUR) * (60int / SLOT_MINUTES as int) + m / SLOT_MINUTES as int
}

pub proof fn lemma_digits_val_nonneg(s: Seq<char>)
    requires
        all_digits(s),
    ensures
        digits_val(s) >= 0,
    decreases s.len(),
{
    if s.len() > 0 {
        assert(all_digits(s.drop_last()));
        lemma_digits_val_nonneg(s.drop_last());
        assert(is_digit(s.last()));
    }
}

/// Extending an all-digit sequence on the right never decreases its value.
pub proof fn lemma_digits_val_prefix(s: Seq<char>, k: int)
    requires
        all_digits(s),
        0 <= k <= s.len(),
    ensures
        digits_val(s.subrange(0, k)) <= digits_val(s),
    decreases s.len() - k,
{
    if k == s.len() {
        assert(s.subrange(0, k) =~= s);
    } else {
        let p = s.subrange(0, k);
        let q = s.subrange(0, k + 1);
        assert(q.drop_last() =~= p);
        assert(all_digits(p));
        lemma_digits_val_nonneg(p);
        assert(is_digit(q.last()));
        assert(digits_val(q) == digits_val(p) * 10 + digit_val(q.last()));
        lemma_digits_val_prefix(s, k + 1);
    }
}

/// Valid time text has only one split position: the hour and minute parts
/// are all digits, so neither can contain a further `':'`.
pub proof fn lemma_time_parts_unique(s: Seq<char>, i: int, j: int)
    requires
        time_parts_at(s, i),
        time_parts_at(s, j),
    ensures
        i == j,
{
    if i < j {
        assert(s.subrange(0, j)[i] == s[i]);
        assert(is_digit(s[i]));
    } else if j < i {
        assert(s.subrange(0, i)[j] == s[j]);
        assert(is_digit(s[j]));
    }
}

/// A split at the first `':'` of the text is the only candidate split.
proof fn lemma_split_only_at_first_colon(s: Seq<char>, c: int, j: int)
    requires
        0 <= c < s.len(),
        s[c] == ':',
        forall|k: int| 0 <= k < c ==> s[k] != ':',
        time_parts_at(s, j),
    ensures
        j == c,
{
    if j < c {
        assert(s[j] != ':');
    } else if j > c {
        assert(s.subrange(0, j)[c] == s[c]);
        assert(is_digit(s[c]));
    }
}

/// Index of the first `':'` in `s`, if any.
fn find_colon(s: &str) -> (r: Option<usize>)
    ensures
        match r {
            Some(i) => {
                &&& i < s@.len()
                &&& s@[i as int] == ':'
                &&& forall|k: int| 0 <= k < i ==> s@[k] != ':'
            },
            None => forall|k: int| 0 <= k < s@.len() ==> s@[k] != ':',
        },
{
    let n = s.unicode_len();
    let mut i: usize = 0;
    while i < n
        invariant
            i <= n,
            n == s@.len(),
            forall|k: int| 0 <= k < i ==> s@[k] != ':',
        decreases n - i,
    {
        if s.get_char(i) == ':' {
            return Some(i);
        }
        i = i + 1;
    }
    None
}

/// Parses `s[from..to]` as a decimal number into a `u32`.
/// Returns `None` exactly when some character in the range is not a digit
/// or the denoted number exceeds `u32::MAX`.
fn parse_decimal(s: &str, from: usize, to: usize) -> (r: Option<u32>)
    requires
        from <= to <= s@.len(),
    ensures
        match r {
            Some(v) => {
                &&& all_digits(s@.subrange(from as int, to as int))
                &&& v == digits_val(s@.subrange(from as int, to as int))
            },
            None => !(all_digits(s@.subrange(from as int, to as int))
                && digits_val(s@.subrange(from as int, to as int)) <= u32::MAX),
        },
{
    let whole = Ghost(s@.subrange(from as int, to as int));
    let mut i = from;
    let mut val: u32 = 0;
    while i < to
        invariant
            from <= i <= to <= s@.len(),
            whole@ == s@.subrange(from as int, to as int),
            all_digits(s@.subrange(from as int, i as int)),
            val == digits_val(s@.subrange(from as int, i as int)),
        decreases to - i,
    {
        let c = s.get_char(i);
        let code = c as u32;
        if code < 48 || code > 57 {
            proof {
                assert(whole@[i - from] == s@[i as int]);
                assert(!all_digits(whole@));
            }
            return None;
        }
        let d = code - 48;
        let prefix = Ghost(s@.subrange(from as int, i as int));
        let next = Ghost(s@.subrange(from as int, i + 1 as int));
        proof {
            assert(next@.drop_last() =~= prefix@);
            assert(next@.last() == s@[i as int]);
        }
        if val > (u32::MAX - d) / 10 {
            proof {
                assert(10 * val > u32::MAX - d) by (nonlinear_arith)
                    requires
                        val > (u32::MAX - d) / 10,
                        0 <= d <= 9,
                ;
                assert(digits_val(next@) == val * 10 + d);
                assert(digits_val(next@) > u32::MAX);
                if all_digits(whole@) && digits_val(whole@) <= u32::MAX {
                    assert(whole@.subrange(0, i + 1 - from) =~= next@);
                    lemma_digits_val_prefix(whole@, i + 1 - from);
                }
            }
            return None;
        }
        proof {
            assert(val * 10 + d <= u32::MAX) by (nonlinear_arith)
                requires
                    val <= (u32::MAX - d) / 10,
                    0 <= d <= 9,
            ;
        }
        val = val * 10 + d;
        i = i + 1;
    }
    proof {
        assert(s@.subrange(from as int, i as int) =~= whole@);
    }
    Some(val)
}

/// Converts `"H:MM"` text into its slot index on the axis: half hours since
/// 7:00, rounded down. Fails with `MalformedTimeError` exactly when the text
/// is not one `':'` between two machine-representable decimal numbers. The
/// result is not clamped to the axis: out-of-range indices are returned and
/// left to the caller to validate.
pub fn slot_offset(time: &str) -> (r: Result<i64, MalformedTimeError>)
    ensures
        r is Ok <==> valid_time_text(time@),
        r is Ok ==> r->Ok_0 == slot_of(hour_of(time@), minute_of(time@)),
{
    let n = time.unicode_len();
    let colon = match find_colon(time) {
        Some(i) => i,
        None => {
            proof {
                if valid_time_text(time@) {
                    let j = choose|j: int| time_parts_at(time@, j);
                    assert(time@[j] == ':');
                }
            }
            return Err(MalformedTimeError);
        },
    };
    if colon == 0 || colon >= n - 1 {
        proof {
            if valid_time_text(time@) {
                let j = choose|j: int| time_parts_at(time@, j);
                lemma_split_only_at_first_colon(time@, colon as int, j);
            }
        }
        return Err(MalformedTimeError);
    }
    let hour = match parse_decimal(time, 0, colon) {
        Some(h) => h,
        None => {
            proof {
                if valid_time_text(time@) {
                    let j = choose|j: int| time_parts_at(time@, j);
                    lemma_split_only_at_first_colon(time@, colon as int, j);
                }
            }
            return Err(MalformedTimeError);
        },
    };
    let minute = match parse_decimal(time, colon + 1, n) {
        Some(m) => m,
        None => {
            proof {
                if valid_time_text(time@) {
                    let j = choose|j: int| time_parts_at(time@, j);
                    lemma_split_only_at_first_colon(time@, colon as int, j);
                }
            }
            return Err(MalformedTimeError);
        },
    };
    proof {
        assert(time_parts_at(time@, colon as int));
        lemma_time_parts_unique(time@, colon as int, colon_index(time@));
        lemma_digits_val_nonneg(time@.subrange(colon + 1 as int, n as int));
    }
    let slot: i64 = (hour as i64 - 7) * 2 + (minute as i64) / 30;
    Ok(slot)
}

pub proof fn lemma_digits_val_one(c: char)
    ensures
        digits_val(seq![c]) == digit_val(c),
{
    reveal_with_fuel(digits_val, 2);
    assert(seq![c].drop_last() =~= Seq::<char>::empty());
}

pub proof fn lemma_digits_val_two(c1: char, c2: char)
    ensures
        digits_val(seq![c1, c2]) == digit_val(c1) * 10 + digit_val(c2),
{
    assert(seq![c1, c2].drop_last() =~= seq![c1]);
    lemma_digits_val_one(c1);
}

/// Decimal text for one axis hour, without a leading zero.
fn hour_label(h: u32) -> (r: &'static str)
    requires
        7 <= h <= 19,
    ensures
        all_digits(r@),
        r@.len() == if h <= 9 { 1int } else { 2int },
        digits_val(r@) == h,
{
    match h {
        7 => {
            proof {
                reveal_strlit("7");
                assert("7"@ =~= seq!['7']);
                lemma_digits_val_one('7');
            }
            "7"
        },
        8 => {
            proof {
                reveal_strlit("8");
                assert("8"@ =~= seq!['8']);
                lemma_digits_val_one('8');
            }
            "8"
        },
        9 => {
            proof {
                reveal_strlit("9");
                assert("9"@ =~= seq!['9']);
                lemma_digits_val_one('9');
            }
            "9"
        },
        10 => {
            proof {
                reveal_strlit("10");
                assert("10"@ =~= seq!['1', '0']);
                lemma_digits_val_two('1', '0');
            }
            "10"
        },
        11 => {
            proof {
                reveal_strlit("11");
                assert("11"@ =~= seq!['1', '1']);
                lemma_digits_val_two('1', '1');
            }
            "11"
        },
        12 => {
            proof {
                reveal_strlit("12");
                assert("12"@ =~= seq!['1', '2']);
                lemma_digits_val_two('1', '2');
            }
            "12"
        },
        13 => {
            proof {
                reveal_strlit("13");
                assert("13"@ =~= seq!['1', '3']);
                lemma_digits_val_two('1', '3');
            }
            "13"
        },
        14 => {
            proof {
                reveal_strlit("14");
                assert("14"@ =~= seq!['1', '4']);
                lemma_digits_val_two('1', '4');
            }
            "14"
        },
        15 => {
            proof {
                reveal_strlit("15");
                assert("15"@ =~= seq!['1', '5']);
                lemma_digits_val_two('1', '5');
            }
            "15"
        },
        16 => {
            proof {
                reveal_strlit("16");
                assert("16"@ =~= seq!['1', '6']);
                lemma_digits_val_two('1', '6');
            }
            "16"
        },
        17 => {
            proof {
                reveal_strlit("17");
                assert("17"@ =~= seq!['1', '7']);
                lemma_digits_val_two('1', '7');
            }
            "17"
        },
        18 => {
            proof {
                reveal_strlit("18");
                assert("18"@ =~= seq!['1', '8']);
                lemma_digits_val_two('1', '8');
            }
            "18"
        },
        _ => {
            proof {
                reveal_strlit("19");
                assert("19"@ =~= seq!['1', '9']);
                lemma_digits_val_two('1', '9');
            }
            "19"
        },
    }
}

/// Decimal text for an axis minute, always two digits.
fn minute_label(half: bool) -> (r: &'static str)
    ensures
        all_digits(r@),
        r@.len() == 2,
        digits_val(r@) == if half { 30int } else { 0int },
{
    if half {
        proof {
            reveal_strlit("30");
            assert("30"@ =~= seq!['3', '0']);
            lemma_digits_val_two('3', '0');
        }
        "30"
    } else {
        proof {
            reveal_strlit("00");
            assert("00"@ =~= seq!['0', '0']);
            lemma_digits_val_two('0', '0');
        }
        "00"
    }
}

/// Joins an hour part and a minute part with a `':'` into time text
/// denoting exactly that hour and minute.
fn make_label(h: &str, m: &str) -> (r: String)
    requires
        all_digits(h@),
        all_digits(m@),
        0 < h@.len(),
        0 < m@.len(),
        digits_val(h@) <= u32::MAX,
        digits_val(m@) <= u32::MAX,
    ensures
        valid_time_text(r@),
        hour_of(r@) == digits_val(h@),
        minute_of(r@) == digits_val(m@),
        r@.len() == h@.len() + 1 + m@.len(),
{
    let mut out = String::from_str(h);
    out.append(":");
    out.append(m);
    proof {
        reveal_strlit(":");
        let s = out@;
        let i = h@.len() as int;
        assert(s =~= h@ + ":"@ + m@);
        assert(s[i] == ':');
        assert(s.subrange(0, i) =~= h@);
        assert(s.subrange(i + 1, s.len() as int) =~= m@);
        lemma_digits_val_nonneg(h@);
        lemma_digits_val_nonneg(m@);
        assert(time_parts_at(s, i));
        lemma_time_parts_unique(s, i, colon_index(s));
    }
    out
}

/// One slot's worth of half hours past 7:00 lands back on that slot:
/// the axis labels and the slot indices are in exact correspondence.
pub proof fn lemma_axis_slot_round_trip(i: int)
    requires
        0 <= i < 26,
    ensures
        slot_of(7 + i / 2, if i % 2 == 0 { 0int } else { 30int }) == i,
{
}

/// A well-formed label sequence for the axis: one label per slot, where
/// label `i` denotes the time of slot `i` and parses back to slot index `i`.
pub open spec fn axis_labels_wf(labels: Seq<String>) -> bool {
    &&& labels.len() == SLOT_COUNT
    &&& forall|i: int|
        0 <= i < labels.len() ==> {
            &&& valid_time_text(#[trigger] labels[i]@)
            &&& hour_of(labels[i]@) == 7 + i / 2
            &&& minute_of(labels[i]@) == if i % 2 == 0 { 0int } else { 30int }
            &&& slot_of(hour_of(labels[i]@), minute_of(labels[i]@)) == i
            &&& labels[i]@.len() == if i < 6 { 4int } else { 5int }
        }
}

/// The ordered axis labels `"7:00", "7:30", ..., "19:30"`: label `i` denotes
/// the time of slot `i`, and parses back to slot index `i`. The sequence is
/// the same on every call.
pub fn axis_labels() -> (r: Vec<String>)
    ensures
        axis_labels_wf(r@),
{
    let mut labels: Vec<String> = Vec::new();
    let mut slot: u32 = 0;
    while slot < SLOT_COUNT
        invariant
            slot <= SLOT_COUNT,
            labels@.len() == slot,
            forall|i: int| 0 <= i < labels@.len() ==> {
                &&& valid_time_text(#[trigger] labels@[i]@)
                &&& hour_of(labels@[i]@) == 7 + i / 2
                &&& minute_of(labels@[i]@) == if i % 2 == 0 { 0int } else { 30int }
                &&& labels@[i]@.len() == if i < 6 { 4int } else { 5int }
            },
        decreases SLOT_COUNT - slot,
    {
        let h = hour_label(7 + slot / 2);
        let m = minute_label(slot % 2 == 1);
        let label = make_label(h, m);
        labels.push(label);
        slot = slot + 1;
    }
    proof {
        assert forall|i: int| 0 <= i < labels@.len() implies slot_of(
            hour_of(labels@[i]@),
            minute_of(labels@[i]@),
        ) == i by {
            lemma_axis_slot_round_trip(i);
        }
    }
    labels
}

/// The slot index is strictly increasing in (hour, minute) lexicographic
/// order over the half-hour grid of the axis.
pub proof fn lemma_slot_strictly_increasing(h1: int, m1: int, h2: int, m2: int)
    requires
        7 <= h1 <= 19,
        7 <= h2 <= 19,
        m1 == 0 || m1 == 30,
        m2 == 0 || m2 == 30,
        h1 < h2 || (h1 == h2 && m1 < m2),
    ensures
        slot_of(h1, m1) < slot_of(h2, m2),
{
}

/// The same, stated of the time text the parser accepts: of two axis-range
/// times on the half-hour grid, the strictly earlier one gets the strictly
/// smaller slot index.
pub proof fn lemma_slot_offset_strictly_increasing(s1: Seq<char>, s2: Seq<char>)
    requires
        valid_time_text(s1),
        valid_time_text(s2),
        7 <= hour_of(s1) <= 19,
        7 <= hour_of(s2) <= 19,
        minute_of(s1) == 0 || minute_of(s1) == 30,
        minute_of(s2) == 0 || minute_of(s2) == 30,
        hour_of(s1) < hour_of(s2) || (hour_of(s1) == hour_of(s2) && minute_of(s1) < minute_of(s2)),
    ensures
        slot_of(hour_of(s1), minute_of(s1)) < slot_of(hour_of(s2), minute_of(s2)),
{
    lemma_slot_strictly_increasing(hour_of(s1), minute_of(s1), hour_of(s2), minute_of(s2));
}

} // verus!
