//! Names of the stored sessions, and the list of the most recent ones.

use crate::config::{MAX_RECENT_FILES, NO_RECENT_SESSION, OUTPUT_DIR};
use crate::text::{decimal, digit_char, pow10, push_zero_padded, zero_padded, zeros};
use vstd::prelude::*;
use vstd::std_specs::iter::IteratorSpec;
use vstd::string::StringExecFns;

verus! {

/// A local date and time of day, to the minute.
#[derive(Debug, Clone, Copy, PartialEq, Eq)]
pub struct LocalMinute {
    pub year: i32,
    pub month: u32,
    pub day: u32,
    pub hour: u32,
    pub minute: u32,
}

impl LocalMinute {
    /// Month, day, hour and minute lie in the ranges of the calendar and of
    /// the clock.
    pub open spec fn wf(self) -> bool {
        &&& 1 <= self.month <= 12
        &&& 1 <= self.day <= 31
        &&& self.hour <= 23
        &&& self.minute <= 59
    }
}

/// A year in at least four places, the sign of a year before zero among
/// them.
pub open spec fn year_text(year: int) -> Seq<char> {
    if year < 0 {
        seq!['-'] + zero_padded((-year) as nat, 3)
    } else {
        zero_padded(year as nat, 4)
    }
}

/// Name of the file that holds the session stored at `t`:
/// `YYYY-MM-DD_HH:MM_freewritesession.txt`.
pub open spec fn record_file_name_of(t: LocalMinute) -> Seq<char> {
    year_text(t.year as int) + seq!['-'] + zero_padded(t.month as nat, 2) + seq!['-']
        + zero_padded(t.day as nat, 2) + seq!['_'] + zero_padded(t.hour as nat, 2) + seq![':']
        + zero_padded(t.minute as nat, 2) + "_freewritesession.txt"@
}

/// Path of the session stored at `t`: its file in the output directory.
pub open spec fn record_name_of(t: LocalMinute) -> Seq<char> {
    OUTPUT_DIR@ + seq!['/'] + record_file_name_of(t)
}

/// Builds the path under which the session stored at `t` is kept.
pub fn record_name(t: LocalMinute) -> (name: String)
    ensures
        name@ == record_name_of(t),
{
    let mut name = String::from_str(OUTPUT_DIR);
    name.push('/');
    if t.year < 0 {
        name.push('-');
        push_zero_padded(&mut name, (-(t.year as i64)) as u128, 3);
    } else {
        push_zero_padded(&mut name, t.year as u128, 4);
    }
    name.push('-');
    push_zero_padded(&mut name, t.month as u128, 2);
    name.push('-');
    push_zero_padded(&mut name, t.day as u128, 2);
    name.push('_');
    push_zero_padded(&mut name, t.hour as u128, 2);
    name.push(':');
    push_zero_padded(&mut name, t.minute as u128, 2);
    name.append("_freewritesession.txt");
    assert(name@ =~= record_name_of(t));
    name
}

/// The minute of the local calendar and clock at `utc_secs` seconds after
/// the start of 1970 in universal time, in a zone that is `offset_secs`
/// seconds ahead of it, as chrono reckons it; none where chrono has no date
/// for the reading or takes no such offset.
pub uninterp spec fn local_minute_of(utc_secs: int, offset_secs: int) -> Option<LocalMinute>;

/// chrono's calendar: `FixedOffset::east_opt` makes the zone,
/// `DateTime::from_timestamp` the instant, `DateTime::with_timezone` the
/// local time, and the getters of `Datelike` and `Timelike` take it apart.
/// The result depends on the two arguments alone and is given its name;
/// beyond that, only the ranges that chrono documents for month, day, hour
/// and minute are claimed. The first two calls answer a value out of range
/// with `None`, which is handed on.
#[verifier::external_body]
fn local_minute(utc_secs: i64, offset_secs: i32) -> (t: Option<LocalMinute>)
    ensures
        t == local_minute_of(utc_secs as int, offset_secs as int),
        t matches Some(m) ==> m.wf(),
{
    let zone = chrono::FixedOffset::east_opt(offset_secs)?;
    let local = chrono::DateTime::from_timestamp(utc_secs, 0)?.with_timezone(&zone);
    Some(LocalMinute {
        year: chrono::Datelike::year(&local),
        month: chrono::Datelike::month(&local),
        day: chrono::Datelike::day(&local),
        hour: chrono::Timelike::hour(&local),
        minute: chrono::Timelike::minute(&local),
    })
}

/// Names a session that is stored `utc_secs` seconds after the start of 1970
/// in universal time, where the local clock is `offset_secs` seconds ahead:
/// the name of the local minute, and none where the calendar has no minute
/// for the two.
pub fn record_name_at(utc_secs: i64, offset_secs: i32) -> (name: Option<String>)
    ensures
        match local_minute_of(utc_secs as int, offset_secs as int) {
            Some(t) => t.wf() && (name matches Some(n) && n@ == record_name_of(t)),
            None => name is None,
        },
{
    match local_minute(utc_secs, offset_secs) {
        Some(t) => Some(record_name(t)),
        None => None,
    }
}

/// `a` stands before `b`, or is `b`, in the order of a dictionary whose
/// letters are ordered by their code points.
pub open spec fn name_le(a: Seq<char>, b: Seq<char>) -> bool
    decreases a.len(),
{
    if a.len() == 0 {
        true
    } else if b.len() == 0 {
        false
    } else if a[0] != b[0] {
        a[0] < b[0]
    } else {
        name_le(a.drop_first(), b.drop_first())
    }
}

/// The order of the list of stored sessions: the greater name first.
pub open spec fn newer_first() -> spec_fn(Seq<char>, Seq<char>) -> bool {
    |a: Seq<char>, b: Seq<char>| name_le(b, a)
}

/// Every name stands in order with itself.
pub proof fn lemma_name_le_reflexive(a: Seq<char>)
    ensures
        name_le(a, a),
    decreases a.len(),
{
    if a.len() > 0 {
        lemma_name_le_reflexive(a.drop_first());
    }
}

/// Two names that stand in order both ways are one name.
pub proof fn lemma_name_le_antisymmetric(a: Seq<char>, b: Seq<char>)
    requires
        name_le(a, b),
        name_le(b, a),
    ensures
        a == b,
    decreases a.len(),
{
    if a.len() > 0 {
        lemma_name_le_antisymmetric(a.drop_first(), b.drop_first());
        assert(a =~= seq![a[0]] + a.drop_first());
        assert(b =~= seq![b[0]] + b.drop_first());
    } else {
        assert(a =~= b);
    }
}

/// The order of names carries over a name in between.
pub proof fn lemma_name_le_transitive(a: Seq<char>, b: Seq<char>, c: Seq<char>)
    requires
        name_le(a, b),
        name_le(b, c),
    ensures
        name_le(a, c),
    decreases a.len(),
{
    if a.len() > 0 && a[0] == b[0] && b[0] == c[0] {
        lemma_name_le_transitive(a.drop_first(), b.drop_first(), c.drop_first());
    }
}

/// Any two names stand in order one way or the other.
pub proof fn lemma_name_le_total(a: Seq<char>, b: Seq<char>)
    ensures
        name_le(a, b) || name_le(b, a),
    decreases a.len(),
{
    if a.len() > 0 && b.len() > 0 && a[0] == b[0] {
        lemma_name_le_total(a.drop_first(), b.drop_first());
    }
}

/// The order of the list is a total order.
pub proof fn lemma_newer_first_total_ordering()
    ensures
        vstd::relations::total_ordering(newer_first()),
{
    let r = newer_first();
    assert forall|x: Seq<char>| #[trigger] r(x, x) by {
        lemma_name_le_reflexive(x);
    }
    assert forall|x: Seq<char>, y: Seq<char>| #[trigger] r(x, y) && #[trigger] r(y, x) implies x
        == y by {
        lemma_name_le_antisymmetric(x, y);
    }
    assert forall|x: Seq<char>, y: Seq<char>, z: Seq<char>| #[trigger]
        r(x, y) && #[trigger] r(y, z) implies r(x, z) by {
        lemma_name_le_transitive(z, y, x);
    }
    assert forall|x: Seq<char>, y: Seq<char>| #[trigger] r(x, y) || #[trigger] r(y, x) by {
        lemma_name_le_total(x, y);
    }
}

/// Whether `a` stands before `b`, or is `b`, in the order of names.
pub fn name_in_order(a: &str, b: &str) -> (r: bool)
    ensures
        r == name_le(a@, b@),
{
    let total: usize = a.unicode_len();
    let mut rest_a = a.chars();
    let mut rest_b = b.chars();
    let ghost mut seen: nat = 0;
    loop
        invariant
            total == a@.len(),
            seen + rest_a.remaining().len() == total,
            name_le(a@, b@) == name_le(rest_a.remaining(), rest_b.remaining()),
        decreases total - seen,
    {
        match rest_a.next() {
            None => {
                return true;
            },
            Some(x) => match rest_b.next() {
                None => {
                    return false;
                },
                Some(y) => {
                    if x != y {
                        return x < y;
                    }
                    proof {
                        seen = seen + 1;
                    }
                },
            },
        }
    }
}

/// What a list of strings holds, each as its characters.
pub open spec fn names_of(files: Seq<String>) -> Seq<Seq<char>> {
    files.map_values(|s: String| s@)
}

/// The list of stored sessions that the main menu shows, given the names of
/// the files in the output directory: the greatest names, at most
/// `MAX_RECENT_FILES` of them, the greatest first; or, where there is no file,
/// the one entry that says so.
pub open spec fn recent_names(names: Seq<Seq<char>>) -> Seq<Seq<char>> {
    if names.len() == 0 {
        seq![NO_RECENT_SESSION@]
    } else if names.len() <= MAX_RECENT_FILES {
        names.sort_by(newer_first())
    } else {
        names.sort_by(newer_first()).take(MAX_RECENT_FILES as int)
    }
}

/// The list holds between one and `MAX_RECENT_FILES` entries, each no
/// smaller than the next, and each entry of a list made from files is one of
/// their names.
pub proof fn lemma_recent_names(names: Seq<Seq<char>>)
    ensures
        1 <= recent_names(names).len() <= MAX_RECENT_FILES,
        names.len() == 0 ==> recent_names(names) == seq![NO_RECENT_SESSION@],
        names.len() > 0 ==> recent_names(names).len() == if names.len() <= MAX_RECENT_FILES {
            names.len()
        } else {
            MAX_RECENT_FILES as nat
        },
        names.len() > 0 ==> forall|i: int, j: int|
            0 <= i < j < recent_names(names).len() ==> name_le(
                #[trigger] recent_names(names)[j],
                #[trigger] recent_names(names)[i],
            ),
        names.len() > 0 ==> forall|i: int|
            0 <= i < recent_names(names).len() ==> names.contains(#[trigger] recent_names(names)[i]),
{
    broadcast use vstd::seq_lib::group_to_multiset_ensures;

    if names.len() > 0 {
        let sorted = names.sort_by(newer_first());
        lemma_newer_first_total_ordering();
        names.lemma_sort_by_ensures(newer_first());
        assert(sorted.len() == sorted.to_multiset().len());
        assert(names.len() == names.to_multiset().len());
        let shown = recent_names(names);
        assert forall|i: int, j: int| 0 <= i < j < shown.len() implies name_le(
            #[trigger] shown[j],
            #[trigger] shown[i],
        ) by {
            assert(newer_first()(sorted[i], sorted[j]));
        }
        assert forall|i: int| 0 <= i < shown.len() implies names.contains(#[trigger] shown[i]) by {
            assert(sorted.contains(sorted[i]));
        }
    }
}

/// Makes the list of stored sessions from the names of the files in the
/// output directory, in whatever order they come.
pub fn load_recent_files(names: Vec<String>) -> (files: Vec<String>)
    ensures
        names_of(files@) == recent_names(names_of(names@)),
{
    broadcast use vstd::seq_lib::group_to_multiset_ensures;

    let ghost all = names_of(names@);
    let mut pending = names;
    let mut sorted: Vec<String> = Vec::new();
    proof {
        assert(names_of(sorted@) =~= Seq::<Seq<char>>::empty());
        assert(names_of(sorted@).to_multiset().add(all.to_multiset()) =~= all.to_multiset());
    }
    while pending.len() > 0
        invariant
            vstd::relations::sorted_by(names_of(sorted@), newer_first()),
            names_of(sorted@).to_multiset().add(names_of(pending@).to_multiset())
                == all.to_multiset(),
        decreases pending.len(),
    {
        let ghost before = names_of(pending@);
        let ghost placed = names_of(sorted@);
        let name = pending.pop().unwrap();
        let mut pos: usize = 0;
        while pos < sorted.len() && !name_in_order(sorted[pos].as_str(), name.as_str())
            invariant
                pos <= sorted.len(),
                forall|i: int| 0 <= i < pos ==> !name_le(#[trigger] sorted@[i]@, name@),
            decreases sorted.len() - pos,
        {
            pos = pos + 1;
        }
        sorted.insert(pos, name);
        proof {
            let now = names_of(sorted@);
            assert(now =~= placed.insert(pos as int, name@));
            assert(before =~= names_of(pending@).push(name@));
            let left = names_of(pending@);
            vstd::seq_lib::to_multiset_insert(placed, pos as int, name@);
            left.to_multiset_ensures();
            assert(now.to_multiset() =~= placed.to_multiset().insert(name@));
            assert(before.to_multiset() =~= left.to_multiset().insert(name@));
            assert(now.to_multiset().add(left.to_multiset()) =~= placed.to_multiset().add(
                before.to_multiset(),
            ));
            assert forall|i: int, j: int| 0 <= i < j < now.len() implies #[trigger] newer_first()(
                now[i],
                now[j],
            ) by {
                if j == pos {
                    lemma_name_le_total(placed[i], name@);
                } else if i == pos {
                    if j - 1 > pos {
                        assert(newer_first()(placed[pos as int], placed[j - 1]));
                        lemma_name_le_transitive(placed[j - 1], placed[pos as int], name@);
                    }
                } else {
                    let pi = if i < pos { i } else { i - 1 };
                    let pj = if j < pos { j } else { j - 1 };
                    assert(newer_first()(placed[pi], placed[pj]));
                }
            }
        }
    }
    proof {
        let placed = names_of(sorted@);
        assert(names_of(pending@) =~= Seq::<Seq<char>>::empty());
        assert(placed.to_multiset() =~= all.to_multiset());
        lemma_newer_first_total_ordering();
        all.lemma_sort_by_ensures(newer_first());
        vstd::seq_lib::lemma_sorted_unique(placed, all.sort_by(newer_first()), newer_first());
        assert(placed.len() == all.len()) by {
            assert(placed.len() == placed.to_multiset().len());
            assert(all.len() == all.to_multiset().len());
        }
    }
    sorted.truncate(MAX_RECENT_FILES);
    if sorted.len() == 0 {
        sorted.push(String::from_str(NO_RECENT_SESSION));
        assert(names_of(sorted@) =~= seq![NO_RECENT_SESSION@]);
    } else {
        assert(names_of(sorted@) =~= recent_names(all));
    }
    sorted
}

/// `a` stands before `b` in the order of names, and is not `b`.
pub open spec fn name_lt(a: Seq<char>, b: Seq<char>) -> bool {
    name_le(a, b) && !name_le(b, a)
}

/// The digits of `n` in exactly `width` places, the least significant last.
pub open spec fn fixed_width(n: nat, width: nat) -> Seq<char>
    decreases width,
{
    if width == 0 {
        Seq::empty()
    } else {
        fixed_width(n / 10, (width - 1) as nat).push(digit_char(n % 10))
    }
}

/// Zero in `width` places is `width` zeros.
proof fn lemma_fixed_width_of_zero(width: nat)
    ensures
        fixed_width(0, width) == zeros(width),
    decreases width,
{
    if width > 0 {
        lemma_fixed_width_of_zero((width - 1) as nat);
        assert(zeros((width - 1) as nat).push('0') =~= zeros(width));
    } else {
        assert(zeros(0) =~= Seq::<char>::empty());
    }
}

/// A number that fits into `width` places is padded to exactly these.
proof fn lemma_zero_padded_is_fixed_width(n: nat, width: nat)
    requires
        width >= 1,
        n < pow10(width),
    ensures
        zero_padded(n, width) == fixed_width(n, width),
    decreases width,
{
    let last = digit_char(n % 10);
    crate::text::lemma_decimal_len(n, width);
    if n < 10 {
        lemma_fixed_width_of_zero((width - 1) as nat);
        assert(zeros((width - 1) as nat) + decimal(n) =~= zeros((width - 1) as nat).push(last));
        if width == 1 {
            assert(zeros(0).push(last) =~= decimal(n));
        }
    } else {
        assert(pow10(1) == 10) by {
            reveal_with_fuel(pow10, 2);
        }
        let rest = (width - 1) as nat;
        crate::text::lemma_decimal_len(n / 10, rest);
        lemma_zero_padded_is_fixed_width(n / 10, rest);
        let head = decimal(n / 10);
        if head.len() < rest {
            assert(zeros((width - decimal(n).len()) as nat) + decimal(n) =~= (zeros(
                (rest - head.len()) as nat,
            ) + head).push(last));
        }
    }
}

/// Texts that begin alike are ordered as what follows the common part.
proof fn lemma_name_le_common_prefix(p: Seq<char>, x: Seq<char>, y: Seq<char>)
    ensures
        name_le(p + x, p + y) == name_le(x, y),
    decreases p.len(),
{
    if p.len() == 0 {
        assert(p + x =~= x);
        assert(p + y =~= y);
    } else {
        assert((p + x).drop_first() =~= p.drop_first() + x);
        assert((p + y).drop_first() =~= p.drop_first() + y);
        lemma_name_le_common_prefix(p.drop_first(), x, y);
    }
}

/// Of two numbers written in the same number of places, the smaller makes
/// the smaller text, whatever follows the two.
proof fn lemma_fixed_width_order(a: nat, b: nat, width: nat, ta: Seq<char>, tb: Seq<char>)
    requires
        a < b < pow10(width),
    ensures
        name_lt(fixed_width(a, width) + ta, fixed_width(b, width) + tb),
    decreases width,
{
    if width == 0 {
        assert(pow10(0) == 1);
    } else {
        let rest = (width - 1) as nat;
        let xa = seq![digit_char(a % 10)] + ta;
        let xb = seq![digit_char(b % 10)] + tb;
        assert(fixed_width(a, width) + ta =~= fixed_width(a / 10, rest) + xa);
        assert(fixed_width(b, width) + tb =~= fixed_width(b / 10, rest) + xb);
        if a / 10 < b / 10 {
            lemma_fixed_width_order(a / 10, b / 10, rest, xa, xb);
        } else {
            assert(a / 10 == b / 10);
            lemma_name_le_common_prefix(fixed_width(a / 10, rest), xa, xb);
            lemma_name_le_common_prefix(fixed_width(a / 10, rest), xb, xa);
            assert(xa[0] < xb[0]);
        }
    }
}

/// Two texts that each begin with a number in `width` places are ordered by
/// the numbers, and where these are equal, by what follows.
proof fn lemma_field_order(a: nat, b: nat, width: nat, ta: Seq<char>, tb: Seq<char>)
    requires
        a < pow10(width),
        b < pow10(width),
        a < b || (a == b && name_lt(ta, tb)),
    ensures
        name_lt(fixed_width(a, width) + ta, fixed_width(b, width) + tb),
{
    if a < b {
        lemma_fixed_width_order(a, b, width, ta, tb);
    } else {
        lemma_name_le_common_prefix(fixed_width(a, width), ta, tb);
        lemma_name_le_common_prefix(fixed_width(a, width), tb, ta);
    }
}

/// The minute `a` comes before the minute `b`.
pub open spec fn earlier(a: LocalMinute, b: LocalMinute) -> bool {
    ||| a.year < b.year
    ||| a.year == b.year && a.month < b.month
    ||| a.year == b.year && a.month == b.month && a.day < b.day
    ||| a.year == b.year && a.month == b.month && a.day == b.day && a.hour < b.hour
    ||| a.year == b.year && a.month == b.month && a.day == b.day && a.hour == b.hour && a.minute
        < b.minute
}

/// What follows the year in the name of a file.
spec fn after_year(t: LocalMinute) -> Seq<char> {
    seq!['-'] + (fixed_width(t.month as nat, 2) + after_month(t))
}

/// What follows the month in the name of a file.
spec fn after_month(t: LocalMinute) -> Seq<char> {
    seq!['-'] + (fixed_width(t.day as nat, 2) + after_day(t))
}

/// What follows the day in the name of a file.
spec fn after_day(t: LocalMinute) -> Seq<char> {
    seq!['_'] + (fixed_width(t.hour as nat, 2) + after_hour(t))
}

/// What follows the hour in the name of a file.
spec fn after_hour(t: LocalMinute) -> Seq<char> {
    seq![':'] + (fixed_width(t.minute as nat, 2) + "_freewritesession.txt"@)
}

/// Texts are joined in any grouping to the same text.
proof fn lemma_concat_associative(a: Seq<char>, b: Seq<char>, c: Seq<char>)
    ensures
        (a + b) + c == a + (b + c),
{
    assert((a + b) + c =~= a + (b + c));
}

/// The name of a file of the years 0 to 9999 is made of fields of fixed
/// width: four places for the year, two for each of the others.
proof fn lemma_file_name_in_fields(t: LocalMinute)
    requires
        t.wf(),
        0 <= t.year <= 9999,
    ensures
        record_file_name_of(t) == fixed_width(t.year as nat, 4) + after_year(t),
{
    assert(pow10(2) == 100 && pow10(4) == 10000) by {
        reveal_with_fuel(pow10, 5);
    }
    lemma_zero_padded_is_fixed_width(t.year as nat, 4);
    lemma_zero_padded_is_fixed_width(t.month as nat, 2);
    lemma_zero_padded_is_fixed_width(t.day as nat, 2);
    lemma_zero_padded_is_fixed_width(t.hour as nat, 2);
    lemma_zero_padded_is_fixed_width(t.minute as nat, 2);
    let year = fixed_width(t.year as nat, 4);
    let month = fixed_width(t.month as nat, 2);
    let day = fixed_width(t.day as nat, 2);
    let hour = fixed_width(t.hour as nat, 2);
    let minute = fixed_width(t.minute as nat, 2);
    let end = "_freewritesession.txt"@;
    let to_month = year + seq!['-'] + month;
    let to_day = to_month + seq!['-'] + day;
    let to_hour = to_day + seq!['_'] + hour;
    assert(record_file_name_of(t) == to_hour + seq![':'] + minute + end);
    lemma_concat_associative(to_hour + seq![':'], minute, end);
    lemma_concat_associative(to_hour, seq![':'], minute + end);
    assert(record_file_name_of(t) == to_hour + after_hour(t));
    lemma_concat_associative(to_day + seq!['_'], hour, after_hour(t));
    lemma_concat_associative(to_day, seq!['_'], hour + after_hour(t));
    assert(record_file_name_of(t) == to_day + after_day(t));
    lemma_concat_associative(to_month + seq!['-'], day, after_day(t));
    lemma_concat_associative(to_month, seq!['-'], day + after_day(t));
    assert(record_file_name_of(t) == to_month + after_month(t));
    lemma_concat_associative(year + seq!['-'], month, after_month(t));
    lemma_concat_associative(year, seq!['-'], month + after_month(t));
}

/// The names follow time: of two sessions stored in different minutes of
/// the years 0 to 9999, the later one has the greater name, as a file and as
/// a path. So the list of stored sessions, with the greatest name first, has
/// the newest session first.
pub proof fn lemma_record_names_follow_time(a: LocalMinute, b: LocalMinute)
    requires
        a.wf(),
        b.wf(),
        0 <= a.year <= 9999,
        0 <= b.year <= 9999,
        earlier(a, b),
    ensures
        name_lt(record_file_name_of(a), record_file_name_of(b)),
        name_lt(record_name_of(a), record_name_of(b)),
{
    assert(pow10(2) == 100 && pow10(4) == 10000) by {
        reveal_with_fuel(pow10, 5);
    }
    let end = "_freewritesession.txt"@;
    if a.year == b.year && a.month == b.month && a.day == b.day && a.hour == b.hour {
        lemma_field_order(a.minute as nat, b.minute as nat, 2, end, end);
    }
    let ma = fixed_width(a.minute as nat, 2) + end;
    let mb = fixed_width(b.minute as nat, 2) + end;
    if a.year == b.year && a.month == b.month && a.day == b.day && a.hour == b.hour {
        lemma_name_le_common_prefix(seq![':'], ma, mb);
        lemma_name_le_common_prefix(seq![':'], mb, ma);
    }
    if a.year == b.year && a.month == b.month && a.day == b.day {
        lemma_field_order(a.hour as nat, b.hour as nat, 2, after_hour(a), after_hour(b));
        let ha = fixed_width(a.hour as nat, 2) + after_hour(a);
        let hb = fixed_width(b.hour as nat, 2) + after_hour(b);
        lemma_name_le_common_prefix(seq!['_'], ha, hb);
        lemma_name_le_common_prefix(seq!['_'], hb, ha);
    }
    if a.year == b.year && a.month == b.month {
        lemma_field_order(a.day as nat, b.day as nat, 2, after_day(a), after_day(b));
        let da = fixed_width(a.day as nat, 2) + after_day(a);
        let db = fixed_width(b.day as nat, 2) + after_day(b);
        lemma_name_le_common_prefix(seq!['-'], da, db);
        lemma_name_le_common_prefix(seq!['-'], db, da);
    }
    if a.year == b.year {
        lemma_field_order(a.month as nat, b.month as nat, 2, after_month(a), after_month(b));
        let oa = fixed_width(a.month as nat, 2) + after_month(a);
        let ob = fixed_width(b.month as nat, 2) + after_month(b);
        lemma_name_le_common_prefix(seq!['-'], oa, ob);
        lemma_name_le_common_prefix(seq!['-'], ob, oa);
    }
    lemma_field_order(a.year as nat, b.year as nat, 4, after_year(a), after_year(b));
    lemma_file_name_in_fields(a);
    lemma_file_name_in_fields(b);
    let dir = OUTPUT_DIR@ + seq!['/'];
    lemma_name_le_common_prefix(dir, record_file_name_of(a), record_file_name_of(b));
    lemma_name_le_common_prefix(dir, record_file_name_of(b), record_file_name_of(a));
}

} // verus!
