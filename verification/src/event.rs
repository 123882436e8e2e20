//! Change events and their wire form.
//!
//! A change event carries five integers. On the wire it is a JSON object
//! with exactly the five members `school_id`, `grade`, `class`, `class_id`
//! and `new_status`, in any order, each an integer that fits 32 bits,
//! with optional blanks between tokens. The encoder emits the canonical
//! form; the parser accepts the grammar and nothing else, so an
//! undecodable feed message is dropped rather than acted on.

use vstd::prelude::*;

use crate::text::{dec_int, digit_val, is_digit};

verus! {

/// One change event from the feed: the class `class` of grade `grade` in
/// school `school_id` (the tenant key of the fanout) moved to `new_status`.
#[derive(Clone, Copy, Debug, PartialEq, Eq, Structural)]
pub struct NotificationPayload {
    pub school_id: i32,
    pub grade: i32,
    pub class: i32,
    pub class_id: i32,
    pub new_status: i32,
}

/// The canonical wire text of an event: one JSON object, members in fixed
/// order, no blanks.
pub open spec fn spec_encode_event(e: NotificationPayload) -> Seq<char> {
    "{\"school_id\":"@ + dec_int(e.school_id as int) + ",\"grade\":"@ + dec_int(e.grade as int)
        + ",\"class\":"@ + dec_int(e.class as int) + ",\"class_id\":"@ + dec_int(
        e.class_id as int,
    ) + ",\"new_status\":"@ + dec_int(e.new_status as int) + "}"@
}

/// Whether `c` is a blank the wire grammar ignores between tokens.
pub open spec fn is_ws(c: char) -> bool {
    c == ' ' || c == '\t' || c == '\n' || c == '\r'
}

/// The first position at or after `i` that holds no blank.
pub open spec fn spec_skip_ws(s: Seq<char>, i: int) -> int
    decreases s.len() - i,
{
    if 0 <= i < s.len() && is_ws(s[i]) {
        spec_skip_ws(s, i + 1)
    } else {
        i
    }
}

/// The position of the closing quote at or after `i`; none before the end
/// of input, and none past a backslash: the grammar has no escapes.
pub open spec fn spec_scan_string(s: Seq<char>, i: int) -> Option<int>
    decreases s.len() - i,
{
    if !(0 <= i < s.len()) {
        None
    } else if s[i] == '"' {
        Some(i)
    } else if s[i] == '\\' {
        None
    } else {
        spec_scan_string(s, i + 1)
    }
}

/// Largest magnitude the grammar admits: one more than `i32::MAX`, for the
/// most negative 32-bit value.
pub open spec fn max_magnitude() -> int {
    0x8000_0000
}

/// Reads digits from `i`, accumulating onto `acc`; fails when the value
/// would pass the largest admissible magnitude. Returns the value and the
/// position after the last digit.
pub open spec fn spec_parse_magnitude(s: Seq<char>, i: int, acc: int) -> Option<(int, int)>
    decreases s.len() - i,
{
    if 0 <= i < s.len() && is_digit(s[i]) {
        let acc2 = acc * 10 + digit_val(s[i]);
        if acc2 > max_magnitude() {
            None
        } else {
            spec_parse_magnitude(s, i + 1, acc2)
        }
    } else {
        Some((acc, i))
    }
}

/// Reads one JSON integer at `i`: an optional minus sign, then either a
/// single zero or a nonzero digit run without leading zeros; the value must
/// fit 32 bits. Returns the value and the position after it.
pub open spec fn spec_parse_number(s: Seq<char>, i: int) -> Option<(int, int)> {
    let neg = 0 <= i < s.len() && s[i] == '-';
    let j = if neg {
        i + 1
    } else {
        i
    };
    if !(0 <= j < s.len() && is_digit(s[j])) {
        None
    } else if s[j] == '0' {
        if j + 1 < s.len() && is_digit(s[j + 1]) {
            None
        } else {
            Some((0, j + 1))
        }
    } else {
        match spec_parse_magnitude(s, j, 0) {
            None => None,
            Some((mag, end)) => {
                if neg {
                    Some((-mag, end))
                } else if mag > i32::MAX as int {
                    None
                } else {
                    Some((mag, end))
                }
            },
        }
    }
}

/// Reads one member at `i`: blanks, a quoted key, blanks, a colon, blanks,
/// an integer. Returns the key, the value and the position after the value.
pub open spec fn spec_parse_member(s: Seq<char>, i: int) -> Option<(Seq<char>, int, int)> {
    let k0 = spec_skip_ws(s, i);
    if !(0 <= k0 < s.len() && s[k0] == '"') {
        None
    } else {
        match spec_scan_string(s, k0 + 1) {
            None => None,
            Some(q) => {
                let key = s.subrange(k0 + 1, q);
                let c0 = spec_skip_ws(s, q + 1);
                if !(0 <= c0 < s.len() && s[c0] == ':') {
                    None
                } else {
                    let v0 = spec_skip_ws(s, c0 + 1);
                    match spec_parse_number(s, v0) {
                        None => None,
                        Some((v, end)) => Some((key, v, end)),
                    }
                }
            },
        }
    }
}

/// The five members of an event while parsing: each either still missing or
/// already read once.
pub struct EventFields {
    pub school_id: Option<int>,
    pub grade: Option<int>,
    pub class: Option<int>,
    pub class_id: Option<int>,
    pub new_status: Option<int>,
}

/// No member read yet.
pub open spec fn no_fields() -> EventFields {
    EventFields { school_id: None, grade: None, class: None, class_id: None, new_status: None }
}

/// Records the member `key` with value `v`: fails on a key outside the five
/// or on a key read twice.
pub open spec fn spec_set_field(f: EventFields, key: Seq<char>, v: int) -> Option<EventFields> {
    if key == "school_id"@ {
        if f.school_id is Some {
            None
        } else {
            Some(EventFields { school_id: Some(v), ..f })
        }
    } else if key == "grade"@ {
        if f.grade is Some {
            None
        } else {
            Some(EventFields { grade: Some(v), ..f })
        }
    } else if key == "class"@ {
        if f.class is Some {
            None
        } else {
            Some(EventFields { class: Some(v), ..f })
        }
    } else if key == "class_id"@ {
        if f.class_id is Some {
            None
        } else {
            Some(EventFields { class_id: Some(v), ..f })
        }
    } else if key == "new_status"@ {
        if f.new_status is Some {
            None
        } else {
            Some(EventFields { new_status: Some(v), ..f })
        }
    } else {
        None
    }
}

/// Reads one member at `i` and records it onto `f`.
pub open spec fn spec_parse_field(s: Seq<char>, i: int, f: EventFields) -> Option<(
    EventFields,
    int,
)> {
    match spec_parse_member(s, i) {
        None => None,
        Some((key, v, end)) => match spec_set_field(f, key, v) {
            None => None,
            Some(f2) => Some((f2, end)),
        },
    }
}

/// Expects a comma (after blanks) at `i`, then reads one member.
pub open spec fn spec_parse_comma_field(s: Seq<char>, i: int, f: EventFields) -> Option<(
    EventFields,
    int,
)> {
    let c = spec_skip_ws(s, i);
    if !(0 <= c < s.len() && s[c] == ',') {
        None
    } else {
        spec_parse_field(s, c + 1, f)
    }
}

/// The event a wire text denotes, when it lies in the grammar: one object
/// holding each of the five members exactly once, nothing before or after.
pub open spec fn spec_parse_event(s: Seq<char>) -> Option<NotificationPayload> {
    let i0 = spec_skip_ws(s, 0);
    if !(0 <= i0 < s.len() && s[i0] == '{') {
        None
    } else {
        match spec_parse_field(s, i0 + 1, no_fields()) {
            None => None,
            Some((f1, e1)) => match spec_parse_comma_field(s, e1, f1) {
                None => None,
                Some((f2, e2)) => match spec_parse_comma_field(s, e2, f2) {
                    None => None,
                    Some((f3, e3)) => match spec_parse_comma_field(s, e3, f3) {
                        None => None,
                        Some((f4, e4)) => match spec_parse_comma_field(s, e4, f4) {
                            None => None,
                            Some((f5, e5)) => {
                                let w = spec_skip_ws(s, e5);
                                if !(0 <= w < s.len() && s[w] == '}') {
                                    None
                                } else if spec_skip_ws(s, w + 1) != s.len() {
                                    None
                                } else {
                                    fields_to_event(f5)
                                }
                            },
                        },
                    },
                },
            },
        }
    }
}

/// The event five recorded members make, once all five are present and each
/// value fits 32 bits.
pub open spec fn fields_to_event(f: EventFields) -> Option<NotificationPayload> {
    match (f.school_id, f.grade, f.class, f.class_id, f.new_status) {
        (Some(a), Some(b), Some(c), Some(d), Some(e)) => {
            if i32::MIN <= a <= i32::MAX && i32::MIN <= b <= i32::MAX && i32::MIN <= c
                <= i32::MAX && i32::MIN <= d <= i32::MAX && i32::MIN <= e <= i32::MAX {
                Some(
                    NotificationPayload {
                        school_id: a as i32,
                        grade: b as i32,
                        class: c as i32,
                        class_id: d as i32,
                        new_status: e as i32,
                    },
                )
            } else {
                None
            }
        },
        _ => None,
    }
}

/// The wire text of an event, in canonical form.
pub fn encode_event(e: &NotificationPayload) -> (r: String)
    ensures
        r@ == spec_encode_event(*e),
{
    let mut out = "{\"school_id\":".to_owned();
    out.append(crate::text::i32_to_string(e.school_id).as_str());
    out.append(",\"grade\":");
    out.append(crate::text::i32_to_string(e.grade).as_str());
    out.append(",\"class\":");
    out.append(crate::text::i32_to_string(e.class).as_str());
    out.append(",\"class_id\":");
    out.append(crate::text::i32_to_string(e.class_id).as_str());
    out.append(",\"new_status\":");
    out.append(crate::text::i32_to_string(e.new_status).as_str());
    out.append("}");
    out
}

} // verus!

verus! {

/// The five members while the executable parser reads them.
struct FieldsBuf {
    school_id: Option<i32>,
    grade: Option<i32>,
    class: Option<i32>,
    class_id: Option<i32>,
    new_status: Option<i32>,
}

/// A 32-bit optional value, widened.
pub open spec fn opt_int(o: Option<i32>) -> Option<int> {
    match o {
        Some(v) => Some(v as int),
        None => None,
    }
}

impl FieldsBuf {
    /// The members read so far, widened.
    spec fn abs(self) -> EventFields {
        EventFields {
            school_id: opt_int(self.school_id),
            grade: opt_int(self.grade),
            class: opt_int(self.class),
            class_id: opt_int(self.class_id),
            new_status: opt_int(self.new_status),
        }
    }
}

/// The first position at or after `i` that holds no blank.
fn skip_ws(s: &Vec<char>, i: usize) -> (r: usize)
    requires
        i <= s@.len(),
    ensures
        r == spec_skip_ws(s@, i as int),
        i <= r <= s@.len(),
    decreases s@.len() - i,
{
    if i < s.len() && (s[i] == ' ' || s[i] == '\t' || s[i] == '\n' || s[i] == '\r') {
        skip_ws(s, i + 1)
    } else {
        i
    }
}

/// The position of the closing quote at or after `i`, if the grammar admits
/// one.
fn scan_string(s: &Vec<char>, i: usize) -> (r: Option<usize>)
    requires
        i <= s@.len(),
    ensures
        match r {
            Some(q) => spec_scan_string(s@, i as int) == Some(q as int) && i <= q < s@.len(),
            None => spec_scan_string(s@, i as int) is None,
        },
    decreases s@.len() - i,
{
    if i >= s.len() {
        None
    } else if s[i] == '"' {
        Some(i)
    } else if s[i] == '\\' {
        None
    } else {
        scan_string(s, i + 1)
    }
}

/// Reads digits from `i` onto `acc`, within the largest admissible
/// magnitude.
fn parse_magnitude(s: &Vec<char>, i: usize, acc: u64) -> (r: Option<(u64, usize)>)
    requires
        i <= s@.len(),
        acc <= 0x8000_0000,
    ensures
        match r {
            Some(p) => spec_parse_magnitude(s@, i as int, acc as int) == Some(
                (p.0 as int, p.1 as int),
            ) && p.0 <= 0x8000_0000 && i <= p.1 <= s@.len(),
            None => spec_parse_magnitude(s@, i as int, acc as int) is None,
        },
    decreases s@.len() - i,
{
    if i < s.len() {
        let u = s[i] as u32;
        if 48 <= u && u <= 57 {
            let acc2: u64 = acc * 10 + (u - 48) as u64;
            if acc2 > 0x8000_0000 {
                return None;
            }
            return parse_magnitude(s, i + 1, acc2);
        }
    }
    Some((acc, i))
}

/// Reads one JSON integer at `i` that fits 32 bits.
fn parse_number(s: &Vec<char>, i: usize) -> (r: Option<(i32, usize)>)
    requires
        i <= s@.len(),
    ensures
        match r {
            Some(p) => spec_parse_number(s@, i as int) == Some((p.0 as int, p.1 as int)) && i
                <= p.1 <= s@.len(),
            None => spec_parse_number(s@, i as int) is None,
        },
{
    let neg = i < s.len() && s[i] == '-';
    let j = if neg {
        i + 1
    } else {
        i
    };
    if !(j < s.len() && 48 <= s[j] as u32 && s[j] as u32 <= 57) {
        return None;
    }
    if s[j] == '0' {
        if j + 1 < s.len() && 48 <= s[j + 1] as u32 && s[j + 1] as u32 <= 57 {
            return None;
        }
        return Some((0, j + 1));
    }
    match parse_magnitude(s, j, 0) {
        None => None,
        Some((mag, end)) => {
            if neg {
                let v: i64 = -(mag as i64);
                Some((v as i32, end))
            } else if mag > 0x7fff_ffff {
                None
            } else {
                Some((mag as i32, end))
            }
        },
    }
}

/// A copy of `s[a..b]`.
fn copy_range(s: &Vec<char>, a: usize, b: usize) -> (r: Vec<char>)
    requires
        a <= b <= s@.len(),
    ensures
        r@ == s@.subrange(a as int, b as int),
{
    let mut out: Vec<char> = Vec::new();
    let mut k: usize = a;
    while k < b
        invariant
            a <= k <= b <= s@.len(),
            out@ =~= s@.subrange(a as int, k as int),
        decreases b - k,
    {
        out.push(s[k]);
        k += 1;
    }
    proof {
        assert(out@ =~= s@.subrange(a as int, b as int));
    }
    out
}

/// Reads one member at `i`: its key, its value and the position after it.
fn parse_member(s: &Vec<char>, i: usize) -> (r: Option<(Vec<char>, i32, usize)>)
    requires
        i <= s@.len(),
    ensures
        match r {
            Some(p) => spec_parse_member(s@, i as int) == Some((p.0@, p.1 as int, p.2 as int))
                && i <= p.2 <= s@.len(),
            None => spec_parse_member(s@, i as int) is None,
        },
{
    let k0 = skip_ws(s, i);
    if !(k0 < s.len() && s[k0] == '"') {
        return None;
    }
    match scan_string(s, k0 + 1) {
        None => None,
        Some(q) => {
            let key = copy_range(s, k0 + 1, q);
            let c0 = skip_ws(s, q + 1);
            if !(c0 < s.len() && s[c0] == ':') {
                return None;
            }
            let v0 = skip_ws(s, c0 + 1);
            match parse_number(s, v0) {
                None => None,
                Some((v, end)) => Some((key, v, end)),
            }
        },
    }
}

/// Records the member `key` with value `v` onto `f`; false on a key outside
/// the five or read twice, with `f` unchanged.
fn set_field(f: &mut FieldsBuf, key: &Vec<char>, v: i32) -> (ok: bool)
    ensures
        ok <==> spec_set_field(old(f).abs(), key@, v as int) is Some,
        ok ==> Some(final(f).abs()) == spec_set_field(old(f).abs(), key@, v as int),
        !ok ==> *final(f) == *old(f),
{
    if crate::text::chars_eq(key, "school_id") {
        if f.school_id.is_some() {
            return false;
        }
        f.school_id = Some(v);
        true
    } else if crate::text::chars_eq(key, "grade") {
        if f.grade.is_some() {
            return false;
        }
        f.grade = Some(v);
        true
    } else if crate::text::chars_eq(key, "class") {
        if f.class.is_some() {
            return false;
        }
        f.class = Some(v);
        true
    } else if crate::text::chars_eq(key, "class_id") {
        if f.class_id.is_some() {
            return false;
        }
        f.class_id = Some(v);
        true
    } else if crate::text::chars_eq(key, "new_status") {
        if f.new_status.is_some() {
            return false;
        }
        f.new_status = Some(v);
        true
    } else {
        false
    }
}

/// Reads one member at `i` and records it onto `f`.
fn parse_field(s: &Vec<char>, i: usize, f: &mut FieldsBuf) -> (r: Option<usize>)
    requires
        i <= s@.len(),
    ensures
        match r {
            Some(end) => spec_parse_field(s@, i as int, old(f).abs()) == Some(
                (final(f).abs(), end as int),
            ) && i <= end <= s@.len(),
            None => spec_parse_field(s@, i as int, old(f).abs()) is None,
        },
{
    match parse_member(s, i) {
        None => None,
        Some((key, v, end)) => {
            if set_field(f, &key, v) {
                Some(end)
            } else {
                None
            }
        },
    }
}

/// Expects a comma (after blanks) at `i`, then reads one member onto `f`.
fn parse_comma_field(s: &Vec<char>, i: usize, f: &mut FieldsBuf) -> (r: Option<usize>)
    requires
        i <= s@.len(),
    ensures
        match r {
            Some(end) => spec_parse_comma_field(s@, i as int, old(f).abs()) == Some(
                (final(f).abs(), end as int),
            ) && i <= end <= s@.len(),
            None => spec_parse_comma_field(s@, i as int, old(f).abs()) is None,
        },
{
    let c = skip_ws(s, i);
    if !(c < s.len() && s[c] == ',') {
        return None;
    }
    parse_field(s, c + 1, f)
}

/// The event `s` denotes on the wire, or nothing when `s` lies outside the
/// grammar; an undecodable message is thereby dropped, never acted on.
pub fn parse_event(s: &str) -> (r: Option<NotificationPayload>)
    ensures
        r == spec_parse_event(s@),
{
    let v = crate::glob::str_chars(s);
    let i0 = skip_ws(&v, 0);
    if !(i0 < v.len() && v[i0] == '{') {
        return None;
    }
    let mut f = FieldsBuf { school_id: None, grade: None, class: None, class_id: None, new_status: None };
    proof {
        assert(f.abs() == no_fields());
    }
    let e1 = match parse_field(&v, i0 + 1, &mut f) {
        None => { return None; },
        Some(e) => e,
    };
    let e2 = match parse_comma_field(&v, e1, &mut f) {
        None => { return None; },
        Some(e) => e,
    };
    let e3 = match parse_comma_field(&v, e2, &mut f) {
        None => { return None; },
        Some(e) => e,
    };
    let e4 = match parse_comma_field(&v, e3, &mut f) {
        None => { return None; },
        Some(e) => e,
    };
    let e5 = match parse_comma_field(&v, e4, &mut f) {
        None => { return None; },
        Some(e) => e,
    };
    let w = skip_ws(&v, e5);
    if !(w < v.len() && v[w] == '}') {
        return None;
    }
    if skip_ws(&v, w + 1) != v.len() {
        return None;
    }
    match (f.school_id, f.grade, f.class, f.class_id, f.new_status) {
        (Some(a), Some(b), Some(c), Some(d), Some(e)) => Some(
            NotificationPayload { school_id: a, grade: b, class: c, class_id: d, new_status: e },
        ),
        _ => None,
    }
}

} // verus!

verus! {

/// The digits of a positive number: at least one, all digits, no leading
/// zero, and worth the number itself.
proof fn lemma_dec_digits_shape(n: int)
    requires
        1 <= n,
    ensures
        crate::text::dec_digits(n).len() >= 1,
        crate::text::all_digits(crate::text::dec_digits(n)),
        crate::text::dec_digits(n)[0] != '0',
        crate::text::digits_val(crate::text::dec_digits(n)) == n,
    decreases n,
{
    let ds = crate::text::dec_digits(n);
    if n < 10 {
        reveal_with_fuel(crate::text::dec_digits, 2);
        assert(n / 10 == 0 && n % 10 == n);
        assert(ds =~= seq![crate::text::digit_char(n)]);
        assert(ds.drop_last() =~= Seq::<char>::empty());
        assert(crate::text::digits_val(Seq::<char>::empty()) == 0);
        assert(crate::text::digits_val(ds) == crate::text::digits_val(ds.drop_last()) * 10
            + crate::text::digit_val(ds.last()));
    } else {
        lemma_dec_digits_shape(n / 10);
        let pre = crate::text::dec_digits(n / 10);
        assert(ds == pre.push(crate::text::digit_char(n % 10)));
        assert(ds.drop_last() =~= pre);
        assert(ds[0] == pre[0]);
        assert forall|i: int| 0 <= i < ds.len() implies crate::text::is_digit(
            #[trigger] ds[i],
        ) by {
            if i < pre.len() {
                assert(ds[i] == pre[i]);
            }
        }
    }
}

/// Blanks are skipped only where they stand: at a non-blank (or at the end)
/// the position stays.
proof fn lemma_skip_ws_at(s: Seq<char>, i: int)
    requires
        0 <= i <= s.len(),
        i == s.len() || !is_ws(s[i]),
    ensures
        spec_skip_ws(s, i) == i,
{
}

/// The scan finds the quote at `q` when nothing before it is a quote or a
/// backslash.
proof fn lemma_scan_to(s: Seq<char>, i: int, q: int)
    requires
        0 <= i <= q < s.len(),
        s[q] == '"',
        forall|j: int| i <= j < q ==> s[j] != '"' && s[j] != '\\',
    ensures
        spec_scan_string(s, i) == Some(q),
    decreases q - i,
{
    if i < q {
        lemma_scan_to(s, i + 1, q);
    }
}

/// Reading the digit run `ds` from position `i + j`, with the value of the
/// first `j` digits already accumulated, yields the whole run's value and
/// stops right after the run.
proof fn lemma_magnitude_run(s: Seq<char>, i: int, ds: Seq<char>, j: int)
    requires
        0 <= i,
        i + ds.len() <= s.len(),
        forall|k: int| 0 <= k < ds.len() ==> s[i + k] == ds[k],
        crate::text::all_digits(ds),
        i + ds.len() == s.len() || !crate::text::is_digit(s[i + ds.len()]),
        0 <= j <= ds.len(),
        crate::text::digits_val(ds) <= max_magnitude(),
    ensures
        spec_parse_magnitude(s, i + j, crate::text::digits_val(ds.take(j))) == Some(
            (crate::text::digits_val(ds), i + ds.len()),
        ),
    decreases ds.len() - j,
{
    if j == ds.len() {
        assert(ds.take(j) =~= ds);
    } else {
        assert(s[i + j] == ds[j]);
        assert(crate::text::is_digit(ds[j]));
        assert(ds.take(j + 1).drop_last() =~= ds.take(j));
        assert(ds.take(j + 1).last() == ds[j]);
        assert(crate::text::digits_val(ds.take(j + 1)) == crate::text::digits_val(ds.take(j))
            * 10 + crate::text::digit_val(ds[j]));
        assert(crate::text::all_digits(ds.take(j + 1))) by {
            assert forall|k: int| 0 <= k < ds.take(j + 1).len() implies crate::text::is_digit(
                #[trigger] ds.take(j + 1)[k],
            ) by {
                assert(ds.take(j + 1)[k] == ds[k]);
            }
        }
        crate::text::lemma_digits_val_prefix(ds, j + 1);
        lemma_magnitude_run(s, i, ds, j + 1);
    }
}

/// Reading a number at `i` where the canonical text of `v` stands, with no
/// digit right after it, yields `v` and stops right after the text.
proof fn lemma_parse_number_at(s: Seq<char>, i: int, v: int)
    requires
        0 <= i,
        i + crate::text::dec_int(v).len() <= s.len(),
        forall|k: int|
            0 <= k < crate::text::dec_int(v).len() ==> s[i + k] == crate::text::dec_int(v)[k],
        i + crate::text::dec_int(v).len() == s.len() || !crate::text::is_digit(
            s[i + crate::text::dec_int(v).len()],
        ),
        i32::MIN <= v <= i32::MAX,
    ensures
        spec_parse_number(s, i) == Some((v, i + crate::text::dec_int(v).len())),
{
    let d = crate::text::dec_int(v);
    if v == 0 {
        assert(s[i] == '0') by {
            assert(s[i + 0] == d[0]);
        }
        assert(crate::text::is_digit(s[i]));
    } else if v > 0 {
        lemma_dec_digits_shape(v);
        assert(d == crate::text::dec_digits(v));
        assert(s[i] == d[0]) by {
            assert(s[i + 0] == d[0]);
        }
        assert(crate::text::is_digit(s[i]) && s[i] != '0' && s[i] != '-');
        assert(crate::text::dec_digits(v).take(0) =~= Seq::<char>::empty());
        lemma_magnitude_run(s, i, crate::text::dec_digits(v), 0);
        assert(spec_parse_magnitude(s, i, 0) == Some((v, i + d.len())));
    } else {
        let mag = -v;
        lemma_dec_digits_shape(mag);
        let ds = crate::text::dec_digits(mag);
        assert(d =~= seq!['-'] + ds);
        assert(s[i] == '-') by {
            assert(s[i + 0] == d[0]);
        }
        assert forall|k: int| 0 <= k < ds.len() implies s[i + 1 + k] == ds[k] by {
            assert(s[i + 1 + k] == d[1 + k]);
            assert(d[1 + k] == ds[k]);
        }
        assert(s[i + 1] == ds[0]);
        assert(crate::text::is_digit(s[i + 1]) && s[i + 1] != '0');
        assert(ds.take(0) =~= Seq::<char>::empty());
        lemma_magnitude_run(s, i + 1, ds, 0);
        assert(spec_parse_magnitude(s, i + 1, 0) == Some((mag, i + 1 + ds.len())));
        assert(i + 1 + ds.len() == i + d.len());
    }
}

/// Reading a member at `i` where a quoted key, a colon and the canonical
/// text of `v` stand, with no digit right after, yields the key and the
/// value and stops right after the number.
proof fn lemma_parse_member_at(s: Seq<char>, i: int, key: Seq<char>, v: int)
    requires
        0 <= i,
        ({
            let m = seq!['"'] + key + seq!['"'] + seq![':'] + crate::text::dec_int(v);
            &&& i + m.len() <= s.len()
            &&& forall|k: int| 0 <= k < m.len() ==> s[i + k] == m[k]
            &&& (i + m.len() == s.len() || !crate::text::is_digit(s[i + m.len()]))
        }),
        forall|k: int| 0 <= k < key.len() ==> key[k] != '"' && key[k] != '\\' && !is_ws(#[trigger] key[k]),
        i32::MIN <= v <= i32::MAX,
    ensures
        spec_parse_member(s, i) == Some(
            (key, v, i + 3 + key.len() + crate::text::dec_int(v).len()),
        ),
{
    let d = crate::text::dec_int(v);
    let m = seq!['"'] + key + seq!['"'] + seq![':'] + d;
    assert(m.len() == 3 + key.len() + d.len());
    assert(s[i] == '"') by {
        assert(s[i + 0] == m[0]);
    }
    lemma_skip_ws_at(s, i);
    let q = i + 1 + key.len();
    assert(s[q] == '"') by {
        assert(m[1 + key.len() as int] == '"');
    }
    assert forall|j: int| i + 1 <= j < q implies s[j] != '"' && s[j] != '\\' by {
        assert(s[j] == m[j - i]);
        assert(m[j - i] == key[j - i - 1]);
    }
    lemma_scan_to(s, i + 1, q);
    assert(s.subrange(i + 1, q) =~= key) by {
        assert forall|k: int| 0 <= k < key.len() implies s.subrange(i + 1, q)[k] == key[k] by {
            assert(s[i + 1 + k] == m[1 + k]);
            assert(m[1 + k] == key[k]);
        }
    }
    assert(s[q + 1] == ':') by {
        assert(m[2 + key.len() as int] == ':');
    }
    lemma_skip_ws_at(s, q + 1);
    assert forall|k: int| 0 <= k < d.len() implies s[q + 2 + k] == d[k] by {
        assert(s[q + 2 + k] == m[3 + key.len() as int + k]);
        assert(m[3 + key.len() as int + k] == d[k]);
    }
    assert(s[q + 2] == d[0]);
    assert(!is_ws(s[q + 2])) by {
        if v == 0 {
            assert(d[0] == '0');
        } else if v > 0 {
            lemma_dec_digits_shape(v);
            assert(crate::text::is_digit(d[0]));
        } else {
            assert(d[0] == '-');
        }
    }
    lemma_skip_ws_at(s, q + 2);
    lemma_parse_number_at(s, q + 2, v);
}

/// Length of one encoded member: quote, key, quote, colon, number.
spec fn member_len(key: Seq<char>, v: int) -> int {
    3 + key.len() as int + crate::text::dec_int(v).len() as int
}

/// Position of the first member in an encoded event.
spec fn pos_school(e: NotificationPayload) -> int {
    1
}

/// Position of the second member.
spec fn pos_grade(e: NotificationPayload) -> int {
    pos_school(e) + member_len("school_id"@, e.school_id as int) + 1
}

/// Position of the third member.
spec fn pos_class(e: NotificationPayload) -> int {
    pos_grade(e) + member_len("grade"@, e.grade as int) + 1
}

/// Position of the fourth member.
spec fn pos_class_id(e: NotificationPayload) -> int {
    pos_class(e) + member_len("class"@, e.class as int) + 1
}

/// Position of the fifth member.
spec fn pos_new_status(e: NotificationPayload) -> int {
    pos_class_id(e) + member_len("class_id"@, e.class_id as int) + 1
}

/// Position of the closing brace.
spec fn pos_close(e: NotificationPayload) -> int {
    pos_new_status(e) + member_len("new_status"@, e.new_status as int)
}

/// The punctuation of an encoded event stands where the layout says.
proof fn lemma_encoded_layout(e: NotificationPayload)
    ensures
        ({
            let s = spec_encode_event(e);
            &&& s.len() == pos_close(e) + 1
            &&& s[0] == '{'
            &&& s[pos_grade(e) - 1] == ','
            &&& s[pos_class(e) - 1] == ','
            &&& s[pos_class_id(e) - 1] == ','
            &&& s[pos_new_status(e) - 1] == ','
            &&& s[pos_close(e)] == '}'
        }),
{
    reveal_strlit("{\"school_id\":");
    reveal_strlit(",\"grade\":");
    reveal_strlit(",\"class\":");
    reveal_strlit(",\"class_id\":");
    reveal_strlit(",\"new_status\":");
    reveal_strlit("}");
    reveal_strlit("school_id");
    reveal_strlit("grade");
    reveal_strlit("class");
    reveal_strlit("class_id");
    reveal_strlit("new_status");
}

/// The first member parses at its position.
proof fn lemma_member_school(e: NotificationPayload)
    ensures
        spec_parse_member(spec_encode_event(e), pos_school(e)) == Some(
            ("school_id"@, e.school_id as int, pos_grade(e) - 1),
        ),
{
    reveal_strlit("{\"school_id\":");
    reveal_strlit(",\"grade\":");
    reveal_strlit("school_id");
    let s = spec_encode_event(e);
    let key = "school_id"@;
    let v = e.school_id as int;
    let m = seq!['"'] + key + seq!['"'] + seq![':'] + crate::text::dec_int(v);
    let i = pos_school(e);
    assert forall|k: int| 0 <= k < m.len() implies s[i + k] == m[k] by {}
    assert(!crate::text::is_digit(s[i + m.len()]));
    assert forall|k: int|
        0 <= k < key.len() implies key[k] != '"' && key[k] != '\\' && !is_ws(
        #[trigger] key[k],
    ) by {}
    lemma_parse_member_at(s, i, key, v);
}

/// The second member parses at its position.
proof fn lemma_member_grade(e: NotificationPayload)
    ensures
        spec_parse_member(spec_encode_event(e), pos_grade(e)) == Some(
            ("grade"@, e.grade as int, pos_class(e) - 1),
        ),
{
    reveal_strlit("{\"school_id\":");
    reveal_strlit(",\"grade\":");
    reveal_strlit(",\"class\":");
    reveal_strlit("school_id");
    reveal_strlit("grade");
    let s = spec_encode_event(e);
    let key = "grade"@;
    let v = e.grade as int;
    let m = seq!['"'] + key + seq!['"'] + seq![':'] + crate::text::dec_int(v);
    let i = pos_grade(e);
    assert forall|k: int| 0 <= k < m.len() implies s[i + k] == m[k] by {}
    assert(!crate::text::is_digit(s[i + m.len()]));
    assert forall|k: int|
        0 <= k < key.len() implies key[k] != '"' && key[k] != '\\' && !is_ws(
        #[trigger] key[k],
    ) by {}
    lemma_parse_member_at(s, i, key, v);
}

/// The third member parses at its position.
proof fn lemma_member_class(e: NotificationPayload)
    ensures
        spec_parse_member(spec_encode_event(e), pos_class(e)) == Some(
            ("class"@, e.class as int, pos_class_id(e) - 1),
        ),
{
    reveal_strlit("{\"school_id\":");
    reveal_strlit(",\"grade\":");
    reveal_strlit(",\"class\":");
    reveal_strlit(",\"class_id\":");
    reveal_strlit("school_id");
    reveal_strlit("grade");
    reveal_strlit("class");
    let s = spec_encode_event(e);
    let key = "class"@;
    let v = e.class as int;
    let m = seq!['"'] + key + seq!['"'] + seq![':'] + crate::text::dec_int(v);
    let i = pos_class(e);
    assert forall|k: int| 0 <= k < m.len() implies s[i + k] == m[k] by {}
    assert(!crate::text::is_digit(s[i + m.len()]));
    assert forall|k: int|
        0 <= k < key.len() implies key[k] != '"' && key[k] != '\\' && !is_ws(
        #[trigger] key[k],
    ) by {}
    lemma_parse_member_at(s, i, key, v);
}

/// The fourth member parses at its position.
proof fn lemma_member_class_id(e: NotificationPayload)
    ensures
        spec_parse_member(spec_encode_event(e), pos_class_id(e)) == Some(
            ("class_id"@, e.class_id as int, pos_new_status(e) - 1),
        ),
{
    reveal_strlit("{\"school_id\":");
    reveal_strlit(",\"grade\":");
    reveal_strlit(",\"class\":");
    reveal_strlit(",\"class_id\":");
    reveal_strlit(",\"new_status\":");
    reveal_strlit("school_id");
    reveal_strlit("grade");
    reveal_strlit("class");
    reveal_strlit("class_id");
    let s = spec_encode_event(e);
    let key = "class_id"@;
    let v = e.class_id as int;
    let m = seq!['"'] + key + seq!['"'] + seq![':'] + crate::text::dec_int(v);
    let i = pos_class_id(e);
    assert forall|k: int| 0 <= k < m.len() implies s[i + k] == m[k] by {}
    assert(!crate::text::is_digit(s[i + m.len()]));
    assert forall|k: int|
        0 <= k < key.len() implies key[k] != '"' && key[k] != '\\' && !is_ws(
        #[trigger] key[k],
    ) by {}
    lemma_parse_member_at(s, i, key, v);
}

/// The fifth member parses at its position.
proof fn lemma_member_new_status(e: NotificationPayload)
    ensures
        spec_parse_member(spec_encode_event(e), pos_new_status(e)) == Some(
            ("new_status"@, e.new_status as int, pos_close(e)),
        ),
{
    reveal_strlit("{\"school_id\":");
    reveal_strlit(",\"grade\":");
    reveal_strlit(",\"class\":");
    reveal_strlit(",\"class_id\":");
    reveal_strlit(",\"new_status\":");
    reveal_strlit("}");
    reveal_strlit("school_id");
    reveal_strlit("grade");
    reveal_strlit("class");
    reveal_strlit("class_id");
    reveal_strlit("new_status");
    let s = spec_encode_event(e);
    let key = "new_status"@;
    let v = e.new_status as int;
    let m = seq!['"'] + key + seq!['"'] + seq![':'] + crate::text::dec_int(v);
    let i = pos_new_status(e);
    assert forall|k: int| 0 <= k < m.len() implies s[i + k] == m[k] by {}
    assert(!crate::text::is_digit(s[i + m.len()]));
    assert forall|k: int|
        0 <= k < key.len() implies key[k] != '"' && key[k] != '\\' && !is_ws(
        #[trigger] key[k],
    ) by {}
    lemma_parse_member_at(s, i, key, v);
}

/// Round trip of the wire codec: the canonical text of any event lies in
/// the wire grammar and denotes that event again, so every frame this crate
/// emits is read back unchanged.
#[verifier::rlimit(100)]
pub proof fn lemma_encode_parse_round_trip(e: NotificationPayload)
    ensures
        spec_parse_event(spec_encode_event(e)) == Some(e),
{
    reveal_strlit("school_id");
    reveal_strlit("grade");
    reveal_strlit("class");
    reveal_strlit("class_id");
    reveal_strlit("new_status");
    let s = spec_encode_event(e);
    lemma_encoded_layout(e);
    lemma_member_school(e);
    lemma_member_grade(e);
    lemma_member_class(e);
    lemma_member_class_id(e);
    lemma_member_new_status(e);

    lemma_skip_ws_at(s, 0);
    lemma_skip_ws_at(s, pos_grade(e) - 1);
    lemma_skip_ws_at(s, pos_class(e) - 1);
    lemma_skip_ws_at(s, pos_class_id(e) - 1);
    lemma_skip_ws_at(s, pos_new_status(e) - 1);
    lemma_skip_ws_at(s, pos_close(e));
    lemma_skip_ws_at(s, pos_close(e) + 1);

    let f0 = no_fields();
    let f1 = EventFields { school_id: Some(e.school_id as int), ..f0 };
    let f2 = EventFields { grade: Some(e.grade as int), ..f1 };
    let f3 = EventFields { class: Some(e.class as int), ..f2 };
    let f4 = EventFields { class_id: Some(e.class_id as int), ..f3 };
    let f5 = EventFields { new_status: Some(e.new_status as int), ..f4 };

    assert("class"@ != "grade"@) by {
        assert("class"@[0] == 'c');
        assert("grade"@[0] == 'g');
    }
    assert(spec_parse_field(s, pos_school(e), f0) == Some((f1, pos_grade(e) - 1)));
    assert(spec_parse_comma_field(s, pos_grade(e) - 1, f1) == Some((f2, pos_class(e) - 1)));
    assert(spec_parse_comma_field(s, pos_class(e) - 1, f2) == Some((f3, pos_class_id(e) - 1)));
    assert(spec_parse_comma_field(s, pos_class_id(e) - 1, f3) == Some(
        (f4, pos_new_status(e) - 1),
    ));
    assert(spec_parse_comma_field(s, pos_new_status(e) - 1, f4) == Some((f5, pos_close(e))));
    assert(fields_to_event(f5) == Some(e));
}

} // verus!
