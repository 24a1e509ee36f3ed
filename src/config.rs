//! Decoding the loop's settings from their raw text. Malformed numbers fall
//! back to defaults instead of failing.
use vstd::prelude::*;
use vstd::string::StrSliceExecFns;

verus! {

/// The poll interval, in seconds, when none or an unusable one is given.
pub const DEFAULT_INTERVAL: u64 = 300;

/// The notification priority when none or an unusable one is given.
pub const DEFAULT_PRIORITY: u32 = 0;

/// What `str::to_lowercase` makes of a text.
pub uninterp spec fn lower_of(s: Seq<char>) -> Seq<char>;

/// Relies on `str::to_lowercase`: its result depends on the characters alone.
#[verifier::external_body]
fn lowercase(s: &str) -> (r: String)
    ensures
        r@ == lower_of(s@),
{
    s.to_lowercase()
}

/// The words, in lower case, that switch a flag on.
pub open spec fn is_on_word(s: Seq<char>) -> bool {
    s == "true"@ || s == "1"@ || s == "yes"@ || s == "on"@
}

/// The value of a decimal digit character.
pub open spec fn digit_value(c: char) -> int {
    if c == '1' {
        1
    } else if c == '2' {
        2
    } else if c == '3' {
        3
    } else if c == '4' {
        4
    } else if c == '5' {
        5
    } else if c == '6' {
        6
    } else if c == '7' {
        7
    } else if c == '8' {
        8
    } else if c == '9' {
        9
    } else {
        0
    }
}

pub open spec fn is_digit(c: char) -> bool {
    '0' <= c && c <= '9'
}

/// The number that a sequence of decimal digits writes.
pub open spec fn digits_value(s: Seq<char>) -> int
    decreases s.len(),
{
    if s.len() == 0 {
        0
    } else {
        digits_value(s.drop_last()) * 10 + digit_value(s.last())
    }
}

proof fn lemma_digits_value_nonnegative(s: Seq<char>)
    ensures
        digits_value(s) >= 0,
    decreases s.len(),
{
    if s.len() > 0 {
        lemma_digits_value_nonnegative(s.drop_last());
    }
}

/// The digits of an unsigned decimal text: what follows an optional `+`.
pub open spec fn unsigned_digits(s: Seq<char>) -> Seq<char> {
    if s.len() > 0 && s[0] == '+' {
        s.drop_first()
    } else {
        s
    }
}

/// An unsigned decimal text: an optional `+`, then one or more digits.
pub open spec fn is_unsigned_text(s: Seq<char>) -> bool {
    let d = unsigned_digits(s);
    d.len() > 0 && forall|i: int| 0 <= i < d.len() ==> is_digit(#[trigger] d[i])
}

/// The number an unsigned decimal text writes, if it is one.
pub open spec fn unsigned_value(s: Seq<char>) -> Option<int> {
    if is_unsigned_text(s) {
        Some(digits_value(unsigned_digits(s)))
    } else {
        None
    }
}

/// Relies on `u64`'s `FromStr`: an optional `+` then decimal digits, whose
/// value fits; anything else is an error.
#[verifier::external_body]
fn parse_u64(s: &str) -> (r: Option<u64>)
    ensures
        r == match unsigned_value(s@) {
            Some(v) => if v <= u64::MAX {
                Some(v as u64)
            } else {
                None::<u64>
            },
            None => None::<u64>,
        },
{
    s.parse::<u64>().ok()
}

/// Relies on `u32`'s `FromStr`: an optional `+` then decimal digits, whose
/// value fits; anything else is an error.
#[verifier::external_body]
fn parse_u32(s: &str) -> (r: Option<u32>)
    ensures
        r == match unsigned_value(s@) {
            Some(v) => if v <= u32::MAX {
                Some(v as u32)
            } else {
                None::<u32>
            },
            None => None::<u32>,
        },
{
    s.parse::<u32>().ok()
}

/// The poll interval that a raw text gives: its value when it is a positive
/// number that fits, else the default.
pub open spec fn interval_of(s: Seq<char>) -> u64 {
    match unsigned_value(s) {
        Some(v) => if 0 < v <= u64::MAX {
            v as u64
        } else {
            DEFAULT_INTERVAL
        },
        None => DEFAULT_INTERVAL,
    }
}

/// The priority that a raw text gives: its value when it is a number that
/// fits, else the default.
pub open spec fn priority_of(s: Seq<char>) -> u32 {
    match unsigned_value(s) {
        Some(v) => if v <= u32::MAX {
            v as u32
        } else {
            DEFAULT_PRIORITY
        },
        None => DEFAULT_PRIORITY,
    }
}

/// Whether two texts hold the same characters.
pub fn same_text(a: &str, b: &str) -> (r: bool)
    ensures
        r == (a@ == b@),
{
    let n = a.unicode_len();
    if n != b.unicode_len() {
        return false;
    }
    let mut i: usize = 0;
    while i < n
        invariant
            n == a@.len(),
            n == b@.len(),
            i <= n,
            a@.take(i as int) == b@.take(i as int),
        decreases n - i,
    {
        if a.get_char(i) != b.get_char(i) {
            return false;
        }
        proof {
            assert(a@.take(i + 1) =~= a@.take(i as int).push(a@[i as int]));
            assert(b@.take(i + 1) =~= b@.take(i as int).push(b@[i as int]));
        }
        i = i + 1;
    }
    proof {
        assert(a@.take(n as int) =~= a@);
        assert(b@.take(n as int) =~= b@);
    }
    true
}

/// Whether an already lower-cased text switches a flag on.
pub fn flag_word(lowered: &str) -> (r: bool)
    ensures
        r == is_on_word(lowered@),
{
    same_text(lowered, "true") || same_text(lowered, "1") || same_text(lowered, "yes")
        || same_text(lowered, "on")
}

/// Whether a raw text switches a flag on, in any case ("TRUE", "Yes", "on").
pub fn parse_flag(raw: &str) -> (r: bool)
    ensures
        r == is_on_word(lower_of(raw@)),
{
    let lowered = lowercase(raw);
    flag_word(lowered.as_str())
}

/// The poll interval in seconds that a raw text gives.
pub fn parse_interval(raw: &str) -> (r: u64)
    ensures
        r == interval_of(raw@),
{
    proof {
        lemma_digits_value_nonnegative(unsigned_digits(raw@));
    }
    match parse_u64(raw) {
        Some(v) => if v > 0 {
            v
        } else {
            DEFAULT_INTERVAL
        },
        None => DEFAULT_INTERVAL,
    }
}

/// The notification priority that a raw text gives.
pub fn parse_priority(raw: &str) -> (r: u32)
    ensures
        r == priority_of(raw@),
{
    match parse_u32(raw) {
        Some(v) => v,
        None => DEFAULT_PRIORITY,
    }
}

/// The comma-separated fields of a text, in order, untrimmed: a text without
/// a comma is a single field.
pub open spec fn fields(s: Seq<char>) -> Seq<Seq<char>>
    decreases s.len(),
{
    if s.len() == 0 {
        seq![Seq::<char>::empty()]
    } else {
        let earlier = fields(s.drop_last());
        if s.last() == ',' {
            earlier.push(Seq::<char>::empty())
        } else {
            earlier.update(earlier.len() - 1, earlier.last().push(s.last()))
        }
    }
}

proof fn lemma_fields_nonempty(s: Seq<char>)
    ensures
        fields(s).len() >= 1,
    decreases s.len(),
{
    if s.len() > 0 {
        lemma_fields_nonempty(s.drop_last());
    }
}

/// What `str::trim` makes of a text.
pub uninterp spec fn trimmed_of(s: Seq<char>) -> Seq<char>;

/// Relies on `str::trim`: its result depends on the characters alone.
#[verifier::external_body]
fn trim(s: &str) -> (r: String)
    ensures
        r@ == trimmed_of(s@),
{
    s.trim().to_string()
}

/// The views of a list of texts, in order.
pub open spec fn text_views(v: Seq<String>) -> Seq<Seq<char>> {
    v.map_values(|t: String| t@)
}

proof fn lemma_views_push(v: Seq<String>, t: String, done: Seq<Seq<char>>, f: Seq<char>)
    requires
        text_views(v) == done.map_values(|g: Seq<char>| trimmed_of(g)),
        t@ == trimmed_of(f),
    ensures
        text_views(v.push(t)) == done.push(f).map_values(|g: Seq<char>| trimmed_of(g)),
{
    let lhs = text_views(v.push(t));
    let rhs = done.push(f).map_values(|g: Seq<char>| trimmed_of(g));
    assert(text_views(v).len() == v.len());
    assert(done.map_values(|g: Seq<char>| trimmed_of(g)).len() == done.len());
    assert(lhs.len() == rhs.len());
    assert forall|i: int| 0 <= i < lhs.len() implies lhs[i] == rhs[i] by {
        if i < v.len() {
            assert(v.push(t)[i] == v[i]);
            assert(text_views(v)[i] == v[i]@);
            assert(done.map_values(|g: Seq<char>| trimmed_of(g))[i] == trimmed_of(done[i]));
            assert(done.push(f)[i] == done[i]);
        }
    }
    assert(lhs =~= rhs);
}

/// The product identifiers of a comma-separated list, each trimmed.
pub fn split_list(raw: &str) -> (r: Vec<String>)
    ensures
        text_views(r@) == fields(raw@).map_values(|f: Seq<char>| trimmed_of(f)),
{
    let n = raw.unicode_len();
    let mut out: Vec<String> = Vec::new();
    let mut start: usize = 0;
    let mut i: usize = 0;
    let ghost mut done: Seq<Seq<char>> = Seq::empty();
    proof {
        assert(raw@.take(0) =~= Seq::<char>::empty());
        assert(raw@.subrange(0, 0) =~= Seq::<char>::empty());
        assert(done.push(Seq::<char>::empty()) =~= seq![Seq::<char>::empty()]);
        assert(text_views(out@) =~= done.map_values(|f: Seq<char>| trimmed_of(f)));
    }
    while i < n
        invariant
            n == raw@.len(),
            start <= i <= n,
            fields(raw@.take(i as int)) == done.push(raw@.subrange(start as int, i as int)),
            text_views(out@) == done.map_values(|f: Seq<char>| trimmed_of(f)),
        decreases n - i,
    {
        let c = raw.get_char(i);
        proof {
            assert(raw@.take(i + 1).drop_last() =~= raw@.take(i as int));
            assert(raw@.take(i + 1).last() == c);
        }
        if c == ',' {
            let field = raw.substring_char(start, i);
            let t = trim(field);
            proof {
                lemma_views_push(out@, t, done, field@);
            }
            out.push(t);
            proof {
                done = done.push(field@);
                assert(raw@.subrange(i + 1, i + 1) =~= Seq::<char>::empty());
            }
            start = i + 1;
        } else {
            proof {
                assert(raw@.subrange(start as int, i + 1) =~= raw@.subrange(
                    start as int,
                    i as int,
                ).push(c));
                assert(done.push(raw@.subrange(start as int, i as int)).update(
                    done.len() as int,
                    raw@.subrange(start as int, i + 1),
                ) =~= done.push(raw@.subrange(start as int, i + 1)));
            }
        }
        i = i + 1;
    }
    let last = raw.substring_char(start, n);
    let t = trim(last);
    proof {
        lemma_views_push(out@, t, done, last@);
        assert(raw@.take(n as int) =~= raw@);
    }
    out.push(t);
    out
}

} // verus!
