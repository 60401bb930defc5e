//! Time as the controller sees it: clock readings handed in by the
//! application, RFC 3339 timestamps (formatted and parsed by chrono), and
//! the little state files that remember when each zone last ran.
use vstd::prelude::*;
use vstd::string::*;
use crate::text::push_str;

verus! {

/// Earliest second chrono represents, as seconds since the Unix epoch
/// (-262143-01-01T00:00:00Z).
pub const MIN_UTC_SECS: i64 = -8_334_601_228_800;

/// Latest second chrono represents, as seconds since the Unix epoch
/// (+262142-12-31T23:59:59Z).
pub const MAX_UTC_SECS: i64 = 8_210_266_876_799;

/// A UTC instant as chrono's `DateTime<Utc>` holds one: whole seconds since
/// the Unix epoch (`timestamp`) and the nanoseconds within that second
/// (`timestamp_subsec_nanos`), which reach past 999_999_999 only during a
/// leap second, one whose seconds end in :59.
#[derive(Debug, Clone, Copy, PartialEq, Eq, Structural)]
pub struct UtcInstant {
    pub secs: i64,
    pub nanos: u32,
}

/// The instants chrono can represent (`DateTime::from_timestamp` accepts
/// exactly these).
pub open spec fn valid_instant(w: UtcInstant) -> bool {
    &&& MIN_UTC_SECS <= w.secs <= MAX_UTC_SECS
    &&& w.nanos < 2_000_000_000
    &&& (w.nanos >= 1_000_000_000 ==> w.secs % 60 == 59)
}

/// Whether chrono can represent the instant.
pub fn instant_is_valid(w: UtcInstant) -> (b: bool)
    ensures
        b == valid_instant(w),
{
    let leap_ok = match w.secs.checked_rem_euclid(60) {
        Some(r) => r == 59,
        None => false,
    };
    MIN_UTC_SECS <= w.secs && w.secs <= MAX_UTC_SECS && w.nanos < 2_000_000_000 && (w.nanos
        < 1_000_000_000 || leap_ok)
}

/// Nanoseconds since the Unix epoch of an instant outside a leap second.
pub open spec fn nanos_since_epoch(w: UtcInstant) -> int {
    w.secs * 1_000_000_000 + w.nanos
}

/// The instant `e` nanoseconds before `w` (`w` outside a leap second), as
/// chrono's `DateTime - TimeDelta` computes it: whole seconds rounded down,
/// the rest in nanoseconds.
pub open spec fn instant_before(w: UtcInstant, e: nat) -> UtcInstant {
    let t = nanos_since_epoch(w) - e;
    UtcInstant { secs: (t / 1_000_000_000) as i64, nanos: (t % 1_000_000_000) as u32 }
}

/// Goes back `e` nanoseconds from `w`.
pub fn instant_minus(w: UtcInstant, e: u64) -> (r: UtcInstant)
    requires
        MIN_UTC_SECS <= w.secs <= MAX_UTC_SECS,
        w.nanos < 1_000_000_000,
    ensures
        r == instant_before(w, e as nat),
        r.nanos < 1_000_000_000,
        r.secs <= w.secs,
{
    // Shifted by a whole number of seconds so that the division below works
    // on a non-negative total.
    let shift: i128 = 10_000_000_000_000 * 1_000_000_000;
    let t: i128 = w.secs as i128 * 1_000_000_000 + w.nanos as i128 - e as i128 + shift;
    proof {
        assert(t >= 0) by (nonlinear_arith)
            requires
                t == w.secs * 1_000_000_000 + w.nanos - e + shift,
                MIN_UTC_SECS <= w.secs,
                e <= u64::MAX,
                shift == 10_000_000_000_000 * 1_000_000_000,
        ;
    }
    let q: i128 = t / 1_000_000_000;
    let rem: i128 = t % 1_000_000_000;
    proof {
        let total = nanos_since_epoch(w) - e;
        assert(t == total + 10_000_000_000_000 * 1_000_000_000);
        assert(q == total / 1_000_000_000 + 10_000_000_000_000 && rem == total % 1_000_000_000) by (nonlinear_arith)
            requires
                t == total + 10_000_000_000_000 * 1_000_000_000,
                q == t / 1_000_000_000,
                rem == t % 1_000_000_000,
        ;
        assert(total / 1_000_000_000 >= MIN_UTC_SECS - 20_000_000_000) by (nonlinear_arith)
            requires
                total == w.secs * 1_000_000_000 + w.nanos - e,
                MIN_UTC_SECS <= w.secs,
                w.nanos >= 0,
                e <= u64::MAX,
        ;
        assert(total / 1_000_000_000 <= w.secs) by (nonlinear_arith)
            requires
                total == w.secs * 1_000_000_000 + w.nanos - e,
                w.nanos < 1_000_000_000,
                e >= 0,
        ;
        assert(0 <= total % 1_000_000_000 < 1_000_000_000);
    }
    UtcInstant { secs: (q - 10_000_000_000_000) as i64, nanos: rem as u32 }
}

/// Going back no time from an instant outside a leap second gives that
/// instant.
pub proof fn lemma_instant_before_nothing(w: UtcInstant)
    requires
        w.nanos < 1_000_000_000,
    ensures
        instant_before(w, 0) == w,
{
    let t = nanos_since_epoch(w);
    assert(t / 1_000_000_000 == w.secs && t % 1_000_000_000 == w.nanos) by (nonlinear_arith)
        requires
            t == w.secs * 1_000_000_000 + w.nanos,
            0 <= w.nanos < 1_000_000_000,
    ;
}

/// One reading of the two clocks the controller uses: a monotonic clock
/// (nanoseconds since an arbitrary origin, never going back) to measure
/// how long a valve has been open, and the wall clock (UTC) for the
/// timestamps reported to Home Assistant.
#[derive(Debug, Clone, Copy)]
pub struct Clock {
    pub monotonic_nanos: u64,
    pub wall: UtcInstant,
}

/// A wall-clock reading as `Utc::now` gives: representable and outside any
/// leap second.
pub open spec fn valid_clock(now: Clock) -> bool {
    valid_instant(now.wall) && now.wall.nanos < 1_000_000_000
}

/// The RFC 3339 text chrono writes for the UTC instant `secs` seconds and
/// `nanos` nanoseconds after the Unix epoch (`DateTime::to_rfc3339`).
pub uninterp spec fn rfc3339_text(secs: i64, nanos: u32) -> Seq<char>;

/// The instant, as (seconds, nanoseconds) since the Unix epoch, that chrono
/// reads from `text` as a `DateTime<Utc>`, or `None` when chrono refuses
/// the text.
pub uninterp spec fn utc_of(text: Seq<char>) -> Option<(i64, u32)>;

pub open spec fn is_ascii_digit(c: char) -> bool {
    '0' <= c && c <= '9'
}

/// Formats an instant with chrono's `DateTime::<Utc>::to_rfc3339`, after
/// `DateTime::from_timestamp`, which accepts every valid instant. Besides
/// naming the text, the contract claims what chrono's writer shows: the
/// year comes first, as four digits or, outside 0..=9999, with its sign,
/// and the text closes with the `+00:00` offset.
#[verifier::external_body]
pub(crate) fn rfc3339(w: UtcInstant) -> (s: String)
    requires
        valid_instant(w),
    ensures
        s@ == rfc3339_text(w.secs, w.nanos),
        s@.len() > 0,
        is_ascii_digit(s@[0]) || s@[0] == '+' || s@[0] == '-',
        is_ascii_digit(s@.last()),
{
    chrono::DateTime::from_timestamp(w.secs, w.nanos).expect("valid instant").to_rfc3339()
}

/// Parses a timestamp with chrono (`str::parse::<DateTime<Utc>>`, then
/// `timestamp` and `timestamp_subsec_nanos`). Besides naming the result,
/// the contract claims two things the source shows: a `DateTime<Utc>` is
/// always a valid instant (its date lies in chrono's range, and only a leap
/// second, at :59, carries 1_000_000_000 nanoseconds or more); and the
/// relaxed RFC 3339 reader reads back what `rfc3339` wrote (signed years,
/// a fraction of 0, 3, 6 or 9 digits, a second of 60, the `+00:00` offset).
#[verifier::external_body]
fn parse_utc(text: &str) -> (r: Option<UtcInstant>)
    ensures
        match r {
            Some(w) => utc_of(text@) == Some((w.secs, w.nanos)) && valid_instant(w),
            None => utc_of(text@) is None,
        },
        forall|w: UtcInstant| valid_instant(w) && text@ == #[trigger] rfc3339_text(w.secs, w.nanos) ==> r == Some(w),
{
    match text.parse::<chrono::DateTime<chrono::Utc>>() {
        Ok(d) => Some(UtcInstant { secs: d.timestamp(), nanos: d.timestamp_subsec_nanos() }),
        Err(_) => None,
    }
}

/// Unicode White_Space, the characters `char::is_whitespace` accepts.
pub open spec fn is_space(c: char) -> bool {
    let u = c as u32;
    ||| (0x09 <= u && u <= 0x0D)
    ||| u == 0x20
    ||| u == 0x85
    ||| u == 0xA0
    ||| u == 0x1680
    ||| (0x2000 <= u && u <= 0x200A)
    ||| u == 0x2028
    ||| u == 0x2029
    ||| u == 0x202F
    ||| u == 0x205F
    ||| u == 0x3000
}

fn char_is_space(c: char) -> (b: bool)
    ensures
        b == is_space(c),
{
    let u = c as u32;
    (0x09 <= u && u <= 0x0D) || u == 0x20 || u == 0x85 || u == 0xA0 || u == 0x1680 || (0x2000
        <= u && u <= 0x200A) || u == 0x2028 || u == 0x2029 || u == 0x202F || u == 0x205F || u
        == 0x3000
}

/// `s` without its leading and trailing white space (`str::trim`): the
/// slice from the first to the last character that is not white space.
#[verifier::opaque]
pub open spec fn trimmed(s: Seq<char>) -> Seq<char> {
    if forall|i: int| 0 <= i < s.len() ==> is_space(#[trigger] s[i]) {
        Seq::empty()
    } else {
        let a = choose|a: int|
            0 <= a < s.len() && !is_space(s[a]) && forall|j: int|
                0 <= j < a ==> is_space(#[trigger] s[j]);
        let b = choose|b: int|
            0 <= b < s.len() && !is_space(s[b]) && forall|j: int|
                b < j < s.len() ==> is_space(#[trigger] s[j]);
        s.subrange(a, b + 1)
    }
}

proof fn lemma_trimmed_span(s: Seq<char>, a: int, b: int)
    requires
        0 <= a <= b < s.len(),
        !is_space(s[a]),
        !is_space(s[b]),
        forall|j: int| 0 <= j < a ==> is_space(#[trigger] s[j]),
        forall|j: int| b < j < s.len() ==> is_space(#[trigger] s[j]),
    ensures
        trimmed(s) == s.subrange(a, b + 1),
{
    reveal(trimmed);
    assert(!is_space(s[a]));
    let a2 = choose|a2: int|
        0 <= a2 < s.len() && !is_space(s[a2]) && forall|j: int|
            0 <= j < a2 ==> is_space(#[trigger] s[j]);
    let b2 = choose|b2: int|
        0 <= b2 < s.len() && !is_space(s[b2]) && forall|j: int|
            b2 < j < s.len() ==> is_space(#[trigger] s[j]);
    if a2 < a {
        assert(is_space(s[a2]));
    }
    if a < a2 {
        assert(is_space(s[a]));
    }
    if b2 < b {
        assert(is_space(s[b]));
    }
    if b < b2 {
        assert(is_space(s[b2]));
    }
}

/// Removes leading and trailing white space.
pub fn trim(s: &str) -> (t: String)
    ensures
        t@ == trimmed(s@),
{
    let n = s.unicode_len();
    let mut a: usize = 0;
    while a < n && char_is_space(s.get_char(a))
        invariant
            n == s@.len(),
            a <= n,
            forall|j: int| 0 <= j < a ==> is_space(#[trigger] s@[j]),
        decreases n - a,
    {
        a = a + 1;
    }
    if a == n {
        let t = String::new();
        proof {
            reveal(trimmed);
            assert(t@ =~= trimmed(s@));
        }
        return t;
    }
    let mut b: usize = n - 1;
    while char_is_space(s.get_char(b))
        invariant
            n == s@.len(),
            a < n,
            a <= b < n,
            !is_space(s@[a as int]),
            forall|j: int| b < j < n ==> is_space(#[trigger] s@[j]),
        decreases b,
    {
        b = b - 1;
    }
    proof {
        lemma_trimmed_span(s@, a as int, b as int);
    }
    s.substring_char(a, b + 1).to_owned()
}

/// Text that neither begins nor ends with white space is its own trim.
pub proof fn lemma_trimmed_unchanged(s: Seq<char>)
    requires
        s.len() > 0,
        !is_space(s[0]),
        !is_space(s.last()),
    ensures
        trimmed(s) == s,
{
    lemma_trimmed_span(s, 0, s.len() - 1);
    assert(s.subrange(0, s.len() as int) =~= s);
}

/// The last-opened instant recorded in a zone's state file: the file's
/// text without surrounding white space, read as a UTC timestamp.
pub fn last_opened_from_state(content: &str) -> (r: Option<UtcInstant>)
    ensures
        match r {
            Some(w) => utc_of(trimmed(content@)) == Some((w.secs, w.nanos)) && valid_instant(w),
            None => utc_of(trimmed(content@)) is None,
        },
        forall|w: UtcInstant|
            valid_instant(w) && trimmed(content@) == #[trigger] rfc3339_text(w.secs, w.nanos) ==> r == Some(w),
{
    let t = trim(content);
    parse_utc(t.as_str())
}

/// The directory that holds the state files: the value of the service's
/// `STATE_DIRECTORY` variable when it is set, `/var/lib/sprinkler` else.
pub fn state_dir(from_environment: Option<String>) -> (d: String)
    ensures
        d@ == (match from_environment {
            Some(dir) => dir@,
            None => "/var/lib/sprinkler"@,
        }),
{
    match from_environment {
        Some(dir) => dir,
        None => String::from_str("/var/lib/sprinkler"),
    }
}

/// `dir` joined with `file` as `Path::join` does on Unix: an absolute
/// `file` replaces `dir`; otherwise a `/` is put between them unless `dir`
/// is empty or already ends with one.
pub open spec fn joined_path(dir: Seq<char>, file: Seq<char>) -> Seq<char> {
    if file.len() > 0 && file[0] == '/' {
        file
    } else if dir.len() == 0 || dir.last() == '/' {
        dir + file
    } else {
        dir + "/"@ + file
    }
}

/// The path of the file that remembers when zone `zone_id` last ran.
pub fn state_path(dir: &str, zone_id: &str) -> (p: String)
    ensures
        p@ == joined_path(dir@, zone_id@ + ".state"@),
{
    let mut file = String::new();
    push_str(&mut file, zone_id);
    push_str(&mut file, ".state");
    proof {
        reveal_strlit("/");
        reveal_strlit(".state");
        assert(file@ =~= zone_id@ + ".state"@);
    }
    let absolute = zone_id.unicode_len() > 0 && zone_id.get_char(0) == '/';
    let dn = dir.unicode_len();
    let mut p = String::new();
    if absolute {
        push_str(&mut p, file.as_str());
    } else if dn == 0 || dir.get_char(dn - 1) == '/' {
        push_str(&mut p, dir);
        push_str(&mut p, file.as_str());
    } else {
        push_str(&mut p, dir);
        push_str(&mut p, "/");
        push_str(&mut p, file.as_str());
    }
    proof {
        assert(p@ =~= joined_path(dir@, zone_id@ + ".state"@));
    }
    p
}

} // verus!
