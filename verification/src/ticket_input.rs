//! Reading what the user typed as a project: a bare project id, or a link
//! to the project's page that carries `id=` in its query.

use vstd::prelude::*;
use crate::decimal::{digit_chars, nat_decimal};

verus! {

// ---------------------------------------------------------------------------
// The model: text as a sequence of characters.
// ---------------------------------------------------------------------------

/// `pat` occurs in `s` starting at `i`.
pub open spec fn matches_at(s: Seq<char>, pat: Seq<char>, i: int) -> bool {
    0 <= i && i + pat.len() <= s.len() && s.subrange(i, i + pat.len()) == pat
}

/// The first position at or after `start` where `pat` occurs in `s`.
pub open spec fn seq_find(s: Seq<char>, pat: Seq<char>, start: int) -> Option<int>
    decreases s.len() - start,
{
    if start < 0 || start + pat.len() > s.len() {
        None
    } else if matches_at(s, pat, start) {
        Some(start)
    } else if start >= s.len() {
        None
    } else {
        seq_find(s, pat, start + 1)
    }
}

pub open spec fn https_pattern() -> Seq<char> {
    seq!['h', 't', 't', 'p', 's']
}

pub open spec fn id_pattern() -> Seq<char> {
    seq!['i', 'd', '=']
}

pub open spec fn amp_pattern() -> Seq<char> {
    seq!['&']
}

/// The page of a project, to which its id is appended.
pub open spec fn referer_prefix() -> Seq<char> {
    "https://show.bilibili.com/platform/detail.html?id="@
}

pub open spec fn is_ascii_digit(c: char) -> bool {
    '0' <= c && c <= '9'
}

pub open spec fn digit_value(c: char) -> nat {
    (c as int - '0' as int) as nat
}

/// The number that a string of decimal digits denotes.
pub open spec fn digits_value(t: Seq<char>) -> nat
    decreases t.len(),
{
    if t.len() == 0 {
        0
    } else {
        digits_value(t.drop_last()) * 10 + digit_value(t.last())
    }
}

pub open spec fn all_ascii_digits(t: Seq<char>) -> bool {
    forall|i: int| 0 <= i < t.len() ==> is_ascii_digit(#[trigger] t[i])
}

/// One or more decimal digits whose value fits in a `u32`.
pub open spec fn u32_digits(t: Seq<char>) -> bool {
    t.len() > 0 && all_ascii_digits(t) && digits_value(t) <= u32::MAX
}

/// `t` is accepted by `u32`'s `from_str`: an optional `+` sign, then one or
/// more decimal digits, and a value no greater than `u32::MAX`.
pub open spec fn parses_as_u32(t: Seq<char>) -> bool {
    if t.len() > 0 && t[0] == '+' {
        u32_digits(t.drop_first())
    } else {
        u32_digits(t)
    }
}

/// The part of `t` before its first `&` (all of `t` when it has none).
pub open spec fn until_ampersand(t: Seq<char>) -> Seq<char> {
    match seq_find(t, amp_pattern(), 0) {
        Some(k) => t.take(k),
        None => t,
    }
}

/// What the user's input denotes: the project id and the page to name as
/// referer, or nothing when the input is not a project.
///
/// - An empty input denotes nothing.
/// - An input that holds `https` is a link: the id is what follows the first
///   `id=` up to the next `&`; it must have 5 to 8 characters and parse as a
///   `u32`, and the link itself is the referer.
/// - Any other input must parse as a `u32`; it is the id, and the referer is
///   the project's page for it.
///
/// (The id's length is counted in characters here. Counted in UTF-8 bytes it
/// is the same for every id that parses as a `u32`, since such an id is ASCII;
/// any other id is refused either way.)
pub open spec fn spec_check_input_ticket(s: Seq<char>) -> Option<(Seq<char>, Seq<char>)> {
    if s.len() == 0 {
        None
    } else if seq_find(s, https_pattern(), 0) is Some {
        match seq_find(s, id_pattern(), 0) {
            Some(k) => {
                let id = until_ampersand(s.skip(k + 3));
                if 5 <= id.len() <= 8 && parses_as_u32(id) {
                    Some((id, s))
                } else {
                    None
                }
            },
            None => None,
        }
    } else if parses_as_u32(s) {
        Some((s, referer_prefix() + s))
    } else {
        None
    }
}

// ---------------------------------------------------------------------------
// Lemmas about the model.
// ---------------------------------------------------------------------------

proof fn lemma_digits_value_step(t: Seq<char>, i: int)
    requires
        0 <= i < t.len(),
    ensures
        digits_value(t.take(i + 1)) == digits_value(t.take(i)) * 10 + digit_value(t[i]),
{
    assert(t.take(i + 1).drop_last() =~= t.take(i));
}

proof fn lemma_digits_value_prefix_le(t: Seq<char>, k: int)
    requires
        0 <= k <= t.len(),
        all_ascii_digits(t),
    ensures
        digits_value(t.take(k)) <= digits_value(t),
    decreases t.len(),
{
    if k == t.len() {
        assert(t.take(k) =~= t);
    } else {
        let d = t.drop_last();
        assert(all_ascii_digits(d)) by {
            assert forall|i: int| 0 <= i < d.len() implies is_ascii_digit(#[trigger] d[i]) by {
                assert(d[i] == t[i]);
            }
        }
        lemma_digits_value_prefix_le(d, k);
        assert(d.take(k) =~= t.take(k));
    }
}

// ---------------------------------------------------------------------------
// Executable code.
// ---------------------------------------------------------------------------

/// The characters of `s`, in order.
fn chars_of(s: &str) -> (v: Vec<char>)
    ensures
        v@ == s@,
{
    let n = s.unicode_len();
    let mut v: Vec<char> = Vec::new();
    let mut i: usize = 0;
    while i < n
        invariant
            n == s@.len(),
            i <= n,
            v@ == s@.take(i as int),
        decreases n - i,
    {
        let c = s.get_char(i);
        v.push(c);
        i = i + 1;
        assert(v@ =~= s@.take(i as int));
    }
    assert(s@.take(n as int) =~= s@);
    v
}

/// Whether `pat` occurs in `s` at `i`.
fn occurs_at(s: &Vec<char>, pat: &Vec<char>, i: usize) -> (b: bool)
    requires
        i + pat@.len() <= s@.len(),
    ensures
        b == matches_at(s@, pat@, i as int),
{
    let m = pat.len();
    let n = s.len();
    let mut j: usize = 0;
    while j < m
        invariant
            m == pat@.len(),
            n == s@.len(),
            i + m <= s@.len(),
            j <= m,
            forall|k: int| 0 <= k < j ==> s@[i + k] == pat@[k],
        decreases m - j,
    {
        if s[i + j] != pat[j] {
            assert(s@.subrange(i as int, i + m)[j as int] != pat@[j as int]);
            return false;
        }
        j = j + 1;
    }
    assert(s@.subrange(i as int, i + m) =~= pat@);
    true
}

/// The first position at or after `start` where `pat` occurs in `s`.
fn find_from(s: &Vec<char>, pat: &Vec<char>, start: usize) -> (r: Option<usize>)
    ensures
        match r {
            Some(k) => seq_find(s@, pat@, start as int) == Some(k as int),
            None => seq_find(s@, pat@, start as int) is None,
        },
{
    let n = s.len();
    let m = pat.len();
    if m > n {
        return None;
    }
    let mut i: usize = start;
    while i <= n - m
        invariant
            n == s@.len(),
            m == pat@.len(),
            m <= n,
            start <= i,
            seq_find(s@, pat@, start as int) == seq_find(s@, pat@, i as int),
        decreases n - i,
    {
        if occurs_at(s, pat, i) {
            return Some(i);
        }
        if i >= n {
            return None;
        }
        i = i + 1;
    }
    None
}

/// Whether `t` consists of one or more decimal digits whose value fits in a `u32`.
fn is_u32_digits(t: &Vec<char>, from: usize) -> (ok: bool)
    requires
        from <= t@.len(),
    ensures
        ok == u32_digits(t@.skip(from as int)),
{
    let ghost body = t@.skip(from as int);
    let n = t.len();
    if from >= n {
        return false;
    }
    let mut value: u64 = 0;
    let mut i: usize = from;
    while i < n
        invariant
            body == t@.skip(from as int),
            n == t@.len(),
            from <= i <= n,
            value <= u32::MAX,
            value == digits_value(body.take(i - from)),
            all_ascii_digits(body.take(i - from)),
        decreases n - i,
    {
        let c = t[i];
        if !('0' <= c && c <= '9') {
            assert(body[i - from] == c);
            return false;
        }
        let d: u64 = (c as u32 - '0' as u32) as u64;
        proof {
            lemma_digits_value_step(body, i - from);
            assert(body[i - from] == c);
        }
        value = value * 10 + d;
        assert(all_ascii_digits(body.take(i + 1 - from))) by {
            let p = body.take(i + 1 - from);
            assert forall|k: int| 0 <= k < p.len() implies is_ascii_digit(#[trigger] p[k]) by {
                if k < i - from {
                    assert(p[k] == body.take(i - from)[k]);
                }
            }
        }
        if value > 4294967295u64 {
            proof {
                if all_ascii_digits(body) {
                    lemma_digits_value_prefix_le(body, i + 1 - from);
                }
            }
            return false;
        }
        i = i + 1;
    }
    assert(body.take(n - from) =~= body);
    true
}

/// Whether `t` is accepted by `u32`'s `from_str`.
fn parses_u32(t: &Vec<char>) -> (ok: bool)
    ensures
        ok == parses_as_u32(t@),
{
    if t.len() > 0 && t[0] == '+' {
        assert(t@.skip(1) =~= t@.drop_first());
        is_u32_digits(t, 1)
    } else {
        assert(t@.skip(0) =~= t@);
        is_u32_digits(t, 0)
    }
}

/// Reads what the user typed as a project: `Some((id, referer))` when it
/// names a project, `None` when it does not (see `spec_check_input_ticket`).
pub fn check_input_ticket(ticket_input: &str) -> (res: Option<(String, String)>)
    ensures
        match spec_check_input_ticket(ticket_input@) {
            Some((id, referer)) => res matches Some((rid, rref)) && rid@ == id && rref@ == referer,
            None => res is None,
        },
{
    if ticket_input.is_empty() {
        return None;
    }
    let s = chars_of(ticket_input);
    let https: Vec<char> = vec!['h', 't', 't', 'p', 's'];
    let id_eq: Vec<char> = vec!['i', 'd', '='];
    let amp: Vec<char> = vec!['&'];
    assert(https@ =~= https_pattern());
    assert(id_eq@ =~= id_pattern());
    assert(amp@ =~= amp_pattern());
    if find_from(&s, &https, 0).is_some() {
        match find_from(&s, &id_eq, 0) {
            Some(id_start) => {
                proof {
                    assert(matches_at(s@, id_pattern(), id_start as int)) by {
                        lemma_seq_find_matches(s@, id_pattern(), 0);
                    }
                }
                let n = s.len();
                assert(id_start + 3 <= n);
                let rest_start = id_start + 3;
                let rest = copy_range(&s, rest_start, n);
                assert(rest@ =~= s@.skip(rest_start as int));
                let id_end = match find_from(&rest, &amp, 0) {
                    Some(k) => {
                        proof {
                            lemma_seq_find_matches(rest@, amp_pattern(), 0);
                        }
                        k
                    },
                    None => rest.len(),
                };
                let id = copy_range(&rest, 0, id_end);
                assert(id@ =~= until_ampersand(rest@));
                let len = id.len();
                if 5 <= len && len <= 8 && parses_u32(&id) {
                    let from = rest_start;
                    let to = rest_start + id_end;
                    let id_text = ticket_input.substring_char(from, to);
                    assert(id_text@ =~= id@);
                    return Some((String::from_str(id_text), String::from_str(ticket_input)));
                }
                return None;
            },
            None => {
                return None;
            },
        }
    }
    if parses_u32(&s) {
        let referer = String::from_str("https://show.bilibili.com/platform/detail.html?id=").concat(
            ticket_input,
        );
        return Some((String::from_str(ticket_input), referer));
    }
    None
}

/// When `seq_find` finds a position, `pat` occurs there and nowhere earlier.
pub proof fn lemma_seq_find_matches(s: Seq<char>, pat: Seq<char>, start: int)
    ensures
        seq_find(s, pat, start) matches Some(k) ==> matches_at(s, pat, k) && start <= k
            && forall|j: int| start <= j < k ==> !matches_at(s, pat, j),
    decreases s.len() - start,
{
    if start < 0 || start + pat.len() > s.len() {
    } else if matches_at(s, pat, start) {
    } else if start >= s.len() {
    } else {
        lemma_seq_find_matches(s, pat, start + 1);
    }
}

/// A copy of `s[from..to]`.
fn copy_range(s: &Vec<char>, from: usize, to: usize) -> (r: Vec<char>)
    requires
        from <= to <= s@.len(),
    ensures
        r@ == s@.subrange(from as int, to as int),
{
    let mut r: Vec<char> = Vec::new();
    let mut i: usize = from;
    while i < to
        invariant
            from <= i <= to,
            to <= s@.len(),
            r@ == s@.subrange(from as int, i as int),
        decreases to - i,
    {
        r.push(s[i]);
        i = i + 1;
        assert(r@ =~= s@.subrange(from as int, i as int));
    }
    r
}


// ---------------------------------------------------------------------------
// Laws.
// ---------------------------------------------------------------------------

/// `pat` is not found where no character equals its first one.
proof fn lemma_seq_find_absent(s: Seq<char>, pat: Seq<char>, start: int)
    requires
        pat.len() > 0,
        forall|i: int| 0 <= i < s.len() ==> s[i] != pat[0],
    ensures
        seq_find(s, pat, start) is None,
    decreases s.len() - start,
{
    if start < 0 || start + pat.len() > s.len() {
    } else {
        assert(s.subrange(start, start + pat.len())[0] == s[start]);
        if start < s.len() {
            lemma_seq_find_absent(s, pat, start + 1);
        }
    }
}

/// `seq_find` gives the first position at or after `start` where `pat` occurs.
proof fn lemma_seq_find_first(s: Seq<char>, pat: Seq<char>, start: int, k: int)
    requires
        0 <= start <= k,
        matches_at(s, pat, k),
        forall|j: int| start <= j < k ==> !matches_at(s, pat, j),
    ensures
        seq_find(s, pat, start) == Some(k),
    decreases k - start,
{
    if start < k {
        lemma_seq_find_first(s, pat, start + 1, k);
    }
}

/// Text accepted as a `u32` is made of digits, after an optional leading `+`.
proof fn lemma_u32_text_chars(t: Seq<char>)
    requires
        parses_as_u32(t),
    ensures
        t.len() > 0,
        forall|i: int| 0 <= i < t.len() ==> is_ascii_digit(#[trigger] t[i]) || (i == 0 && t[i] == '+'),
{
    if t.len() > 0 && t[0] == '+' {
        let b = t.drop_first();
        assert forall|i: int| 0 <= i < t.len() implies is_ascii_digit(#[trigger] t[i]) || (i == 0
            && t[i] == '+') by {
            if i > 0 {
                assert(t[i] == b[i - 1]);
            }
        }
    }
}

/// Text accepted as a `u32` holds no `h`, so no `https`, and no `&`.
proof fn lemma_u32_text_plain(t: Seq<char>)
    requires
        parses_as_u32(t),
    ensures
        seq_find(t, https_pattern(), 0) is None,
        seq_find(t, amp_pattern(), 0) is None,
{
    lemma_u32_text_chars(t);
    lemma_seq_find_absent(t, https_pattern(), 0);
    lemma_seq_find_absent(t, amp_pattern(), 0);
}

/// The id read from an input reads back as itself: typed again, it names the
/// same project, with that project's page as referer. (The home page puts the
/// id in place of what was typed, so a second click finds the same project.)
pub proof fn law_read_id_reads_back(s: Seq<char>)
    requires
        spec_check_input_ticket(s) is Some,
    ensures
        spec_check_input_ticket(s) matches Some((id, _referer)) ==> spec_check_input_ticket(id) == Some(
            (id, referer_prefix() + id),
        ),
{
    let (id, _referer) = spec_check_input_ticket(s)->0;
    assert(parses_as_u32(id));
    lemma_u32_text_plain(id);
    lemma_u32_text_chars(id);
}

/// The referer made for a bare id of 5 to 8 characters reads back as that id
/// with itself as referer.
pub proof fn law_referer_reads_back(s: Seq<char>)
    requires
        parses_as_u32(s),
        5 <= s.len() <= 8,
    ensures
        spec_check_input_ticket(referer_prefix() + s) == Some((s, referer_prefix() + s)),
{
    reveal_strlit("https://show.bilibili.com/platform/detail.html?id=");
    let p = referer_prefix();
    let full = p + s;
    assert(p.len() == 50);
    assert(full.subrange(0, 5) =~= https_pattern());
    assert(seq_find(full, https_pattern(), 0) == Some(0int));
    assert(full.subrange(47, 50) =~= id_pattern());
    assert forall|j: int| 0 <= j < 47 implies !matches_at(full, id_pattern(), j) by {
        if matches_at(full, id_pattern(), j) {
            assert(full.subrange(j, j + 3)[0] == full[j]);
            assert(full.subrange(j, j + 3)[1] == full[j + 1]);
            assert(full.subrange(j, j + 3)[2] == full[j + 2]);
            assert(full[j] == p[j]);
            assert(full[j + 2] == p[j + 2]);
        }
    }
    lemma_seq_find_first(full, id_pattern(), 0, 47);
    assert(full.skip(50) =~= s);
    lemma_u32_text_plain(s);
    assert(until_ampersand(s) == s);
    assert(s.len() > 0);
    assert(full.len() > 0);
}


proof fn lemma_digit_char(d: nat)
    requires
        d < 10,
    ensures
        is_ascii_digit(digit_chars()[d as int]),
        digit_value(digit_chars()[d as int]) == d,
{
    if d == 0 {
    } else if d == 1 {
    } else if d == 2 {
    } else if d == 3 {
    } else if d == 4 {
    } else if d == 5 {
    } else if d == 6 {
    } else if d == 7 {
    } else if d == 8 {
    } else {
        assert(d == 9);
    }
}

/// The decimal text of `n` is made of digits and denotes `n`.
pub proof fn lemma_nat_decimal_digits(n: nat)
    ensures
        nat_decimal(n).len() > 0,
        all_ascii_digits(nat_decimal(n)),
        digits_value(nat_decimal(n)) == n,
    decreases n,
{
    let t = nat_decimal(n);
    if n < 10 {
        lemma_digit_char(n);
        assert(t.drop_last() =~= Seq::<char>::empty());
        assert(digits_value(Seq::<char>::empty()) == 0);
        assert(t.last() == digit_chars()[n as int]);
        assert(digits_value(t) == digits_value(t.drop_last()) * 10 + digit_value(t.last()));
    } else {
        lemma_nat_decimal_digits(n / 10);
        lemma_digit_char(n % 10);
        let p = nat_decimal(n / 10);
        assert(t.drop_last() =~= p);
        assert(t.last() == digit_chars()[(n % 10) as int]);
        assert(n == (n / 10) * 10 + n % 10) by (nonlinear_arith);
        assert(digits_value(t) == digits_value(p) * 10 + digit_value(t.last()));
        assert forall|i: int| 0 <= i < t.len() implies is_ascii_digit(#[trigger] t[i]) by {
            if i < p.len() {
                assert(t[i] == p[i]);
            }
        }
    }
}

/// A number up to `u32::MAX` written in decimal is read as a bare project id:
/// itself, with the project's page as referer.
pub proof fn law_decimal_id_is_read(n: nat)
    requires
        n <= u32::MAX,
    ensures
        spec_check_input_ticket(nat_decimal(n)) == Some((nat_decimal(n), referer_prefix() + nat_decimal(n))),
{
    let t = nat_decimal(n);
    lemma_nat_decimal_digits(n);
    assert(is_ascii_digit(t[0]));
    assert(u32_digits(t));
    assert(parses_as_u32(t));
    lemma_u32_text_plain(t);
}


/// `pat` is found from `start` when it occurs at or after `start`.
proof fn lemma_seq_find_some(s: Seq<char>, pat: Seq<char>, start: int, i: int)
    requires
        0 <= start <= i,
        matches_at(s, pat, i),
    ensures
        seq_find(s, pat, start) is Some,
    decreases i - start,
{
    if start < i && !matches_at(s, pat, start) {
        lemma_seq_find_some(s, pat, start + 1, i);
    }
}

/// A link's id runs from its first `id=` up to the first `&` after it: when
/// an input holds `https`, its first `id=` is followed by 5 to 8 ASCII digits
/// `d` with a value that fits in a `u32` and then an `&`, the input names the
/// project `d`, with the input itself as referer, whatever follows the `&`.
pub proof fn law_link_id_ends_at_first_ampersand(s: Seq<char>, h: int, k: int, d: Seq<char>)
    requires
        0 <= h,
        h + 5 <= s.len(),
        s.subrange(h, h + 5) == seq!['h', 't', 't', 'p', 's'],
        0 <= k,
        k + 3 + d.len() < s.len(),
        s.subrange(k, k + 3) == seq!['i', 'd', '='],
        forall|j: int| 0 <= j < k ==> #[trigger] s.subrange(j, j + 3) != seq!['i', 'd', '='],
        s.subrange(k + 3, k + 3 + d.len()) == d,
        s[k + 3 + d.len()] == '&',
        5 <= d.len() <= 8,
        forall|i: int| 0 <= i < d.len() ==> '0' <= #[trigger] d[i] && d[i] <= '9',
        digits_value(d) <= u32::MAX,
    ensures
        spec_check_input_ticket(s) == Some((d, s)),
{
    assert(matches_at(s, https_pattern(), h));
    lemma_seq_find_some(s, https_pattern(), 0, h);
    assert(matches_at(s, id_pattern(), k));
    assert forall|j: int| 0 <= j < k implies !matches_at(s, id_pattern(), j) by {
        assert(s.subrange(j, j + 3) != id_pattern());
    }
    lemma_seq_find_first(s, id_pattern(), 0, k);
    let rest = s.skip(k + 3);
    let n = d.len() as int;
    assert(rest.subrange(n, n + 1) =~= amp_pattern()) by {
        assert(rest[n] == s[k + 3 + n]);
    }
    assert forall|j: int| 0 <= j < n implies !matches_at(rest, amp_pattern(), j) by {
        assert(rest[j] == s.subrange(k + 3, k + 3 + n)[j]);
        assert(rest.subrange(j, j + 1)[0] == rest[j]);
    }
    lemma_seq_find_first(rest, amp_pattern(), 0, n);
    assert(rest.take(n) =~= d) by {
        assert forall|j: int| 0 <= j < n implies rest.take(n)[j] == d[j] by {
            assert(rest[j] == s.subrange(k + 3, k + 3 + n)[j]);
        }
    }
    assert(until_ampersand(rest) == d);
    assert(all_ascii_digits(d));
    assert(d[0] != '+');
    assert(parses_as_u32(d));
}


/// A bare id is read as itself, with the project's page as referer: any
/// non-empty run of ASCII digits whose value fits in a `u32`.
pub proof fn law_bare_id_names_its_page(s: Seq<char>)
    requires
        s.len() > 0,
        forall|i: int| 0 <= i < s.len() ==> '0' <= #[trigger] s[i] && s[i] <= '9',
        digits_value(s) <= u32::MAX,
    ensures
        spec_check_input_ticket(s) == Some((s, "https://show.bilibili.com/platform/detail.html?id="@ + s)),
{
    assert(all_ascii_digits(s));
    assert(s[0] != '+');
    assert(parses_as_u32(s));
    lemma_u32_text_plain(s);
}

/// A link whose id (what follows its first `id=`, up to the first `&` or the
/// end) has fewer than 5 or more than 8 characters names no project.
pub proof fn law_link_id_of_wrong_length_is_refused(s: Seq<char>, h: int, k: int, d: Seq<char>)
    requires
        0 <= h,
        h + 5 <= s.len(),
        s.subrange(h, h + 5) == seq!['h', 't', 't', 'p', 's'],
        0 <= k,
        k + 3 + d.len() <= s.len(),
        s.subrange(k, k + 3) == seq!['i', 'd', '='],
        forall|j: int| 0 <= j < k ==> #[trigger] s.subrange(j, j + 3) != seq!['i', 'd', '='],
        s.subrange(k + 3, k + 3 + d.len()) == d,
        forall|i: int| 0 <= i < d.len() ==> #[trigger] d[i] != '&',
        k + 3 + d.len() == s.len() || s[k + 3 + d.len()] == '&',
        d.len() < 5 || d.len() > 8,
    ensures
        spec_check_input_ticket(s) is None,
{
    assert(matches_at(s, https_pattern(), h));
    lemma_seq_find_some(s, https_pattern(), 0, h);
    assert(matches_at(s, id_pattern(), k));
    assert forall|j: int| 0 <= j < k implies !matches_at(s, id_pattern(), j) by {
        assert(s.subrange(j, j + 3) != id_pattern());
    }
    lemma_seq_find_first(s, id_pattern(), 0, k);
    let rest = s.skip(k + 3);
    let n = d.len() as int;
    assert forall|j: int| 0 <= j < n implies !matches_at(rest, amp_pattern(), j) by {
        assert(rest[j] == s.subrange(k + 3, k + 3 + n)[j]);
        assert(rest.subrange(j, j + 1)[0] == rest[j]);
    }
    if n < rest.len() {
        assert(rest.subrange(n, n + 1) =~= amp_pattern()) by {
            assert(rest[n] == s[k + 3 + n]);
        }
        lemma_seq_find_first(rest, amp_pattern(), 0, n);
        assert(rest.take(n) =~= d) by {
            assert forall|j: int| 0 <= j < n implies rest.take(n)[j] == d[j] by {
                assert(rest[j] == s.subrange(k + 3, k + 3 + n)[j]);
            }
        }
    } else {
        assert(rest.len() == n);
        lemma_seq_find_absent_from(rest, amp_pattern(), 0);
        assert(rest =~= d) by {
            assert forall|j: int| 0 <= j < n implies rest[j] == d[j] by {
                assert(rest[j] == s.subrange(k + 3, k + 3 + n)[j]);
            }
        }
    }
    assert(until_ampersand(rest) == d);
}

/// `pat` is not found from `start` when it occurs nowhere at or after `start`.
proof fn lemma_seq_find_absent_from(s: Seq<char>, pat: Seq<char>, start: int)
    requires
        0 <= start,
        forall|j: int| start <= j ==> !matches_at(s, pat, j),
    ensures
        seq_find(s, pat, start) is None,
    decreases s.len() - start,
{
    if start + pat.len() <= s.len() && start < s.len() {
        lemma_seq_find_absent_from(s, pat, start + 1);
    }
}

} // verus!
