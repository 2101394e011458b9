use vstd::prelude::*;
use crate::text::chars_of;

verus! {

/// Bonus for a query character found right after the previous match.
pub const CONTIGUOUS_BONUS: i32 = 8;
/// Bonus for a query character found at the start of a word.
pub const BOUNDARY_BONUS: i32 = 6;
/// Bonus for a match that starts within the first bytes of the haystack.
pub const HEAD_START_BONUS: i32 = 4;

/// The longest query that `score` accepts; longer ones could overflow the total.
pub const MAX_QUERY_CHARS: usize = 100_000_000;

/// Characters after which a match counts as the start of a word.
pub open spec fn is_word_separator(c: char) -> bool {
    c == ' ' || c == '/' || c == '-' || c == '_' || c == '.'
}

/// Number of bytes of a character in UTF-8.
pub open spec fn utf8_width(c: char) -> nat {
    if (c as u32) < 0x80 {
        1
    } else if (c as u32) < 0x800 {
        2
    } else if (c as u32) < 0x10000 {
        3
    } else {
        4
    }
}

/// Byte offset, in the UTF-8 encoding of `h`, of the character at index `k`.
pub open spec fn byte_offset(h: Seq<char>, k: int) -> nat
    decreases k,
{
    if k <= 0 {
        0
    } else {
        byte_offset(h, k - 1) + utf8_width(h[k - 1])
    }
}

/// Index of the first occurrence of `c` in `h` at or after `from`.
pub open spec fn find_char(h: Seq<char>, c: char, from: int) -> Option<int>
    decreases h.len() - from,
{
    if from < 0 || from >= h.len() {
        None
    } else if h[from] == c {
        Some(from)
    } else {
        find_char(h, c, from + 1)
    }
}

/// Where each query character is matched when every character is taken at its first
/// occurrence after the previous match; `None` when some character cannot be found.
pub open spec fn greedy_positions(h: Seq<char>, q: Seq<char>) -> Option<Seq<int>>
    decreases q.len(),
{
    if q.len() == 0 {
        Some(Seq::empty())
    } else {
        match greedy_positions(h, q.drop_last()) {
            None => None,
            Some(ps) => {
                let from = if ps.len() == 0 { 0 } else { ps.last() + 1 };
                match find_char(h, q.last(), from) {
                    None => None,
                    Some(j) => Some(ps.push(j)),
                }
            },
        }
    }
}

/// Bonus earned by the `i`-th matched character.
pub open spec fn bonus_at(h: Seq<char>, ps: Seq<int>, i: int) -> int {
    (if i > 0 && ps[i] == ps[i - 1] + 1 { CONTIGUOUS_BONUS as int } else { 0 }) + (if ps[i]
        == 0 || is_word_separator(h[ps[i] - 1]) {
        BOUNDARY_BONUS as int
    } else {
        0
    })
}

/// Sum of the bonuses of the first `n` matched characters.
pub open spec fn bonus_sum(h: Seq<char>, ps: Seq<int>, n: int) -> int
    decreases n,
{
    if n <= 0 {
        0
    } else {
        bonus_sum(h, ps, n - 1) + bonus_at(h, ps, n - 1)
    }
}

/// Penalty for a first match that does not start the haystack: its byte offset, at most
/// the head-start bonus.
pub open spec fn head_penalty(h: Seq<char>, ps: Seq<int>) -> int {
    let first = if ps.len() == 0 { 0 } else { byte_offset(h, ps[0]) as int };
    if first < HEAD_START_BONUS as int { first } else { HEAD_START_BONUS as int }
}

/// The score of `q` against `h`: `None` when `q` cannot be matched character by character,
/// in order; otherwise the bonuses of the greedy match plus the head start.
pub open spec fn match_score(h: Seq<char>, q: Seq<char>) -> Option<int> {
    match greedy_positions(h, q) {
        None => None,
        Some(ps) => Some(bonus_sum(h, ps, ps.len() as int) + HEAD_START_BONUS - head_penalty(h, ps)),
    }
}

/// `ps` picks, in strictly increasing order, positions of `h` that spell `q`.
pub open spec fn spells(h: Seq<char>, q: Seq<char>, ps: Seq<int>) -> bool {
    &&& ps.len() == q.len()
    &&& forall|i: int| 0 <= i < ps.len() ==> 0 <= #[trigger] ps[i] < h.len()
    &&& forall|i: int| 0 <= i < ps.len() ==> h[#[trigger] ps[i]] == q[i]
    &&& forall|i: int, j: int| 0 <= i < j < ps.len() ==> #[trigger] ps[i] < #[trigger] ps[j]
}

/// `q` occurs in `h` as a (not necessarily contiguous) subsequence.
pub open spec fn is_subsequence(q: Seq<char>, h: Seq<char>) -> bool {
    exists|ps: Seq<int>| spells(h, q, ps)
}

proof fn lemma_find_char(h: Seq<char>, c: char, from: int)
    requires
        0 <= from,
    ensures
        match find_char(h, c, from) {
            Some(j) => from <= j < h.len() && h[j] == c && forall|k: int|
                from <= k < j ==> h[k] != c,
            None => forall|k: int| from <= k < h.len() ==> h[k] != c,
        },
    decreases h.len() - from,
{
    if from < h.len() && h[from] != c {
        lemma_find_char(h, c, from + 1);
    }
}

proof fn lemma_greedy_spells(h: Seq<char>, q: Seq<char>)
    ensures
        greedy_positions(h, q) matches Some(ps) ==> spells(h, q, ps),
    decreases q.len(),
{
    if q.len() > 0 {
        lemma_greedy_spells(h, q.drop_last());
        if let Some(ps) = greedy_positions(h, q.drop_last()) {
            let from = if ps.len() == 0 { 0 } else { ps.last() + 1 };
            lemma_find_char(h, q.last(), from);
        }
    }
}

/// Greedy positions are never later than those of any other way to spell the query.
proof fn lemma_greedy_earliest(h: Seq<char>, q: Seq<char>, other: Seq<int>)
    requires
        spells(h, q, other),
    ensures
        greedy_positions(h, q) matches Some(ps) && forall|i: int|
            0 <= i < ps.len() ==> ps[i] <= other[i],
    decreases q.len(),
{
    if q.len() > 0 {
        let q0 = q.drop_last();
        let o0 = other.drop_last();
        assert(spells(h, q0, o0)) by {
            assert forall|i: int, j: int| 0 <= i < j < o0.len() implies o0[i] < o0[j] by {
                assert(other[i] < other[j]);
            }
        }
        lemma_greedy_earliest(h, q0, o0);
        lemma_greedy_spells(h, q0);
        let ps = greedy_positions(h, q0)->0;
        let n = q.len() - 1;
        let from = if ps.len() == 0 { 0 } else { ps.last() + 1 };
        lemma_find_char(h, q.last(), from);
        if n > 0 {
            assert(other[n - 1] < other[n]);
            assert(ps[n - 1] <= o0[n - 1]);
        }
        assert(h[other[n]] == q[n]);
        assert(from <= other[n]);
    }
}

/// A query has a score exactly when it is a subsequence of the haystack.
pub proof fn lemma_score_iff_subsequence(h: Seq<char>, q: Seq<char>)
    ensures
        match_score(h, q) is Some <==> is_subsequence(q, h),
{
    lemma_greedy_spells(h, q);
    if is_subsequence(q, h) {
        let other = choose|ps: Seq<int>| spells(h, q, ps);
        lemma_greedy_earliest(h, q, other);
    }
}


proof fn lemma_greedy_first(h: Seq<char>, q: Seq<char>)
    requires
        q.len() > 0,
    ensures
        greedy_positions(h, q) matches Some(ps) ==> ps.len() == q.len() && find_char(h, q[0], 0)
            == Some(ps[0]),
    decreases q.len(),
{
    lemma_greedy_spells(h, q);
    if q.len() > 1 {
        lemma_greedy_first(h, q.drop_last());
        assert(q.drop_last()[0] == q[0]);
        if let Some(ps0) = greedy_positions(h, q.drop_last()) {
            let from = ps0.last() + 1;
            if let Some(j) = find_char(h, q.last(), from) {
                assert(ps0.push(j)[0] == ps0[0]);
            }
        }
    } else {
        assert(q.drop_last() =~= Seq::<char>::empty());
        assert(q.last() == q[0]);
    }
}

/// The head start depends only on where the query's first character is first found: a
/// matching query scores the bonuses of its greedy match plus `HEAD_START_BONUS`, less the
/// byte offset of the first occurrence of its first character (at most `HEAD_START_BONUS`).
/// So a query whose first character opens the haystack keeps the whole head start, and an
/// empty query scores exactly the head start.
pub proof fn lemma_head_start_from_first_match(h: Seq<char>, q: Seq<char>)
    ensures
        q.len() == 0 ==> match_score(h, q) == Some(HEAD_START_BONUS as int),
        q.len() > 0 ==> match greedy_positions(h, q) {
            None => match_score(h, q) is None,
            Some(ps) => find_char(h, q[0], 0) matches Some(first) && match_score(h, q) == Some(
                bonus_sum(h, ps, q.len() as int) + HEAD_START_BONUS - (if byte_offset(h, first)
                    < HEAD_START_BONUS as int {
                    byte_offset(h, first) as int
                } else {
                    HEAD_START_BONUS as int
                }),
            ),
        },
        q.len() > 0 && h.len() > 0 && h[0] == q[0] ==> (greedy_positions(h, q) matches Some(ps)
            ==> match_score(h, q) == Some(bonus_sum(h, ps, q.len() as int) + HEAD_START_BONUS)),
{
    if q.len() == 0 {
        assert(bonus_sum(h, Seq::<int>::empty(), 0) == 0);
    } else {
        lemma_greedy_first(h, q);
        if h.len() > 0 && h[0] == q[0] {
            assert(find_char(h, q[0], 0) == Some(0int));
            assert(byte_offset(h, 0) == 0);
        }
    }
}

proof fn lemma_byte_offset_monotone(h: Seq<char>, i: int, j: int)
    requires
        0 <= i <= j,
    ensures
        byte_offset(h, i) <= byte_offset(h, j),
    decreases j - i,
{
    if i < j {
        lemma_byte_offset_monotone(h, i, j - 1);
    }
}

proof fn lemma_bonus_sum_push(h: Seq<char>, ps: Seq<int>, x: int, n: int)
    requires
        0 <= n <= ps.len(),
    ensures
        bonus_sum(h, ps.push(x), n) == bonus_sum(h, ps, n),
    decreases n,
{
    if n > 0 {
        lemma_bonus_sum_push(h, ps, x, n - 1);
        assert(ps.push(x)[n - 1] == ps[n - 1]);
        if n - 1 > 0 {
            assert(ps.push(x)[n - 2] == ps[n - 2]);
        }
    }
}

proof fn lemma_bonus_sum_bounds(h: Seq<char>, ps: Seq<int>, n: int)
    requires
        0 <= n,
    ensures
        0 <= bonus_sum(h, ps, n) <= 14 * n,
    decreases n,
{
    if n > 0 {
        lemma_bonus_sum_bounds(h, ps, n - 1);
    }
}

fn is_separator_char(c: char) -> (r: bool)
    ensures
        r == is_word_separator(c),
{
    c == ' ' || c == '/' || c == '-' || c == '_' || c == '.'
}

fn width_of(c: char) -> (w: usize)
    ensures
        w as nat == utf8_width(c),
{
    let code = c as u32;
    if code < 0x80 {
        1
    } else if code < 0x800 {
        2
    } else if code < 0x10000 {
        3
    } else {
        4
    }
}

fn find_from(h: &Vec<char>, c: char, from: usize) -> (r: Option<usize>)
    ensures
        match r {
            Some(j) => find_char(h@, c, from as int) == Some(j as int),
            None => find_char(h@, c, from as int) is None,
        },
    decreases h@.len() - from,
{
    if from >= h.len() {
        None
    } else if h[from] == c {
        Some(from)
    } else {
        find_from(h, c, from + 1)
    }
}

fn capped_byte_offset(h: &Vec<char>, j: usize) -> (r: i32)
    requires
        j <= h@.len(),
    ensures
        r as int == (if byte_offset(h@, j as int) < HEAD_START_BONUS as int {
            byte_offset(h@, j as int) as int
        } else {
            HEAD_START_BONUS as int
        }),
{
    let mut acc: usize = 0;
    let mut i: usize = 0;
    while i < j && acc < 4
        invariant
            i <= j <= h@.len(),
            acc as nat == byte_offset(h@, i as int),
            acc <= 8,
        decreases j - i,
    {
        acc = acc + width_of(h[i]);
        i = i + 1;
    }
    proof {
        lemma_byte_offset_monotone(h@, i as int, j as int);
    }
    if acc < 4 {
        acc as i32
    } else {
        4
    }
}

/// Scores a folded query against a folded haystack.
///
/// Each query character is looked up at its first occurrence after the previous match;
/// the result is `None` when one is missing. Otherwise every match earns a bonus when it
/// directly follows the previous one and when it starts a word, and the total gets a head
/// start that shrinks with the byte offset of the first match.
pub fn score(haystack: &str, folded_query: &str) -> (r: Option<i32>)
    requires
        folded_query@.len() <= MAX_QUERY_CHARS,
    ensures
        match r {
            Some(v) => match_score(haystack@, folded_query@) == Some(v as int),
            None => match_score(haystack@, folded_query@) is None,
        },
{
    let h = chars_of(haystack);
    let q = chars_of(folded_query);
    let ghost mut ps: Seq<int> = Seq::empty();
    let mut total: i32 = 0;
    let mut cursor: usize = 0;
    let mut first: usize = 0;
    let mut k: usize = 0;
    let hl = h.len();
    assert(q@.take(0) == Seq::<char>::empty());
    while k < q.len()
        invariant
            h@ == haystack@,
            hl == h@.len(),
            q@ == folded_query@,
            k <= q@.len() <= MAX_QUERY_CHARS,
            greedy_positions(h@, q@.take(k as int)) == Some(ps),
            spells(h@, q@.take(k as int), ps),
            cursor as int == if k == 0 { 0 } else { ps.last() + 1 },
            cursor <= h@.len(),
            k > 0 ==> first as int == ps[0],
            total as int == bonus_sum(h@, ps, k as int),
            0 <= total <= 14 * k,
        decreases q@.len() - k,
    {
        let c = q[k];
        let ghost qk = q@.take(k as int);
        let ghost qk1 = q@.take(k as int + 1);
        assert(qk1.drop_last() == qk);
        assert(qk1.last() == c);
        let found = find_from(&h, c, cursor);
        match found {
            None => {
                assert(greedy_positions(h@, qk1) is None);
                proof {
                    lemma_greedy_none_extends(h@, q@, k as int + 1);
                }
                assert(q@.take(q@.len() as int) == q@);
                return None;
            },
            Some(j) => {
                proof {
                    lemma_find_char(h@, c, cursor as int);
                }
                assert(j < hl);
                let mut bonus: i32 = 0;
                if k > 0 && j == cursor {
                    bonus = bonus + CONTIGUOUS_BONUS;
                }
                if j == 0 || is_separator_char(h[j - 1]) {
                    bonus = bonus + BOUNDARY_BONUS;
                }
                proof {
                    let ps1 = ps.push(j as int);
                    lemma_bonus_sum_push(h@, ps, j as int, k as int);
                    assert(bonus_at(h@, ps1, k as int) == bonus as int);
                    lemma_greedy_spells(h@, qk1);
                    ps = ps1;
                }
                total = total + bonus;
                if k == 0 {
                    first = j;
                }
                cursor = j + 1;
                k = k + 1;
            },
        }
    }
    assert(q@.take(q@.len() as int) == q@);
    let head = if q.len() == 0 {
        0
    } else {
        capped_byte_offset(&h, first)
    };
    Some(total + HEAD_START_BONUS - head)
}

proof fn lemma_greedy_none_extends(h: Seq<char>, q: Seq<char>, k: int)
    requires
        0 <= k <= q.len(),
        greedy_positions(h, q.take(k)) is None,
    ensures
        greedy_positions(h, q) is None,
    decreases q.len() - k,
{
    if k < q.len() {
        let q1 = q.take(k + 1);
        assert(q1.drop_last() == q.take(k));
        lemma_greedy_none_extends(h, q, k + 1);
    } else {
        assert(q.take(k) == q);
    }
}

} // verus!
