//! Ranked keyword search over a fixed table of emoji.
//!
//! Every entry of the table names an emoji and lists its keywords.  A query
//! is scored against each keyword; an entry scores as its best keyword does,
//! and the entries that reach [`SCORE_CUTOFF`] are returned, best first.
use vstd::prelude::*;
use vstd::string::*;

verus! {

/// The score below which an entry is left out of the results.
pub const SCORE_CUTOFF: i32 = 87;

/// The score of a keyword that equals the query.
pub const SCORE_MAX: i32 = 100;

/// The separator between the words of a keyword.
pub const WORD_SEPARATOR: char = '_';

// ---------------------------------------------------------------------------
// Text predicates
// ---------------------------------------------------------------------------

/// `pattern` occurs in `text` at position `at`.
pub open spec fn matches_at(text: Seq<char>, at: int, pattern: Seq<char>) -> bool {
    &&& 0 <= at
    &&& at + pattern.len() <= text.len()
    &&& forall|j: int| 0 <= j < pattern.len() ==> text[at + j] == pattern[j]
}

/// `text` begins with `pattern`.
pub open spec fn starts_with(text: Seq<char>, pattern: Seq<char>) -> bool {
    matches_at(text, 0, pattern)
}

/// `text` ends with `pattern`.
pub open spec fn ends_with(text: Seq<char>, pattern: Seq<char>) -> bool {
    matches_at(text, text.len() - pattern.len(), pattern)
}

/// `pattern` occurs somewhere in `text`.
pub open spec fn contains(text: Seq<char>, pattern: Seq<char>) -> bool {
    exists|at: int| matches_at(text, at, pattern)
}

/// The first position from `from` on at which `xs` and `ys` differ, or at
/// which one of them ends.
pub open spec fn common_prefix_from(xs: Seq<u8>, ys: Seq<u8>, from: nat) -> nat
    decreases xs.len() - from,
{
    if from < xs.len() && from < ys.len() && xs[from as int] == ys[from as int] {
        common_prefix_from(xs, ys, from + 1)
    } else {
        from
    }
}

/// The length of the longest common prefix of `xs` and `ys`.
pub open spec fn common_prefix_len(xs: Seq<u8>, ys: Seq<u8>) -> nat {
    common_prefix_from(xs, ys, 0)
}

/// The least of three numbers.
pub open spec fn min3(a: nat, b: nat, c: nat) -> nat {
    if a <= b && a <= c {
        a
    } else if b <= c {
        b
    } else {
        c
    }
}

/// The Levenshtein distance of `a` and `b`: the least number of insertions,
/// deletions and substitutions of one character that turn `a` into `b`.
pub open spec fn edit_distance(a: Seq<char>, b: Seq<char>) -> nat
    decreases a.len() + b.len(),
{
    if a.len() == 0 {
        b.len()
    } else if b.len() == 0 {
        a.len()
    } else {
        let substitute: nat = if a.last() == b.last() {
            0
        } else {
            1
        };
        min3(
            edit_distance(a.drop_last(), b.drop_last()) + substitute,
            edit_distance(a.drop_last(), b) + 1,
            edit_distance(a, b.drop_last()) + 1,
        )
    }
}

/// The distance of two texts is at most the sum of their lengths.
pub proof fn lemma_edit_distance_bound(a: Seq<char>, b: Seq<char>)
    ensures
        edit_distance(a, b) <= a.len() + b.len(),
    decreases a.len() + b.len(),
{
    if a.len() != 0 && b.len() != 0 {
        lemma_edit_distance_bound(a.drop_last(), b);
    }
}

// ---------------------------------------------------------------------------
// Text helpers
// ---------------------------------------------------------------------------

/// The characters of `s`, one by one.
pub fn to_chars(s: &str) -> (chars: Vec<char>)
    ensures
        chars@ == s@,
{
    let n = s.unicode_len();
    let mut chars: Vec<char> = Vec::new();
    let mut i: usize = 0;
    while i < n
        invariant
            i <= n,
            n == s@.len(),
            chars@ == s@.subrange(0, i as int),
        decreases n - i,
    {
        chars.push(s.get_char(i));
        i += 1;
        assert(chars@ =~= s@.subrange(0, i as int));
    }
    assert(s@.subrange(0, n as int) =~= s@);
    chars
}

/// Tells whether `pattern` occurs in `text` at position `at`.
pub fn occurs_at(text: &Vec<char>, at: usize, pattern: &Vec<char>) -> (found: bool)
    ensures
        found == matches_at(text@, at as int, pattern@),
{
    if at > text.len() || pattern.len() > text.len() - at {
        return false;
    }
    let mut j: usize = 0;
    while j < pattern.len()
        invariant
            j <= pattern.len(),
            at + pattern.len() <= text.len(),
            forall|k: int| 0 <= k < j ==> text@[at + k] == pattern@[k],
        decreases pattern.len() - j,
    {
        if text[at + j] != pattern[j] {
            return false;
        }
        j += 1;
    }
    true
}

/// Tells whether `text` ends with `pattern`.
pub fn has_suffix(text: &Vec<char>, pattern: &Vec<char>) -> (found: bool)
    ensures
        found == ends_with(text@, pattern@),
{
    if pattern.len() > text.len() {
        return false;
    }
    occurs_at(text, text.len() - pattern.len(), pattern)
}

/// Tells whether `pattern` occurs somewhere in `text`.
pub fn has_occurrence(text: &Vec<char>, pattern: &Vec<char>) -> (found: bool)
    ensures
        found == contains(text@, pattern@),
{
    if pattern.len() > text.len() {
        return false;
    }
    let last = text.len() - pattern.len();
    let mut at: usize = 0;
    while at <= last
        invariant
            at <= last + 1,
            last == text.len() - pattern.len(),
            forall|k: int| 0 <= k < at ==> !matches_at(text@, k, pattern@),
        decreases last + 1 - at,
    {
        if occurs_at(text, at, pattern) {
            return true;
        }
        at += 1;
    }
    false
}

/// The length of the longest common prefix of `xs` and `ys`, compared in
/// chunks of `N` bytes first and byte by byte after the last equal chunk.
pub fn mismatch_chunks<const N: usize>(xs: &[u8], ys: &[u8]) -> (len: usize)
    requires
        N > 0,
    ensures
        len == common_prefix_len(xs@, ys@),
{
    let mut off: usize = 0;
    let mut chunks_equal = true;
    while chunks_equal && N <= xs.len() - off && N <= ys.len() - off
        invariant
            N > 0,
            off <= xs.len(),
            off <= ys.len(),
            common_prefix_from(xs@, ys@, off as nat) == common_prefix_len(xs@, ys@),
        decreases xs.len() - off + (if chunks_equal { 1int } else { 0int }),
    {
        let mut j: usize = 0;
        while j < N && xs[off + j] == ys[off + j]
            invariant
                j <= N,
                off + N <= xs.len(),
                off + N <= ys.len(),
                common_prefix_from(xs@, ys@, (off + j) as nat) == common_prefix_len(xs@, ys@),
            decreases N - j,
        {
            j += 1;
        }
        if j == N {
            off += N;
        } else {
            chunks_equal = false;
        }
    }
    let mut len: usize = off;
    while len < xs.len() && len < ys.len() && xs[len] == ys[len]
        invariant
            len <= xs.len(),
            len <= ys.len(),
            common_prefix_from(xs@, ys@, len as nat) == common_prefix_len(xs@, ys@),
        decreases xs.len() - len,
    {
        len += 1;
    }
    len
}

/// The length of the longest common prefix of `xs` and `ys`.
pub fn mismatch(xs: &[u8], ys: &[u8]) -> (len: usize)
    ensures
        len == common_prefix_len(xs@, ys@),
{
    mismatch_chunks::<128>(xs, ys)
}

// ---------------------------------------------------------------------------
// Scores
// ---------------------------------------------------------------------------

/// `num / den`, rounded to the nearest whole number, halves upwards.
pub open spec fn round_half_up(num: int, den: int) -> int {
    (2 * num + den) / (2 * den)
}

/// The score of a keyword that begins with the query and is longer than it:
/// `SCORE_MAX` less ten times the ratio of the two lengths, rounded.  The
/// deduction is at most `i32::MAX`, which it is for an empty query.
pub open spec fn prefix_score_spec(len_long: int, len_short: int) -> int {
    if len_short == 0 {
        SCORE_MAX - i32::MAX
    } else {
        let deduction = round_half_up(10 * len_long, len_short);
        if deduction < i32::MAX {
            SCORE_MAX - deduction
        } else {
            SCORE_MAX - i32::MAX
        }
    }
}

/// The score of a keyword that the query does not occur in: the share of
/// the two lengths that the edit distance leaves over, in percent, and five
/// and a half points for each byte of the common prefix, rounded and capped
/// at `SCORE_MAX`.
pub open spec fn fuzzy_score_spec(dist: int, len_query: int, len_keyword: int, bonus: int) -> int {
    let lensum = len_query + len_keyword;
    let points = round_half_up(200 * (lensum - dist) + 11 * bonus * lensum, 2 * lensum);
    if points < SCORE_MAX {
        points
    } else {
        SCORE_MAX as int
    }
}

/// The queries that are too common to be looked for between two separators.
pub open spec fn is_ignored_exact_query(query: Seq<char>) -> bool {
    ||| query == "with"@
    ||| query == "in"@
    ||| query == "no"@
    ||| query == "and"@
    ||| query == "of"@
    ||| query == "the"@
    ||| query == "me"@
    ||| query == "on"@
    ||| query == "a"@
}

/// The separator as a text of one character.
pub open spec fn separator() -> Seq<char> {
    seq![WORD_SEPARATOR]
}

/// The score of `keyword` for `query`.
pub open spec fn keyword_score_spec(query: Seq<char>, keyword: Seq<char>, exact: bool) -> int {
    if keyword == query {
        SCORE_MAX as int
    } else if !exact {
        if starts_with(keyword, query) {
            prefix_score_spec(
                if keyword.len() > query.len() {
                    keyword.len() as int
                } else {
                    query.len() as int
                },
                if keyword.len() > query.len() {
                    query.len() as int
                } else {
                    keyword.len() as int
                },
            )
        } else if contains(keyword, query) {
            90
        } else {
            fuzzy_score_spec(
                edit_distance(query, keyword) as int,
                query.len() as int,
                keyword.len() as int,
                common_prefix_len(vstd::utf8::encode_utf8(query), vstd::utf8::encode_utf8(keyword)) as int,
            )
        }
    } else if starts_with(keyword, query + separator()) {
        99
    } else if ends_with(keyword, separator() + query) {
        97
    } else if !is_ignored_exact_query(query) && contains(
        keyword,
        separator() + query + separator(),
    ) {
        96
    } else {
        0
    }
}

/// No keyword scores above `SCORE_MAX`.
pub proof fn lemma_keyword_score_bound(query: Seq<char>, keyword: Seq<char>, exact: bool)
    ensures
        SCORE_MAX - i32::MAX <= keyword_score_spec(query, keyword, exact) <= SCORE_MAX,
{
    if keyword != query && !exact {
        if starts_with(keyword, query) {
            let long = if keyword.len() > query.len() {
                keyword.len() as int
            } else {
                query.len() as int
            };
            let short = if keyword.len() > query.len() {
                query.len() as int
            } else {
                keyword.len() as int
            };
            if short != 0 {
                assert(round_half_up(10 * long, short) >= 0) by (nonlinear_arith)
                    requires
                        long >= 0,
                        short > 0,
                ;
            }
        } else if !contains(keyword, query) {
            let dist = edit_distance(query, keyword) as int;
            let lensum = (query.len() + keyword.len()) as int;
            let bonus = common_prefix_len(
                vstd::utf8::encode_utf8(query),
                vstd::utf8::encode_utf8(keyword),
            ) as int;
            lemma_edit_distance_bound(query, keyword);
            assert(matches_at(keyword, 0, query) || query.len() > 0);
            assert(round_half_up(200 * (lensum - dist) + 11 * bonus * lensum, 2 * lensum) >= 0)
                by (nonlinear_arith)
                requires
                    lensum > 0,
                    dist <= lensum,
                    bonus >= 0,
            ;
        }
    }
}

/// The Levenshtein distance of `a` and `b`, counted in characters.
///
/// Calls `levenshtein::levenshtein`, which fills one row of the usual table
/// after the other and returns its last cell.  The contract states that this
/// is the edit distance of the two texts.
#[verifier::external_body]
fn levenshtein_distance(a: &str, b: &str) -> (dist: usize)
    ensures
        dist == edit_distance(a@, b@),
{
    levenshtein::levenshtein(a, b)
}

/// Tells whether `a` and `b` hold the same characters.
pub fn same_chars(a: &Vec<char>, b: &Vec<char>) -> (same: bool)
    ensures
        same == (a@ == b@),
{
    if a.len() != b.len() {
        return false;
    }
    let same = occurs_at(a, 0, b);
    proof {
        if same {
            assert(a@ =~= b@);
        }
    }
    same
}

/// Tells whether `query` is too common a word to be looked for between two
/// separators.
pub fn should_ignore_exact_query(query: &str) -> (ignored: bool)
    ensures
        ignored == is_ignored_exact_query(query@),
{
    let q = to_chars(query);
    same_chars(&q, &to_chars("with")) || same_chars(&q, &to_chars("in")) || same_chars(
        &q,
        &to_chars("no"),
    ) || same_chars(&q, &to_chars("and")) || same_chars(&q, &to_chars("of")) || same_chars(
        &q,
        &to_chars("the"),
    ) || same_chars(&q, &to_chars("me")) || same_chars(&q, &to_chars("on")) || same_chars(
        &q,
        &to_chars("a"),
    )
}

/// The score of a keyword of `len_long` characters that begins with a query
/// of `len_short`.
pub fn prefix_score(len_long: usize, len_short: usize) -> (score: i32)
    ensures
        score == prefix_score_spec(len_long as int, len_short as int),
{
    if len_short == 0 {
        return SCORE_MAX - i32::MAX;
    }
    let long: u128 = len_long as u128;
    let short: u128 = len_short as u128;
    let deduction: u128 = (20 * long + short) / (2 * short);
    if deduction < i32::MAX as u128 {
        SCORE_MAX - (deduction as i32)
    } else {
        SCORE_MAX - i32::MAX
    }
}

/// The score of a keyword of `len_keyword` characters at edit distance
/// `dist` from a query of `len_query`, with `bonus` bytes in common at the
/// start.
pub fn fuzzy_score(dist: usize, len_query: usize, len_keyword: usize, bonus: usize) -> (score: i32)
    requires
        dist <= len_query + len_keyword,
        0 < len_query + len_keyword,
    ensures
        score == fuzzy_score_spec(dist as int, len_query as int, len_keyword as int, bonus as int),
{
    let lensum: u128 = len_query as u128 + len_keyword as u128;
    let counted: u128 = if bonus < 20 {
        bonus as u128
    } else {
        20
    };
    let left: u128 = lensum - dist as u128;
    assert(11 * counted * lensum <= 220 * lensum) by (nonlinear_arith)
        requires
            counted <= 20,
    ;
    let num: u128 = 200 * left + 11 * counted * lensum;
    let points: u128 = (2 * num + 2 * lensum) / (4 * lensum);
    proof {
        let exact_num = 200 * (lensum - dist) + 11 * bonus * lensum;
        if bonus >= 20 {
            assert(11 * bonus * lensum >= 220 * lensum) by (nonlinear_arith)
                requires
                    bonus >= 20,
                    lensum > 0,
            ;
            assert((2 * exact_num + 2 * lensum) / (2 * (2 * lensum)) >= 100) by (nonlinear_arith)
                requires
                    exact_num >= 220 * lensum,
                    lensum > 0,
            ;
            assert((2 * num + 2 * lensum) / (4 * lensum) >= 100) by (nonlinear_arith)
                requires
                    num >= 220 * lensum,
                    lensum > 0,
            ;
        } else {
            assert(exact_num == num);
            assert(2 * (2 * lensum) == 4 * lensum);
        }
    }
    if points < 100 {
        points as i32
    } else {
        SCORE_MAX
    }
}

/// `query` with a separator put before it, after it, or both.
fn with_separators(query: &Vec<char>, before: bool, after: bool) -> (text: Vec<char>)
    ensures
        text@ == (if before {
            separator()
        } else {
            Seq::empty()
        }) + query@ + (if after {
            separator()
        } else {
            Seq::empty()
        }),
{
    let mut text: Vec<char> = Vec::new();
    if before {
        text.push(WORD_SEPARATOR);
    }
    let ghost head = text@;
    let mut i: usize = 0;
    while i < query.len()
        invariant
            i <= query.len(),
            text@ == head + query@.subrange(0, i as int),
        decreases query.len() - i,
    {
        text.push(query[i]);
        i += 1;
        assert(text@ =~= head + query@.subrange(0, i as int));
    }
    assert(query@.subrange(0, query.len() as int) =~= query@);
    if after {
        text.push(WORD_SEPARATOR);
    }
    assert(text@ =~= head + query@ + (if after {
        separator()
    } else {
        Seq::empty()
    }));
    assert(head =~= (if before {
        separator()
    } else {
        Seq::empty()
    }));
    text
}

/// The score of `keyword` for `query`: `SCORE_MAX` where they are equal;
/// in an exact search 99, 97 or 96 where the query is the first, the last
/// or an inner word of the keyword, and 0 otherwise; in a loose search the
/// prefix score, 90 where the query occurs in the keyword, or the fuzzy
/// score.
pub fn keyword_score(query: &str, keyword: &str, exact: bool) -> (score: i32)
    ensures
        score == keyword_score_spec(query@, keyword@, exact),
{
    let q = to_chars(query);
    let k = to_chars(keyword);
    if same_chars(&k, &q) {
        return SCORE_MAX;
    }
    if !exact {
        if occurs_at(&k, 0, &q) {
            if k.len() > q.len() {
                prefix_score(k.len(), q.len())
            } else {
                prefix_score(q.len(), k.len())
            }
        } else if has_occurrence(&k, &q) {
            90
        } else {
            let dist = levenshtein_distance(query, keyword);
            let bonus = mismatch(query.as_bytes(), keyword.as_bytes());
            proof {
                lemma_edit_distance_bound(query@, keyword@);
                assert(matches_at(k@, 0, q@) || q@.len() > 0);
            }
            fuzzy_score(dist, q.len(), k.len(), bonus)
        }
    } else {
        let head = with_separators(&q, false, true);
        let tail = with_separators(&q, true, false);
        let inner = with_separators(&q, true, true);
        assert(head@ =~= q@ + separator());
        assert(tail@ =~= separator() + q@);
        assert(inner@ =~= separator() + q@ + separator());
        if occurs_at(&k, 0, &head) {
            99
        } else if has_suffix(&k, &tail) {
            97
        } else if !should_ignore_exact_query(query) && has_occurrence(&k, &inner) {
            96
        } else {
            0
        }
    }
}

// ---------------------------------------------------------------------------
// Entries
// ---------------------------------------------------------------------------

/// One emoji and the keywords by which it is found.
pub struct EmojiEntry {
    pub emoji: String,
    pub keywords: Vec<String>,
}

impl EmojiEntry {
    /// The keywords as texts.
    pub open spec fn keywords_view(&self) -> Seq<Seq<char>> {
        Seq::new(self.keywords@.len(), |i: int| self.keywords@[i]@)
    }
}

/// The best score among the first `n` of `keywords`, and 0 at the least.
pub open spec fn best_score_spec(
    query: Seq<char>,
    keywords: Seq<Seq<char>>,
    exact: bool,
    n: nat,
) -> int
    decreases n,
{
    if n == 0 {
        0
    } else {
        let before = best_score_spec(query, keywords, exact, (n - 1) as nat);
        let score = keyword_score_spec(query, keywords[n - 1], exact);
        if score > before {
            score
        } else {
            before
        }
    }
}

/// The score of an entry: that of its best keyword, and 0 at the least.
pub open spec fn entry_score_spec(query: Seq<char>, entry: EmojiEntry, exact: bool) -> int {
    best_score_spec(query, entry.keywords_view(), exact, entry.keywords@.len())
}

/// The best score lies between 0 and `SCORE_MAX`, and does not fall as more
/// keywords are taken in.
pub proof fn lemma_best_score_grows(
    query: Seq<char>,
    keywords: Seq<Seq<char>>,
    exact: bool,
    m: nat,
    n: nat,
)
    requires
        m <= n,
    ensures
        0 <= best_score_spec(query, keywords, exact, m) <= best_score_spec(
            query,
            keywords,
            exact,
            n,
        ) <= SCORE_MAX,
    decreases n,
{
    if n > 0 {
        lemma_keyword_score_bound(query, keywords[n - 1], exact);
        if m < n {
            lemma_best_score_grows(query, keywords, exact, m, (n - 1) as nat);
        } else {
            lemma_best_score_grows(query, keywords, exact, (n - 1) as nat, (n - 1) as nat);
        }
    }
}

/// The score of `entry` for `query`: the best of its keywords' scores, and
/// 0 where it has none or none scores above 0.
pub fn entry_score(entry: &EmojiEntry, query: &str, exact: bool) -> (score: i32)
    ensures
        score == entry_score_spec(query@, *entry, exact),
        0 <= score <= SCORE_MAX,
{
    let ghost keywords = entry.keywords_view();
    let n = entry.keywords.len();
    let mut best: i32 = 0;
    let mut i: usize = 0;
    while i < n
        invariant
            i <= n,
            n == entry.keywords@.len(),
            keywords == entry.keywords_view(),
            best == best_score_spec(query@, keywords, exact, i as nat),
        decreases n - i,
    {
        let score = keyword_score(query, entry.keywords[i].as_str(), exact);
        if score > best {
            best = score;
        }
        i += 1;
        if best == SCORE_MAX {
            proof {
                lemma_best_score_grows(query@, keywords, exact, i as nat, n as nat);
            }
            return best;
        }
    }
    proof {
        lemma_best_score_grows(query@, keywords, exact, n as nat, n as nat);
    }
    best
}

// ---------------------------------------------------------------------------
// Ranking
// ---------------------------------------------------------------------------

/// The positions below `n` whose score is `level`, in rising order.
pub open spec fn indices_at_level(scores: Seq<i32>, level: int, n: nat) -> Seq<int>
    decreases n,
{
    if n == 0 {
        Seq::empty()
    } else {
        let before = indices_at_level(scores, level, (n - 1) as nat);
        if scores[n - 1] == level {
            before.push(n - 1)
        } else {
            before
        }
    }
}

/// The positions whose score lies between `level` and `SCORE_MAX`: those of
/// the highest score first, those of one score in rising order.
pub open spec fn ranked_down_to(scores: Seq<i32>, level: int) -> Seq<int>
    decreases SCORE_MAX + 1 - level,
{
    if level > SCORE_MAX {
        Seq::empty()
    } else {
        ranked_down_to(scores, level + 1) + indices_at_level(scores, level, scores.len())
    }
}

/// The positions that a search returns, in the order in which it returns
/// them.
pub open spec fn ranked_indices(scores: Seq<i32>) -> Seq<int> {
    ranked_down_to(scores, SCORE_CUTOFF as int)
}

/// What `indices_at_level` holds: each position below `n` with that score,
/// once, in rising order, and nothing else.
pub proof fn lemma_indices_at_level(scores: Seq<i32>, level: int, n: nat)
    requires
        n <= scores.len(),
    ensures
        forall|j: int|
            0 <= j < indices_at_level(scores, level, n).len() ==> {
                &&& 0 <= #[trigger] indices_at_level(scores, level, n)[j] < n
                &&& scores[indices_at_level(scores, level, n)[j]] == level
            },
        forall|j: int, k: int|
            0 <= j < k < indices_at_level(scores, level, n).len() ==> #[trigger] indices_at_level(
                scores,
                level,
                n,
            )[j] < #[trigger] indices_at_level(scores, level, n)[k],
        forall|i: int|
            0 <= i < n && #[trigger] scores[i] == level ==> indices_at_level(
                scores,
                level,
                n,
            ).contains(i),
    decreases n,
{
    if n > 0 {
        let before = indices_at_level(scores, level, (n - 1) as nat);
        let now = indices_at_level(scores, level, n);
        lemma_indices_at_level(scores, level, (n - 1) as nat);
        assert forall|i: int| 0 <= i < n && #[trigger] scores[i] == level implies now.contains(
            i,
        ) by {
            if i < n - 1 {
                let j = choose|j: int| 0 <= j < before.len() && before[j] == i;
                assert(now[j] == i);
            } else {
                assert(now[now.len() - 1] == i);
            }
        }
    }
}

/// The ranking holds each position whose score lies between `level` and
/// `SCORE_MAX`, and no other; scores do not rise along it; and of two
/// positions with one score the lower comes first.
pub proof fn lemma_ranked_down_to(scores: Seq<i32>, level: int)
    ensures
        forall|j: int|
            0 <= j < ranked_down_to(scores, level).len() ==> {
                &&& 0 <= #[trigger] ranked_down_to(scores, level)[j] < scores.len()
                &&& level <= scores[ranked_down_to(scores, level)[j]] <= SCORE_MAX
            },
        forall|j: int, k: int|
            0 <= j < k < ranked_down_to(scores, level).len() ==> {
                let a = #[trigger] ranked_down_to(scores, level)[j];
                let b = #[trigger] ranked_down_to(scores, level)[k];
                scores[a] > scores[b] || (scores[a] == scores[b] && a < b)
            },
        forall|i: int|
            0 <= i < scores.len() && level <= #[trigger] scores[i] <= SCORE_MAX ==> ranked_down_to(
                scores,
                level,
            ).contains(i),
    decreases SCORE_MAX + 1 - level,
{
    if level <= SCORE_MAX {
        let higher = ranked_down_to(scores, level + 1);
        let here = indices_at_level(scores, level, scores.len());
        let all = ranked_down_to(scores, level);
        lemma_ranked_down_to(scores, level + 1);
        lemma_indices_at_level(scores, level, scores.len());
        assert(all =~= higher + here);
        assert forall|j: int| 0 <= j < all.len() implies {
            &&& 0 <= #[trigger] all[j] < scores.len()
            &&& level <= scores[all[j]] <= SCORE_MAX
        } by {
            if j < higher.len() {
                assert(all[j] == higher[j]);
            } else {
                assert(all[j] == here[j - higher.len()]);
            }
        }
        assert forall|j: int, k: int| 0 <= j < k < all.len() implies {
            let a = #[trigger] all[j];
            let b = #[trigger] all[k];
            scores[a] > scores[b] || (scores[a] == scores[b] && a < b)
        } by {
            if j < higher.len() {
                assert(all[j] == higher[j]);
            } else {
                assert(all[j] == here[j - higher.len()]);
            }
            if k < higher.len() {
                assert(all[k] == higher[k]);
            } else {
                assert(all[k] == here[k - higher.len()]);
            }
        }
        assert forall|i: int|
            0 <= i < scores.len() && level <= #[trigger] scores[i] <= SCORE_MAX implies all.contains(
            i,
        ) by {
            if scores[i] == level {
                let j = choose|j: int| 0 <= j < here.len() && here[j] == i;
                assert(all[higher.len() + j] == i);
            } else {
                let j = choose|j: int| 0 <= j < higher.len() && higher[j] == i;
                assert(all[j] == i);
            }
        }
    }
}

/// The ranking of a search: it holds the positions that score at least
/// `SCORE_CUTOFF` and no others, scores do not rise along it, and positions
/// with one score keep the order of the table.
pub proof fn lemma_ranking_sorted(scores: Seq<i32>)
    ensures
        forall|j: int|
            0 <= j < ranked_indices(scores).len() ==> {
                &&& 0 <= #[trigger] ranked_indices(scores)[j] < scores.len()
                &&& SCORE_CUTOFF <= scores[ranked_indices(scores)[j]] <= SCORE_MAX
            },
        forall|j: int, k: int|
            0 <= j < k < ranked_indices(scores).len() ==> {
                let a = #[trigger] ranked_indices(scores)[j];
                let b = #[trigger] ranked_indices(scores)[k];
                scores[a] > scores[b] || (scores[a] == scores[b] && a < b)
            },
        forall|i: int|
            0 <= i < scores.len() && SCORE_CUTOFF <= #[trigger] scores[i] <= SCORE_MAX
                ==> ranked_indices(scores).contains(i),
{
    lemma_ranked_down_to(scores, SCORE_CUTOFF as int);
}

/// The positions of the scores that reach `SCORE_CUTOFF`, the highest score
/// first; positions with one score stay in rising order.
pub fn rank_scores(scores: &Vec<i32>) -> (ranked: Vec<usize>)
    ensures
        ranked@.len() == ranked_indices(scores@).len(),
        forall|j: int| 0 <= j < ranked@.len() ==> #[trigger] ranked@[j] == ranked_indices(scores@)[j],
{
    let n = scores.len();
    let mut ranked: Vec<usize> = Vec::new();
    let mut level: i32 = SCORE_MAX;
    let ghost mut model: Seq<int> = Seq::empty();
    while level >= SCORE_CUTOFF
        invariant
            n == scores@.len(),
            SCORE_CUTOFF - 1 <= level <= SCORE_MAX,
            model == ranked_down_to(scores@, level + 1),
            ranked@.len() == model.len(),
            forall|j: int| 0 <= j < ranked@.len() ==> #[trigger] ranked@[j] == model[j],
        decreases level - SCORE_CUTOFF + 1,
    {
        let ghost higher = model;
        let mut i: usize = 0;
        while i < n
            invariant
                i <= n,
                n == scores@.len(),
                higher == ranked_down_to(scores@, level + 1),
                model == higher + indices_at_level(scores@, level as int, i as nat),
                ranked@.len() == model.len(),
                forall|j: int| 0 <= j < ranked@.len() ==> #[trigger] ranked@[j] == model[j],
            decreases n - i,
        {
            if scores[i] == level {
                ranked.push(i);
                proof {
                    model = model.push(i as int);
                }
            }
            i += 1;
            assert(model =~= higher + indices_at_level(scores@, level as int, i as nat));
        }
        level -= 1;
    }
    ranked
}

// ---------------------------------------------------------------------------
// The table and the search
// ---------------------------------------------------------------------------

/// The table of emoji that is searched.  It is filled once and read from
/// then on.
pub struct EmojiIndex {
    entries: Vec<EmojiEntry>,
}

impl View for EmojiIndex {
    type V = Seq<EmojiEntry>;

    closed spec fn view(&self) -> Seq<EmojiEntry> {
        self.entries@
    }
}

/// The score of each entry of `table` for `query`.
pub open spec fn scores_spec(table: Seq<EmojiEntry>, query: Seq<char>, exact: bool) -> Seq<i32> {
    Seq::new(table.len(), |i: int| entry_score_spec(query, table[i], exact) as i32)
}

/// The emoji that a search for `query` returns, in order: those of the
/// entries that score at least `SCORE_CUTOFF`, the best first, entries with
/// one score in the order of the table.
pub open spec fn search_spec(table: Seq<EmojiEntry>, query: Seq<char>, exact: bool) -> Seq<
    Seq<char>,
> {
    let ranked = ranked_indices(scores_spec(table, query, exact));
    Seq::new(ranked.len(), |j: int| table[ranked[j]].emoji@)
}

/// Every emoji that a search returns belongs to an entry that scores at
/// least `SCORE_CUTOFF`; the scores do not rise along the results; entries
/// with one score come in the order of the table; and no entry that scores
/// that much is left out.
pub proof fn lemma_search_results_ranked(table: Seq<EmojiEntry>, query: Seq<char>, exact: bool)
    ensures
        ({
            let scores = scores_spec(table, query, exact);
            let ranked = ranked_indices(scores);
            &&& search_spec(table, query, exact).len() == ranked.len()
            &&& forall|j: int|
                0 <= j < ranked.len() ==> {
                    &&& 0 <= #[trigger] ranked[j] < table.len()
                    &&& search_spec(table, query, exact)[j] == table[ranked[j]].emoji@
                    &&& entry_score_spec(query, table[ranked[j]], exact) >= SCORE_CUTOFF
                }
            &&& forall|j: int, k: int|
                0 <= j < k < ranked.len() ==> {
                    let a = #[trigger] ranked[j];
                    let b = #[trigger] ranked[k];
                    let score_a = entry_score_spec(query, table[a], exact);
                    let score_b = entry_score_spec(query, table[b], exact);
                    score_a > score_b || (score_a == score_b && a < b)
                }
            &&& forall|i: int|
                0 <= i < table.len() && #[trigger] entry_score_spec(query, table[i], exact)
                    >= SCORE_CUTOFF ==> ranked.contains(i)
        }),
{
    let scores = scores_spec(table, query, exact);
    let ranked = ranked_indices(scores);
    lemma_ranking_sorted(scores);
    assert forall|i: int| 0 <= i < table.len() implies 0 <= #[trigger] scores[i] <= SCORE_MAX
        && scores[i] == entry_score_spec(query, table[i], exact) by {
        lemma_best_score_grows(
            query,
            table[i].keywords_view(),
            exact,
            table[i].keywords@.len(),
            table[i].keywords@.len(),
        );
    }
    assert forall|j: int| 0 <= j < ranked.len() implies {
        &&& 0 <= #[trigger] ranked[j] < table.len()
        &&& search_spec(table, query, exact)[j] == table[ranked[j]].emoji@
        &&& entry_score_spec(query, table[ranked[j]], exact) >= SCORE_CUTOFF
    } by {
        assert(scores[ranked[j]] >= SCORE_CUTOFF);
    }
    assert forall|j: int, k: int| 0 <= j < k < ranked.len() implies {
        let a = #[trigger] ranked[j];
        let b = #[trigger] ranked[k];
        let score_a = entry_score_spec(query, table[a], exact);
        let score_b = entry_score_spec(query, table[b], exact);
        score_a > score_b || (score_a == score_b && a < b)
    } by {
        assert(scores[ranked[j]] >= SCORE_CUTOFF);
        assert(scores[ranked[k]] >= SCORE_CUTOFF);
    }
    assert forall|i: int|
        0 <= i < table.len() && #[trigger] entry_score_spec(query, table[i], exact)
            >= SCORE_CUTOFF implies ranked.contains(i) by {
        assert(scores[i] >= SCORE_CUTOFF);
    }
}

/// Makes the table from its entries, in their order.
pub fn emoji_init(dataset: Vec<EmojiEntry>) -> (index: EmojiIndex)
    ensures
        index@ == dataset@,
{
    EmojiIndex { entries: dataset }
}

impl EmojiIndex {
    /// The number of entries.
    pub fn len(&self) -> (n: usize)
        ensures
            n == self@.len(),
    {
        self.entries.len()
    }

    /// The entry at position `i`.
    pub fn entry(&self, i: usize) -> (entry: &EmojiEntry)
        requires
            i < self@.len(),
        ensures
            *entry == self@[i as int],
    {
        &self.entries[i]
    }

    /// The score of each entry for `query`, in the order of the table.
    pub fn scores(&self, query: &str, exact: bool) -> (scores: Vec<i32>)
        ensures
            scores@ == scores_spec(self@, query@, exact),
    {
        let n = self.entries.len();
        let mut scores: Vec<i32> = Vec::new();
        let mut i: usize = 0;
        while i < n
            invariant
                i <= n,
                n == self.entries@.len(),
                scores@.len() == i,
                forall|j: int|
                    0 <= j < i ==> #[trigger] scores@[j] == entry_score_spec(
                        query@,
                        self.entries@[j],
                        exact,
                    ),
            decreases n - i,
        {
            scores.push(entry_score(&self.entries[i], query, exact));
            i += 1;
        }
        assert(scores@ =~= scores_spec(self@, query@, exact));
        scores
    }
}

/// `results` are what a search of `table` for `query` returns.
pub open spec fn is_result_of(
    results: Seq<String>,
    table: Seq<EmojiEntry>,
    query: Seq<char>,
    exact: bool,
) -> bool {
    &&& results.len() == search_spec(table, query, exact).len()
    &&& forall|j: int|
        0 <= j < results.len() ==> (#[trigger] results[j])@ == search_spec(table, query, exact)[j]
}

/// Two searches of one table for one query return the same emoji in the
/// same order.
pub proof fn lemma_search_repeats(
    table: Seq<EmojiEntry>,
    query: Seq<char>,
    exact: bool,
    first: Seq<String>,
    second: Seq<String>,
)
    requires
        is_result_of(first, table, query, exact),
        is_result_of(second, table, query, exact),
    ensures
        first.len() == second.len(),
        forall|j: int| 0 <= j < first.len() ==> (#[trigger] first[j])@ == second[j]@,
{
}

/// Searches the table for `query`.  Returns the emoji of the entries that
/// score at least `SCORE_CUTOFF`, the best first; entries with one score
/// come in the order of the table.  The table is left as it is, and the
/// result depends on the table and the query alone.
pub fn emoji_search(index: &EmojiIndex, query: &str, exact: bool) -> (results: Vec<String>)
    ensures
        is_result_of(results@, index@, query@, exact),
{
    let scores = index.scores(query, exact);
    let ranked = rank_scores(&scores);
    proof {
        lemma_ranking_sorted(scores@);
    }
    let mut results: Vec<String> = Vec::new();
    let mut j: usize = 0;
    while j < ranked.len()
        invariant
            j <= ranked.len(),
            scores@ == scores_spec(index@, query@, exact),
            ranked@.len() == ranked_indices(scores@).len(),
            forall|k: int|
                0 <= k < ranked@.len() ==> #[trigger] ranked@[k] == ranked_indices(scores@)[k],
            forall|k: int|
                0 <= k < ranked_indices(scores@).len() ==> 0 <= #[trigger] ranked_indices(
                    scores@,
                )[k] < scores@.len(),
            results@.len() == j,
            forall|k: int|
                0 <= k < j ==> (#[trigger] results@[k])@ == search_spec(index@, query@, exact)[k],
        decreases ranked.len() - j,
    {
        let at = ranked[j];
        assert(at == ranked_indices(scores@)[j as int]);
        results.push(index.entries[at].emoji.clone());
        j += 1;
    }
    results
}

} // verus!
