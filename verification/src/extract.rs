use vstd::prelude::*;
use crate::text::{str_to_chars, chars_to_string};

verus! {

/// The whitespace the extractor strips around a fenced interior: the
/// Unicode white-space characters.
pub open spec fn is_reply_ws(c: char) -> bool {
    let n = c as u32;
    (9 <= n && n <= 13) || n == 32 || n == 0x85 || n == 0xA0 || n == 0x1680 || (0x2000 <= n && n
        <= 0x200A) || n == 0x2028 || n == 0x2029 || n == 0x202F || n == 0x205F || n == 0x3000
}

/// Whitespace test matching `is_reply_ws`.
fn is_reply_ws_char(c: char) -> (b: bool)
    ensures
        b == is_reply_ws(c),
{
    let n = c as u32;
    (9 <= n && n <= 13) || n == 32 || n == 0x85 || n == 0xA0 || n == 0x1680 || (0x2000 <= n && n
        <= 0x200A) || n == 0x2028 || n == 0x2029 || n == 0x202F || n == 0x205F || n == 0x3000
}

/// The marker that opens a fenced JSON block.
pub open spec fn open_fence() -> Seq<char> {
    "```json"@
}

/// The marker that closes a fenced block.
pub open spec fn close_fence() -> Seq<char> {
    "```"@
}

/// The pattern stands in `s` at position `i`.
pub open spec fn match_at(s: Seq<char>, pat: Seq<char>, i: int) -> bool {
    0 <= i && i + pat.len() <= s.len() && s.subrange(i, i + pat.len() as int) == pat
}

/// The least position at or after `i` where the pattern stands, if any.
pub open spec fn first_match_from(s: Seq<char>, pat: Seq<char>, i: int) -> Option<int>
    decreases s.len() - i,
{
    if i + pat.len() > s.len() {
        None
    } else if pat.len() == 0 {
        Some(i)
    } else if match_at(s, pat, i) {
        Some(i)
    } else {
        first_match_from(s, pat, i + 1)
    }
}

/// `first_match_from` returns the first match and nothing earlier.
pub proof fn lemma_first_match_from(s: Seq<char>, pat: Seq<char>, i: int)
    requires
        0 <= i,
    ensures
        match first_match_from(s, pat, i) {
            Some(j) => i <= j && match_at(s, pat, j) && forall|k: int|
                i <= k < j ==> !match_at(s, pat, k),
            None => forall|k: int| i <= k ==> !match_at(s, pat, k),
        },
    decreases s.len() - i,
{
    if i + pat.len() > s.len() {
    } else if pat.len() == 0 {
        assert(s.subrange(i, i) =~= pat);
    } else if match_at(s, pat, i) {
    } else {
        lemma_first_match_from(s, pat, i + 1);
    }
}

/// Drops the leading whitespace.
pub open spec fn trim_front(s: Seq<char>) -> Seq<char>
    decreases s.len(),
{
    if s.len() > 0 && is_reply_ws(s[0]) {
        trim_front(s.drop_first())
    } else {
        s
    }
}

/// Drops the trailing whitespace.
pub open spec fn trim_back(s: Seq<char>) -> Seq<char>
    decreases s.len(),
{
    if s.len() > 0 && is_reply_ws(s[s.len() - 1]) {
        trim_back(s.drop_last())
    } else {
        s
    }
}

/// Drops whitespace on both sides.
pub open spec fn trim_ws(s: Seq<char>) -> Seq<char> {
    trim_back(trim_front(s))
}

/// When the first `k` characters are whitespace and the one after them is
/// not, trimming the front keeps exactly the rest.
proof fn lemma_trim_front(s: Seq<char>, k: int)
    requires
        0 <= k <= s.len(),
        forall|t: int| 0 <= t < k ==> is_reply_ws(s[t]),
        k == s.len() || !is_reply_ws(s[k]),
    ensures
        trim_front(s) =~= s.subrange(k, s.len() as int),
    decreases k,
{
    if k == 0 {
        if s.len() > 0 && is_reply_ws(s[0]) {
            assert(false);
        }
        assert(s.subrange(0, s.len() as int) =~= s);
    } else {
        assert(is_reply_ws(s[0]));
        let d = s.drop_first();
        assert(d =~= s.subrange(1, s.len() as int));
        lemma_trim_front(d, k - 1);
        assert(d.subrange(k - 1, d.len() as int) =~= s.subrange(k, s.len() as int));
    }
}

/// When the characters from `m` on are whitespace and the one before them is
/// not, trimming the back keeps exactly the front.
proof fn lemma_trim_back(s: Seq<char>, m: int)
    requires
        0 <= m <= s.len(),
        forall|t: int| m <= t < s.len() ==> is_reply_ws(s[t]),
        m == 0 || !is_reply_ws(s[m - 1]),
    ensures
        trim_back(s) =~= s.subrange(0, m),
    decreases s.len() - m,
{
    if m == s.len() as int {
        if s.len() > 0 && is_reply_ws(s[s.len() - 1]) {
            assert(false);
        }
    } else {
        assert(is_reply_ws(s[s.len() - 1]));
        let d = s.drop_last();
        assert(d =~= s.subrange(0, s.len() - 1));
        lemma_trim_back(d, m);
        assert(d.subrange(0, m) =~= s.subrange(0, m));
    }
}

/// The least position at or after `start` where the pattern stands in `v`.
pub fn find_from(v: &Vec<char>, pat: &Vec<char>, start: usize) -> (r: Option<usize>)
    ensures
        match r {
            Some(j) => first_match_from(v@, pat@, start as int) == Some(j as int),
            None => first_match_from(v@, pat@, start as int) is None,
        },
{
    if pat.len() > v.len() {
        proof {
            assert(first_match_from(v@, pat@, start as int) is None);
        }
        return None;
    }
    let bound = v.len() - pat.len();
    let mut i = start;
    if i > bound {
        proof {
            assert(first_match_from(v@, pat@, start as int) is None);
        }
        return None;
    }
    while i <= bound
        invariant
            start <= i,
            pat.len() <= v.len(),
            bound == v.len() - pat.len(),
            first_match_from(v@, pat@, start as int) == first_match_from(v@, pat@, i as int),
        decreases bound + 1 - i,
    {
        let mut j: usize = 0;
        let mut all_eq = true;
        while j < pat.len()
            invariant
                i <= bound,
                bound == v.len() - pat.len(),
                pat.len() <= v.len(),
                j <= pat.len(),
                all_eq <==> (forall|k: int| 0 <= k < j ==> v@[i + k] == pat@[k]),
            decreases pat.len() - j,
        {
            let same = v[i + j] == pat[j];
            all_eq = all_eq && same;
            proof {
                if all_eq {
                    assert(forall|k: int| 0 <= k < j + 1 ==> v@[i + k] == pat@[k]);
                }
            }
            j = j + 1;
        }
        if all_eq {
            proof {
                assert(v@.subrange(i as int, i + pat@.len() as int) =~= pat@);
                assert(match_at(v@, pat@, i as int));
            }
            return Some(i);
        }
        proof {
            assert(!match_at(v@, pat@, i as int)) by {
                if match_at(v@, pat@, i as int) {
                    let sub = v@.subrange(i as int, i + pat@.len() as int);
                    assert(forall|k: int|
                        0 <= k < pat@.len() ==> sub[k] == v@[i + k] && sub[k] == pat@[k]);
                }
            }
        }
        i = i + 1;
    }
    proof {
        assert(first_match_from(v@, pat@, i as int) is None);
    }
    None
}

/// What the extractor yields on the given reply text: the interior of the
/// first fenced JSON block, trimmed of surrounding whitespace, or nothing
/// when no such block exists.
pub open spec fn spec_extract(text: Seq<char>) -> Option<Seq<char>> {
    match first_match_from(text, open_fence(), 0) {
        None => None,
        Some(i) => match first_match_from(text, close_fence(), i + open_fence().len()) {
            None => None,
            Some(j) => Some(trim_ws(text.subrange(i + open_fence().len(), j))),
        },
    }
}

/// Copies `v[a..b]` with the whitespace on both sides dropped.
fn trim_region(v: &Vec<char>, a: usize, b: usize) -> (r: Vec<char>)
    requires
        a <= b <= v@.len(),
    ensures
        r@ == trim_ws(v@.subrange(a as int, b as int)),
{
    let ghost sub = v@.subrange(a as int, b as int);
    let mut lo = a;
    while lo < b && is_reply_ws_char(v[lo])
        invariant
            a <= lo <= b <= v@.len(),
            forall|t: int| a <= t < lo ==> is_reply_ws(v@[t]),
        decreases b - lo,
    {
        lo = lo + 1;
    }
    proof {
        assert(forall|t: int| 0 <= t < lo - a ==> sub[t] == v@[a + t] && is_reply_ws(sub[t]));
        assert(lo - a == sub.len() || !is_reply_ws(sub[lo - a]));
        lemma_trim_front(sub, lo - a);
    }
    let ghost fronted = trim_front(sub);
    let mut hi = b;
    while hi > lo && is_reply_ws_char(v[hi - 1])
        invariant
            lo <= hi <= b <= v@.len(),
            forall|t: int| hi <= t < b ==> is_reply_ws(v@[t]),
        decreases hi,
    {
        hi = hi - 1;
    }
    proof {
        assert(fronted =~= sub.subrange(lo - a, sub.len() as int));
        assert(forall|t: int|
            hi - lo <= t < fronted.len() ==> fronted[t] == v@[lo + t] && is_reply_ws(fronted[t]));
        assert(hi - lo == 0 || !is_reply_ws(fronted[hi - lo - 1]));
        lemma_trim_back(fronted, hi - lo);
    }
    let mut r: Vec<char> = Vec::new();
    let mut t = lo;
    while t < hi
        invariant
            lo <= t <= hi <= v@.len(),
            r@ == v@.subrange(lo as int, t as int),
        decreases hi - t,
    {
        r.push(v[t]);
        proof {
            assert(v@.subrange(lo as int, t as int).push(v@[t as int]) =~= v@.subrange(
                lo as int,
                t + 1 as int,
            ));
        }
        t = t + 1;
    }
    proof {
        assert(r@ =~= fronted.subrange(0, hi - lo));
        assert(r@ =~= trim_ws(sub));
    }
    r
}

/// Scans the reply text for the first fenced JSON block and returns its
/// interior, trimmed of the fence markers and surrounding whitespace.
/// Returns nothing exactly when no fenced block stands in the text.
pub fn extract_json(text: &str) -> (r: Option<String>)
    ensures
        match r {
            Some(s) => spec_extract(text@) == Some(s@),
            None => spec_extract(text@) is None,
        },
{
    let chars = str_to_chars(text);
    let open = str_to_chars("```json");
    let close = str_to_chars("```");
    match find_from(&chars, &open, 0) {
        None => None,
        Some(i) => {
            let n = chars.len();
            proof {
                lemma_first_match_from(chars@, open@, 0);
                assert(match_at(chars@, open@, i as int));
                assert(i + open@.len() <= n);
            }
            match find_from(&chars, &close, i + open.len()) {
                None => None,
                Some(j) => {
                    proof {
                        lemma_first_match_from(chars@, close@, i + open@.len());
                    }
                    let interior = trim_region(&chars, i + open.len(), j);
                    Some(chars_to_string(&interior))
                },
            }
        },
    }
}

/// The law of single-fence extraction: when the reply text is prose around
/// exactly one fenced block — the opening marker first stands where `pre`
/// ends, and the closing marker first stands where `inner` ends — the
/// extractor yields exactly `inner`, trimmed of surrounding whitespace.
pub proof fn lemma_extract_single_fence(pre: Seq<char>, inner: Seq<char>, post: Seq<char>)
    requires
        first_match_from(pre + open_fence() + inner + close_fence() + post, open_fence(), 0)
            == Some(pre.len() as int),
        first_match_from(
            pre + open_fence() + inner + close_fence() + post,
            close_fence(),
            pre.len() + open_fence().len() as int,
        ) == Some(pre.len() + open_fence().len() + inner.len() as int),
    ensures
        spec_extract(pre + open_fence() + inner + close_fence() + post) == Some(trim_ws(inner)),
{
    let text = pre + open_fence() + inner + close_fence() + post;
    let i = pre.len() as int;
    let j = pre.len() + open_fence().len() + inner.len();
    assert(text.subrange(i + open_fence().len(), j as int) =~= inner);
}

} // verus!
