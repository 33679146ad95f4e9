use vstd::prelude::*;

verus! {

/// Whitespace, for splitting SQL text into tokens.
pub open spec fn is_space(c: char) -> bool {
    c == ' ' || c == '\t' || c == '\r' || c == '\n'
}

/// The character's code, with an ASCII capital folded to its small
/// form: keyword matching is case-insensitive.
pub open spec fn code_ci(c: char) -> int {
    if 65 <= c as u32 <= 90 {
        c as u32 + 32
    } else {
        c as u32 as int
    }
}

/// Case-insensitively equal character sequences.
pub open spec fn seq_eq_ci(a: Seq<char>, b: Seq<char>) -> bool {
    a.len() == b.len() && forall|i: int| 0 <= i < a.len() ==> code_ci(a[i]) == code_ci(b[i])
}

/// The whitespace-delimited tokens of `s`, with `cur` the partial
/// token read just before `s` starts.
pub open spec fn tokens_acc(s: Seq<char>, cur: Seq<char>) -> Seq<Seq<char>>
    decreases s.len(),
{
    if s.len() == 0 {
        if cur.len() == 0 {
            Seq::<Seq<char>>::empty()
        } else {
            seq![cur]
        }
    } else if is_space(s[0]) {
        (if cur.len() == 0 {
            Seq::<Seq<char>>::empty()
        } else {
            seq![cur]
        }) + tokens_acc(s.skip(1), Seq::<char>::empty())
    } else {
        tokens_acc(s.skip(1), cur.push(s[0]))
    }
}

/// The whitespace-delimited tokens of `s`: its maximal runs of
/// non-whitespace characters, in order.
pub open spec fn spec_tokens(s: Seq<char>) -> Seq<Seq<char>> {
    tokens_acc(s, Seq::<char>::empty())
}

/// The index of the last token case-insensitively equal to `w`, or -1.
pub open spec fn last_ci_index(ts: Seq<Seq<char>>, w: Seq<char>) -> int
    decreases ts.len(),
{
    if ts.len() == 0 {
        -1
    } else if seq_eq_ci(ts.last(), w) {
        ts.len() - 1
    } else {
        last_ci_index(ts.drop_last(), w)
    }
}

/// What the heuristic finds in a piece of SQL text: when the first
/// token is `select` (case-insensitively) and a `from` token occurs,
/// the token after the last `from`, in its original case; otherwise
/// nothing. This is not a parser: quoted identifiers, joins and
/// subqueries are out of scope.
pub open spec fn spec_extract(s: Seq<char>) -> Option<Seq<char>> {
    let ts = spec_tokens(s);
    if ts.len() == 0 {
        None
    } else if !seq_eq_ci(ts[0], ("select")@) {
        None
    } else {
        let k = last_ci_index(ts, ("from")@);
        if k < 0 {
            None
        } else if k + 1 < ts.len() {
            Some(ts[k + 1])
        } else {
            None
        }
    }
}

proof fn lemma_skip_skip(s: Seq<char>, i: int)
    requires
        0 <= i < s.len(),
    ensures
        s.skip(i).skip(1) == s.skip(i + 1),
{
    assert(s.skip(i).skip(1) =~= s.skip(i + 1));
}

/// A leading space changes no token.
proof fn lemma_space_step(s: Seq<char>, i: int)
    requires
        0 <= i < s.len(),
        is_space(s[i]),
    ensures
        tokens_acc(s.skip(i), Seq::<char>::empty()) == tokens_acc(
            s.skip(i + 1),
            Seq::<char>::empty(),
        ),
{
    lemma_skip_skip(s, i);
    assert(s.skip(i)[0] == s[i]);
    assert(Seq::<Seq<char>>::empty() + tokens_acc(s.skip(i + 1), Seq::<char>::empty())
        =~= tokens_acc(s.skip(i + 1), Seq::<char>::empty()));
}

/// Reading the non-space run from `m` to its boundary `e` finishes the
/// partial token `cur` with the run's characters.
proof fn lemma_token_run(s: Seq<char>, m: int, e: int, cur: Seq<char>)
    requires
        0 <= m <= e <= s.len(),
        forall|t: int| m <= t < e ==> !is_space(s[t]),
        e == s.len() || is_space(s[e]),
        cur.len() + e - m > 0,
    ensures
        tokens_acc(s.skip(m), cur) == seq![cur + s.subrange(m, e)] + tokens_acc(
            s.skip(e),
            Seq::<char>::empty(),
        ),
    decreases e - m,
{
    if m == e {
        assert(cur + s.subrange(m, e) =~= cur);
        if m == s.len() {
            assert(s.skip(m).len() == 0);
            assert(tokens_acc(s.skip(e), Seq::<char>::empty()) == Seq::<Seq<char>>::empty());
            assert(seq![cur] + Seq::<Seq<char>>::empty() =~= seq![cur]);
            assert(seq![cur + s.subrange(m, e)] =~= seq![cur]);
        } else {
            assert(s.skip(m)[0] == s[m]);
            assert(is_space(s[m]));
            assert(tokens_acc(s.skip(m), cur) == seq![cur] + tokens_acc(
                s.skip(m).skip(1),
                Seq::<char>::empty(),
            ));
            lemma_skip_skip(s, m);
            assert(seq![cur + s.subrange(m, e)] =~= seq![cur]);
        }
    } else {
        assert(s.skip(m)[0] == s[m]);
        assert(!is_space(s[m]));
        lemma_skip_skip(s, m);
        lemma_token_run(s, m + 1, e, cur.push(s[m]));
        assert(cur.push(s[m]) + s.subrange(m + 1, e) =~= cur + s.subrange(m, e));
        assert(seq![cur.push(s[m]) + s.subrange(m + 1, e)] =~= seq![cur + s.subrange(m, e)]);
    }
}

/// A maximal non-space run starting at a boundary is one whole token.
proof fn lemma_token_split(s: Seq<char>, t: int, e: int)
    requires
        0 <= t < e <= s.len(),
        forall|k: int| t <= k < e ==> !is_space(s[k]),
        e == s.len() || is_space(s[e]),
    ensures
        tokens_acc(s.skip(t), Seq::<char>::empty()) == seq![s.subrange(t, e)] + tokens_acc(
            s.skip(e),
            Seq::<char>::empty(),
        ),
{
    lemma_token_run(s, t, e, Seq::<char>::empty());
    assert(Seq::<char>::empty() + s.subrange(t, e) =~= s.subrange(t, e));
    assert(seq![Seq::<char>::empty() + s.subrange(t, e)] =~= seq![s.subrange(t, e)]);
}

/// The tokens the spans of `spans` cut out of `s`.
pub open spec fn token_seq(s: Seq<char>, spans: Seq<(usize, usize)>) -> Seq<Seq<char>> {
    spans.map_values(|p: (usize, usize)| s.subrange(p.0 as int, p.1 as int))
}

fn is_space_char(c: char) -> (r: bool)
    ensures
        r == is_space(c),
{
    c == ' ' || c == '\t' || c == '\r' || c == '\n'
}

fn char_code_ci(c: char) -> (r: u32)
    ensures
        r as int == code_ci(c),
{
    let u = c as u32;
    if 65 <= u && u <= 90 {
        u + 32
    } else {
        u
    }
}

/// Cut `s` into its whitespace-delimited tokens, each returned as a
/// start and end position in characters.
fn tokenize(s: &str) -> (spans: Vec<(usize, usize)>)
    ensures
        token_seq(s@, spans@) == spec_tokens(s@),
        spans@.len() == spec_tokens(s@).len(),
        forall|k: int|
            0 <= k < spans@.len() ==> 0 <= (#[trigger] spans@[k]).0 < spans@[k].1 <= s@.len(),
{
    let n = s.unicode_len();
    let mut spans: Vec<(usize, usize)> = Vec::new();
    let mut i: usize = 0;
    proof {
        assert(s@.skip(0) =~= s@);
        assert(token_seq(s@, spans@) =~= Seq::<Seq<char>>::empty());
        assert(Seq::<Seq<char>>::empty() + spec_tokens(s@) =~= spec_tokens(s@));
    }
    while i < n
        invariant
            n == s@.len(),
            i <= n,
            forall|k: int|
                0 <= k < spans@.len() ==> 0 <= (#[trigger] spans@[k]).0 < spans@[k].1 <= i,
            spec_tokens(s@) == token_seq(s@, spans@) + tokens_acc(
                s@.skip(i as int),
                Seq::<char>::empty(),
            ),
        decreases n - i,
    {
        let c = s.get_char(i);
        if is_space_char(c) {
            proof {
                lemma_space_step(s@, i as int);
            }
            i = i + 1;
        } else {
            let start = i;
            let mut e = i + 1;
            loop
                invariant
                    n == s@.len(),
                    start + 1 <= e <= n,
                    forall|t: int| start <= t < e ==> !is_space(s@[t]),
                ensures
                    start + 1 <= e <= n,
                    forall|t: int| start <= t < e ==> !is_space(s@[t]),
                    e == n || is_space(s@[e as int]),
                decreases n - e,
            {
                if e >= n {
                    break ;
                }
                if is_space_char(s.get_char(e)) {
                    break ;
                }
                e = e + 1;
            }
            proof {
                lemma_token_split(s@, start as int, e as int);
                assert(token_seq(s@, spans@.push((start, e))) =~= token_seq(s@, spans@) + seq![
                    s@.subrange(start as int, e as int),
                ]);
                assert((token_seq(s@, spans@) + seq![s@.subrange(start as int, e as int)])
                    + tokens_acc(s@.skip(e as int), Seq::<char>::empty()) =~= token_seq(s@, spans@)
                    + (seq![s@.subrange(start as int, e as int)] + tokens_acc(
                    s@.skip(e as int),
                    Seq::<char>::empty(),
                )));
            }
            spans.push((start, e));
            i = e;
        }
    }
    proof {
        assert(s@.skip(n as int) =~= Seq::<char>::empty());
        assert(tokens_acc(s@.skip(n as int), Seq::<char>::empty()) == Seq::<Seq<char>>::empty());
        assert(spec_tokens(s@) =~= token_seq(s@, spans@));
        assert(token_seq(s@, spans@).len() == spans@.len());
    }
    spans
}

/// Compare the characters of `s` between `lo` and `hi` with `w`,
/// case-insensitively.
fn span_eq_ci(s: &str, lo: usize, hi: usize, w: &str) -> (r: bool)
    requires
        lo <= hi <= s@.len(),
    ensures
        r == seq_eq_ci(s@.subrange(lo as int, hi as int), w@),
{
    let wn = w.unicode_len();
    if hi - lo != wn {
        return false;
    }
    let mut j: usize = 0;
    while j < wn
        invariant
            lo <= hi <= s@.len(),
            wn == w@.len(),
            hi - lo == wn,
            j <= wn,
            forall|k: int| 0 <= k < j ==> code_ci(s@[lo + k]) == code_ci(w@[k]),
        decreases wn - j,
    {
        let a = s.get_char(lo + j);
        let b = w.get_char(j);
        if char_code_ci(a) != char_code_ci(b) {
            proof {
                assert(s@.subrange(lo as int, hi as int)[j as int] == s@[lo + j]);
            }
            return false;
        }
        j = j + 1;
    }
    proof {
        assert forall|k: int| 0 <= k < wn implies code_ci(
            s@.subrange(lo as int, hi as int)[k],
        ) == code_ci(w@[k]) by {
            assert(s@.subrange(lo as int, hi as int)[k] == s@[lo + k]);
        }
    }
    true
}

/// One step of the last-match scan.
proof fn lemma_last_ci_step(ts: Seq<Seq<char>>, w: Seq<char>, k: int)
    requires
        0 <= k < ts.len(),
    ensures
        last_ci_index(ts.subrange(0, k + 1), w) == if seq_eq_ci(ts[k], w) {
            k
        } else {
            last_ci_index(ts.subrange(0, k), w)
        },
{
    let pre = ts.subrange(0, k + 1);
    assert(pre.drop_last() =~= ts.subrange(0, k));
    assert(pre.last() == ts[k]);
}

/// Best-effort table-name extraction from SQL text: for text whose
/// first token is `select` (case-insensitively) and which has a `from`
/// token, the whitespace-delimited token after the last `from`, in its
/// original case; otherwise nothing.
pub fn extract_table_name(sql: &str) -> (r: Option<String>)
    ensures
        (match r {
            Some(t) => spec_extract(sql@) == Some(t@),
            None => spec_extract(sql@) is None,
        }),
{
    let ghost ts = spec_tokens(sql@);
    let spans = tokenize(sql);
    if spans.len() == 0 {
        return None;
    }
    let first = spans[0];
    if !span_eq_ci(sql, first.0, first.1, "select") {
        proof {
            assert(ts[0] == sql@.subrange(first.0 as int, first.1 as int));
        }
        return None;
    }
    proof {
        assert(ts[0] == sql@.subrange(first.0 as int, first.1 as int));
        assert(seq_eq_ci(ts[0], ("select")@));
    }
    let mut found = false;
    let mut fidx: usize = 0;
    let mut k: usize = 0;
    while k < spans.len()
        invariant
            token_seq(sql@, spans@) == ts,
            spans@.len() == ts.len(),
            forall|t: int|
                0 <= t < spans@.len() ==> 0 <= (#[trigger] spans@[t]).0 < spans@[t].1
                    <= sql@.len(),
            k <= spans@.len(),
            found ==> fidx < k && last_ci_index(ts.subrange(0, k as int), ("from")@) == fidx,
            !found ==> last_ci_index(ts.subrange(0, k as int), ("from")@) == -1,
        decreases spans@.len() - k,
    {
        let sp = spans[k];
        proof {
            assert(ts[k as int] == sql@.subrange(sp.0 as int, sp.1 as int));
            lemma_last_ci_step(ts, ("from")@, k as int);
        }
        if span_eq_ci(sql, sp.0, sp.1, "from") {
            found = true;
            fidx = k;
        }
        k = k + 1;
    }
    proof {
        assert(ts.subrange(0, ts.len() as int) =~= ts);
    }
    if !found {
        return None;
    }
    if fidx + 1 < spans.len() {
        let sp = spans[fidx + 1];
        proof {
            assert(ts[fidx as int + 1] == sql@.subrange(sp.0 as int, sp.1 as int));
        }
        let t = sql.substring_char(sp.0, sp.1).to_owned();
        Some(t)
    } else {
        None
    }
}

} // verus!
