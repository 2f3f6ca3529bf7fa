//! The substitution engine: scan a template body left to right for
//! non-overlapping tokens, resolve each token key against a replacement set,
//! and rebuild the output with every byte outside a token kept verbatim.
//! Resolution is fail-fast: the first unresolved key stops the scan and is
//! reported, and no output is produced for that template.

use vstd::prelude::*;

use crate::bytes::copy_bytes;
use crate::bytes::copy_range;
use crate::bytes::find_from;
use crate::bytes::first_occurrence;
use crate::bytes::lemma_first_occurrence;
use crate::bytes::push_range;
use crate::config::Entry;
use crate::config::ReplacementSet;
use crate::config::lemma_lookup_found;
use crate::config::lookup_in;
use crate::errors::UnresolvedKeyError;
use crate::pattern::Pattern;

verus! {

/// The leftmost token at or after `from`: `Some((s, e))` where the opening
/// delimiter starts at `s`, the token key is `t[s + b.len() .. e]`, and the
/// closing delimiter occupies `t[e .. e + a.len()]`. The closing delimiter is
/// the nearest one, so the key is as short as possible (non-greedy).
pub open spec fn first_token(t: Seq<u8>, b: Seq<u8>, a: Seq<u8>, from: int) -> Option<(int, int)> {
    match first_occurrence(t, b, from) {
        None => None,
        Some(s) => match first_occurrence(t, a, s + b.len()) {
            None => None,
            Some(e) => Some((s, e)),
        },
    }
}

/// The leftmost token lies within the template, at or after `from`.
pub proof fn lemma_first_token_bounds(t: Seq<u8>, b: Seq<u8>, a: Seq<u8>, from: int)
    requires
        0 <= from,
    ensures
        (match first_token(t, b, a, from) {
            Some(se) => from <= se.0 && se.0 + b.len() <= se.1 && se.1 + a.len() <= t.len(),
            None => true,
        }),
{
    lemma_first_occurrence(t, b, from);
    match first_occurrence(t, b, from) {
        Some(s) => {
            lemma_first_occurrence(t, a, s + b.len() as int);
        },
        None => {},
    }
}

/// What substitution yields from position `i` to the end of the template:
/// `Ok` with the rebuilt suffix when every token key from `i` on resolves,
/// `Err` with the leftmost unresolved key otherwise.
pub open spec fn subst_from(
    t: Seq<u8>,
    b: Seq<u8>,
    a: Seq<u8>,
    entries: Seq<Entry>,
    i: int,
) -> Result<Seq<u8>, Seq<u8>>
    decreases t.len() - i
        when 0 <= i <= t.len() && b.len() + a.len() >= 1
        via subst_from_decreases
{
    match first_token(t, b, a, i) {
        None => Ok(t.subrange(i, t.len() as int)),
        Some(se) => {
            let key = t.subrange(se.0 + b.len() as int, se.1);
            match lookup_in(entries, key) {
                None => Err(key),
                Some(v) => match subst_from(t, b, a, entries, se.1 + a.len() as int) {
                    Ok(rest) => Ok(t.subrange(i, se.0) + v + rest),
                    Err(k) => Err(k),
                },
            }
        },
    }
}

#[via_fn]
proof fn subst_from_decreases(t: Seq<u8>, b: Seq<u8>, a: Seq<u8>, entries: Seq<Entry>, i: int) {
    lemma_first_token_bounds(t, b, a, i);
}

/// What the whole substitution of a template yields.
pub open spec fn subst_spec(
    t: Seq<u8>,
    b: Seq<u8>,
    a: Seq<u8>,
    entries: Seq<Entry>,
) -> Result<Seq<u8>, Seq<u8>> {
    subst_from(t, b, a, entries, 0)
}

/// Substitute every token of `template` with the value its key is bound to
/// in `set`, keeping all bytes outside tokens verbatim. The first token whose
/// key is not bound stops the scan: its key is handed back and no output is
/// produced.
pub fn substitute(template: &Vec<u8>, pat: &Pattern, set: &ReplacementSet) -> (r: Result<
    Vec<u8>,
    Vec<u8>,
>)
    requires
        pat.wf(),
    ensures
        (match r {
            Ok(out) => subst_spec(template@, pat.before@, pat.after@, set.entries@) == Ok::<
                Seq<u8>,
                Seq<u8>,
            >(out@),
            Err(key) => subst_spec(template@, pat.before@, pat.after@, set.entries@) == Err::<
                Seq<u8>,
                Seq<u8>,
            >(key@),
        }),
{
    let ghost t = template@;
    let ghost b = pat.before@;
    let ghost a = pat.after@;
    let ghost entries = set.entries@;
    let tlen: usize = template.len();
    let mut out: Vec<u8> = Vec::new();
    let mut cursor: usize = 0;
    proof {
        match subst_from(t, b, a, entries, 0) {
            Ok(rest) => {
                assert(out@ + rest =~= rest);
            },
            Err(_) => {},
        }
    }
    loop
        invariant
            pat.wf(),
            t == template@,
            b == pat.before@,
            a == pat.after@,
            entries == set.entries@,
            t.len() == tlen,
            0 <= cursor <= t.len(),
            (match subst_from(t, b, a, entries, cursor as int) {
                Ok(rest) => subst_from(t, b, a, entries, 0) == Ok::<Seq<u8>, Seq<u8>>(out@ + rest),
                Err(k) => subst_from(t, b, a, entries, 0) == Err::<Seq<u8>, Seq<u8>>(k),
            }),
        decreases t.len() - cursor,
    {
        let token = match find_from(template, &pat.before, cursor) {
            None => None,
            Some(s) => match find_from(template, &pat.after, s + pat.before.len()) {
                None => None,
                Some(e) => Some((s, e)),
            },
        };
        match token {
            None => {
                proof {
                    assert(first_token(t, b, a, cursor as int) is None);
                }
                push_range(&mut out, template, cursor, tlen);
                proof {
                    assert(subst_from(t, b, a, entries, cursor as int) == Ok::<Seq<u8>, Seq<u8>>(
                        t.subrange(cursor as int, t.len() as int),
                    ));
                }
                return Ok(out);
            },
            Some((s, e)) => {
                proof {
                    assert(first_token(t, b, a, cursor as int) == Some(
                        (s as int, e as int),
                    ));
                }
                let key = copy_range(template, s + pat.before.len(), e);
                match set.lookup(&key) {
                    None => {
                        return Err(key);
                    },
                    Some(v) => {
                        let ghost out0 = out@;
                        push_range(&mut out, template, cursor, s);
                        push_range(&mut out, &v, 0, v.len());
                        proof {
                            assert(v@.subrange(0, v@.len() as int) =~= v@);
                            let next: int = e + a.len() as int;
                            match subst_from(t, b, a, entries, next) {
                                Ok(rest) => {
                                    assert(out0 + (t.subrange(cursor as int, s as int) + v@
                                        + rest) =~= (out0 + t.subrange(cursor as int, s as int)
                                        + v@) + rest);
                                },
                                Err(_) => {},
                            }
                        }
                        cursor = e + pat.after.len();
                    },
                }
            },
        }
    }
}

/// Total length of the token spans (delimiters included) from `i` on.
pub open spec fn total_token_len(t: Seq<u8>, b: Seq<u8>, a: Seq<u8>, i: int) -> int
    decreases t.len() - i
        when 0 <= i <= t.len() && b.len() + a.len() >= 1
        via total_token_len_decreases
{
    match first_token(t, b, a, i) {
        None => 0,
        Some(se) => (se.1 + a.len() - se.0) + total_token_len(t, b, a, se.1 + a.len() as int),
    }
}

#[via_fn]
proof fn total_token_len_decreases(t: Seq<u8>, b: Seq<u8>, a: Seq<u8>, i: int) {
    lemma_first_token_bounds(t, b, a, i);
}

/// Total length of the values that the token keys from `i` on resolve to;
/// a key the set does not bind contributes nothing.
pub open spec fn total_replacement_len(
    t: Seq<u8>,
    b: Seq<u8>,
    a: Seq<u8>,
    entries: Seq<Entry>,
    i: int,
) -> int
    decreases t.len() - i
        when 0 <= i <= t.len() && b.len() + a.len() >= 1
        via total_replacement_len_decreases
{
    match first_token(t, b, a, i) {
        None => 0,
        Some(se) => {
            let key = t.subrange(se.0 + b.len() as int, se.1);
            (match lookup_in(entries, key) {
                Some(v) => v.len() as int,
                None => 0,
            }) + total_replacement_len(t, b, a, entries, se.1 + a.len() as int)
        },
    }
}

#[via_fn]
proof fn total_replacement_len_decreases(
    t: Seq<u8>,
    b: Seq<u8>,
    a: Seq<u8>,
    entries: Seq<Entry>,
    i: int,
) {
    lemma_first_token_bounds(t, b, a, i);
}

/// The spans of all tokens from `i` on, in the order they are matched: each
/// element `(s, e)` is a token whose full span is `[s, e + a.len())`.
pub open spec fn token_spans(t: Seq<u8>, b: Seq<u8>, a: Seq<u8>, i: int) -> Seq<(int, int)>
    decreases t.len() - i
        when 0 <= i <= t.len() && b.len() + a.len() >= 1
        via token_spans_decreases
{
    match first_token(t, b, a, i) {
        None => Seq::empty(),
        Some(se) => seq![se] + token_spans(t, b, a, se.1 + a.len() as int),
    }
}

#[via_fn]
proof fn token_spans_decreases(t: Seq<u8>, b: Seq<u8>, a: Seq<u8>, i: int) {
    lemma_first_token_bounds(t, b, a, i);
}

/// Scanning invariant: tokens are matched in strictly increasing order, each
/// lies within the template, and their spans do not overlap.
pub proof fn lemma_token_spans_ordered(t: Seq<u8>, b: Seq<u8>, a: Seq<u8>, i: int)
    requires
        0 <= i <= t.len(),
        b.len() + a.len() >= 1,
    ensures
        ({
            let spans = token_spans(t, b, a, i);
            &&& forall|k: int|
                0 <= k < spans.len() ==> {
                    &&& i <= (#[trigger] spans[k]).0
                    &&& spans[k].0 + b.len() <= spans[k].1
                    &&& spans[k].1 + a.len() <= t.len()
                }
            &&& forall|k: int|
                0 <= k < spans.len() - 1 ==> (#[trigger] spans[k]).1 + a.len() <= spans[k + 1].0
        }),
    decreases t.len() - i,
{
    lemma_first_token_bounds(t, b, a, i);
    match first_token(t, b, a, i) {
        None => {},
        Some(se) => {
            let next = se.1 + a.len() as int;
            lemma_token_spans_ordered(t, b, a, next);
            let spans = token_spans(t, b, a, i);
            let tail = token_spans(t, b, a, next);
            assert forall|k: int|
                0 <= k < spans.len() implies {
                &&& i <= (#[trigger] spans[k]).0
                &&& spans[k].0 + b.len() <= spans[k].1
                &&& spans[k].1 + a.len() <= t.len()
            } by {
                if k > 0 {
                    assert(spans[k] == tail[k - 1]);
                }
            }
            assert forall|k: int|
                0 <= k < spans.len() - 1 implies (#[trigger] spans[k]).1 + a.len() <= spans[k
                + 1].0 by {
                assert(spans[k + 1] == tail[k]);
                if k > 0 {
                    assert(spans[k] == tail[k - 1]);
                    assert(tail[k - 1].1 + a.len() <= tail[k].0);
                } else {
                    assert(spans[0] == se);
                    assert(next <= tail[0].0);
                }
            }
        },
    }
}

/// Identity law: a template in which the pattern matches no token is
/// reproduced unchanged.
pub proof fn lemma_no_token_identity(t: Seq<u8>, b: Seq<u8>, a: Seq<u8>, entries: Seq<Entry>)
    requires
        b.len() + a.len() >= 1,
        first_token(t, b, a, 0) is None,
    ensures
        subst_spec(t, b, a, entries) == Ok::<Seq<u8>, Seq<u8>>(t),
{
    assert(t.subrange(0, t.len() as int) =~= t);
}

proof fn lemma_output_length_from(t: Seq<u8>, b: Seq<u8>, a: Seq<u8>, entries: Seq<Entry>, i: int)
    requires
        0 <= i <= t.len(),
        b.len() + a.len() >= 1,
    ensures
        (match subst_from(t, b, a, entries, i) {
            Ok(out) => out.len() == (t.len() - i) - total_token_len(t, b, a, i)
                + total_replacement_len(t, b, a, entries, i),
            Err(_) => true,
        }),
    decreases t.len() - i,
{
    lemma_first_token_bounds(t, b, a, i);
    match first_token(t, b, a, i) {
        None => {},
        Some(se) => {
            lemma_output_length_from(t, b, a, entries, se.1 + a.len() as int);
        },
    }
}

/// Length law: a fully resolved output is exactly as long as the template,
/// minus the token spans, plus the values they resolved to.
pub proof fn lemma_output_length(
    t: Seq<u8>,
    b: Seq<u8>,
    a: Seq<u8>,
    entries: Seq<Entry>,
    out: Seq<u8>,
)
    requires
        b.len() + a.len() >= 1,
        subst_spec(t, b, a, entries) == Ok::<Seq<u8>, Seq<u8>>(out),
    ensures
        out.len() == t.len() - total_token_len(t, b, a, 0) + total_replacement_len(
            t,
            b,
            a,
            entries,
            0,
        ),
{
    lemma_output_length_from(t, b, a, entries, 0);
}

/// Determinism law: substitution is a function of the template, the
/// delimiters and the set alone, so resolving the same template against the
/// same set twice yields the same outcome.
pub proof fn lemma_deterministic(
    t: Seq<u8>,
    b: Seq<u8>,
    a: Seq<u8>,
    entries: Seq<Entry>,
    r1: Result<Seq<u8>, Seq<u8>>,
    r2: Result<Seq<u8>, Seq<u8>>,
)
    requires
        r1 == subst_spec(t, b, a, entries),
        r2 == subst_spec(t, b, a, entries),
    ensures
        r1 == r2,
{
}

proof fn lemma_error_key_unbound_from(
    t: Seq<u8>,
    b: Seq<u8>,
    a: Seq<u8>,
    entries: Seq<Entry>,
    i: int,
)
    requires
        0 <= i <= t.len(),
        b.len() + a.len() >= 1,
    ensures
        (match subst_from(t, b, a, entries, i) {
            Err(k) => lookup_in(entries, k) is None,
            Ok(_) => true,
        }),
    decreases t.len() - i,
{
    lemma_first_token_bounds(t, b, a, i);
    match first_token(t, b, a, i) {
        None => {},
        Some(se) => {
            lemma_error_key_unbound_from(t, b, a, entries, se.1 + a.len() as int);
        },
    }
}

/// Failure law: when substitution fails, the key it reports is absent from
/// the set — no entry carries it — and no output is produced for the
/// template.
pub proof fn lemma_error_key_unbound(t: Seq<u8>, b: Seq<u8>, a: Seq<u8>, entries: Seq<Entry>)
    requires
        b.len() + a.len() >= 1,
    ensures
        (match subst_spec(t, b, a, entries) {
            Err(k) => {
                &&& lookup_in(entries, k) is None
                &&& forall|j: int| 0 <= j < entries.len() ==> entries[j].key@ != k
            },
            Ok(_) => true,
        }),
{
    lemma_error_key_unbound_from(t, b, a, entries, 0);
    match subst_spec(t, b, a, entries) {
        Err(k) => {
            lemma_lookup_found(entries, k, 0);
        },
        Ok(_) => {},
    }
}

/// Substitute as [`substitute`] does, wrapping a failure in an
/// [`UnresolvedKeyError`] that also names the selected set and the template
/// the unresolved token was found in.
pub fn render(
    template: &Vec<u8>,
    pat: &Pattern,
    set: &ReplacementSet,
    set_name: &Vec<u8>,
    template_id: &Vec<u8>,
) -> (r: Result<Vec<u8>, UnresolvedKeyError>)
    requires
        pat.wf(),
    ensures
        (match r {
            Ok(out) => subst_spec(template@, pat.before@, pat.after@, set.entries@) == Ok::<
                Seq<u8>,
                Seq<u8>,
            >(out@),
            Err(err) => {
                &&& subst_spec(template@, pat.before@, pat.after@, set.entries@) == Err::<
                    Seq<u8>,
                    Seq<u8>,
                >(err.key@)
                &&& err.set_name@ == set_name@
                &&& err.template@ == template_id@
            },
        }),
{
    match substitute(template, pat, set) {
        Ok(out) => Ok(out),
        Err(key) => Err(
            UnresolvedKeyError {
                key,
                set_name: copy_bytes(set_name),
                template: copy_bytes(template_id),
            },
        ),
    }
}

} // verus!
