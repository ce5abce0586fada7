//! Removing credentials from diagnostic text.
use crate::text::{is_space, matches_at, occurs_at, space, to_chars};
use vstd::prelude::*;

verus! {

/// Whether a credential ends before this character.
pub open spec fn ends_value(c: char) -> bool {
    is_space(c) || c == ',' || c == '&' || c == '"' || c == '\'' || c == '}' || c == ']'
}

/// How many characters of a credential stand at the beginning of `s`.
pub open spec fn value_len(s: Seq<char>) -> nat
    decreases s.len(),
{
    if s.len() == 0 || ends_value(s[0]) {
        0
    } else {
        1 + value_len(s.drop_first())
    }
}

/// `s` with every value that follows `marker` replaced.
pub open spec fn redacted(s: Seq<char>, marker: Seq<char>) -> Seq<char>
    decreases s.len(),
{
    if s.len() == 0 || marker.len() == 0 {
        s
    } else if occurs_at(s, marker, 0) {
        let value = s.skip(marker.len() as int);
        proof {
            value_len_bound(value);
        }
        marker + "[REDACTED]"@ + redacted(value.skip(value_len(value) as int), marker)
    } else {
        seq![s[0]] + redacted(s.drop_first(), marker)
    }
}

/// `s` with the values that follow a bearer, key or token marker replaced.
pub open spec fn sanitized(s: Seq<char>) -> Seq<char> {
    redacted(redacted(redacted(s, "Bearer "@), "key="@), "token="@)
}

/// Every place where `marker` stands in `s` is followed by the replacement.
pub open spec fn only_redacted_after(s: Seq<char>, marker: Seq<char>) -> bool {
    forall|i: int| #[trigger]
        occurs_at(s, marker, i) ==> occurs_at(s, "[REDACTED]"@, i + marker.len())
}

/// A credential is no longer than the text that it begins.
pub proof fn value_len_bound(s: Seq<char>)
    ensures
        value_len(s) <= s.len(),
    decreases s.len(),
{
    if s.len() > 0 && !ends_value(s[0]) {
        value_len_bound(s.drop_first());
    }
}

fn redact_marker_value(input: &str, marker: &str) -> (r: String)
    requires
        marker@.len() > 0,
    ensures
        r@ == redacted(input@, marker@),
{
    let chars = to_chars(input);
    let pat = to_chars(marker);
    let mut out = String::new();
    let mut i: usize = 0;
    assert(chars@.skip(0) =~= chars@);
    assert(Seq::<char>::empty() + redacted(chars@, marker@) =~= redacted(chars@, marker@));
    while i < chars.len()
        invariant
            i <= chars@.len(),
            pat@ == marker@,
            marker@.len() > 0,
            out@ + redacted(chars@.skip(i as int), marker@) == redacted(chars@, marker@),
        decreases chars@.len() - i,
    {
        let ghost rest = chars@.skip(i as int);
        let ghost before = out@;
        let hit = matches_at(&chars, &pat, i);
        assert(hit == occurs_at(rest, marker@, 0)) by {
            if i + pat@.len() <= chars@.len() {
                assert(rest.subrange(0, pat@.len() as int) =~= chars@.subrange(
                    i as int,
                    i + pat@.len(),
                ));
            }
        }
        if hit {
            out.push_str(marker);
            out.push_str("[REDACTED]");
            let start: usize = i + pat.len();
            let ghost value = rest.skip(marker@.len() as int);
            assert(value =~= chars@.skip(start as int));
            let mut j: usize = start;
            while j < chars.len() && !(space(chars[j]) || chars[j] == ',' || chars[j] == '&'
                || chars[j] == '"' || chars[j] == '\'' || chars[j] == '}' || chars[j] == ']')
                invariant
                    start <= j <= chars@.len(),
                    value == chars@.skip(start as int),
                    value_len(value) == (j - start) + value_len(chars@.skip(j as int)),
                decreases chars@.len() - j,
            {
                assert(chars@.skip(j as int)[0] == chars@[j as int]);
                j += 1;
                assert(chars@.skip(j as int) =~= chars@.skip(j - 1).drop_first());
            }
            assert(value_len(chars@.skip(j as int)) == 0) by {
                if j < chars@.len() {
                    assert(chars@.skip(j as int)[0] == chars@[j as int]);
                }
            }
            assert(value.skip(value_len(value) as int) =~= chars@.skip(j as int));
            i = j;
            assert(out@ + redacted(chars@.skip(i as int), marker@) =~= before + redacted(
                rest,
                marker@,
            ));
        } else {
            out.push(chars[i]);
            i += 1;
            assert(chars@.skip(i as int) =~= rest.drop_first());
            assert(out@ + redacted(chars@.skip(i as int), marker@) =~= before + redacted(
                rest,
                marker@,
            ));
        }
    }
    assert(chars@.skip(i as int) =~= Seq::<char>::empty());
    assert(out@ =~= redacted(chars@, marker@));
    out
}

/// Replaces the values that follow a bearer, key or token marker.
pub fn sanitize_diagnostic(message: &str) -> (r: String)
    ensures
        r@ == sanitized(message@),
        only_redacted_after(r@, "Bearer "@),
        only_redacted_after(r@, "key="@),
        only_redacted_after(r@, "token="@),
{
    proof {
        reveal_strlit("Bearer ");
        reveal_strlit("key=");
        reveal_strlit("token=");
        sanitized_leaves_no_value(message@);
    }
    let a = redact_marker_value(message, "Bearer ");
    let b = redact_marker_value(a.as_str(), "key=");
    redact_marker_value(b.as_str(), "token=")
}

/// Redaction copies what stands before the first marker.
proof fn redacted_up_to(s: Seq<char>, m: Seq<char>, k: int)
    requires
        m.len() > 0,
        0 <= k <= s.len(),
        forall|j: int| 0 <= j < k ==> !occurs_at(s, m, j),
    ensures
        redacted(s, m) == s.take(k) + redacted(s.skip(k), m),
    decreases k,
{
    if k == 0 {
        assert(s.skip(0) =~= s);
        assert(s.take(0) + redacted(s, m) =~= redacted(s, m));
    } else {
        let t = s.drop_first();
        assert forall|j: int| 0 <= j < k - 1 implies !occurs_at(t, m, j) by {
            if occurs_at(t, m, j) {
                assert(s.subrange(j + 1, j + 1 + m.len()) =~= t.subrange(j, j + m.len()));
                assert(occurs_at(s, m, j + 1));
            }
        }
        redacted_up_to(t, m, k - 1);
        assert(!occurs_at(s, m, 0));
        assert(t.skip(k - 1) =~= s.skip(k));
        assert(seq![s[0]] + (t.take(k - 1) + redacted(s.skip(k), m)) =~= s.take(k) + redacted(
            s.skip(k),
            m,
        ));
    }
}

/// `a` does not begin at position `i` of `b`: the two differ before `b` ends.
spec fn differs(b: Seq<char>, a: Seq<char>, i: int) -> bool {
    exists|j: int| 0 <= j < a.len() && i + j < b.len() && #[trigger] b[i + j] != #[trigger] a[j]
}

/// The replacement after one marker survives the redaction of another (or the
/// same) marker, and a redaction leaves only the replacement after its own.
proof fn redaction_keeps(s: Seq<char>, a: Seq<char>, b: Seq<char>)
    requires
        a.len() > 0,
        b.len() > 0,
        a == b || only_redacted_after(s, a),
        forall|i: int| 0 <= i < "[REDACTED]"@.len() ==> "[REDACTED]"@[i] != a[0] && "[REDACTED]"@[i]
            != b[0],
        // `b` does not begin inside `a`
        forall|i: int| 1 <= i < a.len() ==> a[i] != b[0],
        a != b ==> a[0] != b[0],
        // `a` does not begin inside `b`
        forall|i: int| 1 <= i < b.len() ==> #[trigger] differs(b, a, i),
    ensures
        only_redacted_after(redacted(s, b), a),
    decreases s.len(),
{
    let r = "[REDACTED]"@;
    let out = redacted(s, b);
    if exists|q: int| occurs_at(s, b, q) {
        let some = choose|q: int| occurs_at(s, b, q);
        let q = first_place(s, b, some);
        redacted_up_to(s, b, q);
        let rest = s.skip(q);
        assert(rest.subrange(0, b.len() as int) =~= s.subrange(q, q + b.len()));
        assert(occurs_at(rest, b, 0));
        let value = rest.skip(b.len() as int);
        value_len_bound(value);
        let n = value_len(value) as int;
        let tail = value.skip(n);
        let end = q + b.len();
        assert(tail =~= s.skip(end + n));
        if a != b {
            assert forall|i: int| #[trigger] occurs_at(tail, a, i) implies occurs_at(
                tail,
                r,
                i + a.len(),
            ) by {
                let k = i + end + n;
                assert(s.subrange(k, k + a.len()) =~= tail.subrange(i, i + a.len()));
                assert(occurs_at(s, a, k));
                assert(occurs_at(s, r, k + a.len()));
                assert(tail.subrange(i + a.len(), i + a.len() + r.len()) =~= s.subrange(
                    k + a.len(),
                    k + a.len() + r.len(),
                ));
            }
        }
        redaction_keeps(tail, a, b);
        let done = redacted(tail, b);
        assert(out =~= s.take(q) + b + r + done);
        assert forall|i: int| #[trigger] occurs_at(out, a, i) implies occurs_at(
            out,
            r,
            i + a.len(),
        ) by {
            let here = out.subrange(i, i + a.len());
            assert(here == a);
            assert(out[i] == here[0]);
            if i >= end + r.len() {
                let j = i - (end + r.len());
                assert(done.subrange(j, j + a.len()) =~= here);
                assert(occurs_at(done, a, j));
                assert(occurs_at(done, r, j + a.len()));
                assert(out.subrange(i + a.len(), i + a.len() + r.len()) =~= done.subrange(
                    j + a.len(),
                    j + a.len() + r.len(),
                ));
            } else if i >= end {
                assert(out[i] == r[i - end]);
            } else if i > q {
                assert(differs(b, a, i - q));
                let j = choose|j: int|
                    0 <= j < a.len() && (i - q) + j < b.len() && #[trigger] b[(i - q) + j]
                        != #[trigger] a[j];
                assert(here[j] == out[i + j]);
                assert(out[i + j] == b[(i - q) + j]);
            } else if i == q {
                assert(out[q] == b[0]);
                assert(a == b);
                assert(out.subrange(end, end + r.len()) =~= r);
            } else if i + a.len() > q {
                assert(here[q - i] == out[q]);
                assert(out[q] == b[0]);
            } else {
                assert(s.subrange(i, i + a.len()) =~= here);
                assert(occurs_at(s, a, i));
                if a != b {
                    let at = i + a.len();
                    assert(occurs_at(s, r, at));
                    let found = s.subrange(at, at + r.len());
                    if at + r.len() > q {
                        assert(found[q - at] == s[q]);
                        assert(s.subrange(q, q + b.len())[0] == s[q]);
                    }
                    assert(out.subrange(at, at + r.len()) =~= found);
                }
            }
        }
    } else {
        redacted_up_to(s, b, s.len() as int);
        assert(s.skip(s.len() as int) =~= Seq::<char>::empty());
        assert(out =~= s);
        assert(a == b ==> forall|i: int| !occurs_at(s, b, i));
    }
}

/// The first place at or before `q` where `b` stands in `s`.
proof fn first_place(s: Seq<char>, b: Seq<char>, q: int) -> (p: int)
    requires
        occurs_at(s, b, q),
    ensures
        occurs_at(s, b, p),
        forall|j: int| 0 <= j < p ==> !occurs_at(s, b, j),
    decreases q,
{
    if exists|j: int| 0 <= j < q && occurs_at(s, b, j) {
        let j = choose|j: int| 0 <= j < q && occurs_at(s, b, j);
        first_place(s, b, j)
    } else {
        q
    }
}

/// No credential survives: wherever one of the three markers stands in
/// sanitized text, the replacement follows.
pub proof fn sanitized_leaves_no_value(s: Seq<char>)
    ensures
        only_redacted_after(sanitized(s), "Bearer "@),
        only_redacted_after(sanitized(s), "key="@),
        only_redacted_after(sanitized(s), "token="@),
{
    reveal_strlit("Bearer ");
    reveal_strlit("key=");
    reveal_strlit("token=");
    reveal_strlit("[REDACTED]");
    let bearer = "Bearer "@;
    let key = "key="@;
    let token = "token="@;
    let one = redacted(s, bearer);
    let two = redacted(one, key);
    assert(token[4] != key[2]);
    assert(bearer[0] != key[0] && bearer[0] != token[0] && key[0] != token[0]);
    assert forall|i: int| 1 <= i < bearer.len() implies #[trigger] differs(bearer, bearer, i) by {
        assert(bearer[i + 0] != bearer[0]);
    }
    assert forall|i: int| 1 <= i < key.len() implies #[trigger] differs(key, key, i) by {
        assert(key[i + 0] != key[0]);
    }
    assert forall|i: int| 1 <= i < token.len() implies #[trigger] differs(token, token, i) by {
        assert(token[i + 0] != token[0]);
    }
    assert forall|i: int| 1 <= i < key.len() implies #[trigger] differs(key, bearer, i) by {
        assert(key[i + 0] != bearer[0]);
    }
    assert forall|i: int| 1 <= i < token.len() implies #[trigger] differs(token, bearer, i) by {
        assert(token[i + 0] != bearer[0]);
    }
    assert forall|i: int| 1 <= i < token.len() implies #[trigger] differs(token, key, i) by {
        if i == 2 {
            assert(token[i + 2] != key[2]);
        } else {
            assert(token[i + 0] != key[0]);
        }
    }
    redaction_keeps(s, bearer, bearer);
    redaction_keeps(one, bearer, key);
    redaction_keeps(one, key, key);
    redaction_keeps(two, bearer, token);
    redaction_keeps(two, key, token);
    redaction_keeps(two, token, token);
}

} // verus!
