//! The role-marker law: text that opens with "System: " comes out opening
//! with "[System]" and holding no "System:", at any budget of 8 or more.

use vstd::prelude::*;
use crate::sanitizer::{escape_role_markers, neutralized, sanitized_text};
use crate::text::{
    collapse_newlines, collapse_prefix, excess_newline, has_substring, last_space,
    lemma_last_space_range, occurs_at, replace_all,
};

verus! {

/// An occurrence of `q` cannot start inside `t` in `t + y` when the last
/// character of `q` is not in `t` and the last of `t` is not in `q`.
pub proof fn lemma_no_straddle(t: Seq<char>, y: Seq<char>, q: Seq<char>, i: int)
    requires
        t.len() > 0,
        q.len() > 0,
        !t.contains(q.last()),
        !q.contains(t.last()),
        0 <= i < t.len(),
    ensures
        !occurs_at(t + y, q, i),
{
    let s = t + y;
    if occurs_at(s, q, i) {
        let e = i + q.len() - 1;
        assert(s.subrange(i, i + q.len())[q.len() - 1] == s[e]);
        if e < t.len() {
            assert(t[e] == q.last());
        } else {
            let k = t.len() - 1 - i;
            assert(s.subrange(i, i + q.len())[k] == s[t.len() - 1]);
            assert(q[k] == t.last());
        }
    }
}

/// A prefix of `[x] + rd` is `x` followed by a prefix of `rd`.
proof fn lemma_prefix_step(x: char, rd: Seq<char>, p: Seq<char>)
    requires
        p.len() > 0,
        occurs_at(seq![x] + rd, p, 0),
    ensures
        p[0] == x,
        occurs_at(rd, p.drop_first(), 0),
{
    let r = seq![x] + rd;
    assert(r.subrange(0, p.len() as int)[0] == r[0]);
    assert forall|k: int| 0 <= k < p.len() - 1 implies rd[k] == p.drop_first()[k] by {
        assert(r.subrange(0, p.len() as int)[k + 1] == r[k + 1]);
    }
    assert(rd.subrange(0, p.len() - 1) =~= p.drop_first());
}

/// `p` starts `s` when their first characters agree and the rest of `p`
/// starts the rest of `s`.
proof fn lemma_prefix_back(s: Seq<char>, p: Seq<char>)
    requires
        s.len() > 0,
        p.len() > 0,
        p[0] == s[0],
        occurs_at(s.drop_first(), p.drop_first(), 0),
    ensures
        occurs_at(s, p, 0),
{
    let d = s.drop_first();
    assert forall|k: int| 0 <= k < p.len() implies s.subrange(0, p.len() as int)[k] == p[k] by {
        if k > 0 {
            assert(d.subrange(0, p.len() - 1)[k - 1] == p.drop_first()[k - 1]);
        }
    }
    assert(s.subrange(0, p.len() as int) =~= p);
}

/// A prefix of a replaced text that holds no first character of the
/// replacement was a prefix of the text already.
pub proof fn lemma_replace_prefix_origin(s: Seq<char>, f: Seq<char>, t: Seq<char>, p: Seq<char>)
    requires
        f.len() > 0,
        t.len() > 0,
        !p.contains(t[0]),
        occurs_at(replace_all(s, f, t), p, 0),
    ensures
        occurs_at(s, p, 0),
    decreases s.len(),
{
    let r = replace_all(s, f, t);
    if p.len() == 0 {
        assert(s.subrange(0, 0) =~= p);
    } else if s.len() == 0 {
    } else if occurs_at(s, f, 0) {
        assert(r.subrange(0, p.len() as int)[0] == r[0]);
        assert(p[0] == t[0]);
    } else {
        let d = s.drop_first();
        let rd = replace_all(d, f, t);
        assert(r == seq![s[0]] + rd);
        lemma_prefix_step(s[0], rd, p);
        let p1 = p.drop_first();
        assert(!p1.contains(t[0])) by {
            if p1.contains(t[0]) {
                let k = choose|k: int| 0 <= k < p1.len() && p1[k] == t[0];
                assert(p[k + 1] == t[0]);
            }
        }
        lemma_replace_prefix_origin(d, f, t, p1);
        lemma_prefix_back(s, p);
    }
}

/// Replacing creates no occurrence of `q` when the replacement begins and
/// ends with characters not in `q` and does not hold the last one of `q`.
pub proof fn lemma_replace_no_new(s: Seq<char>, f: Seq<char>, t: Seq<char>, q: Seq<char>)
    requires
        f.len() > 0,
        t.len() > 0,
        q.len() > 0,
        !t.contains(q.last()),
        !q.contains(t.last()),
        !q.contains(t[0]),
        has_substring(replace_all(s, f, t), q),
    ensures
        has_substring(s, q),
    decreases s.len(),
{
    let r = replace_all(s, f, t);
    let i = choose|i: int| occurs_at(r, q, i);
    if s.len() == 0 {
    } else if occurs_at(s, f, 0) {
        let rest = s.subrange(f.len() as int, s.len() as int);
        let rr = replace_all(rest, f, t);
        assert(r == t + rr);
        if i < t.len() {
            lemma_no_straddle(t, rr, q, i);
        } else {
            assert(rr.subrange(i - t.len(), i - t.len() + q.len()) =~= r.subrange(i, i + q.len()));
            assert(occurs_at(rr, q, i - t.len()));
            lemma_replace_no_new(rest, f, t, q);
            let j = choose|j: int| occurs_at(rest, q, j);
            assert(s.subrange(j + f.len(), j + f.len() + q.len()) =~= rest.subrange(j, j + q.len()));
            assert(occurs_at(s, q, j + f.len()));
        }
    } else {
        let d = s.drop_first();
        let rd = replace_all(d, f, t);
        assert(r == seq![s[0]] + rd);
        if i == 0 {
            let q1 = q.drop_first();
            lemma_prefix_step(s[0], rd, q);
            assert(!q1.contains(t[0])) by {
                if q1.contains(t[0]) {
                    let k = choose|k: int| 0 <= k < q1.len() && q1[k] == t[0];
                    assert(q[k + 1] == t[0]);
                }
            }
            lemma_replace_prefix_origin(d, f, t, q1);
            lemma_prefix_back(s, q);
            assert(occurs_at(s, q, 0));
        } else {
            assert(rd.subrange(i - 1, i - 1 + q.len()) =~= r.subrange(i, i + q.len()));
            assert(occurs_at(rd, q, i - 1));
            lemma_replace_no_new(d, f, t, q);
            let j = choose|j: int| occurs_at(d, q, j);
            assert(s.subrange(j + 1, j + 1 + q.len()) =~= d.subrange(j, j + q.len()));
            assert(occurs_at(s, q, j + 1));
        }
    }
}

/// After replacing `f`, no occurrence of `f` is left, when `f` cannot
/// straddle the replacement's ends.
pub proof fn lemma_replace_removes(s: Seq<char>, f: Seq<char>, t: Seq<char>)
    requires
        f.len() > 0,
        t.len() > 0,
        !t.contains(f.last()),
        !f.contains(t.last()),
        !f.contains(t[0]),
    ensures
        !has_substring(replace_all(s, f, t), f),
    decreases s.len(),
{
    let r = replace_all(s, f, t);
    if has_substring(r, f) {
        let i = choose|i: int| occurs_at(r, f, i);
        if s.len() == 0 {
        } else if occurs_at(s, f, 0) {
            let rest = s.subrange(f.len() as int, s.len() as int);
            let rr = replace_all(rest, f, t);
            assert(r == t + rr);
            if i < t.len() {
                lemma_no_straddle(t, rr, f, i);
            } else {
                assert(rr.subrange(i - t.len(), i - t.len() + f.len()) =~= r.subrange(i, i + f.len()));
                assert(occurs_at(rr, f, i - t.len()));
                lemma_replace_removes(rest, f, t);
            }
        } else {
            let d = s.drop_first();
            let rd = replace_all(d, f, t);
            assert(r == seq![s[0]] + rd);
            if i == 0 {
                let f1 = f.drop_first();
                lemma_prefix_step(s[0], rd, f);
                assert(!f1.contains(t[0])) by {
                    if f1.contains(t[0]) {
                        let k = choose|k: int| 0 <= k < f1.len() && f1[k] == t[0];
                        assert(f[k + 1] == t[0]);
                    }
                }
                lemma_replace_prefix_origin(d, f, t, f1);
                lemma_prefix_back(s, f);
            } else {
                assert(rd.subrange(i - 1, i - 1 + f.len()) =~= r.subrange(i, i + f.len()));
                assert(occurs_at(rd, f, i - 1));
                lemma_replace_removes(d, f, t);
            }
        }
    }
}

/// Replacing leaves the first `n` characters alone when no occurrence
/// starts among them.
pub proof fn lemma_replace_skip(s: Seq<char>, n: int, f: Seq<char>, t: Seq<char>)
    requires
        0 <= n <= s.len(),
        f.len() > 0,
        forall|i: int| 0 <= i < n ==> !occurs_at(s, f, i),
    ensures
        replace_all(s, f, t) == s.take(n) + replace_all(s.skip(n), f, t),
    decreases n,
{
    if n == 0 {
        assert(s.skip(0) =~= s);
        assert(s.take(0) + replace_all(s, f, t) =~= replace_all(s, f, t));
    } else {
        assert(!occurs_at(s, f, 0));
        let d = s.drop_first();
        assert forall|i: int| 0 <= i < n - 1 implies !occurs_at(d, f, i) by {
            if occurs_at(d, f, i) {
                assert(s.subrange(i + 1, i + 1 + f.len()) =~= d.subrange(i, i + f.len()));
                assert(occurs_at(s, f, i + 1));
            }
        }
        lemma_replace_skip(d, n - 1, f, t);
        assert(d.skip(n - 1) =~= s.skip(n));
        assert(seq![s[0]] + d.take(n - 1) =~= s.take(n));
        assert(seq![s[0]] + (d.take(n - 1) + replace_all(s.skip(n), f, t)) =~= s.take(n)
            + replace_all(s.skip(n), f, t));
    }
}

/// Shortening blank-line runs up to a newline leaves a newline last.
pub proof fn lemma_collapse_ends_newline(s: Seq<char>, n: int)
    requires
        1 <= n <= s.len(),
        s[n - 1] == '\n',
    ensures
        collapse_prefix(s, n).len() > 0,
        collapse_prefix(s, n).last() == '\n',
    decreases n,
{
    if excess_newline(s, n - 1) {
        lemma_collapse_ends_newline(s, n - 1);
    }
}

/// The last `k` characters of a shortened prefix, when none is a newline,
/// are the last `k` characters of the prefix itself.
pub proof fn lemma_collapse_tail(s: Seq<char>, n: int, k: int)
    requires
        0 <= n <= s.len(),
        0 <= k <= collapse_prefix(s, n).len(),
        forall|j: int|
            collapse_prefix(s, n).len() - k <= j < collapse_prefix(s, n).len() ==> collapse_prefix(
                s,
                n,
            )[j] != '\n',
    ensures
        k <= n,
        collapse_prefix(s, n).subrange(collapse_prefix(s, n).len() - k, collapse_prefix(s, n).len() as int)
            == s.subrange(n - k, n),
    decreases n,
{
    let c = collapse_prefix(s, n);
    if k == 0 {
        assert(c.subrange(c.len() as int, c.len() as int) =~= s.subrange(n, n));
    } else {
        assert(n > 0);
        if excess_newline(s, n - 1) {
            lemma_collapse_ends_newline(s, n);
        } else {
            let c1 = collapse_prefix(s, n - 1);
            assert(c == c1.push(s[n - 1]));
            assert forall|j: int| c1.len() - (k - 1) <= j < c1.len() implies c1[j] != '\n' by {
                assert(c[j] == c1[j]);
            }
            lemma_collapse_tail(s, n - 1, k - 1);
            assert(c.subrange(c.len() - k, c.len() as int) =~= c1.subrange(
                c1.len() - (k - 1),
                c1.len() as int,
            ).push(s[n - 1]));
            assert(s.subrange(n - k, n) =~= s.subrange(n - k, n - 1).push(s[n - 1]));
        }
    }
}

/// Shortening blank-line runs creates no occurrence of a sequence without
/// newlines.
pub proof fn lemma_collapse_no_new(s: Seq<char>, n: int, q: Seq<char>)
    requires
        0 <= n <= s.len(),
        q.len() > 0,
        forall|k: int| 0 <= k < q.len() ==> q[k] != '\n',
        has_substring(collapse_prefix(s, n), q),
    ensures
        has_substring(s.take(n), q),
    decreases n,
{
    let c = collapse_prefix(s, n);
    let i = choose|i: int| occurs_at(c, q, i);
    if n == 0 {
    } else {
        let c1 = collapse_prefix(s, n - 1);
        if excess_newline(s, n - 1) || i + q.len() < c.len() {
            if !excess_newline(s, n - 1) {
                assert(c == c1.push(s[n - 1]));
                assert(c1.subrange(i, i + q.len()) =~= c.subrange(i, i + q.len()));
            }
            assert(occurs_at(c1, q, i));
            lemma_collapse_no_new(s, n - 1, q);
            let t1 = s.take(n - 1);
            let j = choose|j: int| occurs_at(t1, q, j);
            assert(s.take(n).subrange(j, j + q.len()) =~= t1.subrange(j, j + q.len()));
            assert(occurs_at(s.take(n), q, j));
        } else {
            assert forall|j: int| c.len() - q.len() <= j < c.len() implies c[j] != '\n' by {
                assert(c.subrange(i, i + q.len())[j - i] == c[j]);
            }
            lemma_collapse_tail(s, n, q.len() as int);
            assert(c.subrange(i, i + q.len()) == s.subrange(n - q.len(), n as int));
            assert(s.take(n).subrange(n - q.len(), n as int) =~= s.subrange(n - q.len(), n as int));
            assert(occurs_at(s.take(n), q, n - q.len()));
        }
    }
}

/// A shorter prefix shortens to a prefix of what a longer one shortens to.
pub proof fn lemma_collapse_grows(s: Seq<char>, m: int, n: int)
    requires
        0 <= m <= n <= s.len(),
    ensures
        collapse_prefix(s, m).len() <= collapse_prefix(s, n).len(),
        collapse_prefix(s, n).take(collapse_prefix(s, m).len() as int) == collapse_prefix(s, m),
    decreases n,
{
    let cm = collapse_prefix(s, m);
    if n == m {
        assert(cm.take(cm.len() as int) =~= cm);
    } else {
        lemma_collapse_grows(s, m, n - 1);
        let c1 = collapse_prefix(s, n - 1);
        if !excess_newline(s, n - 1) {
            assert(c1.push(s[n - 1]).take(cm.len() as int) =~= c1.take(cm.len() as int));
        }
    }
}

/// A prefix without newlines is kept as it is.
pub proof fn lemma_collapse_keeps_start(s: Seq<char>, k: int)
    requires
        0 <= k <= s.len(),
        forall|j: int| 0 <= j < k ==> s[j] != '\n',
    ensures
        collapse_prefix(s, k) == s.take(k),
    decreases k,
{
    if k == 0 {
        assert(s.take(0) =~= Seq::<char>::empty());
    } else {
        lemma_collapse_keeps_start(s, k - 1);
        assert(s.take(k - 1).push(s[k - 1]) =~= s.take(k));
    }
}


/// Replacing one role marker keeps a leading "[System]" and brings in no
/// "System:".
proof fn lemma_marker_step(y: Seq<char>, f: Seq<char>, t: Seq<char>)
    requires
        f.len() > 0,
        f.last() == ':',
        !f.contains(']'),
        t.len() > 0,
        t[0] == '[',
        t.last() == ']',
        !t.contains(':'),
        !has_substring("[System]"@ + y, "System:"@),
    ensures
        replace_all("[System]"@ + y, f, t) == "[System]"@ + replace_all(y, f, t),
        !has_substring(replace_all("[System]"@ + y, f, t), "System:"@),
{
    reveal_strlit("[System]");
    reveal_strlit("System:");
    let a = "[System]"@;
    let q = "System:"@;
    let s = a + y;
    assert(!a.contains(':')) by {
        assert(forall|i: int| 0 <= i < a.len() ==> a[i] != ':');
    }
    assert forall|i: int| 0 <= i < 8 implies !occurs_at(s, f, i) by {
        lemma_no_straddle(a, y, f, i);
    }
    lemma_replace_skip(s, 8, f, t);
    assert(s.take(8) =~= a);
    assert(s.skip(8) =~= y);
    assert(!q.contains(']') && !q.contains('[')) by {
        assert(forall|i: int| 0 <= i < q.len() ==> q[i] != ']' && q[i] != '[');
    }
    if has_substring(replace_all(s, f, t), q) {
        lemma_replace_no_new(s, f, t, q);
    }
}

/// Text that opens with "System: " comes out of the sanitiser opening with
/// "[System]" and holding no "System:", whatever follows and at any budget
/// of at least 8 characters.
pub proof fn lemma_system_marker_bracketed(tail: Seq<char>, max: int)
    requires
        max >= 8,
    ensures
        occurs_at(sanitized_text("System: "@ + tail, max), "[System]"@, 0),
        !has_substring(sanitized_text("System: "@ + tail, max), "System:"@),
{
    reveal_strlit("System: ");
    reveal_strlit("System:");
    reveal_strlit("[System]");
    reveal_strlit("system:");
    reveal_strlit("[system]");
    reveal_strlit("Bot:");
    reveal_strlit("[Bot]");
    reveal_strlit("User:");
    reveal_strlit("[User]");
    reveal_strlit("Assistant:");
    reveal_strlit("[Assistant]");
    reveal_strlit("Human:");
    reveal_strlit("[Human]");
    let a = "[System]"@;
    let q = "System:"@;
    let s = "System: "@ + tail;
    assert(s.subrange(0, 7) =~= q);
    assert(occurs_at(s, q, 0));
    let y1 = replace_all(s.subrange(7, s.len() as int), q, a);
    assert(replace_all(s, q, a) == a + y1);
    assert(!a.contains(':') && !q.contains(']') && !q.contains('[')) by {
        assert(forall|i: int| 0 <= i < a.len() ==> a[i] != ':');
        assert(forall|i: int| 0 <= i < q.len() ==> q[i] != ']' && q[i] != '[');
    }
    lemma_replace_removes(s, q, a);
    assert(!"system:"@.contains(']') && !"[system]"@.contains(':')) by {
        assert(forall|i: int| 0 <= i < 7 ==> "system:"@[i] != ']');
        assert(forall|i: int| 0 <= i < 8 ==> "[system]"@[i] != ':');
    }
    lemma_marker_step(y1, "system:"@, "[system]"@);
    let y2 = replace_all(y1, "system:"@, "[system]"@);
    assert(!"Bot:"@.contains(']') && !"[Bot]"@.contains(':')) by {
        assert(forall|i: int| 0 <= i < 4 ==> "Bot:"@[i] != ']');
        assert(forall|i: int| 0 <= i < 5 ==> "[Bot]"@[i] != ':');
    }
    lemma_marker_step(y2, "Bot:"@, "[Bot]"@);
    let y3 = replace_all(y2, "Bot:"@, "[Bot]"@);
    assert(!"User:"@.contains(']') && !"[User]"@.contains(':')) by {
        assert(forall|i: int| 0 <= i < 5 ==> "User:"@[i] != ']');
        assert(forall|i: int| 0 <= i < 6 ==> "[User]"@[i] != ':');
    }
    lemma_marker_step(y3, "User:"@, "[User]"@);
    let y4 = replace_all(y3, "User:"@, "[User]"@);
    assert(!"Assistant:"@.contains(']') && !"[Assistant]"@.contains(':')) by {
        assert(forall|i: int| 0 <= i < 10 ==> "Assistant:"@[i] != ']');
        assert(forall|i: int| 0 <= i < 11 ==> "[Assistant]"@[i] != ':');
    }
    lemma_marker_step(y4, "Assistant:"@, "[Assistant]"@);
    let y5 = replace_all(y4, "Assistant:"@, "[Assistant]"@);
    assert(!"Human:"@.contains(']') && !"[Human]"@.contains(':')) by {
        assert(forall|i: int| 0 <= i < 6 ==> "Human:"@[i] != ']');
        assert(forall|i: int| 0 <= i < 7 ==> "[Human]"@[i] != ':');
    }
    lemma_marker_step(y5, "Human:"@, "[Human]"@);
    let y6 = replace_all(y5, "Human:"@, "[Human]"@);
    let n = a + y6;
    assert(escape_role_markers(s) == n);
    assert(!has_substring(n, q));
    assert(forall|j: int| 0 <= j < 8 ==> n[j] != '\n');
    lemma_collapse_keeps_start(n, 8);
    assert(n.take(8) =~= a);
    lemma_collapse_grows(n, 8, n.len() as int);
    let c = collapse_newlines(n);
    assert(c.take(8) == a);
    assert(c.subrange(0, 8) =~= c.take(8));
    assert(!has_substring(c, q)) by {
        if has_substring(c, q) {
            assert(forall|k: int| 0 <= k < q.len() ==> q[k] != '\n');
            lemma_collapse_no_new(n, n.len() as int, q);
            assert(n.take(n.len() as int) =~= n);
        }
    }
    assert(neutralized(s) == c);
    if c.len() > max {
        let cut = c.take(max);
        let p = last_space(cut);
        lemma_last_space_range(cut);
        let back = p >= 0 && p >= max - 50;
        if back {
            assert(p >= 8) by {
                if p < 8 {
                    assert(cut[p] == c[p]);
                    assert(c.take(8)[p] == c[p]);
                }
            }
        }
        let m = if back {
            p
        } else {
            max
        };
        let kept = c.take(m);
        assert(kept =~= (if back {
            cut.take(p)
        } else {
            cut
        }));
        let out = kept + seq!['.', '.', '.'];
        assert(sanitized_text(s, max) == out);
        assert(out.subrange(0, 8) =~= a) by {
            assert forall|k: int| 0 <= k < 8 implies out[k] == a[k] by {
                assert(c.take(8)[k] == c[k]);
            }
        }
        if has_substring(out, q) {
            let i = choose|i: int| occurs_at(out, q, i);
            if i + 7 <= m {
                assert(c.subrange(i, i + 7) =~= out.subrange(i, i + 7));
                assert(occurs_at(c, q, i));
            } else {
                assert(out.subrange(i, i + 7)[6] == out[i + 6]);
            }
        }
    }
}

} // verus!
