//! Lexical path resolution.
//!
//! A raw path is a byte string. Resolution joins a relative path onto its
//! origin directory and then normalizes the result purely lexically:
//! duplicate separators, `.` segments and `..` segments are collapsed
//! without ever consulting the filesystem. The model splits a path into
//! its separator-delimited segments, cleans the segment list with a stack,
//! and renders the cleaned segments back into bytes.

use vstd::prelude::*;

use crate::policy::{is_abs, Decision, decide_spec, SEP};

verus! {

/// The one-byte segment `.`: the current directory.
pub open spec fn dot_seg() -> Seq<u8> {
    seq![46u8]
}

/// The two-byte segment `..`: the parent directory.
pub open spec fn dotdot_seg() -> Seq<u8> {
    seq![46u8, 46u8]
}

/// The byte value of `.`.
pub const DOT: u8 = 46;

/// Whether a segment contains no separator byte.
pub open spec fn seg_no_sep(s: Seq<u8>) -> bool {
    forall|i: int| 0 <= i < s.len() ==> s[i] != SEP
}

/// The separator-delimited segments of a path; always at least one
/// (possibly empty) segment, as splitting the empty path gives one
/// empty segment.
pub open spec fn split_segs(p: Seq<u8>) -> Seq<Seq<u8>>
    decreases p.len(),
{
    if p.len() == 0 {
        seq![Seq::<u8>::empty()]
    } else if p[0] == SEP {
        seq![Seq::<u8>::empty()] + split_segs(p.skip(1))
    } else {
        let rest = split_segs(p.skip(1));
        seq![seq![p[0]] + rest[0]] + rest.skip(1)
    }
}

/// One step of segment cleaning: push a normal segment, drop an empty or
/// `.` segment, and let `..` remove the segment below it, disappear at the
/// root of an absolute path, or survive at the head of a relative path.
pub open spec fn clean_step(stack: Seq<Seq<u8>>, seg: Seq<u8>, abs: bool) -> Seq<Seq<u8>> {
    if seg.len() == 0 || seg == dot_seg() {
        stack
    } else if seg == dotdot_seg() {
        if stack.len() > 0 && stack.last() != dotdot_seg() {
            stack.drop_last()
        } else if abs {
            stack
        } else {
            stack.push(seg)
        }
    } else {
        stack.push(seg)
    }
}

/// Clean a list of segments onto an existing stack, left to right.
pub open spec fn clean_from(stack: Seq<Seq<u8>>, segs: Seq<Seq<u8>>, abs: bool) -> Seq<Seq<u8>>
    decreases segs.len(),
{
    if segs.len() == 0 {
        stack
    } else {
        clean_from(clean_step(stack, segs[0], abs), segs.skip(1), abs)
    }
}

/// Join segments with single separators; no leading or trailing separator.
pub open spec fn join_segs(segs: Seq<Seq<u8>>) -> Seq<u8>
    decreases segs.len(),
{
    if segs.len() == 0 {
        Seq::<u8>::empty()
    } else if segs.len() == 1 {
        segs[0]
    } else {
        segs[0] + seq![SEP] + join_segs(segs.skip(1))
    }
}

/// Render a cleaned segment list back into bytes. An absolute path keeps
/// its leading separator and collapses to the bare root when no segment is
/// left; a relative path that loses every segment becomes `.`.
pub open spec fn render_segs(abs: bool, segs: Seq<Seq<u8>>) -> Seq<u8> {
    if abs {
        if segs.len() == 0 {
            seq![SEP]
        } else {
            seq![SEP] + join_segs(segs)
        }
    } else {
        if segs.len() == 0 {
            dot_seg()
        } else {
            join_segs(segs)
        }
    }
}

/// Lexical normalization: split, clean, render.
pub open spec fn normalize_spec(p: Seq<u8>) -> Seq<u8> {
    render_segs(is_abs(p), clean_from(Seq::empty(), split_segs(p), is_abs(p)))
}

/// Resolution of a raw path against an origin directory: an absolute path
/// is only normalized and the origin is ignored; a relative path is joined
/// onto the origin first.
pub open spec fn resolve_spec(p: Seq<u8>, origin: Seq<u8>) -> Seq<u8> {
    if is_abs(p) {
        normalize_spec(p)
    } else {
        normalize_spec(origin + seq![SEP] + p)
    }
}

/// The views of a list of byte vectors.
pub open spec fn views(v: Seq<Vec<u8>>) -> Seq<Seq<u8>> {
    v.map_values(|x: Vec<u8>| x@)
}

/// Splitting yields at least one segment.
pub proof fn lemma_split_len(p: Seq<u8>)
    ensures
        split_segs(p).len() >= 1,
    decreases p.len(),
{
    if p.len() > 0 {
        lemma_split_len(p.skip(1));
    }
}

/// No segment of a split contains a separator.
pub proof fn lemma_split_no_sep(p: Seq<u8>)
    ensures
        forall|i: int| 0 <= i < split_segs(p).len() ==> seg_no_sep(#[trigger] split_segs(p)[i]),
    decreases p.len(),
{
    if p.len() > 0 {
        lemma_split_no_sep(p.skip(1));
        lemma_split_len(p.skip(1));
        if p[0] != SEP {
            let rest = split_segs(p.skip(1));
            assert(seg_no_sep(rest[0]));
            assert forall|i: int| 0 <= i < split_segs(p).len() implies seg_no_sep(
                #[trigger] split_segs(p)[i],
            ) by {
                if i == 0 {
                    assert(seg_no_sep(seq![p[0]] + rest[0]));
                } else {
                    assert(split_segs(p)[i] == rest.skip(1)[i - 1]);
                    assert(rest.skip(1)[i - 1] == rest[i]);
                }
            }
        }
    }
}

/// Joining distributes over concatenation of two non-empty segment lists.
pub proof fn lemma_join_concat(a: Seq<Seq<u8>>, b: Seq<Seq<u8>>)
    requires
        a.len() >= 1,
        b.len() >= 1,
    ensures
        join_segs(a + b) == join_segs(a) + seq![SEP] + join_segs(b),
    decreases a.len(),
{
    if a.len() == 1 {
        assert((a + b)[0] == a[0]);
        assert((a + b).skip(1) =~= b);
        if b.len() == 0 {
        } else {
            assert(join_segs(a + b) == (a + b)[0] + seq![SEP] + join_segs((a + b).skip(1)));
        }
    } else {
        assert((a + b).skip(1) =~= a.skip(1) + b);
        lemma_join_concat(a.skip(1), b);
        assert(join_segs(a + b) == (a + b)[0] + seq![SEP] + join_segs(a.skip(1) + b));
        assert(a[0] + seq![SEP] + (join_segs(a.skip(1)) + seq![SEP] + join_segs(b)) =~= (a[0]
            + seq![SEP] + join_segs(a.skip(1))) + seq![SEP] + join_segs(b));
    }
}

/// Joining one more segment appends a separator and the segment.
pub proof fn lemma_join_snoc(segs: Seq<Seq<u8>>, k: int)
    requires
        0 <= k < segs.len(),
    ensures
        k == 0 ==> join_segs(segs.take(1)) == segs[0],
        k > 0 ==> join_segs(segs.take(k + 1)) == join_segs(segs.take(k)) + seq![SEP] + segs[k],
{
    if k == 0 {
        assert(segs.take(1) =~= seq![segs[0]]);
    } else {
        assert(segs.take(k + 1) =~= segs.take(k) + seq![segs[k]]);
        lemma_join_concat(segs.take(k), seq![segs[k]]);
    }
}

/// A segment as it appears on a cleaned absolute stack: non-empty, not a
/// `.` or `..` marker, and free of separators.
pub open spec fn seg_ok(s: Seq<u8>) -> bool {
    s.len() > 0 && s != dot_seg() && s != dotdot_seg() && seg_no_sep(s)
}

/// Cleaning an absolute path leaves only well-formed segments on the stack.
pub proof fn lemma_clean_abs_ok(stack: Seq<Seq<u8>>, segs: Seq<Seq<u8>>)
    requires
        forall|i: int| 0 <= i < stack.len() ==> seg_ok(#[trigger] stack[i]),
        forall|i: int| 0 <= i < segs.len() ==> seg_no_sep(#[trigger] segs[i]),
    ensures
        forall|i: int|
            0 <= i < clean_from(stack, segs, true).len() ==> seg_ok(
                #[trigger] clean_from(stack, segs, true)[i],
            ),
    decreases segs.len(),
{
    if segs.len() == 0 {
        assert(clean_from(stack, segs, true) == stack);
    } else {
        let next = clean_step(stack, segs[0], true);
        assert(clean_from(stack, segs, true) == clean_from(next, segs.skip(1), true));
        assert forall|i: int| 0 <= i < next.len() implies seg_ok(#[trigger] next[i]) by {
            if segs[0].len() == 0 || segs[0] == dot_seg() {
            } else if segs[0] == dotdot_seg() {
                if stack.len() > 0 && stack.last() != dotdot_seg() {
                    assert(next[i] == stack[i]);
                }
            } else {
                if i < stack.len() {
                    assert(next[i] == stack[i]);
                } else {
                    assert(next[i] == segs[0]);
                    assert(seg_no_sep(segs[0]));
                }
            }
        }
        assert forall|i: int| 0 <= i < segs.skip(1).len() implies seg_no_sep(
            #[trigger] segs.skip(1)[i],
        ) by {
            assert(segs.skip(1)[i] == segs[i + 1]);
        }
        lemma_clean_abs_ok(next, segs.skip(1));
    }
}

/// Cleaning a list of well-formed segments only pushes them in order.
pub proof fn lemma_clean_all_push(stack: Seq<Seq<u8>>, segs: Seq<Seq<u8>>, abs: bool)
    requires
        forall|i: int| 0 <= i < segs.len() ==> seg_ok(#[trigger] segs[i]),
    ensures
        clean_from(stack, segs, abs) == stack + segs,
    decreases segs.len(),
{
    if segs.len() == 0 {
        assert(stack + segs =~= stack);
    } else {
        assert(seg_ok(segs[0]));
        assert(clean_step(stack, segs[0], abs) == stack.push(segs[0]));
        assert forall|i: int| 0 <= i < segs.skip(1).len() implies seg_ok(
            #[trigger] segs.skip(1)[i],
        ) by {
            assert(segs.skip(1)[i] == segs[i + 1]);
        }
        lemma_clean_all_push(stack.push(segs[0]), segs.skip(1), abs);
        assert(stack.push(segs[0]) + segs.skip(1) =~= stack + segs);
    }
}

/// A separator-free byte string splits into exactly itself.
pub proof fn lemma_split_single(s: Seq<u8>)
    requires
        seg_no_sep(s),
    ensures
        split_segs(s) == seq![s],
    decreases s.len(),
{
    if s.len() == 0 {
        assert(split_segs(s) =~~= seq![s]);
    } else {
        assert(s[0] != SEP);
        assert forall|i: int| 0 <= i < s.skip(1).len() implies s.skip(1)[i] != SEP by {
            assert(s.skip(1)[i] == s[i + 1]);
        }
        lemma_split_single(s.skip(1));
        let rest = split_segs(s.skip(1));
        assert(split_segs(s) == seq![seq![s[0]] + rest[0]] + rest.skip(1));
        assert(rest[0] == s.skip(1));
        assert(seq![s[0]] + s.skip(1) =~= s);
        assert(rest.skip(1) =~= Seq::<Seq<u8>>::empty());
        assert(split_segs(s).len() == 1);
        assert(split_segs(s)[0] == seq![s[0]] + rest[0]);
        assert(split_segs(s)[0] == s);
        assert(split_segs(s) =~~= seq![s]);
    }
}

/// Splitting after a leading separator-free prefix and one separator
/// peels off that prefix as the first segment.
pub proof fn lemma_split_sep(a: Seq<u8>, b: Seq<u8>)
    requires
        seg_no_sep(a),
    ensures
        split_segs(a + seq![SEP] + b) == seq![a] + split_segs(b),
    decreases a.len(),
{
    let p = a + seq![SEP] + b;
    if a.len() == 0 {
        assert(p[0] == SEP);
        assert(p.skip(1) =~= b);
        assert(split_segs(p) =~~= seq![a] + split_segs(b));
    } else {
        assert(p[0] == a[0]);
        assert(p[0] != SEP);
        assert forall|i: int| 0 <= i < a.skip(1).len() implies a.skip(1)[i] != SEP by {
            assert(a.skip(1)[i] == a[i + 1]);
        }
        assert(p.skip(1) =~= a.skip(1) + seq![SEP] + b);
        lemma_split_sep(a.skip(1), b);
        let rest = split_segs(p.skip(1));
        lemma_split_len(b);
        assert(split_segs(p) == seq![seq![p[0]] + rest[0]] + rest.skip(1));
        assert(rest == seq![a.skip(1)] + split_segs(b));
        assert(rest[0] == a.skip(1));
        assert(seq![a[0]] + a.skip(1) =~= a);
        assert(rest.skip(1) =~= split_segs(b));
        assert(split_segs(p).len() == 1 + split_segs(b).len());
        assert(split_segs(p)[0] == seq![p[0]] + rest[0]);
        assert(split_segs(p)[0] == a);
        assert forall|i: int| 1 <= i < split_segs(p).len() implies #[trigger] split_segs(p)[i]
            == split_segs(b)[i - 1] by {
            assert(split_segs(p)[i] == rest.skip(1)[i - 1]);
        }
        assert(split_segs(p) =~~= seq![a] + split_segs(b));
    }
}

/// Splitting a join of separator-free segments recovers the segments.
pub proof fn lemma_split_join(segs: Seq<Seq<u8>>)
    requires
        segs.len() >= 1,
        forall|i: int| 0 <= i < segs.len() ==> seg_no_sep(#[trigger] segs[i]),
    ensures
        split_segs(join_segs(segs)) == segs,
    decreases segs.len(),
{
    if segs.len() == 1 {
        lemma_split_single(segs[0]);
        assert(seq![segs[0]] =~= segs);
    } else {
        assert forall|i: int| 0 <= i < segs.skip(1).len() implies seg_no_sep(
            #[trigger] segs.skip(1)[i],
        ) by {
            assert(segs.skip(1)[i] == segs[i + 1]);
        }
        lemma_split_join(segs.skip(1));
        assert(join_segs(segs) == segs[0] + seq![SEP] + join_segs(segs.skip(1)));
        lemma_split_sep(segs[0], join_segs(segs.skip(1)));
        assert(seq![segs[0]] + segs.skip(1) =~= segs);
    }
}

/// Normalization always yields an absolute path when given an absolute
/// path.
pub proof fn lemma_normalize_abs(p: Seq<u8>)
    requires
        is_abs(p),
    ensures
        is_abs(normalize_spec(p)),
{
    let s = clean_from(Seq::empty(), split_segs(p), true);
    if s.len() == 0 {
    } else {
        assert((seq![SEP] + join_segs(s))[0] == SEP);
    }
}

/// Resolution always yields an absolute path when the origin is absolute.
pub proof fn lemma_resolve_abs(p: Seq<u8>, origin: Seq<u8>)
    requires
        is_abs(origin),
    ensures
        is_abs(resolve_spec(p, origin)),
{
    if is_abs(p) {
        lemma_normalize_abs(p);
    } else {
        let j = origin + seq![SEP] + p;
        assert(j[0] == origin[0]);
        lemma_normalize_abs(j);
    }
}

/// Normalization of an absolute path is idempotent: a path that is
/// already in normal form comes back unchanged.
pub proof fn lemma_normalize_idempotent(p: Seq<u8>)
    requires
        is_abs(p),
    ensures
        normalize_spec(normalize_spec(p)) == normalize_spec(p),
{
    lemma_split_no_sep(p);
    let s = clean_from(Seq::empty(), split_segs(p), true);
    lemma_clean_abs_ok(Seq::empty(), split_segs(p));
    let q = normalize_spec(p);
    lemma_normalize_abs(p);
    if s.len() == 0 {
        assert(q == seq![SEP]);
        assert(q[0] == SEP);
        assert(q.skip(1) =~= Seq::<u8>::empty());
        let inner = split_segs(q);
        assert(split_segs(Seq::<u8>::empty()) =~= seq![Seq::<u8>::empty()]);
        assert(inner == seq![Seq::<u8>::empty()] + seq![Seq::<u8>::empty()]);
        assert(inner[0] =~= Seq::<u8>::empty());
        assert(inner.skip(1) =~= seq![Seq::<u8>::empty()]);
        assert(inner.skip(1)[0] =~= Seq::<u8>::empty());
        assert(inner.skip(1).skip(1) =~= Seq::<Seq<u8>>::empty());
        let e = Seq::<Seq<u8>>::empty();
        assert(clean_step(e, inner[0], true) == e);
        assert(clean_from(e, inner, true) == clean_from(e, inner.skip(1), true));
        assert(clean_step(e, inner.skip(1)[0], true) == e);
        assert(clean_from(e, inner.skip(1), true) == clean_from(e, inner.skip(1).skip(1), true));
        assert(clean_from(e, inner.skip(1).skip(1), true) == e);
        assert(normalize_spec(q) == q);
    } else {
        assert(q == seq![SEP] + join_segs(s));
        assert(q[0] == SEP);
        assert(q.skip(1) =~= join_segs(s));
        assert forall|i: int| 0 <= i < s.len() implies seg_no_sep(#[trigger] s[i]) by {
            assert(seg_ok(s[i]));
        }
        lemma_split_join(s);
        assert(split_segs(q) == seq![Seq::<u8>::empty()] + split_segs(join_segs(s)));
        let inner = split_segs(q);
        assert(inner[0] =~= Seq::<u8>::empty());
        assert(inner.skip(1) =~= s);
        let e = Seq::<Seq<u8>>::empty();
        assert(clean_step(e, inner[0], true) == e);
        assert(clean_from(e, inner, true) == clean_from(e, inner.skip(1), true));
        lemma_clean_all_push(e, s, true);
        assert(clean_from(e, inner, true) == e + s);
        assert(Seq::<Seq<u8>>::empty() + s =~= s);
        assert(normalize_spec(q) == render_segs(true, s));
        assert(normalize_spec(q) == q);
    }
}

/// The shape of a normalized absolute path: it is the bare root, or a
/// leading separator followed by segments that are all real names:
/// non-empty, not `.`, not `..`, holding no separator — so there are no
/// duplicate separators either.
pub proof fn lemma_normalize_abs_shape(p: Seq<u8>)
    requires
        is_abs(p),
    ensures
        normalize_spec(p) == seq![SEP] || ({
            let segs = split_segs(normalize_spec(p));
            &&& segs.len() >= 2
            &&& segs[0] == Seq::<u8>::empty()
            &&& forall|i: int| 1 <= i < segs.len() ==> seg_ok(#[trigger] segs[i])
        }),
{
    lemma_split_no_sep(p);
    let s = clean_from(Seq::empty(), split_segs(p), true);
    lemma_clean_abs_ok(Seq::empty(), split_segs(p));
    if s.len() == 0 {
    } else {
        let q = normalize_spec(p);
        assert(q == seq![SEP] + join_segs(s));
        assert(q[0] == SEP);
        assert(q.skip(1) =~= join_segs(s));
        assert forall|i: int| 0 <= i < s.len() implies seg_no_sep(#[trigger] s[i]) by {
            assert(seg_ok(s[i]));
        }
        lemma_split_join(s);
        assert(split_segs(q) == seq![Seq::<u8>::empty()] + split_segs(join_segs(s)));
        let segs = split_segs(q);
        assert(segs[0] == Seq::<u8>::empty());
        assert forall|i: int| 1 <= i < segs.len() implies seg_ok(#[trigger] segs[i]) by {
            assert(segs[i] == s[i - 1]);
        }
    }
}

/// Resolving an already-normalized absolute path returns it unchanged,
/// whatever the origin.
pub proof fn lemma_resolve_normalized(p: Seq<u8>, origin: Seq<u8>)
    requires
        is_abs(p),
    ensures
        resolve_spec(normalize_spec(p), origin) == normalize_spec(p),
{
    lemma_normalize_abs(p);
    lemma_normalize_idempotent(p);
}

/// Every watched deletion request is blocked: whatever form its raw path
/// argument took, resolution against an absolute origin yields an
/// absolute path, and the policy blocks every absolute path.
pub proof fn lemma_watched_always_blocked(p: Seq<u8>, origin: Seq<u8>)
    requires
        is_abs(origin),
    ensures
        decide_spec(resolve_spec(p, origin)) == Decision::Block,
{
    lemma_resolve_abs(p, origin);
}

/// Whether a segment is exactly `.`.
fn seg_is_dot(s: &Vec<u8>) -> (r: bool)
    ensures
        r == (s@ == dot_seg()),
{
    if s.len() == 1 && s[0] == DOT {
        proof {
            assert(s@ =~= dot_seg());
        }
        true
    } else {
        proof {
            if s@ == dot_seg() {
                assert(s@.len() == 1);
                assert(s@[0] == DOT);
            }
        }
        false
    }
}

/// Whether a segment is exactly `..`.
fn seg_is_dotdot(s: &Vec<u8>) -> (r: bool)
    ensures
        r == (s@ == dotdot_seg()),
{
    if s.len() == 2 && s[0] == DOT && s[1] == DOT {
        proof {
            assert(s@ =~= dotdot_seg());
        }
        true
    } else {
        proof {
            if s@ == dotdot_seg() {
                assert(s@.len() == 2);
                assert(s@[0] == DOT && s@[1] == DOT);
            }
        }
        false
    }
}

/// Split a path into its separator-delimited segments.
fn split_bytes(p: &Vec<u8>) -> (r: Vec<Vec<u8>>)
    ensures
        views(r@) == split_segs(p@),
{
    let mut done: Vec<Vec<u8>> = Vec::new();
    let mut cur: Vec<u8> = Vec::new();
    let mut i: usize = 0;
    proof {
        lemma_split_len(p@);
        assert(p@.skip(0) =~= p@);
        assert(views(done@) + seq![cur@ + split_segs(p@)[0]] + split_segs(p@).skip(1) =~= split_segs(
            p@,
        ));
    }
    while i < p.len()
        invariant
            0 <= i <= p@.len(),
            split_segs(p@) == views(done@) + seq![cur@ + split_segs(p@.skip(i as int))[0]]
                + split_segs(p@.skip(i as int)).skip(1),
            split_segs(p@.skip(i as int)).len() >= 1,
        decreases p@.len() - i,
    {
        proof {
            assert(p@.skip(i as int)[0] == p@[i as int]);
            assert(p@.skip(i as int).skip(1) =~= p@.skip(i as int + 1));
            lemma_split_len(p@.skip(i as int + 1));
        }
        let ghost pre = split_segs(p@.skip(i as int));
        let ghost post = split_segs(p@.skip(i as int + 1));
        if p[i] == SEP {
            proof {
                assert(pre == seq![Seq::<u8>::empty()] + post);
                assert(pre[0] =~= Seq::<u8>::empty());
                assert(pre.skip(1) =~= post);
            }
            let ghost old_done = done@;
            let ghost old_cur = cur@;
            done.push(cur);
            cur = Vec::new();
            proof {
                assert(views(done@) =~= views(old_done).push(old_cur));
                assert(old_cur + pre[0] =~= old_cur);
                assert(views(old_done) + seq![old_cur + pre[0]] + pre.skip(1) =~= views(done@)
                    + seq![cur@ + post[0]] + post.skip(1));
            }
        } else {
            proof {
                assert(pre == seq![seq![p@[i as int]] + post[0]] + post.skip(1));
                assert(pre[0] == seq![p@[i as int]] + post[0]);
                assert(pre.skip(1) =~= post.skip(1));
            }
            let ghost old_cur = cur@;
            let b = p[i];
            cur.push(b);
            proof {
                assert(cur@ =~= old_cur.push(p@[i as int]));
                assert(old_cur + (seq![p@[i as int]] + post[0]) =~= cur@ + post[0]);
            }
        }
        i = i + 1;
    }
    proof {
        assert(p@.skip(p@.len() as int) =~= Seq::<u8>::empty());
        let last = split_segs(Seq::<u8>::empty());
        assert(last =~= seq![Seq::<u8>::empty()]);
        assert(last[0] =~= Seq::<u8>::empty());
        assert(cur@ + last[0] =~= cur@);
        assert(last.skip(1) =~= Seq::<Seq<u8>>::empty());
    }
    let ghost old_done = done@;
    let ghost old_cur = cur@;
    done.push(cur);
    proof {
        assert(views(done@) =~= views(old_done).push(old_cur));
        assert(views(old_done) + seq![old_cur] + Seq::<Seq<u8>>::empty() =~= views(done@));
    }
    done
}

/// Clean a segment list with a stack, left to right.
fn clean_segments(segs: &Vec<Vec<u8>>, abs: bool) -> (r: Vec<Vec<u8>>)
    ensures
        views(r@) == clean_from(Seq::empty(), views(segs@), abs),
{
    let mut stack: Vec<Vec<u8>> = Vec::new();
    let mut k: usize = 0;
    proof {
        assert(views(stack@) =~= Seq::<Seq<u8>>::empty());
        assert(views(segs@).skip(0) =~= views(segs@));
    }
    while k < segs.len()
        invariant
            0 <= k <= segs@.len(),
            clean_from(Seq::empty(), views(segs@), abs) == clean_from(
                views(stack@),
                views(segs@).skip(k as int),
                abs,
            ),
        decreases segs@.len() - k,
    {
        let ghost all = views(segs@);
        let ghost st = views(stack@);
        proof {
            assert(all.skip(k as int)[0] == all[k as int]);
            assert(all[k as int] == segs@[k as int]@);
            assert(all.skip(k as int).skip(1) =~= all.skip(k as int + 1));
            assert(clean_from(st, all.skip(k as int), abs) == clean_from(
                clean_step(st, all[k as int], abs),
                all.skip(k as int + 1),
                abs,
            ));
        }
        let seg = &segs[k];
        if seg.len() == 0 || seg_is_dot(seg) {
            proof {
                assert(clean_step(st, all[k as int], abs) == st);
            }
        } else if seg_is_dotdot(seg) {
            let can_pop = if stack.len() > 0 {
                !seg_is_dotdot(&stack[stack.len() - 1])
            } else {
                false
            };
            if can_pop {
                proof {
                    assert(st.last() == stack@[stack@.len() - 1]@);
                }
                let ghost old_stack = stack@;
                stack.pop();
                proof {
                    assert(stack@ =~= old_stack.drop_last());
                    assert(views(stack@) =~= views(old_stack).drop_last());
                    assert(clean_step(st, all[k as int], abs) =~= views(stack@));
                }
            } else if abs {
                proof {
                    assert(clean_step(st, all[k as int], abs) == st);
                }
            } else {
                let ghost old_stack = stack@;
                let copy = slice_to_vec(seg);
                stack.push(copy);
                proof {
                    assert(views(stack@) =~= views(old_stack).push(dotdot_seg()));
                    assert(clean_step(st, all[k as int], abs) =~= views(stack@));
                }
            }
        } else {
            let ghost old_stack = stack@;
            let copy = slice_to_vec(seg);
            stack.push(copy);
            proof {
                assert(views(stack@) =~= views(old_stack).push(all[k as int]));
                assert(clean_step(st, all[k as int], abs) =~= views(stack@));
            }
        }
        k = k + 1;
    }
    proof {
        assert(views(segs@).skip(segs@.len() as int) =~= Seq::<Seq<u8>>::empty());
    }
    stack
}

/// Copy a byte vector.
fn slice_to_vec(s: &Vec<u8>) -> (r: Vec<u8>)
    ensures
        r@ == s@,
{
    let mut r: Vec<u8> = Vec::new();
    r.extend_from_slice(s.as_slice());
    proof {
        assert(r@ =~= s@);
    }
    r
}

/// Render a cleaned segment list back into bytes.
fn render_path(abs: bool, segs: &Vec<Vec<u8>>) -> (r: Vec<u8>)
    ensures
        r@ == render_segs(abs, views(segs@)),
{
    let mut out: Vec<u8> = Vec::new();
    if abs {
        out.push(SEP);
    }
    if segs.len() == 0 {
        if !abs {
            out.push(DOT);
            proof {
                assert(out@ =~= dot_seg());
            }
        } else {
            proof {
                assert(out@ =~= seq![SEP]);
            }
        }
        return out;
    }
    let ghost head: Seq<u8> = if abs {
        seq![SEP]
    } else {
        Seq::<u8>::empty()
    };
    proof {
        assert(out@ =~= head);
        assert(views(segs@).take(0) =~= Seq::<Seq<u8>>::empty());
        assert(out@ =~= head + join_segs(views(segs@).take(0)));
    }
    let mut k: usize = 0;
    while k < segs.len()
        invariant
            0 <= k <= segs@.len(),
            segs@.len() >= 1,
            head == if abs {
                seq![SEP]
            } else {
                Seq::<u8>::empty()
            },
            out@ == head + join_segs(views(segs@).take(k as int)),
        decreases segs@.len() - k,
    {
        if k > 0 {
            out.push(SEP);
        }
        out.extend_from_slice(segs[k].as_slice());
        proof {
            let all = views(segs@);
            lemma_join_snoc(all, k as int);
            assert(all[k as int] == segs@[k as int]@);
            if k == 0 {
                assert(out@ =~= head + join_segs(all.take(1)));
            } else {
                assert(out@ =~= head + join_segs(all.take(k as int + 1)));
            }
        }
        k = k + 1;
    }
    proof {
        assert(views(segs@).take(segs@.len() as int) =~= views(segs@));
    }
    out
}

/// Normalize a path lexically.
pub fn normalize(p: &Vec<u8>) -> (r: Vec<u8>)
    ensures
        r@ == normalize_spec(p@),
{
    let abs = p.len() > 0 && p[0] == SEP;
    let segs = split_bytes(p);
    let cleaned = clean_segments(&segs, abs);
    render_path(abs, &cleaned)
}

/// Resolve a raw path against an absolute origin directory.
pub fn resolve(p: &Vec<u8>, origin: &Vec<u8>) -> (r: Vec<u8>)
    ensures
        r@ == resolve_spec(p@, origin@),
{
    if p.len() > 0 && p[0] == SEP {
        normalize(p)
    } else {
        let mut joined: Vec<u8> = Vec::new();
        joined.extend_from_slice(origin.as_slice());
        joined.push(SEP);
        joined.extend_from_slice(p.as_slice());
        proof {
            assert(joined@ =~= origin@ + seq![SEP] + p@);
        }
        normalize(&joined)
    }
}

} // verus!
