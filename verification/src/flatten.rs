//! Mixed-content text flattening.
//!
//! A mixed-content node interleaves plain text runs with inline formatting
//! children (italic, bold, superscript, subscript) that may nest arbitrarily,
//! and opaque mathematical notation.  [`flatten`] recovers the plain text:
//! formatting is unwrapped uniformly at every nesting depth, mathematical
//! notation contributes nothing, each top-level segment is trimmed of the
//! structural whitespace that documents place around inline markup, and the
//! non-empty pieces are joined with single spaces.  Flattening is total: every
//! tree yields a string.
//!
//! Whitespace here is the Unicode white-space set, so a segment padded with
//! a no-break or typographic space trims the same as one padded with plain
//! spaces.

use vstd::prelude::*;
use vstd::string::*;

verus! {

/// One segment of a mixed-content node: a text run, a formatting wrapper
/// around further segments, or opaque mathematical notation.
#[derive(Debug)]
pub enum Segment {
    Text(String),
    Italic(Vec<Segment>),
    Bold(Vec<Segment>),
    Superscript(Vec<Segment>),
    Subscript(Vec<Segment>),
    Math,
}

/// A mixed-content node: the sequence of segments of one text field.
#[derive(Debug)]
pub struct MixedContentNode {
    pub segments: Vec<Segment>,
}

/// Whitespace: the characters with the Unicode white-space property.
pub open spec fn is_space(c: char) -> bool {
    ||| c == ' '
    ||| ('\u{0009}' <= c && c <= '\u{000D}')
    ||| c == '\u{0085}'
    ||| c == '\u{00A0}'
    ||| c == '\u{1680}'
    ||| ('\u{2000}' <= c && c <= '\u{200A}')
    ||| c == '\u{2028}'
    ||| c == '\u{2029}'
    ||| c == '\u{202F}'
    ||| c == '\u{205F}'
    ||| c == '\u{3000}'
}

/// The raw text inside one segment: text runs verbatim, formatting unwrapped
/// recursively, mathematical notation empty.
pub open spec fn seg_text(seg: Segment) -> Seq<char>
    decreases seg,
{
    match seg {
        Segment::Text(s) => s@,
        Segment::Italic(subs) => segs_text(subs@),
        Segment::Bold(subs) => segs_text(subs@),
        Segment::Superscript(subs) => segs_text(subs@),
        Segment::Subscript(subs) => segs_text(subs@),
        Segment::Math => Seq::empty(),
    }
}

/// The raw text of a sequence of segments, concatenated.
pub open spec fn segs_text(segs: Seq<Segment>) -> Seq<char>
    decreases segs,
{
    if segs.len() == 0 {
        Seq::empty()
    } else {
        seg_text(segs[0]) + segs_text(segs.drop_first())
    }
}

/// Leading structural whitespace removed.
pub open spec fn trim_start(s: Seq<char>) -> Seq<char>
    decreases s.len(),
{
    if s.len() == 0 {
        s
    } else if is_space(s[0]) {
        trim_start(s.drop_first())
    } else {
        s
    }
}

/// Trailing structural whitespace removed.
pub open spec fn trim_end(s: Seq<char>) -> Seq<char>
    decreases s.len(),
{
    if s.len() == 0 {
        s
    } else if is_space(s.last()) {
        trim_end(s.drop_last())
    } else {
        s
    }
}

/// Leading and trailing structural whitespace removed.
pub open spec fn trimmed(s: Seq<char>) -> Seq<char> {
    trim_end(trim_start(s))
}

/// The non-empty parts joined with a single space between neighbours.
pub open spec fn join_nonempty(parts: Seq<Seq<char>>) -> Seq<char>
    decreases parts.len(),
{
    if parts.len() == 0 {
        Seq::empty()
    } else {
        let head = parts[0];
        let rest = join_nonempty(parts.drop_first());
        if head.len() == 0 {
            rest
        } else if rest.len() == 0 {
            head
        } else {
            head + seq![' '] + rest
        }
    }
}

/// What flattening a mixed-content node yields: each top-level segment's raw
/// text trimmed, the non-empty results joined with single spaces.
pub open spec fn flattened(segs: Seq<Segment>) -> Seq<char> {
    join_nonempty(segs.map_values(|s: Segment| trimmed(seg_text(s))))
}

/// Whether `c` has the Unicode white-space property.
fn is_space_char(c: char) -> (r: bool)
    ensures
        r == is_space(c),
{
    c == ' ' || ('\u{0009}' <= c && c <= '\u{000D}') || c == '\u{0085}' || c == '\u{00A0}'
        || c == '\u{1680}' || ('\u{2000}' <= c && c <= '\u{200A}') || c == '\u{2028}'
        || c == '\u{2029}' || c == '\u{202F}' || c == '\u{205F}' || c == '\u{3000}'
}

/// The window of `s` that remains once whitespace is dropped from both ends.
pub fn trim(s: &str) -> (r: &str)
    ensures
        r@ == trimmed(s@),
{
    let n = s.unicode_len();
    let mut lo: usize = 0;
    proof {
        assert(s@.skip(0) =~= s@);
    }
    while lo < n && is_space_char(s.get_char(lo))
        invariant
            lo <= n,
            n == s@.len(),
            trim_start(s@) == trim_start(s@.skip(lo as int)),
        decreases n - lo,
    {
        proof {
            assert(s@.skip(lo as int)[0] == s@[lo as int]);
            assert(s@.skip(lo as int).drop_first() =~= s@.skip(lo as int + 1));
        }
        lo = lo + 1;
    }
    proof {
        if lo == n {
            assert(s@.skip(lo as int) =~= Seq::<char>::empty());
        }
        assert(trim_start(s@) == s@.skip(lo as int));
    }
    let mut hi: usize = n;
    while hi > lo && is_space_char(s.get_char(hi - 1))
        invariant
            lo <= hi <= n,
            n == s@.len(),
            trim_start(s@) == s@.skip(lo as int),
            trim_end(s@.skip(lo as int)) == trim_end(s@.subrange(lo as int, hi as int)),
        decreases hi,
    {
        proof {
            let w = s@.subrange(lo as int, hi as int);
            assert(w.last() == s@[hi - 1]);
            assert(w.drop_last() =~= s@.subrange(lo as int, hi as int - 1));
        }
        hi = hi - 1;
    }
    proof {
        let w = s@.subrange(lo as int, hi as int);
        if hi == lo {
            assert(w =~= Seq::<char>::empty());
        }
        assert(trim_end(w) == w);
        assert(trimmed(s@) == s@.subrange(lo as int, hi as int));
    }
    s.substring_char(lo, hi)
}

/// The raw text inside one segment.
fn segment_text(seg: &Segment) -> (r: String)
    ensures
        r@ == seg_text(*seg),
    decreases *seg,
{
    match seg {
        Segment::Text(s) => s.clone(),
        Segment::Italic(subs) => subtree_text(subs),
        Segment::Bold(subs) => subtree_text(subs),
        Segment::Superscript(subs) => subtree_text(subs),
        Segment::Subscript(subs) => subtree_text(subs),
        Segment::Math => String::new(),
    }
}

/// The raw text of a sequence of segments, concatenated.
fn subtree_text(segs: &Vec<Segment>) -> (r: String)
    ensures
        r@ == segs_text(segs@),
    decreases segs@,
{
    let mut out = String::new();
    let mut i: usize = 0;
    while i < segs.len()
        invariant
            i <= segs@.len(),
            out@ == segs_text(segs@.take(i as int)),
        decreases segs@.len() - i,
    {
        let t = segment_text(&segs[i]);
        out.append(t.as_str());
        proof {
            lemma_segs_text_take_step(segs@, i as int);
        }
        i = i + 1;
    }
    proof {
        assert(segs@.take(segs@.len() as int) =~= segs@);
    }
    out
}

/// Collapse a mixed-content node into its plain text.  Total: every tree
/// yields a string, whatever shapes it nests.
pub fn flatten(node: &MixedContentNode) -> (r: String)
    ensures
        r@ == flattened(node.segments@),
{
    let ghost parts = node.segments@.map_values(|s: Segment| trimmed(seg_text(s)));
    let mut out = String::new();
    let mut i: usize = 0;
    let n = node.segments.len();
    proof {
        assert(node.segments@.take(0).map_values(|s: Segment| trimmed(seg_text(s))) =~= parts.take(
            0,
        ));
    }
    while i < n
        invariant
            i <= n,
            n == node.segments@.len(),
            parts == node.segments@.map_values(|s: Segment| trimmed(seg_text(s))),
            out@ == join_nonempty(parts.take(i as int)),
        decreases n - i,
    {
        let t = segment_text(&node.segments[i]);
        let piece = trim(t.as_str());
        proof {
            lemma_join_nonempty_push(parts.take(i as int), parts[i as int]);
            assert(parts.take(i as int).push(parts[i as int]) =~= parts.take(i as int + 1));
            reveal_strlit(" ");
            assert(" "@ =~= seq![' ']);
        }
        if !piece.is_empty() {
            if !out.as_str().is_empty() {
                out.append(" ");
            }
            out.append(piece);
        }
        i = i + 1;
    }
    proof {
        assert(parts.take(n as int) =~= parts);
    }
    out
}

/// Concatenated segment text splits over sequence concatenation.
proof fn lemma_segs_text_concat(a: Seq<Segment>, b: Seq<Segment>)
    ensures
        segs_text(a + b) == segs_text(a) + segs_text(b),
    decreases a.len(),
{
    if a.len() == 0 {
        assert(a + b =~= b);
        assert(segs_text(a) + segs_text(b) =~= segs_text(b));
    } else {
        assert((a + b).len() > 0);
        assert((a + b)[0] == a[0]);
        assert((a + b).drop_first() =~= a.drop_first() + b);
        lemma_segs_text_concat(a.drop_first(), b);
        assert(seg_text(a[0]) + (segs_text(a.drop_first()) + segs_text(b)) =~= (seg_text(a[0])
            + segs_text(a.drop_first())) + segs_text(b));
    }
}

/// One more segment extends the concatenated text by that segment's text.
proof fn lemma_segs_text_take_step(segs: Seq<Segment>, i: int)
    requires
        0 <= i < segs.len(),
    ensures
        segs_text(segs.take(i + 1)) == segs_text(segs.take(i)) + seg_text(segs[i]),
{
    let single = seq![segs[i]];
    assert(segs.take(i + 1) =~= segs.take(i) + single);
    lemma_segs_text_concat(segs.take(i), single);
    assert(single.drop_first() =~= Seq::<Segment>::empty());
    assert(single[0] == segs[i]);
    assert(segs_text(single.drop_first()) == Seq::<char>::empty());
    assert(segs_text(single) == seg_text(segs[i]) + Seq::<char>::empty());
    assert(seg_text(segs[i]) + Seq::<char>::empty() =~= seg_text(segs[i]));
}

/// Joining one more part appends it after a space unless it, or everything
/// before it, is empty.
proof fn lemma_join_nonempty_push(parts: Seq<Seq<char>>, p: Seq<char>)
    ensures
        join_nonempty(parts.push(p)) == (if p.len() == 0 {
            join_nonempty(parts)
        } else if join_nonempty(parts).len() == 0 {
            p
        } else {
            join_nonempty(parts) + seq![' '] + p
        }),
    decreases parts.len(),
{
    if parts.len() == 0 {
        assert(parts.push(p).drop_first() =~= Seq::<Seq<char>>::empty());
        assert(parts.push(p)[0] == p);
        assert(join_nonempty(parts.push(p).drop_first()) == Seq::<char>::empty());
        if p.len() == 0 {
            assert(join_nonempty(parts.push(p)) == join_nonempty(parts));
        } else {
            assert(join_nonempty(parts.push(p)) == p);
        }
    } else {
        let head = parts[0];
        let rest = join_nonempty(parts.drop_first());
        assert(parts.push(p)[0] == head);
        assert(parts.push(p).drop_first() =~= parts.drop_first().push(p));
        lemma_join_nonempty_push(parts.drop_first(), p);
        let inner = join_nonempty(parts.drop_first().push(p));
        assert(join_nonempty(parts.push(p)) == (if head.len() == 0 {
            inner
        } else if inner.len() == 0 {
            head
        } else {
            head + seq![' '] + inner
        }));
        if p.len() == 0 {
            assert(inner == rest);
        } else if rest.len() == 0 {
            assert(inner == p);
            if head.len() == 0 {
                assert(join_nonempty(parts) == rest);
                assert(join_nonempty(parts.push(p)) == p);
            } else {
                assert(join_nonempty(parts) == head);
                assert(join_nonempty(parts.push(p)) == head + seq![' '] + p);
            }
        } else {
            assert(inner == rest + seq![' '] + p);
            assert(inner.len() > 0);
            if head.len() == 0 {
                assert(join_nonempty(parts) == rest);
            } else {
                assert(join_nonempty(parts) == head + seq![' '] + rest);
                assert(head + seq![' '] + (rest + seq![' '] + p) =~= (head + seq![' '] + rest)
                    + seq![' '] + p);
                assert((head + seq![' '] + rest).len() > 0);
            }
        }
    }
}

} // verus!
