use vstd::prelude::*;
use vstd::string::StringSliceAdditionalSpecFns;

verus! {

/// A run of a shader's source text: `len` bytes from `start`, drawn in the
/// type color when `highlighted`.
#[derive(Clone, Copy, Debug, PartialEq, Eq, Structural)]
pub struct HighlightSpan {
    pub start: usize,
    pub len: usize,
    pub highlighted: bool,
}

/// The bytes of `vec3<f32>`.
pub open spec fn vec3_f32() -> Seq<u8> {
    seq![118u8, 101u8, 99u8, 51u8, 60u8, 102u8, 51u8, 50u8, 62u8]
}

/// The spans of `b` from byte `i` on: each occurrence of `vec3<f32>` met
/// while scanning left to right is one highlighted span, every other byte a
/// plain span of its own.
pub open spec fn spans_from(b: Seq<u8>, i: int) -> Seq<(int, int, bool)>
    decreases b.len() - i,
{
    if i < 0 || i >= b.len() {
        Seq::empty()
    } else if i + 9 <= b.len() && b.subrange(i, i + 9) == vec3_f32() {
        seq![(i, 9int, true)] + spans_from(b, i + 9)
    } else {
        seq![(i, 1int, false)] + spans_from(b, i + 1)
    }
}

pub open spec fn span_view(s: HighlightSpan) -> (int, int, bool) {
    (s.start as int, s.len as int, s.highlighted)
}

fn starts_with_vec3_f32(b: &[u8], i: usize) -> (r: bool)
    requires
        i <= b@.len(),
    ensures
        r == (i + 9 <= b@.len() && b@.subrange(i as int, i + 9) == vec3_f32()),
{
    if b.len() - i < 9 {
        return false;
    }
    let pat: [u8; 9] = [118u8, 101u8, 99u8, 51u8, 60u8, 102u8, 51u8, 50u8, 62u8];
    assert(pat@ == vec3_f32());
    let len = b.len();
    let mut k: usize = 0;
    while k < 9
        invariant
            len == b@.len(),
            i + 9 <= b@.len(),
            k <= 9,
            pat@ == vec3_f32(),
            forall|j: int| 0 <= j < k ==> b@[i + j] == pat@[j],
        decreases 9 - k,
    {
        if b[i + k] != pat[k] {
            assert(b@.subrange(i as int, i + 9)[k as int] != vec3_f32()[k as int]);
            return false;
        }
        k += 1;
    }
    assert(b@.subrange(i as int, i + 9) =~= vec3_f32());
    true
}

/// Split shader source into the runs to draw: `vec3<f32>` in the type color,
/// every other character plain. The text must be ASCII (a one-byte run must
/// fall on a character boundary).
pub fn shader_highlight_spans(text: &str) -> (r: Vec<HighlightSpan>)
    requires
        text.is_ascii(),
    ensures
        r@.map_values(|s: HighlightSpan| span_view(s)) == spans_from(text.spec_bytes(), 0),
        forall|j: int| 0 <= j < r.len() && holds_vec3_f32_at(text.spec_bytes(), (#[trigger] r@[j]).start as int)
            ==> r@[j].len == 9 && r@[j].highlighted,
{
    let b = text.as_bytes();
    let n = b.len();
    let mut res: Vec<HighlightSpan> = Vec::new();
    let mut i: usize = 0;
    while i < n
        invariant
            n == b@.len(),
            i <= n,
            res@.map_values(|s: HighlightSpan| span_view(s)) + spans_from(b@, i as int) == spans_from(b@, 0),
        decreases n - i,
    {
        let ghost before = res@;
        let skip: usize = if starts_with_vec3_f32(b, i) { 9 } else { 1 };
        res.push(HighlightSpan { start: i, len: skip, highlighted: skip == 9 });
        assert(res@.map_values(|s: HighlightSpan| span_view(s)) =~= before.map_values(|s: HighlightSpan| span_view(s)).push(
            (i as int, skip as int, skip == 9),
        ));
        assert(spans_from(b@, i as int) =~= seq![(i as int, skip as int, skip == 9)] + spans_from(b@, i + skip));
        i = i + skip;
    }
    assert(spans_from(b@, i as int) =~= Seq::<(int, int, bool)>::empty());
    assert(res@.map_values(|s: HighlightSpan| span_view(s)) + Seq::<(int, int, bool)>::empty()
        =~= res@.map_values(|s: HighlightSpan| span_view(s)));
    proof {
        law_vec3_f32_always_highlighted(b@, res@);
    }
    res
}

/// The runs `s` lie end to end, the first starting at `from` and the last
/// ending at `to`.
pub open spec fn tiles(s: Seq<(int, int, bool)>, from: int, to: int) -> bool
    decreases s.len(),
{
    if s.len() == 0 {
        from == to
    } else {
        &&& s[0].0 == from
        &&& s[0].1 > 0
        &&& tiles(s.drop_first(), from + s[0].1, to)
    }
}

/// Every byte of the text is drawn exactly once: the spans from byte `i`
/// tile the rest of the text, and each highlighted span is an occurrence of
/// `vec3<f32>`.
pub proof fn law_spans_tile_text(b: Seq<u8>, i: int)
    requires
        0 <= i <= b.len(),
    ensures
        tiles(spans_from(b, i), i, b.len() as int),
        forall|j: int| 0 <= j < spans_from(b, i).len() && (#[trigger] spans_from(b, i)[j]).2 ==> {
            let (st, len, _) = spans_from(b, i)[j];
            len == 9 && st + 9 <= b.len() && b.subrange(st, st + 9) == vec3_f32()
        },
    decreases b.len() - i,
{
    let s = spans_from(b, i);
    if i < b.len() {
        let step = if i + 9 <= b.len() && b.subrange(i, i + 9) == vec3_f32() { 9int } else { 1int };
        law_spans_tile_text(b, i + step);
        let rest = spans_from(b, i + step);
        assert(s.drop_first() =~= rest);
        assert forall|j: int| 0 <= j < s.len() && (#[trigger] s[j]).2 implies {
            let (st, len, _) = s[j];
            len == 9 && st + 9 <= b.len() && b.subrange(st, st + 9) == vec3_f32()
        } by {
            if j > 0 {
                assert(s[j] == rest[j - 1]);
            }
        }
    }
}

/// Whether `b` holds the bytes of `vec3<f32>` from position `st` on.
pub open spec fn holds_vec3_f32_at(b: Seq<u8>, st: int) -> bool {
    &&& 0 <= st
    &&& st + 9 <= b.len()
    &&& b[st] == 118u8 && b[st + 1] == 101u8 && b[st + 2] == 99u8
    &&& b[st + 3] == 51u8 && b[st + 4] == 60u8 && b[st + 5] == 102u8
    &&& b[st + 6] == 51u8 && b[st + 7] == 50u8 && b[st + 8] == 62u8
}

proof fn lemma_spans_from_highlight_matches(b: Seq<u8>, i: int)
    requires
        0 <= i <= b.len(),
    ensures
        forall|j: int| 0 <= j < spans_from(b, i).len() && holds_vec3_f32_at(b, (#[trigger] spans_from(b, i)[j]).0)
            ==> spans_from(b, i)[j].1 == 9 && spans_from(b, i)[j].2,
    decreases b.len() - i,
{
    let s = spans_from(b, i);
    if i < b.len() {
        let step = if i + 9 <= b.len() && b.subrange(i, i + 9) == vec3_f32() { 9int } else { 1int };
        lemma_spans_from_highlight_matches(b, i + step);
        let rest = spans_from(b, i + step);
        assert(s.drop_first() =~= rest);
        assert forall|j: int| 0 <= j < s.len() && holds_vec3_f32_at(b, (#[trigger] s[j]).0)
            implies s[j].1 == 9 && s[j].2 by {
            if j > 0 {
                assert(s[j] == rest[j - 1]);
            } else {
                assert(s[0].0 == i);
                assert(b.subrange(i, i + 9) =~= vec3_f32());
            }
        }
    }
}

/// Every span that starts on the text `vec3<f32>` is drawn as one
/// highlighted run of those nine bytes, whatever follows them.
pub proof fn law_vec3_f32_always_highlighted(b: Seq<u8>, r: Seq<HighlightSpan>)
    requires
        r.map_values(|s: HighlightSpan| span_view(s)) == spans_from(b, 0),
    ensures
        forall|j: int| 0 <= j < r.len() && holds_vec3_f32_at(b, (#[trigger] r[j]).start as int)
            ==> r[j].len == 9 && r[j].highlighted,
{
    lemma_spans_from_highlight_matches(b, 0);
    let m = r.map_values(|s: HighlightSpan| span_view(s));
    assert forall|j: int| 0 <= j < r.len() && holds_vec3_f32_at(b, (#[trigger] r[j]).start as int)
        implies r[j].len == 9 && r[j].highlighted by {
        assert(m[j] == span_view(r[j]));
        assert(spans_from(b, 0)[j] == m[j]);
    }
}

} // verus!
