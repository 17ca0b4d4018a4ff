use byteorder::{ByteOrder, LittleEndian};
use vstd::prelude::*;

verus! {

/// The little-endian value of the first two bytes of `b`.
pub open spec fn le_u16(b: Seq<u8>) -> int {
    b[0] + 256 * b[1]
}

/// The little-endian value of the first four bytes of `b`.
pub open spec fn le_u32(b: Seq<u8>) -> int {
    b[0] + 256 * b[1] + 65536 * b[2] + 16777216 * b[3]
}

/// Calls `<byteorder::LittleEndian as byteorder::ByteOrder>::read_u16`, which
/// reads the first two bytes of `buf`, least significant first, and panics
/// on a shorter buffer.
#[verifier::external_body]
fn le_read_u16(buf: &[u8]) -> (r: u16)
    requires
        buf@.len() >= 2,
    ensures
        r == le_u16(buf@),
{
    LittleEndian::read_u16(buf)
}

/// Calls `<byteorder::LittleEndian as byteorder::ByteOrder>::read_u32`, which
/// reads the first four bytes of `buf`, least significant first, and panics
/// on a shorter buffer.
#[verifier::external_body]
fn le_read_u32(buf: &[u8]) -> (r: u32)
    requires
        buf@.len() >= 4,
    ensures
        r == le_u32(buf@),
{
    LittleEndian::read_u32(buf)
}

/// The integer type of a mesh's index buffer.
#[derive(Clone, Copy, Debug, PartialEq, Eq, Structural)]
pub enum IndexComponent {
    U16,
    U32,
}

pub open spec fn component_width(c: IndexComponent) -> int {
    match c {
        IndexComponent::U16 => 2,
        IndexComponent::U32 => 4,
    }
}

/// Distance between consecutive indices: the view's stride, or the width of
/// one index when the view packs them tightly.
pub open spec fn effective_stride(stride: Option<usize>, c: IndexComponent) -> int {
    match stride {
        Some(s) => s as int,
        None => component_width(c),
    }
}

/// Where index `i` starts in the buffer.
pub open spec fn index_position(i: int, stride: int, view_offset: int, accessor_offset: int) -> int {
    i * stride + view_offset + accessor_offset
}

/// The value of the index stored at byte `at` of `b`.
pub open spec fn index_value(b: Seq<u8>, at: int, c: IndexComponent) -> int {
    match c {
        IndexComponent::U16 => le_u16(b.subrange(at, at + 2)),
        IndexComponent::U32 => le_u32(b.subrange(at, at + 4)),
    }
}

/// Decode the `count` indices of a mesh primitive from its binary buffer:
/// index `i` is read little-endian at `i * stride + view_offset +
/// accessor_offset`.
pub fn read_indices(
    buf: &[u8],
    count: usize,
    stride: Option<usize>,
    view_offset: usize,
    accessor_offset: usize,
    component: IndexComponent,
) -> (r: Vec<u32>)
    requires
        count > 0 ==> index_position(
            count - 1,
            effective_stride(stride, component),
            view_offset as int,
            accessor_offset as int,
        ) + component_width(component) <= buf@.len(),
    ensures
        r.len() == count,
        forall|i: int| 0 <= i < count ==> #[trigger] r@[i] == index_value(
            buf@,
            index_position(i, effective_stride(stride, component), view_offset as int, accessor_offset as int),
            component,
        ),
        forall|i: int| 0 <= i < count && stride is None && component == IndexComponent::U32 ==> {
            let p = 4 * i + view_offset + accessor_offset;
            #[trigger] r@[i] == buf@[p] + 256 * buf@[p + 1] + 65536 * buf@[p + 2] + 16777216 * buf@[p + 3]
        },
        forall|i: int| 0 <= i < count && stride is None && component == IndexComponent::U16 ==> {
            let p = 2 * i + view_offset + accessor_offset;
            #[trigger] r@[i] == buf@[p] + 256 * buf@[p + 1]
        },
{
    let width: usize = match component {
        IndexComponent::U16 => 2,
        IndexComponent::U32 => 4,
    };
    let step: usize = match stride {
        Some(s) => s,
        None => width,
    };
    let ghost eff = effective_stride(stride, component);
    let mut indices: Vec<u32> = Vec::new();
    let len = buf.len();
    let mut idx: usize = 0;
    while idx < count
        invariant
            len == buf@.len(),
            step == eff,
            width == component_width(component),
            idx <= count,
            count > 0 ==> index_position(count - 1, eff, view_offset as int, accessor_offset as int) + width
                <= buf@.len(),
            indices.len() == idx,
            forall|i: int| 0 <= i < idx ==> #[trigger] indices@[i] == index_value(
                buf@,
                index_position(i, eff, view_offset as int, accessor_offset as int),
                component,
            ),
        decreases count - idx,
    {
        proof {
            vstd::arithmetic::mul::lemma_mul_inequality(idx as int, count - 1, step as int);
            vstd::arithmetic::mul::lemma_mul_nonnegative(idx as int, step as int);
        }
        let global_idx = idx * step + view_offset + accessor_offset;
        let v: u32 = match component {
            IndexComponent::U16 => le_read_u16(&buf[global_idx..(global_idx + 2)]) as u32,
            IndexComponent::U32 => le_read_u32(&buf[global_idx..(global_idx + 4)]),
        };
        indices.push(v);
        idx += 1;
    }
    proof {
        law_index_layout(buf@, indices@, count, stride, view_offset, accessor_offset, component);
    }
    indices
}

/// Byte position of component `d` of element `c` of a vertex attribute:
/// elements `stride` bytes apart, components `component_size` bytes apart.
pub open spec fn attribute_position(
    c: int,
    d: int,
    stride: int,
    component_size: int,
    accessor_offset: int,
    view_offset: int,
) -> int {
    c * stride + accessor_offset + view_offset + d * component_size
}

/// Distance between consecutive elements of a vertex attribute: the view's
/// stride, or one whole element when the view packs elements tightly.
pub open spec fn element_stride(stride: Option<usize>, component_size: usize, multiplicity: usize) -> int {
    match stride {
        Some(s) => s as int,
        None => component_size * multiplicity,
    }
}

/// Where each component of a vertex attribute is stored in its binary
/// buffer, in the order the components are unpacked: element by element,
/// `multiplicity` components each. The view's stride defaults to one
/// element's size when the view packs elements tightly.
pub fn attribute_offsets(
    count: usize,
    multiplicity: usize,
    stride: Option<usize>,
    component_size: usize,
    accessor_offset: usize,
    view_offset: usize,
) -> (r: Vec<usize>)
    requires
        count * multiplicity <= usize::MAX,
        component_size * multiplicity <= usize::MAX,
        count > 0 && multiplicity > 0 ==> attribute_position(
            count - 1,
            multiplicity - 1,
            element_stride(stride, component_size, multiplicity),
            component_size as int,
            accessor_offset as int,
            view_offset as int,
        ) <= usize::MAX,
    ensures
        r.len() == count * multiplicity,
        forall|c: int, d: int| 0 <= c < count && 0 <= d < multiplicity ==> #[trigger] r@[c * multiplicity + d]
            == attribute_position(
                c,
                d,
                element_stride(stride, component_size, multiplicity),
                component_size as int,
                accessor_offset as int,
                view_offset as int,
            ),
        count > 0 && multiplicity > 0 ==> r@[0] == accessor_offset + view_offset,
        forall|c: int, d: int| 0 <= c < count && 0 <= d && d + 1 < multiplicity ==> #[trigger] r@[c * multiplicity + d + 1]
            == r@[c * multiplicity + d] + component_size,
        forall|c: int| 0 <= c && c + 1 < count && multiplicity > 0 && stride is None ==> #[trigger] r@[(c + 1) * multiplicity]
            == r@[c * multiplicity] + component_size * multiplicity,
        forall|c: int| 0 <= c && c + 1 < count && multiplicity > 0 && stride is Some ==> #[trigger] r@[(c + 1) * multiplicity]
            == r@[c * multiplicity] + (stride->0),
{
    let step: usize = match stride {
        Some(s) => s,
        None => component_size * multiplicity,
    };
    let mut offsets: Vec<usize> = Vec::new();
    let mut c: usize = 0;
    while c < count
        invariant
            c <= count,
            count * multiplicity <= usize::MAX,
            step == (element_stride(stride, component_size, multiplicity)),
            count > 0 && multiplicity > 0 ==> attribute_position(
                count - 1, multiplicity - 1, step as int, component_size as int, accessor_offset as int, view_offset as int,
            ) <= usize::MAX,
            offsets.len() == c * multiplicity,
            forall|c2: int, d: int| 0 <= c2 < c && 0 <= d < multiplicity ==> #[trigger] offsets@[c2 * multiplicity + d]
                == attribute_position(c2, d, step as int, component_size as int, accessor_offset as int, view_offset as int),
        decreases count - c,
    {
        let mut d: usize = 0;
        while d < multiplicity
            invariant
                c < count,
                d <= multiplicity,
                count * multiplicity <= usize::MAX,
                count > 0 && multiplicity > 0 ==> attribute_position(
                    count - 1, multiplicity - 1, step as int, component_size as int, accessor_offset as int, view_offset as int,
                ) <= usize::MAX,
                offsets.len() == c * multiplicity + d,
                forall|c2: int, d2: int| 0 <= c2 < c && 0 <= d2 < multiplicity ==> #[trigger] offsets@[c2 * multiplicity + d2]
                    == attribute_position(c2, d2, step as int, component_size as int, accessor_offset as int, view_offset as int),
                forall|d2: int| 0 <= d2 < d ==> #[trigger] offsets@[c * multiplicity + d2]
                    == attribute_position(c as int, d2, step as int, component_size as int, accessor_offset as int, view_offset as int),
            decreases multiplicity - d,
        {
            proof {
                vstd::arithmetic::mul::lemma_mul_inequality(c as int, count - 1, step as int);
                vstd::arithmetic::mul::lemma_mul_inequality(d as int, multiplicity - 1, component_size as int);
                vstd::arithmetic::mul::lemma_mul_nonnegative(c as int, step as int);
                vstd::arithmetic::mul::lemma_mul_nonnegative(d as int, component_size as int);
            }
            let at = c * step + accessor_offset + view_offset + d * component_size;
            let ghost before = offsets@;
            offsets.push(at);
            proof {
                assert forall|c2: int, d2: int| 0 <= c2 < c && 0 <= d2 < multiplicity implies #[trigger] offsets@[c2 * multiplicity + d2]
                    == attribute_position(c2, d2, step as int, component_size as int, accessor_offset as int, view_offset as int) by {
                    assert(c2 * multiplicity + d2 < c * multiplicity) by (nonlinear_arith)
                        requires 0 <= c2 < c, 0 <= d2 < multiplicity;
                    assert(offsets@[c2 * multiplicity + d2] == before[c2 * multiplicity + d2]);
                }
                assert forall|d2: int| 0 <= d2 < d + 1 implies #[trigger] offsets@[c * multiplicity + d2]
                    == attribute_position(c as int, d2, step as int, component_size as int, accessor_offset as int, view_offset as int) by {
                    if d2 < d {
                        assert(offsets@[c * multiplicity + d2] == before[c * multiplicity + d2]);
                    }
                }
            }
            d += 1;
        }
        proof {
            assert(c * multiplicity + multiplicity == (c + 1) * multiplicity) by (nonlinear_arith);
            assert forall|c2: int, d2: int| 0 <= c2 < c + 1 && 0 <= d2 < multiplicity implies #[trigger] offsets@[c2 * multiplicity + d2]
                == attribute_position(c2, d2, step as int, component_size as int, accessor_offset as int, view_offset as int) by {
                if c2 == c {
                    assert(offsets@[c * multiplicity + d2] == attribute_position(c as int, d2, step as int, component_size as int, accessor_offset as int, view_offset as int));
                }
            }
        }
        c += 1;
    }
    proof {
        law_attribute_layout(offsets@, count, multiplicity, stride, component_size, accessor_offset, view_offset);
    }
    offsets
}

/// Where the indices of a mesh are read, spelled out byte by byte: index `i`
/// starts `i` times the view's stride past both offsets, and a view without
/// a stride packs its indices one index width apart (4 bytes for 32-bit
/// indices, 2 for 16-bit ones); each index is read least significant byte
/// first.
pub proof fn law_index_layout(
    buf: Seq<u8>,
    r: Seq<u32>,
    count: usize,
    stride: Option<usize>,
    view_offset: usize,
    accessor_offset: usize,
    component: IndexComponent,
)
    requires
        count > 0 ==> index_position(
            count - 1,
            effective_stride(stride, component),
            view_offset as int,
            accessor_offset as int,
        ) + component_width(component) <= buf.len(),
        r.len() == count,
        forall|i: int| 0 <= i < count ==> #[trigger] r[i] == index_value(
            buf,
            index_position(i, effective_stride(stride, component), view_offset as int, accessor_offset as int),
            component,
        ),
    ensures
        forall|i: int| 0 <= i < count && stride is None && component == IndexComponent::U32 ==> {
            let p = 4 * i + view_offset + accessor_offset;
            #[trigger] r[i] == buf[p] + 256 * buf[p + 1] + 65536 * buf[p + 2] + 16777216 * buf[p + 3]
        },
        forall|i: int| 0 <= i < count && stride is None && component == IndexComponent::U16 ==> {
            let p = 2 * i + view_offset + accessor_offset;
            #[trigger] r[i] == buf[p] + 256 * buf[p + 1]
        },
        forall|i: int| 0 <= i < count && stride is Some && component == IndexComponent::U32 ==> {
            let p = i * (stride->0) + view_offset + accessor_offset;
            #[trigger] r[i] == buf[p] + 256 * buf[p + 1] + 65536 * buf[p + 2] + 16777216 * buf[p + 3]
        },
        forall|i: int| 0 <= i < count && stride is Some && component == IndexComponent::U16 ==> {
            let p = i * (stride->0) + view_offset + accessor_offset;
            #[trigger] r[i] == buf[p] + 256 * buf[p + 1]
        },
{
    let s = effective_stride(stride, component);
    let w = component_width(component);
    assert forall|i: int| 0 <= i < count implies {
        let p = i * s + view_offset + accessor_offset;
        &&& 0 <= p
        &&& p + w <= buf.len()
        &&& (component == IndexComponent::U32 ==> #[trigger] r[i] == buf[p] + 256 * buf[p + 1] + 65536 * buf[p + 2] + 16777216 * buf[p + 3])
        &&& (component == IndexComponent::U16 ==> r[i] == buf[p] + 256 * buf[p + 1])
    } by {
        let p = i * s + view_offset + accessor_offset;
        assert(s >= 0);
        vstd::arithmetic::mul::lemma_mul_inequality(i, count - 1, s);
        vstd::arithmetic::mul::lemma_mul_nonnegative(i, s);
        assert(r[i] == index_value(buf, index_position(i, s, view_offset as int, accessor_offset as int), component));
    }
    assert forall|i: int| 0 <= i < count && stride is None && component == IndexComponent::U32 implies {
        let p = 4 * i + view_offset + accessor_offset;
        #[trigger] r[i] == buf[p] + 256 * buf[p + 1] + 65536 * buf[p + 2] + 16777216 * buf[p + 3]
    } by {
        assert(i * s == 4 * i);
    }
    assert forall|i: int| 0 <= i < count && stride is None && component == IndexComponent::U16 implies {
        let p = 2 * i + view_offset + accessor_offset;
        #[trigger] r[i] == buf[p] + 256 * buf[p + 1]
    } by {
        assert(i * s == 2 * i);
    }
}

/// The components of a vertex attribute are found element by element: the
/// first one sits at the sum of both offsets, the components of one element
/// lie `component_size` bytes apart, and consecutive elements lie the view's
/// stride apart, or, in a view without a stride, one whole element
/// (`multiplicity` components) apart.
pub proof fn law_attribute_layout(
    r: Seq<usize>,
    count: usize,
    multiplicity: usize,
    stride: Option<usize>,
    component_size: usize,
    accessor_offset: usize,
    view_offset: usize,
)
    requires
        r.len() == count * multiplicity,
        forall|c: int, d: int| 0 <= c < count && 0 <= d < multiplicity ==> #[trigger] r[c * multiplicity + d]
            == attribute_position(
                c,
                d,
                element_stride(stride, component_size, multiplicity),
                component_size as int,
                accessor_offset as int,
                view_offset as int,
            ),
    ensures
        count > 0 && multiplicity > 0 ==> r[0] == accessor_offset + view_offset,
        forall|c: int, d: int| 0 <= c < count && 0 <= d && d + 1 < multiplicity ==> #[trigger] r[c * multiplicity + d + 1]
            == r[c * multiplicity + d] + component_size,
        forall|c: int| 0 <= c && c + 1 < count && multiplicity > 0 && stride is None ==> #[trigger] r[(c + 1) * multiplicity]
            == r[c * multiplicity] + component_size * multiplicity,
        forall|c: int| 0 <= c && c + 1 < count && multiplicity > 0 && stride is Some ==> #[trigger] r[(c + 1) * multiplicity]
            == r[c * multiplicity] + (stride->0),
{
    let step = element_stride(stride, component_size, multiplicity);
    if count > 0 && multiplicity > 0 {
        assert(r[0 * multiplicity + 0] == attribute_position(0, 0, step, component_size as int, accessor_offset as int, view_offset as int));
    }
    assert forall|c: int, d: int| 0 <= c < count && 0 <= d && d + 1 < multiplicity implies #[trigger] r[c * multiplicity + d + 1]
        == r[c * multiplicity + d] + component_size by {
        assert(r[c * multiplicity + (d + 1)] == attribute_position(c, d + 1, step, component_size as int, accessor_offset as int, view_offset as int));
        assert(r[c * multiplicity + d] == attribute_position(c, d, step, component_size as int, accessor_offset as int, view_offset as int));
        assert((d + 1) * component_size == d * component_size + component_size) by (nonlinear_arith);
    }
    assert forall|c: int| 0 <= c && c + 1 < count && multiplicity > 0 implies #[trigger] r[(c + 1) * multiplicity]
        == r[c * multiplicity] + step by {
        assert(r[(c + 1) * multiplicity + 0] == attribute_position(c + 1, 0, step, component_size as int, accessor_offset as int, view_offset as int));
        assert(r[c * multiplicity + 0] == attribute_position(c, 0, step, component_size as int, accessor_offset as int, view_offset as int));
        assert((c + 1) * step == c * step + step) by (nonlinear_arith);
    }
}

} // verus!
