//! The descriptor producer for fixed-size arrays: from an element shape
//! and a length it synthesizes the array's shape, deriving each
//! capability slot from the element's — equality, ordering, hashing and
//! cloning are populated exactly when the element populates them, and
//! default construction follows the documented rule: always for the
//! zero-length array, for up to 32 elements when the element has a
//! default, and deliberately never above 32.  The array sits behind the
//! sequence interface as a fixed-size sequence that can neither be
//! pre-sized nor grown.

use vstd::prelude::*;
use vstd::string::StringExecFns;
use crate::layout::Layout;
use crate::shape::{Def, ListDef, Shape, VTable};

verus! {

/// The decimal digits of `n`, as ASCII bytes, most significant first.
pub open spec fn spec_decimal_bytes(n: nat) -> Seq<u8>
    decreases n,
{
    if n < 10 {
        seq![(48 + n) as u8]
    } else {
        spec_decimal_bytes(n / 10).push((48 + n % 10) as u8)
    }
}

/// The decimal digits of `n`, as characters.
pub open spec fn spec_decimal(n: nat) -> Seq<char> {
    spec_decimal_bytes(n).map_values(|b: u8| b as char)
}

/// Decimal digits are ASCII.
proof fn lemma_decimal_bytes_ascii(n: nat)
    ensures
        forall|i: int|
            0 <= i < spec_decimal_bytes(n).len() ==> 48 <= #[trigger] spec_decimal_bytes(n)[i]
                <= 57,
    decreases n,
{
    if n < 10 {
        assert(spec_decimal_bytes(n)[0] == (48 + n) as u8);
    } else {
        lemma_decimal_bytes_ascii(n / 10);
        let s = spec_decimal_bytes(n / 10);
        let d = (48 + n % 10) as u8;
        assert forall|i: int| 0 <= i < s.push(d).len() implies 48 <= #[trigger] s.push(d)[i]
            <= 57 by {
            if i < s.len() {
                assert(s.push(d)[i] == s[i]);
            } else {
                assert(s.push(d)[i] == d);
            }
        }
    }
}

/// Appends the decimal digits of `n` to `out`.
fn push_decimal(n: u64, out: &mut Vec<u8>)
    ensures
        final(out)@ == old(out)@ + spec_decimal_bytes(n as nat),
    decreases n,
{
    if n < 10 {
        out.push(48 + n as u8);
        proof {
            assert(final(out)@ =~= old(out)@ + spec_decimal_bytes(n as nat));
        }
    } else {
        push_decimal(n / 10, out);
        out.push(48 + (n % 10) as u8);
        proof {
            assert(final(out)@ =~= old(out)@ + spec_decimal_bytes(n as nat));
        }
    }
}

/// Relies on `String::from_utf8`: bytes below 128 are ASCII, so they
/// decode to one character each, the character with that code.
#[verifier::external_body]
fn ascii_to_string(bytes: &Vec<u8>) -> (r: String)
    requires
        forall|i: int| 0 <= i < bytes@.len() ==> bytes@[i] < 128,
    ensures
        r@ == bytes@.map_values(|b: u8| b as char),
{
    String::from_utf8(bytes.clone()).unwrap_or_default()
}

/// Renders the length as decimal digits.
pub(crate) fn decimal_string(n: u64) -> (r: String)
    ensures
        r@ == spec_decimal(n as nat),
{
    let mut out: Vec<u8> = Vec::new();
    push_decimal(n, &mut out);
    proof {
        lemma_decimal_bytes_ascii(n as nat);
    }
    ascii_to_string(&out)
}

/// The rendered name of an array type over an element named
/// `elem_name`.
pub open spec fn spec_array_name(elem_name: Seq<char>, len: nat) -> Seq<char> {
    "["@ + elem_name + "; "@ + spec_decimal(len) + "]"@
}

/// Renders the array type's name from the element's name and the
/// length.
fn array_ty_name(elem_name: &str, len: usize) -> (r: String)
    ensures
        r@ == spec_array_name(elem_name@, len as nat),
{
    let mut name = String::from_str("[");
    name.append(elem_name);
    name.append("; ");
    let digits = decimal_string(len as u64);
    name.append(digits.as_str());
    name.append("]");
    name
}

/// Synthesizes the shape of a fixed-size array of `len` elements of
/// shape `elem`, under the identity token `id` the producer assigns to
/// that array type.  Every derived capability slot is populated exactly
/// when the element's is; the default-construction slot is populated
/// for the zero-length array whatever the element is, for 1 to 32
/// elements exactly when the element has one, and never above 32
/// elements — a documented limitation, not an oversight.  Arrays always
/// know how to destroy themselves in place.
pub fn array_shape(id: u64, elem: Shape, len: usize) -> (r: Shape)
    requires
        elem.wf(),
        elem.layout.spec_stride() <= usize::MAX,
        elem.layout.spec_stride() * len <= usize::MAX,
    ensures
        r.wf(),
        r.id == id,
        r.layout.align == elem.layout.align,
        r.layout.size == elem.layout.spec_stride() * len,
        r.def is List,
        *(r.def->List_0).elem == elem,
        (r.def->List_0).len == len,
        !(r.def->List_0).supports_init_with_capacity,
        !(r.def->List_0).supports_push,
        r.vtable.has_display == elem.vtable.has_display,
        r.vtable.has_debug == elem.vtable.has_debug,
        r.vtable.has_eq == elem.vtable.has_eq,
        r.vtable.has_partial_ord == elem.vtable.has_partial_ord,
        r.vtable.has_ord == elem.vtable.has_ord,
        r.vtable.has_hash == elem.vtable.has_hash,
        r.vtable.has_clone_into == elem.vtable.has_clone_into,
        r.vtable.has_default_in_place == (len == 0 || (len <= 32
            && elem.vtable.has_default_in_place)),
        r.vtable.has_drop_in_place,
        r.vtable.is_send == elem.vtable.is_send,
        r.vtable.is_sync == elem.vtable.is_sync,
        r.vtable.ty_name@ == spec_array_name(elem.vtable.ty_name@, len as nat),
{
    let st = match elem.layout.stride() {
        Some(st) => st,
        None => vstd::pervasive::unreached(),
    };
    let size = st * len;
    let ty_name = array_ty_name(elem.vtable.ty_name.as_str(), len);
    let has_default_in_place = len == 0 || (len <= 32 && elem.vtable.has_default_in_place);
    let vtable = VTable {
        ty_name,
        is_send: elem.vtable.is_send,
        is_sync: elem.vtable.is_sync,
        has_display: elem.vtable.has_display,
        has_debug: elem.vtable.has_debug,
        has_eq: elem.vtable.has_eq,
        has_partial_ord: elem.vtable.has_partial_ord,
        has_ord: elem.vtable.has_ord,
        has_hash: elem.vtable.has_hash,
        has_default_in_place,
        has_clone_into: elem.vtable.has_clone_into,
        has_drop_in_place: true,
    };
    let align = elem.layout.align;
    Shape {
        id,
        layout: Layout { size, align },
        vtable,
        def: Def::List(
            ListDef {
                elem: Box::new(elem),
                len,
                supports_init_with_capacity: false,
                supports_push: false,
            },
        ),
    }
}

/// The length function of the sequence interface over a fixed-size
/// sequence: the element count.
pub fn list_len(ld: &ListDef) -> (r: usize)
    ensures
        r == ld.len,
{
    ld.len
}

/// The random-access function of the sequence interface: the byte
/// offset of element `index` within the sequence value.  Access at or
/// past the length is a fatal misuse, not a recoverable error, so it is
/// excluded by contract.
pub fn list_get_item_offset(ld: &ListDef, index: usize) -> (r: usize)
    requires
        (*ld.elem).wf(),
        (*ld.elem).layout.spec_stride() * ld.len <= usize::MAX,
        index < ld.len,
    ensures
        r == index * (*ld.elem).layout.spec_stride(),
{
    let st = match (*ld.elem).layout.stride() {
        Some(st) => st,
        None => {
            proof {
                let sp = (*ld.elem).layout.spec_stride();
                assert(sp <= sp * (ld.len as int)) by (nonlinear_arith)
                    requires
                        1 <= ld.len as int,
                        0 <= sp,
                ;
                assert(false);
            }
            vstd::pervasive::unreached()
        },
    };
    proof {
        crate::ops::lemma_elem_range(index as int, ld.len as int, st as int, 0);
    }
    index * st
}

/// The pre-sized initialization function of the sequence interface:
/// succeeds exactly when the capability is present.  A fixed array
/// cannot be constructed pre-sized, so for it this signals failure.
pub fn list_init_with_capacity(ld: &ListDef) -> (r: Result<(), ()>)
    ensures
        r is Ok <==> ld.supports_init_with_capacity,
{
    if ld.supports_init_with_capacity {
        Ok(())
    } else {
        Err(())
    }
}

} // verus!
