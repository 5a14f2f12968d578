//! The construction engine: a `PokeStruct` is an ephemeral session that
//! builds a value of a struct shape field by field into uninitialized
//! memory, tracking which fields are initialized in a bitset, and ends in
//! exactly one of two ways: a finalization, which asserts full
//! initialization and hands the memory on as a live value, or an
//! abandonment, which destroys exactly the initialized fields and nothing
//! else.
//!
//! Misuse of indices and names is recoverable and reported as a
//! `FieldError`; finalizing an incomplete session is a fatal precondition
//! violation and is therefore excluded by contract: callers prove every
//! field initialized before they may finalize.

use vstd::prelude::*;
use crate::iset::ISet;
use crate::layout::Layout;
use crate::opaque::{spec_write, OpaqueConst, OpaqueUninit};
use crate::shape::{Def, Field, Shape, StructDef, VTable};

verus! {

/// Recoverable caller misuse, discoverable without inspecting memory.
#[derive(Clone, Copy, PartialEq, Eq, Structural, Debug)]
pub enum FieldError {
    /// No field carries the requested name.
    NoSuchStaticField,
    /// The requested field index is at or past the field count.
    IndexOutOfBounds,
    /// The identity token of the requested type does not match the
    /// session's shape.
    ShapeMismatch,
}

/// A construction session over one struct shape: the target memory, the
/// initialization bitset, and the shape being built.
pub struct PokeStruct {
    /// The target memory, sized to the shape's layout.
    data: OpaqueUninit,
    /// Bit `i` is set exactly when field `i` has been initialized.
    iset: ISet,
    /// The shape under construction; its definition must be a struct.
    shape: Shape,
}

impl PokeStruct {
    /// The fields of the struct under construction.
    pub open spec fn spec_fields(self) -> Seq<Field> {
        self.spec_shape().spec_struct_def().fields@
    }

    /// The bytes of the target memory.
    pub closed spec fn spec_data(self) -> Seq<u8> {
        self.data@
    }

    /// The shape under construction.
    pub closed spec fn spec_shape(self) -> Shape {
        self.shape
    }

    /// Whether field `i` has been marked initialized.
    pub closed spec fn spec_initialized(self, i: int) -> bool {
        self.iset.spec_has(i)
    }

    /// A live session: a well-formed struct shape, memory sized to its
    /// layout, and no more fields than the bitset can track.
    pub closed spec fn wf(self) -> bool {
        &&& self.shape.wf()
        &&& self.shape.def is Struct
        &&& self.data@.len() == self.shape.layout.size
        &&& self.spec_fields().len() <= 64
    }

    /// Every field has been marked initialized.
    pub open spec fn all_initialized(self) -> bool {
        forall|i: int| 0 <= i < self.spec_fields().len() ==> self.spec_initialized(i)
    }

    /// Creates a session over `data`, which must be sized to `shape`'s
    /// layout; `shape` must describe a struct.  No field starts
    /// initialized.
    pub fn new(data: OpaqueUninit, shape: Shape) -> (r: Self)
        requires
            shape.wf(),
            shape.def is Struct,
            data@.len() == shape.layout.size,
            shape.spec_struct_def().fields@.len() <= 64,
        ensures
            r.wf(),
            r.spec_shape() == shape,
            r.spec_data() == data@,
            forall|i: int| !r.spec_initialized(i),
    {
        PokeStruct { data, iset: ISet::empty(), shape }
    }

    /// The capability table of the struct being built.
    pub fn struct_vtable(&self) -> (r: &VTable)
        ensures
            *r == self.spec_shape().vtable,
    {
        &self.shape.vtable
    }

    /// The field list of the struct being built.
    fn def_fields(&self) -> (r: &Vec<Field>)
        requires
            self.shape.def is Struct,
        ensures
            r@ == self.spec_fields(),
    {
        match &self.shape.def {
            Def::Struct(sd) => &sd.fields,
            _ => vstd::pervasive::unreached(),
        }
    }

    /// The first field not yet marked initialized, if any: the field a
    /// failed finalization would name.
    pub fn first_unset_field(&self) -> (r: Option<usize>)
        requires
            self.wf(),
        ensures
            match r {
                Some(i) => i < self.spec_fields().len() && !self.spec_initialized(i as int)
                    && forall|j: int| 0 <= j < i ==> self.spec_initialized(j),
                None => self.all_initialized(),
            },
    {
        let n = self.def_fields().len();
        let mut i: usize = 0;
        while i < n
            invariant
                i <= n,
                self.wf(),
                n == self.spec_fields().len(),
                forall|j: int| 0 <= j < i ==> self.spec_initialized(j),
            decreases n - i,
        {
            if !self.iset.has(i) {
                return Some(i);
            }
            i = i + 1;
        }
        None
    }

    /// Checks that every field has been initialized.  Finalizing with an
    /// unset field is a fatal precondition violation, not a recoverable
    /// error, so full initialization is demanded of the caller; the check
    /// that would name the first unset field is then provably dead.
    pub fn assert_all_fields_initialized(&self)
        requires
            self.wf(),
            self.all_initialized(),
    {
        let n = self.def_fields().len();
        let mut i: usize = 0;
        while i < n
            invariant
                i <= n,
                self.wf(),
                self.all_initialized(),
                n == self.spec_fields().len(),
            decreases n - i,
        {
            if !self.iset.has(i) {
                proof {
                    assert(self.spec_initialized(i as int));
                    assert(false);
                }
            }
            i = i + 1;
        }
    }

    /// Asserts that every field has been initialized and hands the memory
    /// on as a live value, suppressing the session's own field cleanup:
    /// ownership has moved to the produced value.
    pub fn build_in_place(self) -> (r: OpaqueConst)
        requires
            self.wf(),
            self.all_initialized(),
        ensures
            r@ == self.spec_data(),
    {
        self.assert_all_fields_initialized();
        self.data.assume_init()
    }

    /// Builds the finished value for the type identified by `expected`,
    /// which must carry the session's identity token; a mismatch is
    /// recoverable.  Every field must have been initialized.
    pub fn build(self, expected: &Shape) -> (r: Result<OpaqueConst, FieldError>)
        requires
            self.wf(),
            self.all_initialized(),
        ensures
            match r {
                Ok(v) => expected.id == self.spec_shape().id && v@ == self.spec_data(),
                Err(e) => e == FieldError::ShapeMismatch && expected.id != self.spec_shape().id,
            },
    {
        self.assert_all_fields_initialized();
        if expected.id != self.shape.id {
            return Err(FieldError::ShapeMismatch);
        }
        Ok(self.data.assume_init())
    }

    /// As `build`, but packages the finished value on the heap without
    /// copying it.
    pub fn build_boxed(self, expected: &Shape) -> (r: Result<Box<OpaqueConst>, FieldError>)
        requires
            self.wf(),
            self.all_initialized(),
        ensures
            match r {
                Ok(v) => expected.id == self.spec_shape().id && v@ == self.spec_data(),
                Err(e) => e == FieldError::ShapeMismatch && expected.id != self.spec_shape().id,
            },
    {
        self.assert_all_fields_initialized();
        if expected.id != self.shape.id {
            return Err(FieldError::ShapeMismatch);
        }
        Ok(Box::new(self.data.assume_init()))
    }

    /// Moves the finished value into `target`, which must be large enough
    /// to hold it; bytes of `target` past the value keep their contents.
    /// Every field must have been initialized.
    pub fn move_into(self, target: &mut OpaqueUninit)
        requires
            self.wf(),
            self.all_initialized(),
            self.spec_shape().layout.size <= old(target)@.len(),
        ensures
            final(target)@ == spec_write(old(target)@, 0, self.spec_data()),
    {
        self.assert_all_fields_initialized();
        let v = self.data.assume_init();
        target.write_bytes(0, v.as_slice());
    }

    /// The descriptor of field `index`, for recursive construction at its
    /// offset with its own shape: an index at or past the field count is
    /// recoverable, never fatal.  Reading the descriptor does not mark
    /// the field: whoever writes through it must mark the field
    /// explicitly, or use the copying `set` entry point.
    pub fn field(&self, index: usize) -> (r: Result<&Field, FieldError>)
        requires
            self.wf(),
        ensures
            match r {
                Ok(f) => index < self.spec_fields().len() && *f == self.spec_fields()[index as int],
                Err(e) => e == FieldError::IndexOutOfBounds && index >= self.spec_fields().len(),
            },
    {
        let fs = self.def_fields();
        if index < fs.len() {
            Ok(&fs[index])
        } else {
            Err(FieldError::IndexOutOfBounds)
        }
    }

    /// The index of the field named `name`: an unknown name is
    /// recoverable and distinct from an out-of-range index.
    pub fn field_by_name(&self, name: &str) -> (r: Result<usize, FieldError>)
        requires
            self.wf(),
        ensures
            match r {
                Ok(i) => i < self.spec_fields().len() && self.spec_fields()[i as int].name@
                    == name@ && forall|j: int|
                    0 <= j < i ==> (#[trigger] self.spec_fields()[j]).name@ != name@,
                Err(e) => e == FieldError::NoSuchStaticField && forall|j: int|
                    0 <= j < self.spec_fields().len() ==> (#[trigger] self.spec_fields()[j]).name@
                        != name@,
            },
    {
        let key = name.to_owned();
        let fs = self.def_fields();
        let n = fs.len();
        let mut i: usize = 0;
        while i < n
            invariant
                i <= n,
                self.wf(),
                n == self.spec_fields().len(),
                fs@ == self.spec_fields(),
                key@ == name@,
                forall|j: int| 0 <= j < i ==> (#[trigger] self.spec_fields()[j]).name@ != name@,
            decreases n - i,
        {
            if fs[i].name == key {
                return Ok(i);
            }
            i = i + 1;
        }
        Err(FieldError::NoSuchStaticField)
    }

    /// Copies the bytes of `value` — which the caller must have checked
    /// is a value of field `index`'s shape, so exactly that field's size —
    /// into the field's offset and marks the field initialized.  An index
    /// at or past the field count is recoverable and changes nothing.
    pub fn set(&mut self, index: usize, value: &OpaqueConst) -> (r: Result<(), FieldError>)
        requires
            old(self).wf(),
            index < old(self).spec_fields().len() ==> value@.len() == old(self).spec_fields()[index as int].shape.layout.size,
        ensures
            match r {
                Ok(_) => {
                    &&& index < old(self).spec_fields().len()
                    &&& final(self).spec_data() == spec_write(
                        old(self).spec_data(),
                        old(self).spec_fields()[index as int].offset as int,
                        value@,
                    )
                    &&& forall|j: int|
                        final(self).spec_initialized(j) == (old(self).spec_initialized(j) || j
                            == index as int)
                    &&& final(self).spec_shape() == old(self).spec_shape()
                    &&& final(self).wf()
                },
                Err(e) => {
                    &&& e == FieldError::IndexOutOfBounds
                    &&& index >= old(self).spec_fields().len()
                    &&& *final(self) == *old(self)
                },
            },
    {
        let n = self.def_fields().len();
        if index >= n {
            return Err(FieldError::IndexOutOfBounds);
        }
        let off = self.def_fields()[index].offset;
        assert(self.spec_fields()[index as int].end() <= self.shape.layout.size);
        self.data.write_bytes(off, value.as_slice());
        self.iset.mark(index);
        Ok(())
    }

    /// Resolves `name` and then behaves as `set`: copies the value's
    /// bytes into the named field and marks it.  An unknown name is
    /// recoverable and changes nothing.
    pub fn set_by_name(&mut self, name: &str, value: &OpaqueConst) -> (r: Result<
        (),
        FieldError,
    >)
        requires
            old(self).wf(),
            forall|i: int|
                0 <= i < old(self).spec_fields().len() && (#[trigger] old(self).spec_fields()[i]).name@ == name@
                    ==> value@.len() == old(self).spec_fields()[i].shape.layout.size,
        ensures
            match r {
                Ok(_) => exists|i: int|
                    {
                        &&& 0 <= i < old(self).spec_fields().len()
                        &&& (#[trigger] old(self).spec_fields()[i]).name@ == name@
                        &&& forall|j: int|
                            0 <= j < i ==> (#[trigger] old(self).spec_fields()[j]).name@ != name@
                        &&& final(self).spec_data() == spec_write(
                            old(self).spec_data(),
                            old(self).spec_fields()[i].offset as int,
                            value@,
                        )
                        &&& forall|j: int|
                            final(self).spec_initialized(j) == (old(self).spec_initialized(j) || j
                                == i)
                        &&& final(self).spec_shape() == old(self).spec_shape()
                        &&& final(self).wf()
                    },
                Err(e) => {
                    &&& e == FieldError::NoSuchStaticField
                    &&& forall|j: int|
                        0 <= j < old(self).spec_fields().len() ==> (#[trigger] old(self).spec_fields()[j]).name@ != name@
                    &&& *final(self) == *old(self)
                },
            },
    {
        let index = match self.field_by_name(name) {
            Ok(i) => i,
            Err(_) => {
                return Err(FieldError::NoSuchStaticField);
            },
        };
        let r = self.set(index, value);
        proof {
            assert(r is Ok);
        }
        Ok(())
    }

    /// Marks field `index` as initialized.  This is the caller-asserted
    /// path: whoever writes a field through its descriptor must guarantee
    /// that the field's bytes now hold a value of the field's shape
    /// before marking it.
    pub fn mark_initialized(&mut self, index: usize)
        requires
            old(self).wf(),
            index < old(self).spec_fields().len(),
        ensures
            forall|j: int|
                final(self).spec_initialized(j) == (old(self).spec_initialized(j) || j
                    == index as int),
            final(self).spec_data() == old(self).spec_data(),
            final(self).spec_shape() == old(self).spec_shape(),
            final(self).wf(),
    {
        self.iset.mark(index);
    }

    /// Ends the session without finalizing, as dropping the builder
    /// would: destroys exactly the fields marked initialized, in field
    /// order, each through its own shape's drop capability, skipping
    /// fields whose shape declares none and skipping unset fields
    /// entirely.  Returns the indices destroyed, in order: each
    /// initialized field with drop capability appears exactly once, and
    /// no other field appears at all.
    pub fn abandon(self) -> (dropped: Vec<usize>)
        requires
            self.wf(),
        ensures
            forall|k: int|
                0 <= k < dropped@.len() ==> {
                    &&& (#[trigger] dropped@[k]) < self.spec_fields().len()
                    &&& self.spec_initialized(dropped@[k] as int)
                    &&& self.spec_fields()[dropped@[k] as int].shape.vtable.has_drop_in_place
                },
            forall|i: usize|
                i < self.spec_fields().len() && self.spec_initialized(i as int)
                    && (#[trigger] self.spec_fields()[i as int]).shape.vtable.has_drop_in_place
                    ==> dropped@.contains(i),
            forall|j: int, k: int| 0 <= j < k < dropped@.len() ==> dropped@[j] < dropped@[k],
    {
        let fs = self.def_fields();
        let n = fs.len();
        let mut dropped: Vec<usize> = Vec::new();
        let mut i: usize = 0;
        while i < n
            invariant
                i <= n,
                self.wf(),
                n == self.spec_fields().len(),
                fs@ == self.spec_fields(),
                forall|k: int|
                    0 <= k < dropped@.len() ==> {
                        &&& (#[trigger] dropped@[k]) < i
                        &&& self.spec_initialized(dropped@[k] as int)
                        &&& self.spec_fields()[dropped@[k] as int].shape.vtable.has_drop_in_place
                    },
                forall|j: usize|
                    j < i && self.spec_initialized(j as int) && (#[trigger] self.spec_fields()[j as int]).shape.vtable.has_drop_in_place ==> dropped@.contains(j),
                forall|j: int, k: int| 0 <= j < k < dropped@.len() ==> dropped@[j] < dropped@[k],
            decreases n - i,
        {
            if self.iset.has(i) && fs[i].shape.vtable.has_drop_in_place {
                let ghost pre = dropped@;
                dropped.push(i);
                proof {
                    assert forall|j: usize| pre.contains(j) implies dropped@.contains(j) by {
                        let k = choose|k: int| 0 <= k < pre.len() && pre[k] == j;
                        assert(dropped@[k] == j);
                    }
                    assert(dropped@[pre.len() as int] == i);
                    assert(dropped@.contains(i));
                }
            }
            i = i + 1;
        }
        dropped
    }
}

/// The write performed by one `set` of field `i`: the value's bytes
/// spliced in at the field's offset.
pub open spec fn spec_set_write(sd: StructDef, data: Seq<u8>, i: int, vals: Seq<Seq<u8>>) -> Seq<
    u8,
> {
    spec_write(data, sd.fields@[i].start(), vals[i])
}

/// Bytes after performing the `set` writes named by `order` in turn, each
/// entry naming a field of `sd` whose value bytes stand in `vals` at the
/// field's own index.
pub open spec fn spec_apply_sets(
    sd: StructDef,
    data: Seq<u8>,
    order: Seq<int>,
    vals: Seq<Seq<u8>>,
) -> Seq<u8>
    decreases order.len(),
{
    if order.len() == 0 {
        data
    } else {
        spec_apply_sets(sd, spec_set_write(sd, data, order[0], vals), order.drop_first(), vals)
    }
}

/// A meaningful run of `set` calls: a well-formed struct over memory of
/// its layout's size, value bytes sized to each field, and an order that
/// names distinct fields.
pub open spec fn spec_sets_wf(
    sd: StructDef,
    l: Layout,
    data: Seq<u8>,
    order: Seq<int>,
    vals: Seq<Seq<u8>>,
) -> bool {
    &&& sd.wf_in(l)
    &&& data.len() == l.size
    &&& vals.len() == sd.fields@.len()
    &&& forall|i: int|
        0 <= i < sd.fields@.len() ==> (#[trigger] vals[i]).len() == sd.fields@[i].shape.layout.size
    &&& forall|k: int| 0 <= k < order.len() ==> 0 <= #[trigger] order[k] < sd.fields@.len()
    &&& forall|j: int, k: int| 0 <= j < k < order.len() ==> order[j] != order[k]
}

/// Whether byte `p` lies in field `i`'s range.
pub open spec fn spec_field_covers(sd: StructDef, i: int, p: int) -> bool {
    sd.fields@[i].start() <= p < sd.fields@[i].end()
}

/// Whether some write in `order` touches byte `p`.
pub open spec fn spec_covered(sd: StructDef, order: Seq<int>, p: int) -> bool {
    exists|k: int| 0 <= k < order.len() && spec_field_covers(sd, #[trigger] order[k], p)
}

/// What a run of distinct `set` writes leaves behind, byte for byte:
/// every byte of a written field's range holds that field's value bytes,
/// whatever position in the order the write had, and every other byte is
/// untouched.
pub proof fn lemma_apply_sets_bytes(
    sd: StructDef,
    l: Layout,
    data: Seq<u8>,
    order: Seq<int>,
    vals: Seq<Seq<u8>>,
)
    requires
        spec_sets_wf(sd, l, data, order, vals),
    ensures
        spec_apply_sets(sd, data, order, vals).len() == data.len(),
        forall|k: int, p: int|
            0 <= k < order.len() && #[trigger] spec_field_covers(sd, order[k], p)
                ==> spec_apply_sets(sd, data, order, vals)[p] == vals[order[k]][p - sd.fields@[order[k]].start()],
        forall|p: int|
            0 <= p < data.len() && !spec_covered(sd, order, p) ==> spec_apply_sets(
                sd,
                data,
                order,
                vals,
            )[p] == data[p],
    decreases order.len(),
{
    if order.len() > 0 {
        let i0 = order[0];
        let d1 = spec_set_write(sd, data, i0, vals);
        let rest = order.drop_first();
        assert(d1.len() == data.len());
        lemma_apply_sets_bytes(sd, l, d1, rest, vals);
        let r = spec_apply_sets(sd, data, order, vals);
        assert(r == spec_apply_sets(sd, d1, rest, vals));
        assert forall|k: int, p: int|
            0 <= k < order.len() && spec_field_covers(sd, order[k], p) implies r[p] == vals[order[k]][p - sd.fields@[order[k]].start()] by {
            if k == 0 {
                assert(!spec_covered(sd, rest, p)) by {
                    if spec_covered(sd, rest, p) {
                        let kr = choose|kr: int|
                            0 <= kr < rest.len() && spec_field_covers(sd, rest[kr], p);
                        assert(rest[kr] == order[kr + 1]);
                        assert(order[kr + 1] != i0);
                    }
                }
                assert(0 <= p < data.len());
                assert(d1[p] == vals[i0][p - sd.fields@[i0].start()]);
            } else {
                assert(rest[k - 1] == order[k]);
                assert(spec_field_covers(sd, rest[k - 1], p));
            }
        }
        assert forall|p: int|
            0 <= p < data.len() && !spec_covered(sd, order, p) implies r[p] == data[p] by {
            assert(!spec_covered(sd, rest, p)) by {
                if spec_covered(sd, rest, p) {
                    let kr = choose|kr: int|
                        0 <= kr < rest.len() && spec_field_covers(sd, rest[kr], p);
                    assert(rest[kr] == order[kr + 1]);
                }
            }
            assert(!spec_field_covers(sd, i0, p)) by {
                if spec_field_covers(sd, i0, p) {
                    assert(spec_field_covers(sd, order[0], p));
                }
            }
            assert(d1[p] == data[p]);
        }
    }
}

/// Setting a struct's fields in any order gives one and the same bytes:
/// two runs of distinct `set` writes that name the same fields with the
/// same values — two permutations of one another — leave identical
/// memory, so a value built in any field order is byte-identical to one
/// built in declaration order.
pub proof fn lemma_set_order_irrelevant(
    sd: StructDef,
    l: Layout,
    data: Seq<u8>,
    order1: Seq<int>,
    order2: Seq<int>,
    vals: Seq<Seq<u8>>,
)
    requires
        spec_sets_wf(sd, l, data, order1, vals),
        spec_sets_wf(sd, l, data, order2, vals),
        forall|i: int| order1.contains(i) <==> order2.contains(i),
    ensures
        spec_apply_sets(sd, data, order1, vals) == spec_apply_sets(sd, data, order2, vals),
{
    lemma_apply_sets_bytes(sd, l, data, order1, vals);
    lemma_apply_sets_bytes(sd, l, data, order2, vals);
    let r1 = spec_apply_sets(sd, data, order1, vals);
    let r2 = spec_apply_sets(sd, data, order2, vals);
    assert forall|p: int| 0 <= p < data.len() implies r1[p] == r2[p] by {
        if spec_covered(sd, order1, p) {
            let k1 = choose|k1: int| 0 <= k1 < order1.len() && spec_field_covers(sd, order1[k1], p);
            let i = order1[k1];
            assert(order1.contains(i));
            let k2 = choose|k2: int| 0 <= k2 < order2.len() && order2[k2] == i;
            assert(spec_field_covers(sd, order2[k2], p));
            assert(r1[p] == vals[i][p - sd.fields@[i].start()]);
            assert(r2[p] == vals[i][p - sd.fields@[i].start()]);
        } else {
            assert(!spec_covered(sd, order2, p)) by {
                if spec_covered(sd, order2, p) {
                    let k2 = choose|k2: int|
                        0 <= k2 < order2.len() && spec_field_covers(sd, order2[k2], p);
                    let i = order2[k2];
                    assert(order2.contains(i));
                    let k1 = choose|k1: int| 0 <= k1 < order1.len() && order1[k1] == i;
                    assert(spec_field_covers(sd, order1[k1], p));
                }
            }
            assert(r1[p] == data[p]);
            assert(r2[p] == data[p]);
        }
    }
    assert(r1 =~= r2);
}

/// An abandoned session destroys no field twice: the drop log it leaves
/// lists each destroyed field at one position only, since the log is
/// strictly increasing.
pub proof fn lemma_drop_log_unique(dropped: Seq<usize>)
    requires
        forall|j: int, k: int| 0 <= j < k < dropped.len() ==> dropped[j] < dropped[k],
    ensures
        forall|j: int, k: int|
            0 <= j < dropped.len() && 0 <= k < dropped.len() && dropped[j] == dropped[k] ==> j
                == k,
{
}

} // verus!

