use vstd::prelude::*;

use crate::error::{InternalError, RuntimeError};
use crate::text::owned;
use crate::vm::frame::filled;
use crate::vm::runtime_class::ClassRef;
use crate::vm::value::{ObjectRef, Value};

verus! {

/// An object on the heap: its class, its instance field slots, and for a
/// `java.lang.Class` object the class it stands for.
pub struct Object {
    pub class: ClassRef,
    pub fields: Vec<Value>,
    pub class_object: Option<ClassRef>,
    pub hash_code: i32,
}

/// The element type of an array.
#[derive(Debug, Clone, Copy, PartialEq, Eq, Structural)]
pub enum ArrayElementType {
    Boolean,
    Char,
    Float,
    Double,
    Byte,
    Short,
    Int,
    Long,
    /// An array of references to objects of the given class.
    Reference(ClassRef),
}

/// The one-letter descriptor of a primitive element type.
pub open spec fn element_descriptor(t: ArrayElementType) -> Seq<char> {
    match t {
        ArrayElementType::Boolean => seq!['Z'],
        ArrayElementType::Byte => seq!['B'],
        ArrayElementType::Char => seq!['C'],
        ArrayElementType::Short => seq!['S'],
        ArrayElementType::Int => seq!['I'],
        ArrayElementType::Long => seq!['J'],
        ArrayElementType::Float => seq!['F'],
        ArrayElementType::Double => seq!['D'],
        ArrayElementType::Reference(_) => Seq::empty(),
    }
}

/// The element type that the `atype` operand of `newarray` names
/// (JVMS 6.5 `newarray`).
pub open spec fn element_type_of(atype: u8) -> Option<ArrayElementType> {
    if atype == 4 {
        Some(ArrayElementType::Boolean)
    } else if atype == 5 {
        Some(ArrayElementType::Char)
    } else if atype == 6 {
        Some(ArrayElementType::Float)
    } else if atype == 7 {
        Some(ArrayElementType::Double)
    } else if atype == 8 {
        Some(ArrayElementType::Byte)
    } else if atype == 9 {
        Some(ArrayElementType::Short)
    } else if atype == 10 {
        Some(ArrayElementType::Int)
    } else if atype == 11 {
        Some(ArrayElementType::Long)
    } else {
        None
    }
}

/// The initial value of the elements of a new array of type `t`.
pub open spec fn zero_of(t: ArrayElementType) -> Value {
    match t {
        ArrayElementType::Float => Value::Float(0),
        ArrayElementType::Double => Value::Double(0),
        ArrayElementType::Long => Value::Long(0),
        ArrayElementType::Reference(_) => Value::Reference(None),
        _ => Value::Int(0),
    }
}

impl ArrayElementType {
    /// The field descriptor of a primitive element type (`Z`, `B`, `C`,
    /// `S`, `I`, `J`, `F` or `D`).
    pub fn descriptor(&self) -> (r: &'static str)
        requires
            !(*self is Reference),
        ensures
            r@ == element_descriptor(*self),
    {
        proof {
            reveal_strlit("Z");
            reveal_strlit("B");
            reveal_strlit("C");
            reveal_strlit("S");
            reveal_strlit("I");
            reveal_strlit("J");
            reveal_strlit("F");
            reveal_strlit("D");
        }
        match self {
            Self::Boolean => "Z",
            Self::Byte => "B",
            Self::Char => "C",
            Self::Short => "S",
            Self::Int => "I",
            Self::Long => "J",
            Self::Float => "F",
            Self::Double => "D",
            Self::Reference(_) => "",
        }
    }

    /// The element type that the `atype` operand of `newarray` names.
    pub fn try_from(value: u8) -> (r: Result<Self, ()>)
        ensures
            match element_type_of(value) {
                Some(t) => r == Ok::<ArrayElementType, ()>(t),
                None => r is Err,
            },
    {
        match value {
            4 => Ok(ArrayElementType::Boolean),
            5 => Ok(ArrayElementType::Char),
            6 => Ok(ArrayElementType::Float),
            7 => Ok(ArrayElementType::Double),
            8 => Ok(ArrayElementType::Byte),
            9 => Ok(ArrayElementType::Short),
            10 => Ok(ArrayElementType::Int),
            11 => Ok(ArrayElementType::Long),
            _ => Err(()),
        }
    }
}

/// An array on the heap. `class` is the array class where it is known.
pub struct ArrayObject {
    pub element_type: ArrayElementType,
    pub elements: Vec<Value>,
    pub class: Option<ClassRef>,
}

/// What a heap slot holds.
pub enum HeapEntry {
    Object(Object),
    Array(ArrayObject),
    /// The characters of a `java.lang.String`.
    Str(String),
}

/// An `Object` as plain values.
pub struct ObjectModel {
    pub class: ClassRef,
    pub fields: Seq<Value>,
    pub class_object: Option<ClassRef>,
    pub hash_code: i32,
}

/// A `HeapEntry` as plain values.
pub enum EntryModel {
    Object(ObjectModel),
    Array { element_type: ArrayElementType, elements: Seq<Value>, class: Option<ClassRef> },
    Str(Seq<char>),
}

impl View for Object {
    type V = ObjectModel;

    open spec fn view(&self) -> ObjectModel {
        ObjectModel {
            class: self.class,
            fields: self.fields@,
            class_object: self.class_object,
            hash_code: self.hash_code,
        }
    }
}

impl View for HeapEntry {
    type V = EntryModel;

    open spec fn view(&self) -> EntryModel {
        match self {
            HeapEntry::Object(o) => EntryModel::Object(o@),
            HeapEntry::Array(a) => EntryModel::Array {
                element_type: a.element_type,
                elements: a.elements@,
                class: a.class,
            },
            HeapEntry::Str(s) => EntryModel::Str(s@),
        }
    }
}

/// The objects, arrays and strings of the virtual machine, each at the
/// index of its `ObjectRef`; and the identity hash code that the next
/// object gets.
pub struct Heap {
    pub entries: Vec<HeapEntry>,
    pub next_identity_hash: i32,
}

impl View for Heap {
    type V = Seq<EntryModel>;

    open spec fn view(&self) -> Seq<EntryModel> {
        self.entries@.map_values(|e: HeapEntry| e@)
    }
}

/// Whether `r` reports a heap entry of the wrong kind or out of range.
pub open spec fn is_heap_error(r: RuntimeError) -> bool {
    r matches RuntimeError::Internal(InternalError::InvalidHeapEntry { .. })
}

/// Whether `r` reports a slot out of range.
pub open spec fn is_slot_error(r: RuntimeError) -> bool {
    r matches RuntimeError::Internal(InternalError::InvalidSlot)
}

/// The heap after an allocation of `e`: one more entry at the end.
pub open spec fn allocated(before: Heap, after: Heap, e: EntryModel, r: ObjectRef) -> bool {
    &&& r.0 == before@.len()
    &&& after@ == before@.push(e)
}

fn heap_error(expected: &str) -> (r: RuntimeError)
    ensures
        is_heap_error(r),
{
    RuntimeError::Internal(
        InternalError::InvalidHeapEntry { expected: owned(expected), found: owned("another entry") },
    )
}

fn copy_values(v: &[Value]) -> (r: Vec<Value>)
    ensures
        r@ == v@,
{
    let mut out: Vec<Value> = Vec::with_capacity(v.len());
    let mut i: usize = 0;
    while i < v.len()
        invariant
            i <= v@.len(),
            out@ == v@.subrange(0, i as int),
        decreases v@.len() - i,
    {
        out.push(v[i]);
        i = i + 1;
    }
    proof {
        assert(out@ =~= v@);
    }
    out
}

impl Heap {
    /// An empty heap; the first object gets identity hash 1.
    pub fn new() -> (r: Self)
        ensures
            r@.len() == 0,
            r.next_identity_hash == 1,
    {
        let r = Self { entries: Vec::new(), next_identity_hash: 1 };
        proof {
            assert(r@ =~= Seq::<EntryModel>::empty());
        }
        r
    }

    /// The number of entries.
    pub fn len(&self) -> (r: usize)
        ensures
            r == self@.len(),
    {
        self.entries.len()
    }

    fn next_hash(&mut self) -> (r: i32)
        ensures
            r == old(self).next_identity_hash,
            final(self).next_identity_hash == old(self).next_identity_hash.wrapping_add(1),
            final(self).entries == old(self).entries,
    {
        let h = self.next_identity_hash;
        self.next_identity_hash = h.wrapping_add(1);
        h
    }

    fn push_entry(&mut self, entry: HeapEntry) -> (r: ObjectRef)
        ensures
            r.0 == old(self)@.len(),
            final(self)@ == old(self)@.push(entry@),
            final(self).next_identity_hash == old(self).next_identity_hash,
    {
        let id = self.entries.len();
        self.entries.push(entry);
        proof {
            assert(self@ =~= old(self)@.push(entry@));
        }
        ObjectRef(id)
    }

    /// A new object of class `class` with `field_slot_count` empty field
    /// slots.
    pub fn allocate_object(&mut self, class: ClassRef, field_slot_count: usize) -> (r: ObjectRef)
        ensures
            allocated(
                *old(self),
                *final(self),
                EntryModel::Object(
                    ObjectModel {
                        class,
                        fields: Seq::new(field_slot_count as nat, |i: int| Value::Empty),
                        class_object: None,
                        hash_code: old(self).next_identity_hash,
                    },
                ),
                r,
            ),
            final(self).next_identity_hash == old(self).next_identity_hash.wrapping_add(1),
    {
        let hash_code = self.next_hash();
        self.push_entry(
            HeapEntry::Object(
                Object {
                    class,
                    fields: filled(Value::Empty, field_slot_count),
                    class_object: None,
                    hash_code,
                },
            ),
        )
    }

    /// A new object of class `class` whose fields start as `field_defaults`.
    pub fn allocate_object_typed(&mut self, class: ClassRef, field_defaults: &[Value]) -> (r:
        ObjectRef)
        ensures
            allocated(
                *old(self),
                *final(self),
                EntryModel::Object(
                    ObjectModel {
                        class,
                        fields: field_defaults@,
                        class_object: None,
                        hash_code: old(self).next_identity_hash,
                    },
                ),
                r,
            ),
            final(self).next_identity_hash == old(self).next_identity_hash.wrapping_add(1),
    {
        let hash_code = self.next_hash();
        self.push_entry(
            HeapEntry::Object(
                Object {
                    class,
                    fields: copy_values(field_defaults),
                    class_object: None,
                    hash_code,
                },
            ),
        )
    }

    /// A new array of `length` elements of type `element_type`, each zero
    /// (`0`, `0.0` or `null`).
    pub fn allocate_array(
        &mut self,
        class: Option<ClassRef>,
        element_type: ArrayElementType,
        length: usize,
    ) -> (r: ObjectRef)
        ensures
            allocated(
                *old(self),
                *final(self),
                EntryModel::Array {
                    element_type,
                    elements: Seq::new(length as nat, |i: int| zero_of(element_type)),
                    class,
                },
                r,
            ),
            final(self).next_identity_hash == old(self).next_identity_hash,
    {
        let fill = match element_type {
            ArrayElementType::Float => Value::Float(0),
            ArrayElementType::Double => Value::Double(0),
            ArrayElementType::Long => Value::Long(0),
            ArrayElementType::Reference(_) => Value::Reference(None),
            _ => Value::Int(0),
        };
        self.push_entry(
            HeapEntry::Array(
                ArrayObject { element_type, elements: filled(fill, length), class },
            ),
        )
    }

    /// A new `java.lang.Class` object (an object of class `class_class`)
    /// standing for `represented_class`, with `field_slot_count` empty
    /// field slots.
    pub fn allocate_class_object(
        &mut self,
        class_class: ClassRef,
        represented_class: ClassRef,
        field_slot_count: usize,
    ) -> (r: ObjectRef)
        ensures
            allocated(
                *old(self),
                *final(self),
                EntryModel::Object(
                    ObjectModel {
                        class: class_class,
                        fields: Seq::new(field_slot_count as nat, |i: int| Value::Empty),
                        class_object: Some(represented_class),
                        hash_code: old(self).next_identity_hash,
                    },
                ),
                r,
            ),
            final(self).next_identity_hash == old(self).next_identity_hash.wrapping_add(1),
    {
        let hash_code = self.next_hash();
        self.push_entry(
            HeapEntry::Object(
                Object {
                    class: class_class,
                    fields: filled(Value::Empty, field_slot_count),
                    class_object: Some(represented_class),
                    hash_code,
                },
            ),
        )
    }

    /// A new `java.lang.Class` object standing for `represented_class`,
    /// whose fields start as `field_defaults`.
    pub fn allocate_class_object_typed(
        &mut self,
        class_class: ClassRef,
        represented_class: ClassRef,
        field_defaults: &[Value],
    ) -> (r: ObjectRef)
        ensures
            allocated(
                *old(self),
                *final(self),
                EntryModel::Object(
                    ObjectModel {
                        class: class_class,
                        fields: field_defaults@,
                        class_object: Some(represented_class),
                        hash_code: old(self).next_identity_hash,
                    },
                ),
                r,
            ),
            final(self).next_identity_hash == old(self).next_identity_hash.wrapping_add(1),
    {
        let hash_code = self.next_hash();
        self.push_entry(
            HeapEntry::Object(
                Object {
                    class: class_class,
                    fields: copy_values(field_defaults),
                    class_object: Some(represented_class),
                    hash_code,
                },
            ),
        )
    }

    /// A new string with the characters of `s`.
    pub fn allocate_string(&mut self, s: String) -> (r: ObjectRef)
        ensures
            allocated(*old(self), *final(self), EntryModel::Str(s@), r),
            final(self).next_identity_hash == old(self).next_identity_hash,
    {
        self.push_entry(HeapEntry::Str(s))
    }

    /// The entry of `r`.
    pub fn get(&self, r: ObjectRef) -> (e: Result<&HeapEntry, RuntimeError>)
        ensures
            r.0 < self@.len() ==> e is Ok && e->Ok_0@ == self@[r.0 as int],
            r.0 >= self@.len() ==> e is Err && is_heap_error(e->Err_0),
    {
        if r.0 < self.entries.len() {
            Ok(&self.entries[r.0])
        } else {
            Err(heap_error("valid ObjectRef"))
        }
    }

    /// Runs `f` on the object at `r`, and gives what it gives.
    pub fn with_object<T, G: FnOnce(&Object) -> Result<T, RuntimeError>>(&self, r: ObjectRef, f: G) -> (res:
        Result<T, RuntimeError>)
        requires
            r.0 < self.entries@.len() && self.entries@[r.0 as int] is Object ==> f.requires(
                (&self.entries@[r.0 as int]->Object_0,),
            ),
        ensures
            r.0 < self.entries@.len() && self.entries@[r.0 as int] is Object ==> f.ensures(
                (&self.entries@[r.0 as int]->Object_0,),
                res,
            ),
            !(r.0 < self.entries@.len() && self.entries@[r.0 as int] is Object) ==> res is Err
                && is_heap_error(res->Err_0),
    {
        if r.0 >= self.entries.len() {
            return Err(heap_error("HeapEntry::Object"));
        }
        match &self.entries[r.0] {
            HeapEntry::Object(o) => f(o),
            _ => Err(heap_error("HeapEntry::Object")),
        }
    }

    /// Runs `f` on the array at `r`, and gives what it gives.
    pub fn with_array<T, G: FnOnce(&ArrayObject) -> Result<T, RuntimeError>>(&self, r: ObjectRef, f: G) -> (res:
        Result<T, RuntimeError>)
        requires
            r.0 < self.entries@.len() && self.entries@[r.0 as int] is Array ==> f.requires(
                (&self.entries@[r.0 as int]->Array_0,),
            ),
        ensures
            r.0 < self.entries@.len() && self.entries@[r.0 as int] is Array ==> f.ensures(
                (&self.entries@[r.0 as int]->Array_0,),
                res,
            ),
            !(r.0 < self.entries@.len() && self.entries@[r.0 as int] is Array) ==> res is Err
                && is_heap_error(res->Err_0),
    {
        if r.0 >= self.entries.len() {
            return Err(heap_error("HeapEntry::Array"));
        }
        match &self.entries[r.0] {
            HeapEntry::Array(a) => f(a),
            _ => Err(heap_error("HeapEntry::Array")),
        }
    }

    /// The object at `r`.
    pub fn get_object(&self, r: ObjectRef) -> (o: Result<&Object, RuntimeError>)
        ensures
            (r.0 < self@.len() && self@[r.0 as int] is Object) ==> o is Ok && o->Ok_0@
                == self@[r.0 as int]->Object_0,
            !(r.0 < self@.len() && self@[r.0 as int] is Object) ==> o is Err && is_heap_error(
                o->Err_0,
            ),
    {
        if r.0 < self.entries.len() {
            match &self.entries[r.0] {
                HeapEntry::Object(o) => {
                    return Ok(o);
                },
                _ => {},
            }
        }
        Err(heap_error("HeapEntry::Object"))
    }

    /// The array at `r`.
    pub fn get_array(&self, r: ObjectRef) -> (a: Result<&ArrayObject, RuntimeError>)
        ensures
            (r.0 < self@.len() && self@[r.0 as int] is Array) ==> a is Ok && ({
                let e = self@[r.0 as int];
                &&& a->Ok_0.element_type == e->element_type
                &&& a->Ok_0.elements@ == e->elements
                &&& a->Ok_0.class == e->Array_class
            }),
            !(r.0 < self@.len() && self@[r.0 as int] is Array) ==> a is Err && is_heap_error(
                a->Err_0,
            ),
    {
        if r.0 < self.entries.len() {
            match &self.entries[r.0] {
                HeapEntry::Array(a) => {
                    return Ok(a);
                },
                _ => {},
            }
        }
        Err(heap_error("HeapEntry::Array"))
    }

    /// The characters of the string at `r`.
    pub fn get_string(&self, r: ObjectRef) -> (s: Result<&String, RuntimeError>)
        ensures
            (r.0 < self@.len() && self@[r.0 as int] is Str) ==> s is Ok && s->Ok_0@
                == self@[r.0 as int]->Str_0,
            !(r.0 < self@.len() && self@[r.0 as int] is Str) ==> s is Err && is_heap_error(
                s->Err_0,
            ),
    {
        if r.0 < self.entries.len() {
            match &self.entries[r.0] {
                HeapEntry::Str(s) => {
                    return Ok(s);
                },
                _ => {},
            }
        }
        Err(heap_error("HeapEntry::Str"))
    }

    /// The class that the `java.lang.Class` object at `r` stands for.
    pub fn get_class_object(&self, r: ObjectRef) -> (c: Result<ClassRef, RuntimeError>)
        ensures
            match heap_object(self@, r) {
                Some(o) => match o.class_object {
                    Some(k) => c == Ok::<ClassRef, RuntimeError>(k),
                    None => c is Err && is_heap_error(c->Err_0),
                },
                None => c is Err && is_heap_error(c->Err_0),
            },
    {
        let o = self.get_object(r)?;
        match o.class_object {
            Some(k) => Ok(k),
            None => Err(heap_error("java.lang.Class object")),
        }
    }

    /// The class of the object or the array at `r`; `None` for an array
    /// made without a known class.
    pub fn class_of(&self, r: ObjectRef) -> (c: Result<Option<ClassRef>, RuntimeError>)
        ensures
            r.0 < self@.len() && self@[r.0 as int] is Object ==> c == Ok::<
                Option<ClassRef>,
                RuntimeError,
            >(Some(self@[r.0 as int]->Object_0.class)),
            r.0 < self@.len() && self@[r.0 as int] is Array ==> c == Ok::<
                Option<ClassRef>,
                RuntimeError,
            >(self@[r.0 as int]->Array_class),
            !(r.0 < self@.len() && (self@[r.0 as int] is Object || self@[r.0 as int] is Array))
                ==> c is Err && is_heap_error(c->Err_0),
    {
        match self.get(r)? {
            HeapEntry::Object(o) => Ok(Some(o.class)),
            HeapEntry::Array(a) => Ok(a.class),
            HeapEntry::Str(_) => Err(heap_error("HeapEntry::Object or HeapEntry::Array")),
        }
    }

    /// Field slot `slot` of the object at `r`.
    pub fn get_field(&self, r: ObjectRef, slot: usize) -> (v: Result<Value, RuntimeError>)
        ensures
            match heap_object(self@, r) {
                Some(o) => if slot < o.fields.len() {
                    v == Ok::<Value, RuntimeError>(o.fields[slot as int])
                } else {
                    v is Err && is_slot_error(v->Err_0)
                },
                None => v is Err && is_heap_error(v->Err_0),
            },
    {
        let o = self.get_object(r)?;
        if slot < o.fields.len() {
            Ok(o.fields[slot])
        } else {
            Err(RuntimeError::Internal(InternalError::InvalidSlot))
        }
    }

    /// Sets field slot `slot` of the object at `r` to `value`.
    pub fn set_field(&mut self, r: ObjectRef, slot: usize, value: Value) -> (res: Result<
        (),
        RuntimeError,
    >)
        ensures
            final(self).next_identity_hash == old(self).next_identity_hash,
            match heap_object(old(self)@, r) {
                Some(o) => if slot < o.fields.len() {
                    res is Ok && final(self)@ == field_written(old(self)@, r, slot, value)
                } else {
                    res is Err && is_slot_error(res->Err_0) && final(self)@ == old(self)@
                },
                None => res is Err && is_heap_error(res->Err_0) && final(self)@ == old(self)@,
            },
    {
        if r.0 >= self.entries.len() {
            return Err(heap_error("HeapEntry::Object"));
        }
        let ghost before = self@;
        match &mut self.entries[r.0] {
            HeapEntry::Object(o) => {
                if slot < o.fields.len() {
                    o.fields.set(slot, value);
                } else {
                    return Err(RuntimeError::Internal(InternalError::InvalidSlot));
                }
            },
            _ => {
                return Err(heap_error("HeapEntry::Object"));
            },
        }
        proof {
            assert(self@ =~= before.update(r.0 as int, self.entries@[r.0 as int]@));
        }
        Ok(())
    }

    /// Element `index` of the array at `r`: `Ok(Err(len))` where the index
    /// is out of the array's bounds.
    pub fn array_get(&self, r: ObjectRef, index: usize) -> (v: Result<
        Result<Value, usize>,
        RuntimeError,
    >)
        ensures
            match heap_array(self@, r) {
                Some((t, els)) => if index < els.len() {
                    v == Ok::<Result<Value, usize>, RuntimeError>(Ok(els[index as int]))
                } else {
                    v == Ok::<Result<Value, usize>, RuntimeError>(Err(els.len() as usize))
                },
                None => v is Err && is_heap_error(v->Err_0),
            },
    {
        let a = self.get_array(r)?;
        if index < a.elements.len() {
            Ok(Ok(a.elements[index]))
        } else {
            Ok(Err(a.elements.len()))
        }
    }

    /// The length of the array at `r`.
    pub fn array_len(&self, r: ObjectRef) -> (v: Result<usize, RuntimeError>)
        ensures
            match heap_array(self@, r) {
                Some((t, els)) => v == Ok::<usize, RuntimeError>(els.len() as usize) && els.len()
                    <= usize::MAX,
                None => v is Err && is_heap_error(v->Err_0),
            },
    {
        let a = self.get_array(r)?;
        Ok(a.elements.len())
    }

    /// Sets element `index` of the array at `r` to `value`.
    pub fn array_set(&mut self, r: ObjectRef, index: usize, value: Value) -> (res: Result<
        (),
        RuntimeError,
    >)
        ensures
            final(self).next_identity_hash == old(self).next_identity_hash,
            match heap_array(old(self)@, r) {
                Some((t, els)) => if index < els.len() {
                    res is Ok && final(self)@ == element_written(old(self)@, r, index, value)
                } else {
                    res is Err && is_slot_error(res->Err_0) && final(self)@ == old(self)@
                },
                None => res is Err && is_heap_error(res->Err_0) && final(self)@ == old(self)@,
            },
    {
        if r.0 >= self.entries.len() {
            return Err(heap_error("HeapEntry::Array"));
        }
        let ghost before = self@;
        match &mut self.entries[r.0] {
            HeapEntry::Array(a) => {
                if index < a.elements.len() {
                    a.elements.set(index, value);
                } else {
                    return Err(RuntimeError::Internal(InternalError::InvalidSlot));
                }
            },
            _ => {
                return Err(heap_error("HeapEntry::Array"));
            },
        }
        proof {
            assert(self@ =~= before.update(r.0 as int, self.entries@[r.0 as int]@));
        }
        Ok(())
    }
}

/// The object at `r` in heap `h`, where there is one.
pub open spec fn heap_object(h: Seq<EntryModel>, r: ObjectRef) -> Option<ObjectModel> {
    if r.0 < h.len() && h[r.0 as int] is Object {
        Some(h[r.0 as int]->Object_0)
    } else {
        None
    }
}

/// The element type and elements of the array at `r` in heap `h`, where
/// there is one.
pub open spec fn heap_array(h: Seq<EntryModel>, r: ObjectRef) -> Option<
    (ArrayElementType, Seq<Value>),
> {
    if r.0 < h.len() && h[r.0 as int] is Array {
        Some((h[r.0 as int]->element_type, h[r.0 as int]->elements))
    } else {
        None
    }
}

/// Whether heap `b` holds every entry of heap `a` as it was, and maybe
/// more after them.
pub open spec fn entries_kept(a: Seq<EntryModel>, b: Seq<EntryModel>) -> bool {
    &&& a.len() <= b.len()
    &&& forall|i: int| 0 <= i < a.len() ==> #[trigger] b[i] == a[i]
}

/// The heap `h` after field `slot` of the object at `r` is set to `v`, as
/// `set_field` leaves it.
pub open spec fn field_written(h: Seq<EntryModel>, r: ObjectRef, slot: usize, v: Value) -> Seq<EntryModel> {
    let o = heap_object(h, r)->Some_0;
    h.update(r.0 as int, EntryModel::Object(ObjectModel { fields: o.fields.update(slot as int, v), ..o }))
}

/// A field that was written reads back as the value written; the object's
/// other fields, its class, and the other heap entries stay as they were.
pub proof fn lemma_field_write_then_read(h: Seq<EntryModel>, r: ObjectRef, slot: usize, v: Value, other: usize)
    requires
        heap_object(h, r) is Some,
        slot < heap_object(h, r)->Some_0.fields.len(),
    ensures
        heap_object(field_written(h, r, slot, v), r) matches Some(o) && o.fields[slot as int] == v
            && o.fields.len() == heap_object(h, r)->Some_0.fields.len() && o.class == heap_object(
            h,
            r,
        )->Some_0.class,
        other != slot && other < heap_object(h, r)->Some_0.fields.len() ==> heap_object(
            field_written(h, r, slot, v),
            r,
        )->Some_0.fields[other as int] == heap_object(h, r)->Some_0.fields[other as int],
        field_written(h, r, slot, v).len() == h.len(),
        forall|i: int| 0 <= i < h.len() && i != r.0 ==> #[trigger] field_written(h, r, slot, v)[i] == h[i],
{
}

/// The heap `h` after element `index` of the array at `r` is set to `v`, as
/// `array_set` leaves it.
pub open spec fn element_written(h: Seq<EntryModel>, r: ObjectRef, index: usize, v: Value) -> Seq<EntryModel> {
    let (t, els) = heap_array(h, r)->Some_0;
    h.update(
        r.0 as int,
        EntryModel::Array { element_type: t, elements: els.update(index as int, v), class: h[r.0 as int]->Array_class },
    )
}

/// An array element that was written reads back as the value written; the
/// array's length, element type and other elements, and the other heap
/// entries stay as they were.
pub proof fn lemma_element_write_then_read(h: Seq<EntryModel>, r: ObjectRef, index: usize, v: Value, other: usize)
    requires
        heap_array(h, r) is Some,
        index < heap_array(h, r)->Some_0.1.len(),
    ensures
        heap_array(element_written(h, r, index, v), r) matches Some((t, els)) && els[index as int] == v
            && els.len() == heap_array(h, r)->Some_0.1.len() && t == heap_array(h, r)->Some_0.0,
        other != index && other < heap_array(h, r)->Some_0.1.len() ==> heap_array(
            element_written(h, r, index, v),
            r,
        )->Some_0.1[other as int] == heap_array(h, r)->Some_0.1[other as int],
        element_written(h, r, index, v).len() == h.len(),
        forall|i: int| 0 <= i < h.len() && i != r.0 ==> #[trigger] element_written(h, r, index, v)[i] == h[i],
{
}

/// A new object can be read back from its reference: its class and fields
/// are those it was made with, and no other entry changes.
pub proof fn lemma_allocate_then_get(before: Heap, after: Heap, e: EntryModel, r: ObjectRef)
    requires
        allocated(before, after, e, r),
    ensures
        r.0 < after@.len(),
        after@[r.0 as int] == e,
        forall|i: int| 0 <= i < before@.len() ==> after@[i] == before@[i],
{
}

} // verus!
