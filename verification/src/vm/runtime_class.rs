use vstd::prelude::*;

use crate::class::class_file::ClassFile;
use crate::class::constant_pool::{ConstantPool, CpEntry, cp_class_name, is_cp_error};
use crate::class::field::FieldInfo;
use crate::class::method::{MethodInfo, MethodModel};
use crate::error::RuntimeError;
use crate::text::{owned, str_eq};
use crate::vm::runtime_field::{
    FieldEntry,
    RuntimeField,
    descriptor_width,
    is_wide_descriptor,
    sp_layout,
};
use crate::vm::runtime_method::{MethodView, RuntimeMethod, body_of, code_handlers};
use crate::class::constant_pool::cp_utf8;

verus! {

/// The index of a loaded class in the virtual machine.
#[derive(Debug, Clone, Copy, PartialEq, Eq, Hash, Structural)]
pub struct ClassRef(pub usize);

/// A loaded class.
pub struct RuntimeClass {
    pub name: String,
    pub super_class: Option<ClassRef>,
    pub interfaces: Vec<ClassRef>,
    pub methods: Vec<RuntimeMethod>,
    pub constant_pool: ConstantPool,
    pub instance_fields: Vec<RuntimeField>,
    pub static_fields: Vec<RuntimeField>,
    /// The first instance slot of this class's own fields: the slots below
    /// belong to its superclasses.
    pub field_base_slot: usize,
}

/// The views of a class's methods.
pub open spec fn method_views(c: RuntimeClass) -> Seq<MethodView> {
    c.methods@.map_values(|m: RuntimeMethod| m@)
}

/// The views of a list of fields.
pub open spec fn field_views(fs: Seq<RuntimeField>) -> Seq<FieldEntry> {
    fs.map_values(|f: RuntimeField| f@)
}

/// Whether method `m` has name `name` and descriptor `d`.
pub open spec fn method_matches(m: MethodView, name: Seq<char>, d: Seq<char>) -> bool {
    m.name == name && m.descriptor == d
}

/// The first index in `ms` of a method with name `name` and descriptor `d`.
pub open spec fn first_method(ms: Seq<MethodView>, name: Seq<char>, d: Seq<char>) -> Option<nat> {
    if exists|i: int| 0 <= i < ms.len() && method_matches(ms[i], name, d) {
        Some(
            choose|i: nat|
                i < ms.len() && method_matches(ms[i as int], name, d) && forall|j: int|
                    0 <= j < i ==> !method_matches(#[trigger] ms[j], name, d),
        )
    } else {
        None
    }
}

/// The first index in `fs` of a field named `name`.
pub open spec fn first_field(fs: Seq<FieldEntry>, name: Seq<char>) -> Option<nat> {
    if exists|i: int| 0 <= i < fs.len() && fs[i].0 == name {
        Some(
            choose|i: nat|
                i < fs.len() && fs[i as int].0 == name && forall|j: int|
                    0 <= j < i ==> (#[trigger] fs[j]).0 != name,
        )
    } else {
        None
    }
}

/// The slots taken by fields `fs`: two for `J` and `D`, one for the others.
pub open spec fn fields_slots(fs: Seq<FieldEntry>) -> nat
    decreases fs.len(),
{
    if fs.len() == 0 {
        0
    } else {
        fields_slots(fs.drop_last()) + descriptor_width(fs.last().1)
    }
}

/// The methods that the first `n` of `ms` become when loaded as class `c`.
pub open spec fn load_methods(ms: Seq<MethodModel>, cp: Seq<CpEntry>, c: ClassRef, n: nat) -> Result<
    Seq<MethodView>,
    LoadError,
>
    decreases n,
{
    if n == 0 {
        Ok(Seq::empty())
    } else {
        match load_methods(ms, cp, c, (n - 1) as nat) {
            Err(e) => Err(e),
            Ok(vs) => match load_method(ms[n - 1], cp, c) {
                Ok(v) => Ok(vs.push(v)),
                Err(e) => Err(e),
            },
        }
    }
}

/// Why a method or class cannot be loaded: a bad constant pool index, or a
/// method (named here) with no code.
pub enum LoadError {
    BadIndex(u16),
    NoCode(Seq<char>),
}

/// The method that `m` becomes when loaded as part of class `c`.
pub open spec fn load_method(m: MethodModel, cp: Seq<CpEntry>, c: ClassRef) -> Result<
    MethodView,
    LoadError,
> {
    match cp_utf8(cp, m.name_index as int) {
        Err(i) => Err(LoadError::BadIndex(i)),
        Ok(name) => match cp_utf8(cp, m.descriptor_index as int) {
            Err(i) => Err(LoadError::BadIndex(i)),
            Ok(d) => match body_of(m) {
                None => Err(LoadError::NoCode(name)),
                Some((s, l, b)) => match code_handlers(cp, m.attributes, m.attributes.len()) {
                    Err(i) => Err(LoadError::BadIndex(i)),
                    Ok(hs) => Ok(
                        MethodView {
                            name,
                            descriptor: d,
                            class: c,
                            access: m.access_flags,
                            max_stack: s,
                            max_locals: l,
                            body: b,
                            handlers: hs,
                        },
                    ),
                },
            },
        },
    }
}

/// Whether `r` is the error that `e` describes.
pub open spec fn is_load_error(r: RuntimeError, e: LoadError) -> bool {
    match e {
        LoadError::BadIndex(i) => is_cp_error(r, i),
        LoadError::NoCode(name) => crate::vm::runtime_method::is_no_code_error(r, name),
    }
}

/// Once loading `k` methods fails, loading more fails the same way.
proof fn lemma_load_err_persists(ms: Seq<MethodModel>, cp: Seq<CpEntry>, c: ClassRef, k: nat, m: nat)
    requires
        k <= m,
        load_methods(ms, cp, c, k) is Err,
    ensures
        load_methods(ms, cp, c, m) == load_methods(ms, cp, c, k),
    decreases m - k,
{
    if k < m {
        lemma_load_err_persists(ms, cp, c, k, (m - 1) as nat);
    }
}

/// What loading a class file gives: name, instance fields, static fields
/// and methods; or the first error.
pub open spec fn load_class_parts(
    cf: crate::class::class_file::ClassFileModel,
    base: nat,
    c: ClassRef,
) -> Result<(Seq<char>, Seq<FieldEntry>, Seq<FieldEntry>, Seq<MethodView>), LoadError> {
    let cp = cf.constant_pool;
    match cp_class_name(cp, cf.this_class as int) {
        Err(i) => Err(LoadError::BadIndex(i)),
        Ok(name) => match sp_layout(cf.fields, cp, false, base, cf.fields.len()) {
            Err(i) => Err(LoadError::BadIndex(i)),
            Ok((inst, _)) => match sp_layout(cf.fields, cp, true, 0, cf.fields.len()) {
                Err(i) => Err(LoadError::BadIndex(i)),
                Ok((stat, _)) => match load_methods(cf.methods, cp, c, cf.methods.len()) {
                    Err(e) => Err(e),
                    Ok(ms) => Ok((name, inst, stat, ms)),
                },
            },
        },
    }
}

impl RuntimeClass {
    /// A class named `name` with the given superclass and nothing else.
    pub fn new(name: String, super_class: Option<ClassRef>) -> (r: Self)
        ensures
            r.name@ == name@,
            r.super_class == super_class,
            r.interfaces@.len() == 0,
            r.methods@.len() == 0,
            r.constant_pool@.len() == 0,
            r.instance_fields@.len() == 0,
            r.static_fields@.len() == 0,
            r.field_base_slot == 0,
    {
        Self {
            name,
            super_class,
            interfaces: Vec::new(),
            methods: Vec::new(),
            constant_pool: ConstantPool::new(),
            instance_fields: Vec::new(),
            static_fields: Vec::new(),
            field_base_slot: 0,
        }
    }

    /// The class of a primitive type (`int`, `void`, ...): named `name`,
    /// without superclass, members or fields.
    pub fn primitive(name: &str) -> (r: Self)
        ensures
            r.name@ == name@,
            r.super_class is None,
            r.interfaces@.len() == 0,
            r.methods@.len() == 0,
            r.constant_pool@.len() == 0,
            r.instance_fields@.len() == 0,
            r.static_fields@.len() == 0,
            r.field_base_slot == 0,
    {
        Self::new(owned(name), None)
    }

    /// The class that `class_file` becomes once loaded as class `class_ref`,
    /// with the given superclass and interfaces, its own instance fields
    /// starting at slot `field_base_slot`.
    pub fn from_class_file(
        class_file: &ClassFile,
        super_class: Option<ClassRef>,
        class_ref: ClassRef,
        field_base_slot: usize,
        interfaces: Vec<ClassRef>,
    ) -> (r: Result<Self, RuntimeError>)
        requires
            field_base_slot + 2 * class_file.fields@.len() <= usize::MAX,
        ensures
            match load_class_parts(class_file@, field_base_slot as nat, class_ref) {
                Err(e) => r is Err && is_load_error(r->Err_0, e),
                Ok((name, inst, stat, ms)) => r is Ok && {
                    let c = r->Ok_0;
                    &&& c.name@ == name
                    &&& c.super_class == super_class
                    &&& c.interfaces@ == interfaces@
                    &&& c.constant_pool@ == class_file.constant_pool@
                    &&& field_views(c.instance_fields@) == inst
                    &&& field_views(c.static_fields@) == stat
                    &&& method_views(c) == ms
                    &&& c.field_base_slot == field_base_slot
                },
            },
    {
        let name = class_file.constant_pool.get_class_name(class_file.this_class)?;
        let (instance_fields, static_fields) = RuntimeField::partition_field_infos(
            class_file.fields.as_slice(),
            &class_file.constant_pool,
            field_base_slot,
        )?;
        proof {
            assert(field_views(instance_fields@) =~= instance_fields@.map_values(|f: RuntimeField| f@));
        }
        let mut methods: Vec<RuntimeMethod> = Vec::with_capacity(class_file.methods.len());
        let ghost ms = class_file@.methods;
        let ghost cp = class_file.constant_pool@;
        let mut i: usize = 0;
        proof {
            assert(methods@.map_values(|m: RuntimeMethod| m@) =~= Seq::<MethodView>::empty());
        }
        while i < class_file.methods.len()
            invariant
                ms == class_file@.methods,
                ms == class_file.methods@.map_values(|m: MethodInfo| m@),
                cp == class_file.constant_pool@,
                cp_class_name(cp, class_file@.this_class as int) == Ok::<Seq<char>, u16>(name@),
                sp_layout(class_file@.fields, cp, false, field_base_slot as nat, class_file@.fields.len()) is Ok,
                sp_layout(class_file@.fields, cp, false, field_base_slot as nat, class_file@.fields.len())->Ok_0.0
                    == field_views(instance_fields@),
                sp_layout(class_file@.fields, cp, true, 0, class_file@.fields.len()) is Ok,
                sp_layout(class_file@.fields, cp, true, 0, class_file@.fields.len())->Ok_0.0
                    == field_views(static_fields@),
                i <= class_file.methods@.len(),
                load_methods(ms, cp, class_ref, i as nat) is Ok,
                methods@.map_values(|m: RuntimeMethod| m@) == load_methods(
                    ms,
                    cp,
                    class_ref,
                    i as nat,
                )->Ok_0,
            decreases class_file.methods@.len() - i,
        {
            proof {
                assert(ms[i as int] == class_file.methods@[i as int]@);
            }
            let m = match RuntimeMethod::from_method_info(
                &class_file.methods[i],
                class_ref,
                &class_file.constant_pool,
                name.as_str(),
            ) {
                Ok(m) => m,
                Err(e) => {
                    proof {
                        lemma_load_err_persists(ms, cp, class_ref, (i + 1) as nat, ms.len());
                    }
                    return Err(e);
                },
            };
            let ghost before = methods@;
            methods.push(m);
            proof {
                assert(methods@.map_values(|m: RuntimeMethod| m@) =~= before.map_values(
                    |m: RuntimeMethod| m@,
                ).push(m@));
            }
            i = i + 1;
        }
        proof {
            assert(ms.len() == class_file.methods@.len());
        }
        Ok(
            Self {
                name,
                super_class,
                interfaces,
                methods,
                constant_pool: class_file.constant_pool.duplicate(),
                instance_fields,
                static_fields,
                field_base_slot,
            },
        )
    }

    /// The index of the first method named `name` with descriptor
    /// `descriptor`.
    pub fn find_method(&self, name: &str, descriptor: &str) -> (r: Option<usize>)
        ensures
            r matches Some(i) ==> first_method(method_views(*self), name@, descriptor@) == Some(
                i as nat,
            ) && i < self.methods@.len(),
            r is None ==> first_method(method_views(*self), name@, descriptor@) is None,
    {
        let ghost ms = method_views(*self);
        let mut i: usize = 0;
        while i < self.methods.len()
            invariant
                ms == method_views(*self),
                i <= self.methods@.len(),
                forall|j: int| 0 <= j < i ==> !method_matches(#[trigger] ms[j], name@, descriptor@),
            decreases self.methods@.len() - i,
        {
            let m = &self.methods[i];
            proof {
                assert(ms[i as int] == m@);
            }
            if str_eq(m.name.as_str(), name) && str_eq(m.descriptor.as_str(), descriptor) {
                proof {
                    assert(method_matches(ms[i as int], name@, descriptor@));
                    let k = choose|k: nat|
                        k < ms.len() && method_matches(ms[k as int], name@, descriptor@)
                            && forall|j: int|
                            0 <= j < k ==> !method_matches(#[trigger] ms[j], name@, descriptor@);
                    assert(i as nat == k) by {
                        if k < i {
                            assert(!method_matches(ms[k as int], name@, descriptor@));
                        }
                        if k > i {
                            assert(!method_matches(ms[i as int], name@, descriptor@));
                        }
                    }
                }
                return Some(i);
            }
            i = i + 1;
        }
        None
    }

    /// The instance field of this class (not its superclasses) named
    /// `name`, the first where there are several.
    pub fn find_field(&self, name: &str) -> (r: Option<&RuntimeField>)
        ensures
            match first_field(field_views(self.instance_fields@), name@) {
                Some(i) => r is Some && i < self.instance_fields@.len() && r->Some_0@ == field_views(
                    self.instance_fields@,
                )[i as int] && *r->Some_0 == self.instance_fields@[i as int],
                None => r is None,
            },
    {
        find_named(&self.instance_fields, name)
    }

    /// The static field of this class named `name`, the first where there
    /// are several.
    pub fn find_static_field(&self, name: &str) -> (r: Option<&RuntimeField>)
        ensures
            match first_field(field_views(self.static_fields@), name@) {
                Some(i) => r is Some && i < self.static_fields@.len() && r->Some_0@ == field_views(
                    self.static_fields@,
                )[i as int] && *r->Some_0 == self.static_fields@[i as int],
                None => r is None,
            },
    {
        find_named(&self.static_fields, name)
    }

    /// The slots that this class's own instance fields take.
    pub fn instance_slot_count(&self) -> (r: usize)
        requires
            2 * self.instance_fields@.len() <= usize::MAX,
        ensures
            r == fields_slots(field_views(self.instance_fields@)),
            r <= 2 * self.instance_fields@.len(),
    {
        count_slots(&self.instance_fields)
    }

    /// The slots that the instance fields of this class and its
    /// superclasses take.
    pub fn total_instance_slot_count(&self) -> (r: usize)
        requires
            self.field_base_slot + 2 * self.instance_fields@.len() <= usize::MAX,
        ensures
            r == self.field_base_slot + fields_slots(field_views(self.instance_fields@)),
    {
        self.field_base_slot + self.instance_slot_count()
    }

    /// The slots that this class's static fields take.
    pub fn static_slot_count(&self) -> (r: usize)
        requires
            2 * self.static_fields@.len() <= usize::MAX,
        ensures
            r == fields_slots(field_views(self.static_fields@)),
    {
        count_slots(&self.static_fields)
    }
}

/// The first of `fields` named `name`.
fn find_named<'a>(fields: &'a Vec<RuntimeField>, name: &str) -> (r: Option<&'a RuntimeField>)
    ensures
        match first_field(field_views(fields@), name@) {
            Some(i) => r is Some && i < fields@.len() && r->Some_0@ == field_views(fields@)[i as int]
                && *r->Some_0 == fields@[i as int],
            None => r is None,
        },
{
    let ghost fs = field_views(fields@);
    let mut i: usize = 0;
    while i < fields.len()
        invariant
            fs == field_views(fields@),
            i <= fields@.len(),
            forall|j: int| 0 <= j < i ==> (#[trigger] fs[j]).0 != name@,
        decreases fields@.len() - i,
    {
        let f = &fields[i];
        proof {
            assert(fs[i as int] == f@);
        }
        if str_eq(f.name.as_str(), name) {
            proof {
                let k = choose|k: nat|
                    k < fs.len() && fs[k as int].0 == name@ && forall|j: int|
                        0 <= j < k ==> (#[trigger] fs[j]).0 != name@;
                assert(fs[i as int].0 == name@);
                assert(i as nat == k) by {
                    if k < i {
                        assert(fs[k as int].0 != name@);
                    }
                    if k > i {
                        assert(fs[i as int].0 != name@);
                    }
                }
            }
            return Some(f);
        }
        i = i + 1;
    }
    None
}

/// The slots that `fields` take.
fn count_slots(fields: &Vec<RuntimeField>) -> (r: usize)
    requires
        2 * fields@.len() <= usize::MAX,
    ensures
        r == fields_slots(field_views(fields@)),
        r <= 2 * fields@.len(),
{
    let ghost fs = field_views(fields@);
    let mut total: usize = 0;
    let mut i: usize = 0;
    while i < fields.len()
        invariant
            fs == field_views(fields@),
            2 * fields@.len() <= usize::MAX,
            i <= fields@.len(),
            total == fields_slots(fs.subrange(0, i as int)),
            total <= 2 * i,
        decreases fields@.len() - i,
    {
        proof {
            assert(fs.subrange(0, i + 1).drop_last() =~= fs.subrange(0, i as int));
            assert(fs[i as int] == fields@[i as int]@);
        }
        let w: usize = if is_wide_descriptor(&fields[i].descriptor) {
            2
        } else {
            1
        };
        total = total + w;
        i = i + 1;
    }
    proof {
        assert(fs.subrange(0, fields@.len() as int) =~= fs);
    }
    total
}

} // verus!
