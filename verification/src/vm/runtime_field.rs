use vstd::prelude::*;

use crate::class::constant_pool::{ConstantPool, CpEntry, cp_utf8, cp_result_matches, is_cp_error};
use crate::class::field::{FieldAccessFlags, FieldInfo, FieldModel};
use crate::error::RuntimeError;
use crate::text::owned;

verus! {

/// The number of slots a field of descriptor `d` takes: 2 for `J` and `D`.
pub open spec fn descriptor_width(d: Seq<char>) -> nat {
    if d == "J"@ || d == "D"@ {
        2
    } else {
        1
    }
}

/// A field of a loaded class with its slot in the object (or in the class's
/// static storage).
pub struct RuntimeField {
    pub name: String,
    pub descriptor: String,
    pub slot: usize,
}

/// A `RuntimeField` as name, descriptor and slot.
pub type FieldEntry = (Seq<char>, Seq<char>, nat);

impl View for RuntimeField {
    type V = FieldEntry;

    open spec fn view(&self) -> FieldEntry {
        (self.name@, self.descriptor@, self.slot as nat)
    }
}

/// Whether the access flags `flags` mark a static field.
pub open spec fn is_static_field(flags: u16) -> bool {
    flags & 0x0008 == 0x0008
}

/// The fields among the first `n` of `fields` that are static (or not, after
/// `want_static`), in order, with slots counted from `base`, and the next
/// free slot; or the first constant pool index that is not a `Utf8` entry.
pub open spec fn sp_layout(
    fields: Seq<FieldModel>,
    cp: Seq<CpEntry>,
    want_static: bool,
    base: nat,
    n: nat,
) -> Result<(Seq<FieldEntry>, nat), u16>
    decreases n,
{
    if n == 0 {
        Ok((Seq::empty(), base))
    } else {
        match sp_layout(fields, cp, want_static, base, (n - 1) as nat) {
            Err(i) => Err(i),
            Ok((xs, next)) => {
                let f = fields[n - 1];
                if is_static_field(f.access_flags) != want_static {
                    Ok((xs, next))
                } else {
                    match cp_utf8(cp, f.name_index as int) {
                        Err(i) => Err(i),
                        Ok(nm) => match cp_utf8(cp, f.descriptor_index as int) {
                            Err(i) => Err(i),
                            Ok(d) => Ok((xs.push((nm, d, next)), next + descriptor_width(d))),
                        },
                    }
                }
            },
        }
    }
}

/// Whether `d` is `J` or `D`.
pub fn is_wide_descriptor(d: &String) -> (r: bool)
    ensures
        r == (d@ == "J"@ || d@ == "D"@),
{
    *d == owned("J") || *d == owned("D")
}

/// Lays out the static (or non-static, after `want_static`) fields of
/// `fields`, slots counted from `base`.
fn layout(fields: &[FieldInfo], cp: &ConstantPool, want_static: bool, base: usize) -> (r: Result<
    (Vec<RuntimeField>, usize),
    RuntimeError,
>)
    requires
        base + 2 * fields@.len() <= usize::MAX,
    ensures
        match sp_layout(
            fields@.map_values(|f: FieldInfo| f@),
            cp@,
            want_static,
            base as nat,
            fields@.len(),
        ) {
            Ok((xs, next)) => r is Ok && r->Ok_0.0@.map_values(|f: RuntimeField| f@) == xs
                && r->Ok_0.1 == next,
            Err(i) => r is Err && is_cp_error(r->Err_0, i),
        },
{
    let ghost fm = fields@.map_values(|f: FieldInfo| f@);
    let mut out: Vec<RuntimeField> = Vec::new();
    let mut slot: usize = base;
    let mut i: usize = 0;
    proof {
        assert(out@.map_values(|f: RuntimeField| f@) =~= Seq::<FieldEntry>::empty());
    }
    while i < fields.len()
        invariant
            fm == fields@.map_values(|f: FieldInfo| f@),
            base + 2 * fields@.len() <= usize::MAX,
            i <= fields@.len(),
            base <= slot <= base + 2 * i,
            sp_layout(fm, cp@, want_static, base as nat, i as nat) == Result::<
                (Seq<FieldEntry>, nat),
                u16,
            >::Ok((out@.map_values(|f: RuntimeField| f@), slot as nat)),
        decreases fields@.len() - i,
    {
        let f = &fields[i];
        if f.access_flags.contains(FieldAccessFlags::STATIC) == want_static {
            let name = match cp.get_utf8(f.name_index) {
                Ok(n) => n,
                Err(e) => {
                    proof {
                        lemma_layout_err_persists(fm, cp@, want_static, base as nat, (i + 1) as nat, fields@.len());
                    }
                    return Err(e);
                },
            };
            let descriptor = match cp.get_utf8(f.descriptor_index) {
                Ok(d) => d,
                Err(e) => {
                    proof {
                        lemma_layout_err_persists(fm, cp@, want_static, base as nat, (i + 1) as nat, fields@.len());
                    }
                    return Err(e);
                },
            };
            let width: usize = if is_wide_descriptor(&descriptor) { 2 } else { 1 };
            let ghost before = out@;
            let field = RuntimeField { name, descriptor, slot };
            out.push(field);
            proof {
                assert(out@.map_values(|f: RuntimeField| f@) =~= before.map_values(
                    |f: RuntimeField| f@,
                ).push(field@));
            }
            slot = slot + width;
        }
        i = i + 1;
    }
    proof {
        assert(fields@.map_values(|f: FieldInfo| f@).len() == fields@.len());
    }
    Ok((out, slot))
}

/// Laying out fields gives at most one entry per field.
pub proof fn lemma_layout_len(
    fields: Seq<FieldModel>,
    cp: Seq<CpEntry>,
    want_static: bool,
    base: nat,
    n: nat,
)
    requires
        sp_layout(fields, cp, want_static, base, n) is Ok,
    ensures
        sp_layout(fields, cp, want_static, base, n)->Ok_0.0.len() <= n,
    decreases n,
{
    if n > 0 {
        lemma_layout_len(fields, cp, want_static, base, (n - 1) as nat);
    }
}

/// Once laying out `k` fields fails, laying out more fails the same way.
pub proof fn lemma_layout_err_persists(
    fields: Seq<FieldModel>,
    cp: Seq<CpEntry>,
    want_static: bool,
    base: nat,
    k: nat,
    m: nat,
)
    requires
        k <= m,
        sp_layout(fields, cp, want_static, base, k) is Err,
    ensures
        sp_layout(fields, cp, want_static, base, m) == sp_layout(fields, cp, want_static, base, k),
    decreases m - k,
{
    if k < m {
        lemma_layout_err_persists(fields, cp, want_static, base, k, (m - 1) as nat);
    }
}

impl RuntimeField {
    /// The non-static fields of `fields`, in order, with slots counted from 0
    /// (two for `long` and `double`).
    pub fn from_field_infos(fields: &[FieldInfo], constant_pool: &ConstantPool) -> (r: Result<
        Vec<Self>,
        RuntimeError,
    >)
        requires
            2 * fields@.len() <= usize::MAX,
        ensures
            cp_result_matches(
                r,
                match sp_layout(
                    fields@.map_values(|f: FieldInfo| f@),
                    constant_pool@,
                    false,
                    0,
                    fields@.len(),
                ) {
                    Ok((xs, _)) => Ok(xs),
                    Err(i) => Err(i),
                },
                |v: Vec<RuntimeField>| v@.map_values(|f: RuntimeField| f@),
            ),
    {
        let (out, _) = layout(fields, constant_pool, false, 0)?;
        Ok(out)
    }

    /// The non-static fields of `fields` with slots counted from
    /// `instance_base`, and the static ones with slots counted from 0.
    pub fn partition_field_infos(
        fields: &[FieldInfo],
        constant_pool: &ConstantPool,
        instance_base: usize,
    ) -> (r: Result<(Vec<Self>, Vec<Self>), RuntimeError>)
        requires
            instance_base + 2 * fields@.len() <= usize::MAX,
        ensures
            cp_result_matches(
                r,
                match sp_layout(
                    fields@.map_values(|f: FieldInfo| f@),
                    constant_pool@,
                    false,
                    instance_base as nat,
                    fields@.len(),
                ) {
                    Ok((xs, _)) => match sp_layout(
                        fields@.map_values(|f: FieldInfo| f@),
                        constant_pool@,
                        true,
                        0,
                        fields@.len(),
                    ) {
                        Ok((ys, _)) => Ok((xs, ys)),
                        Err(i) => Err(i),
                    },
                    Err(i) => Err(i),
                },
                |p: (Vec<RuntimeField>, Vec<RuntimeField>)|
                    (p.0@.map_values(|f: RuntimeField| f@), p.1@.map_values(|f: RuntimeField| f@)),
            ),
    {
        let (instance, _) = layout(fields, constant_pool, false, instance_base)?;
        let (statics, _) = layout(fields, constant_pool, true, 0)?;
        Ok((instance, statics))
    }
}

} // verus!
