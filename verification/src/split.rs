//! Splitting a module in two: the module without what only a debugger
//! reads, under a build id, and a module that holds what was taken out.

use crate::ast::{
    CustomSection, CustomSectionV, Module, ModuleV, Section, SectionV, Value, lemma_plain_view,
};
use crate::traverse::{WasmModule, reversed};
use vstd::prelude::*;
use vstd::slice::slice_to_vec;

verus! {

/// Whether a section is copied to the debug module: one of the types, the
/// imports, the functions, the tables, the memories or the globals.
pub open spec fn is_copied(v: SectionV) -> bool {
    v is Type || v is Import || v is Func || v is Table || v is Memory || v is Global
}

/// Whether a section is moved to the debug module: a custom section of the
/// names, or one that the decoder does not know.
pub open spec fn is_moved(v: SectionV) -> bool {
    match v {
        SectionV::Custom(_, CustomSectionV::Unknown(..)) => true,
        SectionV::Custom(_, CustomSectionV::Name(_)) => true,
        _ => false,
    }
}

/// A custom section that was added, not read: its size is not known yet.
pub open spec fn added_custom(c: CustomSectionV) -> SectionV {
    SectionV::Custom(Value { value: 0, start_offset: 0, end_offset: 0 }, c)
}

/// The module of the copies of the first `n` of the sections `s`, each put
/// in its place.
pub open spec fn copies(s: Seq<Value<SectionV>>, n: nat) -> ModuleV
    decreases n,
{
    if n == 0 || n > s.len() {
        ModuleV { sections: Seq::empty() }
    } else if is_copied(s[n - 1].value) {
        copies(s, (n - 1) as nat).add_section(s[n - 1].value)
    } else {
        copies(s, (n - 1) as nat)
    }
}

/// The debug module once the first `n` of the sections `s` were gone
/// through: the copies, and the custom sections that were moved, each put
/// in its place.
pub open spec fn debug_upto(s: Seq<Value<SectionV>>, n: nat) -> ModuleV
    decreases n,
{
    if n == 0 || n > s.len() {
        copies(s, s.len())
    } else {
        match s[n - 1].value {
            SectionV::Custom(_, c) => if is_moved(s[n - 1].value) {
                debug_upto(s, (n - 1) as nat).add_section(added_custom(c))
            } else {
                debug_upto(s, (n - 1) as nat)
            },
            _ => debug_upto(s, (n - 1) as nat),
        }
    }
}

/// Those of the first `n` of the sections `s` that are not moved, in
/// order.
pub open spec fn kept(s: Seq<Value<SectionV>>, n: nat) -> Seq<Value<SectionV>>
    decreases n,
{
    if n == 0 || n > s.len() {
        Seq::empty()
    } else if is_moved(s[n - 1].value) {
        kept(s, (n - 1) as nat)
    } else {
        kept(s, (n - 1) as nat).push(s[n - 1])
    }
}

/// The module `m` without what only a debugger reads, with a build-id
/// section that holds `build_id`.
pub open spec fn stripped(m: ModuleV, build_id: Seq<u8>) -> ModuleV {
    (ModuleV { sections: kept(m.sections, m.sections.len()) }).add_section(
        added_custom(CustomSectionV::BuildId(build_id)),
    )
}

/// The debug module of `m`: copies of its types, imports, functions,
/// tables, memories and globals, and its custom sections of names and of
/// kinds that the decoder does not know.
pub open spec fn debug_module(m: ModuleV) -> ModuleV {
    debug_upto(m.sections, m.sections.len())
}

/// A copy of `s` where it is a section that is copied to the debug module.
fn copy_section(s: &Section) -> (r: Option<Section>)
    ensures
        match r {
            Some(x) => is_copied(s.deep_view()) && x.deep_view() == s.deep_view(),
            None => !is_copied(s.deep_view()),
        },
{
    match s {
        Section::Type(size, v) => {
            let c = v.clone();
            assert(c.deep_view() =~= v.deep_view());
            Some(Section::Type(*size, c))
        },
        Section::Import(size, v) => {
            let c = v.clone();
            assert(c.deep_view() =~= v.deep_view());
            Some(Section::Import(*size, c))
        },
        Section::Func(size, v) => {
            let c = slice_to_vec(v.as_slice());
            proof {
                lemma_plain_view(*v);
                lemma_plain_view(c);
            }
            Some(Section::Func(*size, c))
        },
        Section::Table(size, v) => {
            let c = slice_to_vec(v.as_slice());
            proof {
                lemma_plain_view(*v);
                lemma_plain_view(c);
            }
            Some(Section::Table(*size, c))
        },
        Section::Memory(size, v) => {
            let c = slice_to_vec(v.as_slice());
            proof {
                lemma_plain_view(*v);
                lemma_plain_view(c);
            }
            Some(Section::Memory(*size, c))
        },
        Section::Global(size, v) => {
            let c = v.clone();
            assert(c.deep_view() =~= v.deep_view());
            Some(Section::Global(*size, c))
        },
        _ => None,
    }
}

/// Splits `module` in two. The first module is `module` without its custom
/// sections of names and of kinds that the decoder does not know, with a
/// build-id section that holds `build_id`. The second, the debug module,
/// holds those custom sections, and copies of the types, imports, functions,
/// tables, memories and globals.
pub fn split(module: Module, build_id: &[u8]) -> (r: (Module, Module))
    ensures
        r.0.deep_view() == stripped(module.deep_view(), build_id@),
        r.1.deep_view() == debug_module(module.deep_view()),
{
    let ghost s = module.deep_view().sections;
    let mut debug = WasmModule::new(Module { sections: Vec::new() });
    assert(debug@.sections =~= Seq::empty());
    let mut k: usize = 0;
    while k < module.sections.len()
        invariant
            k <= module.sections@.len(),
            s == module.deep_view().sections,
            s.len() == module.sections@.len(),
            debug@ == copies(s, k as nat),
        decreases module.sections.len() - k,
    {
        assert(s[k as int].value == module.sections@[k as int].value.deep_view());
        match copy_section(&module.sections[k].value) {
            Some(copy) => {
                debug.add_section(copy);
            },
            None => {},
        }
        k += 1;
    }
    let ghost nodes = module.sections@;
    let total = module.sections.len();
    let mut rest = reversed(module.sections);
    let mut stay: Vec<Value<Section>> = Vec::new();
    assert(stay.deep_view() =~= kept(s, 0));
    while rest.len() > 0
        invariant
            s.len() == total,
            nodes.len() == total,
            rest@.len() <= total,
            forall|j: int| 0 <= j < total ==> s[j] == (#[trigger] nodes[j]).deep_view(),
            forall|j: int| 0 <= j < rest@.len() ==> #[trigger] rest@[j] == nodes[total - 1 - j],
            debug@ == debug_upto(s, (total - rest@.len()) as nat),
            stay.deep_view() == kept(s, (total - rest@.len()) as nat),
        decreases rest@.len(),
    {
        let ghost i = total - rest@.len();
        let ghost before = stay.deep_view();
        let node = rest.pop().unwrap();
        assert(node == nodes[i]);
        assert(s[i] == node.deep_view());
        let Value { value, start_offset, end_offset } = node;
        match value {
            Section::Custom(size, c) => {
                let moves = match &c {
                    CustomSection::Unknown(_, _) => true,
                    CustomSection::Name(_) => true,
                    _ => false,
                };
                if moves {
                    debug.add_custom_section(c);
                } else {
                    let back = Value { value: Section::Custom(size, c), start_offset, end_offset };
                    assert(back.deep_view() == s[i]);
                    stay.push(back);
                    assert(stay.deep_view() =~= before.push(s[i]));
                }
            },
            other => {
                let back = Value { value: other, start_offset, end_offset };
                assert(back.deep_view() == s[i]);
                stay.push(back);
                assert(stay.deep_view() =~= before.push(s[i]));
            },
        }
    }
    let mut wasm = WasmModule::new(Module { sections: stay });
    assert(wasm@.sections =~= kept(s, s.len()));
    wasm.set_build_id(build_id);
    (wasm.into_inner(), debug.into_inner())
}

} // verus!
