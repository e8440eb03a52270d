//! Security hardening analysis (checksec): RELRO, stack canary, NX, PIE,
//! fortified functions, writable-and-executable segments, and insecure search paths.

use vstd::prelude::*;
use crate::model::{DynamicInfo, ElfHeader, ElfType, Hardening, PieStatus, Relro, SecurityMitigations, Segment, Symbol};
use super::dynamic::{DF_1_PIE, opt_string_view, strings_view};
use super::names::{
    base_name, compare_str, ends_with_chk, has_chk_suffix, insecure_path, is_insecure_path, lemma_lex_total,
    lemma_lex_transitive, lex_lt, strip_version,
};

verus! {

/// `PT_GNU_RELRO`.
pub const PT_GNU_RELRO: u32 = 0x6474_e552;
/// `PT_GNU_STACK`.
pub const PT_GNU_STACK: u32 = 0x6474_e551;

/// Strictly increasing in lexicographic order: sorted and without duplicates.
pub open spec fn sorted_distinct(v: Seq<Seq<char>>) -> bool {
    forall|i: int, j: int| 0 <= i < j < v.len() ==> lex_lt(#[trigger] v[i], #[trigger] v[j])
}

/// Inserts `x` into a strictly increasing list unless it is already there.
pub(crate) fn insert_sorted(v: &mut Vec<String>, x: String)
    requires
        sorted_distinct(strings_view(old(v)@)),
    ensures
        sorted_distinct(strings_view(final(v)@)),
        forall|y: Seq<char>| strings_view(final(v)@).contains(y) <==> (strings_view(old(v)@).contains(y) || y == x@),
{
    let ghost old_view = strings_view(v@);
    let mut p: usize = 0;
    while p < v.len() && compare_str(v[p].as_str(), x.as_str()) == -1
        invariant
            p <= v@.len(),
            old_view == strings_view(v@),
            forall|k: int| 0 <= k < p ==> lex_lt(#[trigger] old_view[k], x@),
        decreases v@.len() - p,
    {
        p = p + 1;
    }
    if p < v.len() && compare_str(v[p].as_str(), x.as_str()) == 0 {
        assert(old_view[p as int] == x@);
        return;
    }
    proof {
        if p < v@.len() {
            lemma_lex_total(old_view[p as int], x@);
        }
    }
    let ghost xv = x@;
    assert forall|k: int| p <= k < old_view.len() implies lex_lt(xv, #[trigger] old_view[k]) by {
        if k > p {
            lemma_lex_transitive(xv, old_view[p as int], old_view[k]);
        }
    }
    v.insert(p, x);
    let ghost new_view = strings_view(v@);
    assert(new_view =~= old_view.insert(p as int, xv));
    assert forall|i: int, j: int| 0 <= i < j < new_view.len() implies lex_lt(#[trigger] new_view[i], #[trigger] new_view[j]) by {
        if j < p {
        } else if j == p {
        } else if i < p {
            assert(lex_lt(xv, old_view[j - 1]));
            lemma_lex_transitive(new_view[i], xv, new_view[j]);
        } else if i == p {
            assert(lex_lt(xv, old_view[j - 1]));
        } else {
        }
    }
    assert forall|y: Seq<char>| new_view.contains(y) <==> (old_view.contains(y) || y == xv) by {
        if new_view.contains(y) {
            let k = choose|k: int| 0 <= k < new_view.len() && new_view[k] == y;
            if k < p {
                assert(old_view[k] == y);
            } else if k > p {
                assert(old_view[k - 1] == y);
            }
        }
        if old_view.contains(y) {
            let k = choose|k: int| 0 <= k < old_view.len() && old_view[k] == y;
            if k < p {
                assert(new_view[k] == y);
            } else {
                assert(new_view[k + 1] == y);
            }
        }
        if y == xv {
            assert(new_view[p as int] == y);
        }
    }
}

} // verus!

verus! {

/// The RELRO finding: unknown without program headers; full with
/// `PT_GNU_RELRO` and immediate binding; partial with lazy binding; none without `PT_GNU_RELRO`.
pub open spec fn relro_of(segs: Seq<Segment>, bind_now: bool) -> Relro {
    if segs.len() == 0 {
        Relro::Unknown
    } else if exists|i: int| 0 <= i < segs.len() && #[trigger] segs[i].segment_type == PT_GNU_RELRO {
        if bind_now {
            Relro::Full
        } else {
            Relro::Partial
        }
    } else {
        Relro::NoRelro
    }
}

/// The symbols whose presence shows stack-protector instrumentation.
pub open spec fn is_stack_guard_name(n: Seq<char>) -> bool {
    n == "__stack_chk_fail"@ || n == "__stack_chk_fail_local"@ || n == "__stack_chk_guard"@
}

/// The stack-canary finding: unknown without symbols, else whether a guard symbol is present.
pub open spec fn canary_of(syms: Seq<Symbol>) -> Hardening {
    if syms.len() == 0 {
        Hardening::Unknown
    } else if exists|i: int| 0 <= i < syms.len() && is_stack_guard_name(#[trigger] syms[i].name@) {
        Hardening::Enabled
    } else {
        Hardening::Disabled
    }
}

/// The NX finding from the first `PT_GNU_STACK`: enabled without `PF_X`,
/// disabled with it, unknown without the segment.
pub open spec fn nx_of(segs: Seq<Segment>) -> Hardening {
    match super::dynamic::find_segment(segs, PT_GNU_STACK, 0) {
        Some(i) => if segs[i].flags & 1 == 0 {
            Hardening::Enabled
        } else {
            Hardening::Disabled
        },
        None => Hardening::Unknown,
    }
}

/// Whether a dynamic table marks an `ET_DYN` file as an executable: an
/// interpreter, `DT_DEBUG`, or `DF_1_PIE` in `DT_FLAGS_1`.
pub open spec fn dyn_marks_executable(d: DynamicInfo) -> bool {
    d.interpreter is Some || (exists|i: int| 0 <= i < d.entries@.len() && #[trigger] d.entries@[i].tag == 21)
        || (exists|i: int| 0 <= i < d.entries@.len() && #[trigger] d.entries@[i].tag == 0x6fff_fffb && d.entries@[i].value & DF_1_PIE != 0)
}

/// The PIE finding from the object type and the dynamic table.
pub open spec fn pie_of(t: ElfType, d: DynamicInfo) -> PieStatus {
    match t {
        ElfType::Executable => PieStatus::NoPie,
        ElfType::Shared => if dyn_marks_executable(d) {
            PieStatus::Pie
        } else {
            PieStatus::Dso
        },
        _ => PieStatus::Unknown,
    }
}

/// An imported symbol whose unversioned name ends with `_chk`.
pub open spec fn fortify_candidate(sym: Symbol) -> bool {
    sym.is_import && ends_with_chk(base_name(sym.name@))
}

/// The fortified function names: sorted, distinct, and exactly the
/// unversioned names of the candidate symbols.
pub open spec fn fortified_of(syms: Seq<Symbol>, v: Seq<Seq<char>>) -> bool {
    &&& sorted_distinct(v)
    &&& forall|y: Seq<char>| v.contains(y) <==> exists|i: int| 0 <= i < syms.len() && fortify_candidate(#[trigger] syms[i]) && base_name(syms[i].name@) == y
}

/// The fortify finding: unknown without symbols, else whether any candidate exists.
pub open spec fn fortify_of(syms: Seq<Symbol>) -> Hardening {
    if syms.len() == 0 {
        Hardening::Unknown
    } else if exists|i: int| 0 <= i < syms.len() && fortify_candidate(#[trigger] syms[i]) {
        Hardening::Enabled
    } else {
        Hardening::Disabled
    }
}

/// Whether a segment is both writable (`PF_W`) and executable (`PF_X`).
pub open spec fn is_rwx(seg: Segment) -> bool {
    seg.flags & 2 != 0 && seg.flags & 1 != 0
}

/// The number of writable-and-executable segments.
pub open spec fn rwx_count(segs: Seq<Segment>) -> nat
    decreases segs.len(),
{
    if segs.len() == 0 {
        0
    } else {
        rwx_count(segs.drop_last()) + if is_rwx(segs.last()) { 1nat } else { 0 }
    }
}

/// Whether RPATH or RUNPATH holds an entry relative to the working directory.
pub open spec fn insecure_rpath_of(d: DynamicInfo) -> bool {
    (opt_string_view(d.rpath) matches Some(p) && insecure_path(p)) || (opt_string_view(d.runpath) matches Some(p)
        && insecure_path(p))
}

/// The complete hardening findings.
pub open spec fn mitigations_of(elf: ElfHeader, d: DynamicInfo, segs: Seq<Segment>, syms: Seq<Symbol>, m: SecurityMitigations) -> bool {
    &&& m.relro == relro_of(segs, d.bind_now)
    &&& m.stack_canary == canary_of(syms)
    &&& m.nx == nx_of(segs)
    &&& m.pie == pie_of(elf.elf_type, d)
    &&& fortified_of(syms, strings_view(m.fortified_functions@))
    &&& m.fortify == fortify_of(syms)
    &&& m.rwx_segments == rwx_count(segs)
    &&& m.has_insecure_rpath == insecure_rpath_of(d)
}

fn is_stack_guard(name: &String, fail: &String, fail_local: &String, guard: &String) -> (b: bool)
    requires
        fail@ == "__stack_chk_fail"@,
        fail_local@ == "__stack_chk_fail_local"@,
        guard@ == "__stack_chk_guard"@,
    ensures
        b == is_stack_guard_name(name@),
{
    *name == *fail || *name == *fail_local || *name == *guard
}

/// Derives the hardening findings from decoded header, dynamic, segment, and symbol data.
pub fn analyze_mitigations(elf: &ElfHeader, dynamic: &DynamicInfo, segments: &[Segment], symbols: &[Symbol]) -> (m: SecurityMitigations)
    ensures
        mitigations_of(*elf, *dynamic, segments@, symbols@, m),
{
    // RELRO and RWX segments.
    let mut has_relro = false;
    let mut rwx_segments: usize = 0;
    let mut i: usize = 0;
    while i < segments.len()
        invariant
            i <= segments@.len(),
            has_relro == exists|k: int| 0 <= k < i && #[trigger] segments@[k].segment_type == PT_GNU_RELRO,
            rwx_segments == rwx_count(segments@.take(i as int)),
            rwx_segments <= i,
        decreases segments@.len() - i,
    {
        let s = &segments[i];
        assert(segments@.take(i + 1).drop_last() =~= segments@.take(i as int));
        if s.segment_type == PT_GNU_RELRO {
            has_relro = true;
        }
        if s.flags & 2 != 0 && s.flags & 1 != 0 {
            rwx_segments = rwx_segments + 1;
        }
        i = i + 1;
    }
    assert(segments@.take(segments@.len() as int) =~= segments@);
    let relro = if segments.len() == 0 {
        Relro::Unknown
    } else if has_relro {
        if dynamic.bind_now {
            Relro::Full
        } else {
            Relro::Partial
        }
    } else {
        Relro::NoRelro
    };

    // Stack canary.
    let fail = String::from_str("__stack_chk_fail");
    let fail_local = String::from_str("__stack_chk_fail_local");
    let guard = String::from_str("__stack_chk_guard");
    let mut has_guard = false;
    let mut fortified_functions: Vec<String> = Vec::new();
    let mut k: usize = 0;
    while k < symbols.len()
        invariant
            k <= symbols@.len(),
            fail@ == "__stack_chk_fail"@,
            fail_local@ == "__stack_chk_fail_local"@,
            guard@ == "__stack_chk_guard"@,
            has_guard == exists|j: int| 0 <= j < k && is_stack_guard_name(#[trigger] symbols@[j].name@),
            sorted_distinct(strings_view(fortified_functions@)),
            forall|y: Seq<char>| strings_view(fortified_functions@).contains(y) <==> exists|j: int| 0 <= j < k && fortify_candidate(#[trigger] symbols@[j]) && base_name(symbols@[j].name@) == y,
        decreases symbols@.len() - k,
    {
        let sym = &symbols[k];
        let ghost had_guard = has_guard;
        if is_stack_guard(&sym.name, &fail, &fail_local, &guard) {
            has_guard = true;
        }
        proof {
            assert(has_guard == (had_guard || is_stack_guard_name(symbols@[k as int].name@)));
            assert(has_guard == exists|j: int| 0 <= j < k + 1 && is_stack_guard_name(#[trigger] symbols@[j].name@)) by {
                if is_stack_guard_name(symbols@[k as int].name@) {
                    assert(0 <= k < k + 1);
                }
            }
        }
        let ghost before = strings_view(fortified_functions@);
        if sym.is_import {
            let base = strip_version(sym.name.as_str());
            if has_chk_suffix(base.as_str()) {
                insert_sorted(&mut fortified_functions, base);
            }
        }
        proof {
            assert forall|y: Seq<char>| strings_view(fortified_functions@).contains(y) <==> exists|j: int| 0 <= j < k + 1 && fortify_candidate(#[trigger] symbols@[j]) && base_name(symbols@[j].name@) == y by {
                if exists|j: int| 0 <= j < k + 1 && fortify_candidate(#[trigger] symbols@[j]) && base_name(symbols@[j].name@) == y {
                    let j = choose|j: int| 0 <= j < k + 1 && fortify_candidate(#[trigger] symbols@[j]) && base_name(symbols@[j].name@) == y;
                    if j < k {
                        assert(before.contains(y));
                    }
                }
            }
        }
        k = k + 1;
    }
    let stack_canary = if symbols.len() == 0 {
        Hardening::Unknown
    } else if has_guard {
        Hardening::Enabled
    } else {
        Hardening::Disabled
    };
    let fortify = if symbols.len() == 0 {
        Hardening::Unknown
    } else if fortified_functions.len() == 0 {
        proof {
            assert forall|j: int| 0 <= j < symbols@.len() implies !fortify_candidate(#[trigger] symbols@[j]) by {
                if fortify_candidate(symbols@[j]) {
                    assert(strings_view(fortified_functions@).contains(base_name(symbols@[j].name@)));
                }
            }
        }
        Hardening::Disabled
    } else {
        proof {
            assert(strings_view(fortified_functions@).contains(strings_view(fortified_functions@)[0]));
        }
        Hardening::Enabled
    };

    // NX from the first PT_GNU_STACK.
    proof {
        super::dynamic::lemma_find_segment(segments@, PT_GNU_STACK, 0);
    }
    let nx = match super::dynamic::first_segment_of_type(segments, PT_GNU_STACK) {
        Some(p) => if segments[p].flags & 1 == 0 {
            Hardening::Enabled
        } else {
            Hardening::Disabled
        },
        None => Hardening::Unknown,
    };

    // PIE.
    let pie = match elf.elf_type {
        ElfType::Executable => PieStatus::NoPie,
        ElfType::Shared => {
            let mut marked = dynamic.interpreter.is_some();
            let mut e: usize = 0;
            while e < dynamic.entries.len()
                invariant
                    e <= dynamic.entries@.len(),
                    marked == (dynamic.interpreter is Some || (exists|j: int| 0 <= j < e && #[trigger] dynamic.entries@[j].tag == 21)
                        || (exists|j: int| 0 <= j < e && #[trigger] dynamic.entries@[j].tag == 0x6fff_fffb && dynamic.entries@[j].value & DF_1_PIE != 0)),
                decreases dynamic.entries@.len() - e,
            {
                let entry = &dynamic.entries[e];
                if entry.tag == 21 || (entry.tag == 0x6fff_fffb && entry.value & DF_1_PIE != 0) {
                    marked = true;
                }
                e = e + 1;
            }
            if marked {
                PieStatus::Pie
            } else {
                PieStatus::Dso
            }
        },
        _ => PieStatus::Unknown,
    };

    // Insecure RPATH / RUNPATH.
    let insecure_rpath = match &dynamic.rpath {
        Some(p) => is_insecure_path(p.as_str()),
        None => false,
    };
    let insecure_runpath = match &dynamic.runpath {
        Some(p) => is_insecure_path(p.as_str()),
        None => false,
    };
    let has_insecure_rpath = insecure_rpath || insecure_runpath;

    SecurityMitigations {
        relro,
        stack_canary,
        nx,
        pie,
        fortify,
        fortified_functions,
        rwx_segments,
        has_insecure_rpath,
    }
}

} // verus!

verus! {

/// The fortify finding agrees with the list of fortified functions: it is
/// enabled exactly when the list names at least one function.
pub proof fn fortify_agrees_with_list(
    elf: ElfHeader,
    d: DynamicInfo,
    segs: Seq<Segment>,
    syms: Seq<Symbol>,
    m: SecurityMitigations,
)
    requires
        mitigations_of(elf, d, segs, syms, m),
    ensures
        m.fortify == Hardening::Enabled <==> m.fortified_functions@.len() > 0,
{
    let v = strings_view(m.fortified_functions@);
    if m.fortify == Hardening::Enabled {
        let i = choose|i: int| 0 <= i < syms.len() && fortify_candidate(#[trigger] syms[i]);
        assert(v.contains(base_name(syms[i].name@)));
    }
    if m.fortified_functions@.len() > 0 {
        assert(v.contains(v[0]));
        let i = choose|i: int| 0 <= i < syms.len() && fortify_candidate(#[trigger] syms[i]) && base_name(syms[i].name@) == v[0];
        assert(syms.len() > 0);
    }
}

} // verus!

verus! {

/// The stack-canary finding rests on the stack-protector symbols
/// `__stack_chk_fail`, `__stack_chk_fail_local` and `__stack_chk_guard`:
/// enabled when any symbol bears one of these names, disabled when symbols
/// exist and none does, unknown without symbols.
pub proof fn canary_follows_guard_symbols(
    elf: ElfHeader,
    d: DynamicInfo,
    segs: Seq<Segment>,
    syms: Seq<Symbol>,
    m: SecurityMitigations,
)
    requires
        mitigations_of(elf, d, segs, syms, m),
    ensures
        syms.len() == 0 ==> m.stack_canary == Hardening::Unknown,
        (exists|i: int|
            0 <= i < syms.len() && (#[trigger] syms[i].name@ == "__stack_chk_fail"@ || syms[i].name@ == "__stack_chk_fail_local"@
                || syms[i].name@ == "__stack_chk_guard"@)) ==> m.stack_canary == Hardening::Enabled,
        syms.len() > 0 && (forall|i: int|
            0 <= i < syms.len() ==> #[trigger] syms[i].name@ != "__stack_chk_fail"@ && syms[i].name@ != "__stack_chk_fail_local"@
                && syms[i].name@ != "__stack_chk_guard"@) ==> m.stack_canary == Hardening::Disabled,
{
    if exists|i: int|
        0 <= i < syms.len() && (#[trigger] syms[i].name@ == "__stack_chk_fail"@ || syms[i].name@ == "__stack_chk_fail_local"@
            || syms[i].name@ == "__stack_chk_guard"@) {
        let i = choose|i: int|
            0 <= i < syms.len() && (#[trigger] syms[i].name@ == "__stack_chk_fail"@ || syms[i].name@ == "__stack_chk_fail_local"@
                || syms[i].name@ == "__stack_chk_guard"@);
        assert(is_stack_guard_name(syms[i].name@));
    }
}

/// The RELRO finding follows `PT_GNU_RELRO` (`0x6474e552`) and the binding
/// mode: full with the segment and immediate binding, partial with the
/// segment and lazy binding, none without the segment, unknown without
/// program headers.
pub proof fn relro_follows_segment_and_binding(
    elf: ElfHeader,
    d: DynamicInfo,
    segs: Seq<Segment>,
    syms: Seq<Symbol>,
    m: SecurityMitigations,
)
    requires
        mitigations_of(elf, d, segs, syms, m),
    ensures
        segs.len() == 0 ==> m.relro == Relro::Unknown,
        (exists|i: int| 0 <= i < segs.len() && #[trigger] segs[i].segment_type == 0x6474_e552u32) && d.bind_now ==> m.relro
            == Relro::Full,
        (exists|i: int| 0 <= i < segs.len() && #[trigger] segs[i].segment_type == 0x6474_e552u32) && !d.bind_now ==> m.relro
            == Relro::Partial,
        segs.len() > 0 && (forall|i: int| 0 <= i < segs.len() ==> #[trigger] segs[i].segment_type != 0x6474_e552u32) ==> m.relro
            == Relro::NoRelro,
        m.relro == Relro::Full ==> crate::model::relro_label(m.relro)@ == "Full RELRO"@,
        m.relro == Relro::Partial ==> crate::model::relro_label(m.relro)@ == "Partial RELRO"@,
        m.relro == Relro::NoRelro ==> crate::model::relro_label(m.relro)@ == "No RELRO"@,
{
}

/// The NX finding follows the first `PT_GNU_STACK` (`0x6474e551`) segment:
/// enabled when it lacks `PF_X` (bit 0 of its flags), disabled when it has
/// it, unknown without such a segment.
pub proof fn nx_follows_gnu_stack(
    elf: ElfHeader,
    d: DynamicInfo,
    segs: Seq<Segment>,
    syms: Seq<Symbol>,
    m: SecurityMitigations,
)
    requires
        mitigations_of(elf, d, segs, syms, m),
    ensures
        (forall|i: int| 0 <= i < segs.len() ==> #[trigger] segs[i].segment_type != 0x6474_e551u32) ==> m.nx == Hardening::Unknown,
        forall|i: int|
            0 <= i < segs.len() && #[trigger] segs[i].segment_type == 0x6474_e551u32 && (forall|j: int|
                0 <= j < i ==> segs[j].segment_type != 0x6474_e551u32) ==> m.nx == (if segs[i].flags % 2 == 0 {
                Hardening::Enabled
            } else {
                Hardening::Disabled
            }),
{
    super::dynamic::lemma_find_segment(segs, PT_GNU_STACK, 0);
    assert forall|i: int|
        0 <= i < segs.len() && #[trigger] segs[i].segment_type == 0x6474_e551u32 && (forall|j: int|
            0 <= j < i ==> segs[j].segment_type != 0x6474_e551u32) implies m.nx == (if segs[i].flags % 2 == 0 {
        Hardening::Enabled
    } else {
        Hardening::Disabled
    }) by {
        lemma_first_segment(segs, PT_GNU_STACK, 0, i);
        let f = segs[i].flags;
        assert(f & 1 == f % 2) by (bit_vector);
    }
}

proof fn lemma_first_segment(segs: Seq<Segment>, t: u32, start: int, i: int)
    requires
        0 <= start <= i < segs.len(),
        segs[i].segment_type == t,
        forall|j: int| 0 <= j < i ==> segs[j].segment_type != t,
    ensures
        super::dynamic::find_segment(segs, t, start) == Some(i),
    decreases i - start,
{
    if start < i {
        lemma_first_segment(segs, t, start + 1, i);
    }
}

/// The PIE finding follows the object type and the dynamic table: an
/// `ET_EXEC` file is not position-independent; an `ET_DYN` file is a PIE when
/// it has an interpreter, a `DT_DEBUG` (21) entry, or `DF_1_PIE`
/// (`0x08000000`) in `DT_FLAGS_1` (`0x6ffffffb`), and a shared library
/// otherwise; other object types are unknown.
pub proof fn pie_follows_type_and_dynamic(
    elf: ElfHeader,
    d: DynamicInfo,
    segs: Seq<Segment>,
    syms: Seq<Symbol>,
    m: SecurityMitigations,
)
    requires
        mitigations_of(elf, d, segs, syms, m),
    ensures
        elf.elf_type == ElfType::Executable ==> m.pie == PieStatus::NoPie,
        elf.elf_type == ElfType::Shared && (d.interpreter is Some || (exists|i: int|
            0 <= i < d.entries@.len() && #[trigger] d.entries@[i].tag == 21) || (exists|i: int|
            0 <= i < d.entries@.len() && #[trigger] d.entries@[i].tag == 0x6fff_fffb && d.entries@[i].value & 0x0800_0000 != 0))
            ==> m.pie == PieStatus::Pie,
        elf.elf_type == ElfType::Shared && d.interpreter is None && (forall|i: int|
            0 <= i < d.entries@.len() ==> #[trigger] d.entries@[i].tag != 21 && !(d.entries@[i].tag == 0x6fff_fffb
                && d.entries@[i].value & 0x0800_0000 != 0)) ==> m.pie == PieStatus::Dso,
        elf.elf_type != ElfType::Executable && elf.elf_type != ElfType::Shared ==> m.pie == PieStatus::Unknown,
{
}

} // verus!

verus! {

proof fn lemma_rwx_count(segs: Seq<Segment>)
    ensures
        rwx_count(segs) == segs.filter(|g: Segment| g.flags % 2 == 1 && (g.flags / 2) % 2 == 1).len(),
    decreases segs.len(),
{
    reveal(Seq::filter);
    if segs.len() > 0 {
        lemma_rwx_count(segs.drop_last());
        let f = segs.last().flags;
        assert((f & 2 != 0 && f & 1 != 0) == (f % 2 == 1 && (f / 2) % 2 == 1)) by (bit_vector);
    }
}

/// The writable-and-executable count is the number of segments whose flags
/// carry both `PF_W` (2) and `PF_X` (1).
pub proof fn rwx_count_follows_flags(
    elf: ElfHeader,
    d: DynamicInfo,
    segs: Seq<Segment>,
    syms: Seq<Symbol>,
    m: SecurityMitigations,
)
    requires
        mitigations_of(elf, d, segs, syms, m),
    ensures
        m.rwx_segments == segs.filter(|g: Segment| g.flags % 2 == 1 && (g.flags / 2) % 2 == 1).len(),
{
    lemma_rwx_count(segs);
}

} // verus!

verus! {

proof fn lemma_first_at(s: Seq<char>, i: int, j: int)
    requires
        0 <= i <= j <= s.len(),
        forall|k: int| i <= k < j ==> s[k] != '@',
        j == s.len() || s[j] == '@',
    ensures
        super::names::at_index(s, i) == j,
    decreases j - i,
{
    if i < j {
        lemma_first_at(s, i + 1, j);
    }
}

/// An imported symbol named `<p>_chk`, possibly followed by an `@VERSION`
/// suffix, with no `@` in `<p>`, is a fortified libc entry point: its
/// unversioned name is listed among the fortified functions and the fortify
/// finding is enabled.
pub proof fn fortify_lists_chk_imports(
    elf: ElfHeader,
    d: DynamicInfo,
    segs: Seq<Segment>,
    syms: Seq<Symbol>,
    m: SecurityMitigations,
    i: int,
    p: Seq<char>,
    version: Seq<char>,
)
    requires
        mitigations_of(elf, d, segs, syms, m),
        0 <= i < syms.len(),
        syms[i].is_import,
        syms[i].name@ == p + seq!['_', 'c', 'h', 'k'] + version,
        forall|k: int| 0 <= k < p.len() ==> p[k] != '@',
        version.len() == 0 || version[0] == '@',
    ensures
        strings_view(m.fortified_functions@).contains(p + seq!['_', 'c', 'h', 'k']),
        m.fortify == Hardening::Enabled,
{
    let name = syms[i].name@;
    let stem = p + seq!['_', 'c', 'h', 'k'];
    assert forall|k: int| 0 <= k < stem.len() implies name[k] != '@' by {
        assert(name[k] == stem[k]);
    }
    if version.len() > 0 {
        assert(name[stem.len() as int] == version[0]);
    }
    lemma_first_at(name, 0, stem.len() as int);
    assert(base_name(name) =~= stem);
    assert(stem.subrange(stem.len() - 4, stem.len() as int) =~= seq!['_', 'c', 'h', 'k']);
    assert(fortify_candidate(syms[i]));
}

} // verus!
