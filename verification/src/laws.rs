//! Properties of the library that span several of its functions.
use vstd::prelude::*;
use crate::bytes::{le_u32, le_u64, le_u16, put_le_u32, lemma_put_then_read_u32};
use crate::types::{
    Elf64_Rela, Elf64_Shdr, Elf64_Sym, RelaType, R_COPY, R_RELATIVE, STT_OBJECT, is_absolute_kind,
    rela_type_of,
};
use crate::relocate::{
    RelocationsModel, Rewrite, absolute_rewrites, addend_symbol, first_with_value,
    keeps_relocation, names_for, relative_rewrites, relocated, relocated_all, rewrites,
    all_lookups_in_range, lookups_in_range,
};
use crate::strtab::{lemma_first_nul_from, string_at, symbol_name_in};
use vstd::utf8::{decode_utf8, valid_utf8};
use crate::elf::{
    ehdr_at, section_headers, symtab_of, strtab_of, relas_of,
    rela_at, sym_at, loads_symtab, loads_strtab, loads_relas, symbol_table_upto,
    string_tables_upto, relocation_sections_upto, section_table_in_file, entry_size_ok,
    parse_elf, entry_count, lemma_parsed_sections_fit, lemma_relocated_sections_fit,
    ElfModel, lemma_patch_entries_len, lemma_patch_sections_len, patch_entries,
    patch_sections, written_image,
};

verus! {

/// Reading the kind of a relocation kind back from its numeric value gives
/// the kind, and a numeric value that names a kind is that kind's value.
pub proof fn law_rela_type_roundtrip(t: RelaType, v: u32)
    ensures
        rela_type_of(t.spec_code()) == Some(t),
        rela_type_of(v) matches Some(u) ==> u.spec_code() == v,
{
}

/// `st_info` is made of the symbol's binding (high nibble) and type (low nibble).
pub proof fn law_symbol_info_nibbles(sym: Elf64_Sym)
    ensures
        sym.spec_binding() * 16 + sym.spec_type() == sym.st_info,
        sym.spec_type() < 16,
{
}

/// The rewrite of a relocation changes at most its kind, and only an absolute
/// data relocation or a relative relocation changes, into `R_X86_64_COPY`.
pub proof fn law_rewrite_changes_only_kind(
    r: Elf64_Rela,
    syms: Seq<Elf64_Sym>,
    shdrs: Seq<Elf64_Shdr>,
    tables: Seq<Seq<u8>>,
)
    ensures
        relocated(r, syms, shdrs, tables).r_offset == r.r_offset,
        relocated(r, syms, shdrs, tables).r_info_symbol == r.r_info_symbol,
        relocated(r, syms, shdrs, tables).r_addend == r.r_addend,
        relocated(r, syms, shdrs, tables).r_info_type == r.r_info_type
            || (relocated(r, syms, shdrs, tables).r_info_type == R_COPY && (is_absolute_kind(
                r.r_info_type,
            ) || r.r_info_type == R_RELATIVE)),
{
}

/// Rewriting a rewritten relocation changes nothing more.
pub proof fn law_rewrite_idempotent(
    r: Elf64_Rela,
    syms: Seq<Elf64_Sym>,
    shdrs: Seq<Elf64_Shdr>,
    tables: Seq<Seq<u8>>,
)
    ensures
        relocated(relocated(r, syms, shdrs, tables), syms, shdrs, tables) == relocated(
            r,
            syms,
            shdrs,
            tables,
        ),
{
}

/// Rewriting the relocations of a section twice is rewriting them once.
pub proof fn law_section_rewrite_idempotent(
    rs: Seq<Elf64_Rela>,
    syms: Seq<Elf64_Sym>,
    shdrs: Seq<Elf64_Shdr>,
    tables: Seq<Seq<u8>>,
)
    ensures
        relocated_all(relocated_all(rs, syms, shdrs, tables), syms, shdrs, tables)
            == relocated_all(rs, syms, shdrs, tables),
{
    assert forall|i: int| 0 <= i < rs.len() implies #[trigger] relocated_all(
        relocated_all(rs, syms, shdrs, tables),
        syms,
        shdrs,
        tables,
    )[i] == relocated_all(rs, syms, shdrs, tables)[i] by {
        law_rewrite_idempotent(rs[i], syms, shdrs, tables);
    }
    assert(relocated_all(relocated_all(rs, syms, shdrs, tables), syms, shdrs, tables)
        =~= relocated_all(rs, syms, shdrs, tables));
}

/// Rewriting a whole object twice is rewriting it once.
pub proof fn law_object_rewrite_idempotent(m: ElfModel)
    ensures
        m.relocated().relocated() == m.relocated(),
{
    let once = m.relocated();
    let twice = once.relocated();
    assert(once.table_bytes() =~= m.table_bytes());
    assert forall|k: int| 0 <= k < m.relocation_sections.len() implies #[trigger] twice.relocation_sections[k]
        == once.relocation_sections[k] by {
        law_section_rewrite_idempotent(
            m.relocation_sections[k].relocations,
            m.symbol_table.symbols,
            m.shdrs,
            m.table_bytes(),
        );
    }
    assert(twice.relocation_sections =~= once.relocation_sections);
}

// ---------------------------------------------------------------------------
// What writing the relocation kinds back does to the bytes.

/// Position of the kind field of entry `j` of a relocation section.
pub open spec fn kind_pos(sec: RelocationsModel, j: int) -> int {
    sec.header.sh_offset + 24 * j + 8
}

/// Byte `p` belongs to the kind field of entry `j` of `sec`.
pub open spec fn in_kind_field(sec: RelocationsModel, j: int, p: int) -> bool {
    kind_pos(sec, j) <= p < kind_pos(sec, j) + 4
}

/// Byte `p` belongs to the kind field of some entry of some section.
pub open spec fn in_some_kind_field(secs: Seq<RelocationsModel>, p: int) -> bool {
    exists|k: int, j: int|
        0 <= k < secs.len() && 0 <= j < secs[k].relocations.len() && #[trigger] in_kind_field(
            secs[k],
            j,
            p,
        )
}

/// No two kind fields of the relocation sections share a byte.
pub open spec fn kind_fields_disjoint(secs: Seq<RelocationsModel>) -> bool {
    forall|k1: int, j1: int, k2: int, j2: int|
        #![trigger kind_pos(secs[k1], j1), kind_pos(secs[k2], j2)]
        0 <= k1 < secs.len() && 0 <= j1 < secs[k1].relocations.len() && 0 <= k2 < secs.len()
            && 0 <= j2 < secs[k2].relocations.len() && (k1 != k2 || j1 != j2)
            ==> kind_pos(secs[k1], j1) + 4 <= kind_pos(secs[k2], j2)
            || kind_pos(secs[k2], j2) + 4 <= kind_pos(secs[k1], j1)
}

proof fn lemma_put_frame(s: Seq<u8>, pos: int, v: u32, p: int)
    requires
        0 <= p < s.len(),
        !(pos <= p < pos + 4),
    ensures
        put_le_u32(s, pos, v)[p] == s[p],
        put_le_u32(s, pos, v).len() == s.len(),
{
}

proof fn lemma_entries_frame(s: Seq<u8>, sec: RelocationsModel, m: int, n: int, p: int)
    requires
        0 <= m <= n,
        0 <= p < s.len(),
        forall|j: int| m <= j < n ==> !#[trigger] in_kind_field(sec, j, p),
    ensures
        patch_entries(s, sec.header.sh_offset as int, sec.relocations, n)[p] == patch_entries(
            s,
            sec.header.sh_offset as int,
            sec.relocations,
            m,
        )[p],
        patch_entries(s, sec.header.sh_offset as int, sec.relocations, n).len() == s.len(),
    decreases n,
{
    lemma_patch_entries_len(s, sec.header.sh_offset as int, sec.relocations, n);
    if n > m {
        lemma_entries_frame(s, sec, m, n - 1, p);
        lemma_patch_entries_len(s, sec.header.sh_offset as int, sec.relocations, n - 1);
        assert(!in_kind_field(sec, n - 1, p));
        lemma_put_frame(
            patch_entries(s, sec.header.sh_offset as int, sec.relocations, n - 1),
            sec.header.sh_offset + 24 * (n - 1) + 8,
            sec.relocations[n - 1].r_info_type,
            p,
        );
    }
}

proof fn lemma_sections_frame(s: Seq<u8>, secs: Seq<RelocationsModel>, k0: int, n: int, p: int)
    requires
        0 <= k0 <= n <= secs.len(),
        0 <= p < s.len(),
        forall|k: int, j: int|
            k0 <= k < n && 0 <= j < secs[k].relocations.len() ==> !#[trigger] in_kind_field(
                secs[k],
                j,
                p,
            ),
    ensures
        patch_sections(s, secs, n)[p] == patch_sections(s, secs, k0)[p],
        patch_sections(s, secs, n).len() == s.len(),
    decreases n,
{
    lemma_patch_sections_len(s, secs, n);
    if n > k0 {
        lemma_sections_frame(s, secs, k0, n - 1, p);
        lemma_patch_sections_len(s, secs, n - 1);
        let sec = secs[n - 1];
        lemma_entries_frame(
            patch_sections(s, secs, n - 1),
            sec,
            0,
            sec.relocations.len() as int,
            p,
        );
    }
}

/// Writing the relocation kinds back leaves every byte outside the kind
/// fields of the relocation entries as it was.
pub proof fn law_write_back_frame(s: Seq<u8>, m: ElfModel, p: int)
    requires
        0 <= p < s.len(),
        !in_some_kind_field(m.relocation_sections, p),
    ensures
        written_image(s, m)[p] == s[p],
        written_image(s, m).len() == s.len(),
{
    let secs = m.relocation_sections;
    assert forall|k: int, j: int|
        0 <= k < secs.len() && 0 <= j < secs[k].relocations.len() implies !#[trigger] in_kind_field(
        secs[k],
        j,
        p,
    ) by {
        if in_kind_field(secs[k], j, p) {
            assert(in_some_kind_field(secs, p));
        }
    }
    lemma_sections_frame(s, secs, 0, secs.len() as int, p);
}

/// Where the kind fields of the relocation entries lie inside the file and
/// share no byte, reading a relocation's kind field from the written bytes
/// gives that relocation's kind.
pub proof fn law_write_back_reads_back(s: Seq<u8>, m: ElfModel, k: int, j: int)
    requires
        m.sections_fit(s.len() as int),
        kind_fields_disjoint(m.relocation_sections),
        0 <= k < m.relocation_sections.len(),
        0 <= j < m.relocation_sections[k].relocations.len(),
    ensures
        le_u32(written_image(s, m), kind_pos(m.relocation_sections[k], j))
            == m.relocation_sections[k].relocations[j].r_info_type,
{
    let secs = m.relocation_sections;
    let sec = secs[k];
    let base = sec.header.sh_offset as int;
    let pos = kind_pos(sec, j);
    let v = sec.relocations[j].r_info_type;
    assert(sec.header.sh_offset + 24 * sec.relocations.len() <= s.len());
    let t0 = patch_sections(s, secs, k);
    lemma_patch_sections_len(s, secs, k);
    lemma_patch_entries_len(t0, base, sec.relocations, j);
    let t1 = patch_entries(t0, base, sec.relocations, j + 1);
    lemma_put_then_read_u32(patch_entries(t0, base, sec.relocations, j), pos, v);
    let t2 = patch_entries(t0, base, sec.relocations, sec.relocations.len() as int);
    assert(t2 == patch_sections(s, secs, k + 1));
    let t3 = written_image(s, m);
    assert forall|p: int| pos <= p < pos + 4 implies #[trigger] t3[p] == t1[p] by {
        assert forall|jj: int| j + 1 <= jj < sec.relocations.len() implies !#[trigger] in_kind_field(
            sec,
            jj,
            p,
        ) by {
            assert(kind_pos(secs[k], j) + 4 <= kind_pos(secs[k], jj) || kind_pos(secs[k], jj) + 4
                <= kind_pos(secs[k], j));
        }
        lemma_entries_frame(t0, sec, j + 1, sec.relocations.len() as int, p);
        assert forall|kk: int, jj: int|
            k + 1 <= kk < secs.len() && 0 <= jj < secs[kk].relocations.len() implies !#[trigger] in_kind_field(
            secs[kk],
            jj,
            p,
        ) by {
            assert(kind_pos(secs[k], j) + 4 <= kind_pos(secs[kk], jj) || kind_pos(secs[kk], jj) + 4
                <= kind_pos(secs[k], j));
        }
        lemma_sections_frame(s, secs, k + 1, secs.len() as int, p);
    }
    assert(t3[pos] == t1[pos] && t3[pos + 1] == t1[pos + 1] && t3[pos + 2] == t1[pos + 2]
        && t3[pos + 3] == t1[pos + 3]);
}


/// Byte `p` belongs to the kind field of some entry of the first `n` sections.
pub open spec fn written_by(secs: Seq<RelocationsModel>, n: int, p: int) -> bool {
    exists|k: int, j: int|
        0 <= k < n && 0 <= j < secs[k].relocations.len() && #[trigger] in_kind_field(secs[k], j, p)
}

proof fn lemma_put_covered(t1: Seq<u8>, t2: Seq<u8>, pos: int, v: u32, p: int)
    requires
        t1.len() == t2.len(),
        0 <= pos,
        pos + 4 <= t1.len(),
        pos <= p < pos + 4,
    ensures
        put_le_u32(t1, pos, v)[p] == put_le_u32(t2, pos, v)[p],
{
}

proof fn lemma_entries_covered(t1: Seq<u8>, t2: Seq<u8>, sec: RelocationsModel, n: int, p: int, j0: int)
    requires
        t1.len() == t2.len(),
        0 <= sec.header.sh_offset + 24 * sec.relocations.len() <= t1.len(),
        0 <= j0 < n <= sec.relocations.len(),
        in_kind_field(sec, j0, p),
    ensures
        patch_entries(t1, sec.header.sh_offset as int, sec.relocations, n)[p] == patch_entries(
            t2,
            sec.header.sh_offset as int,
            sec.relocations,
            n,
        )[p],
    decreases n,
{
    let base = sec.header.sh_offset as int;
    lemma_patch_entries_len(t1, base, sec.relocations, n - 1);
    lemma_patch_entries_len(t2, base, sec.relocations, n - 1);
    let pos = base + 24 * (n - 1) + 8;
    if in_kind_field(sec, n - 1, p) {
        lemma_put_covered(
            patch_entries(t1, base, sec.relocations, n - 1),
            patch_entries(t2, base, sec.relocations, n - 1),
            pos,
            sec.relocations[n - 1].r_info_type,
            p,
        );
    } else {
        lemma_entries_covered(t1, t2, sec, n - 1, p, j0);
        lemma_put_frame(
            patch_entries(t1, base, sec.relocations, n - 1),
            pos,
            sec.relocations[n - 1].r_info_type,
            p,
        );
        lemma_put_frame(
            patch_entries(t2, base, sec.relocations, n - 1),
            pos,
            sec.relocations[n - 1].r_info_type,
            p,
        );
    }
}

proof fn lemma_sections_covered(t1: Seq<u8>, t2: Seq<u8>, secs: Seq<RelocationsModel>, n: int, p: int)
    requires
        t1.len() == t2.len(),
        0 <= p < t1.len(),
        0 <= n <= secs.len(),
        forall|k: int|
            0 <= k < secs.len() ==> 0 <= (#[trigger] secs[k]).header.sh_offset + 24
                * secs[k].relocations.len() <= t1.len(),
        written_by(secs, n, p),
    ensures
        patch_sections(t1, secs, n)[p] == patch_sections(t2, secs, n)[p],
    decreases n,
{
    let (k0, j0) = choose|k: int, j: int|
        0 <= k < n && 0 <= j < secs[k].relocations.len() && #[trigger] in_kind_field(secs[k], j, p);
    let sec = secs[n - 1];
    lemma_patch_sections_len(t1, secs, n - 1);
    lemma_patch_sections_len(t2, secs, n - 1);
    let u1 = patch_sections(t1, secs, n - 1);
    let u2 = patch_sections(t2, secs, n - 1);
    if exists|j: int| 0 <= j < sec.relocations.len() && #[trigger] in_kind_field(sec, j, p) {
        let j1 = choose|j: int| 0 <= j < sec.relocations.len() && #[trigger] in_kind_field(sec, j, p);
        lemma_entries_covered(u1, u2, sec, sec.relocations.len() as int, p, j1);
    } else {
        assert(k0 < n - 1);
        assert(written_by(secs, n - 1, p));
        lemma_sections_covered(t1, t2, secs, n - 1, p);
        lemma_entries_frame(u1, sec, 0, sec.relocations.len() as int, p);
        lemma_entries_frame(u2, sec, 0, sec.relocations.len() as int, p);
    }
}

/// Writing the same relocation kinds a second time changes nothing.
pub proof fn law_write_back_twice(s: Seq<u8>, m: ElfModel)
    requires
        m.sections_fit(s.len() as int),
    ensures
        written_image(written_image(s, m), m) == written_image(s, m),
{
    let secs = m.relocation_sections;
    let n = secs.len() as int;
    let once = written_image(s, m);
    lemma_patch_sections_len(s, secs, n);
    lemma_patch_sections_len(once, secs, n);
    assert forall|k: int| 0 <= k < secs.len() implies 0 <= (#[trigger] secs[k]).header.sh_offset + 24
        * secs[k].relocations.len() <= s.len() by {
    }
    assert forall|p: int| 0 <= p < s.len() implies #[trigger] written_image(once, m)[p] == once[p] by {
        if written_by(secs, n, p) {
            lemma_sections_covered(once, s, secs, n, p);
        } else {
            assert forall|k: int, j: int|
                0 <= k < n && 0 <= j < secs[k].relocations.len() implies !#[trigger] in_kind_field(
                secs[k],
                j,
                p,
            ) by {
                if in_kind_field(secs[k], j, p) {
                    assert(written_by(secs, n, p));
                }
            }
            lemma_sections_frame(once, secs, 0, n, p);
        }
    }
    assert(written_image(once, m) =~= once);
}


// ---------------------------------------------------------------------------
// Reading the rewritten bytes again.

/// Byte `p` lies among the `len` bytes from `start` on.
pub open spec fn in_bytes(start: int, len: int, p: int) -> bool {
    start <= p < start + len
}

/// Byte `p` belongs to entry `j` of a relocation section.
pub open spec fn in_entry(sec: RelocationsModel, j: int, p: int) -> bool {
    in_bytes(sec.header.sh_offset + 24 * j, 24, p)
}

/// Reading the object `m` takes byte `p`, other than as a relocation kind:
/// the file header, the section header table, the symbol table's entries,
/// the string tables, and the other fields of the relocation entries.
pub open spec fn read_besides_kinds(m: ElfModel, p: int) -> bool {
    let secs = m.relocation_sections;
    ||| in_bytes(0, 64, p)
    ||| in_bytes(m.elf_header.e_shoff as int, 64 * m.elf_header.e_shnum, p)
    ||| in_bytes(m.symbol_table.header.sh_offset as int, (24 * m.symbol_table.symbols.len()) as int, p)
    ||| exists|k: int|
        0 <= k < m.string_tables.len() && #[trigger] in_bytes(
            m.string_tables[k].header.sh_offset as int,
            m.string_tables[k].raw.len() as int,
            p,
        )
    ||| exists|k: int, j: int|
        0 <= k < secs.len() && 0 <= j < secs[k].relocations.len() && #[trigger] in_entry(
            secs[k],
            j,
            p,
        ) && !in_kind_field(secs[k], j, p)
}

/// The kind fields of the relocation entries share no byte with each other
/// nor with anything else that reading the object takes.
pub open spec fn kind_fields_isolated(m: ElfModel) -> bool {
    &&& kind_fields_disjoint(m.relocation_sections)
    &&& forall|p: int| #[trigger]
        in_some_kind_field(m.relocation_sections, p) ==> !read_besides_kinds(m, p)
}

proof fn lemma_symbol_table_upto(s: Seq<u8>, s1: Seq<u8>, shdrs: Seq<Elf64_Shdr>, n: int)
    requires
        s.len() == s1.len(),
    ensures
        symbol_table_upto(s1, shdrs, n) == match symbol_table_upto(s, shdrs, n) {
            Some(st) => Some(symtab_of(s1, st.header)),
            None => None,
        },
        symbol_table_upto(s, shdrs, n) matches Some(st) ==> st == symtab_of(s, st.header)
            && loads_symtab(s, st.header),
    decreases n,
{
    if n > 0 {
        lemma_symbol_table_upto(s, s1, shdrs, n - 1);
    }
}

proof fn lemma_string_tables_upto(s: Seq<u8>, s1: Seq<u8>, shdrs: Seq<Elf64_Shdr>, n: int)
    requires
        s.len() == s1.len(),
    ensures
        string_tables_upto(s1, shdrs, n).len() == string_tables_upto(s, shdrs, n).len(),
        forall|k: int|
            0 <= k < string_tables_upto(s, shdrs, n).len() ==> {
                let t = #[trigger] string_tables_upto(s, shdrs, n)[k];
                &&& string_tables_upto(s1, shdrs, n)[k] == strtab_of(s1, t.header, t.shdr_index)
                &&& t == strtab_of(s, t.header, t.shdr_index)
                &&& loads_strtab(s, t.header)
            },
    decreases n,
{
    if n > 0 {
        lemma_string_tables_upto(s, s1, shdrs, n - 1);
    }
}

proof fn lemma_relocation_sections_upto(s: Seq<u8>, s1: Seq<u8>, shdrs: Seq<Elf64_Shdr>, n: int)
    requires
        s.len() == s1.len(),
    ensures
        relocation_sections_upto(s1, shdrs, n).len() == relocation_sections_upto(s, shdrs, n).len(),
        forall|k: int|
            0 <= k < relocation_sections_upto(s, shdrs, n).len() ==> {
                let sec = #[trigger] relocation_sections_upto(s, shdrs, n)[k];
                &&& relocation_sections_upto(s1, shdrs, n)[k] == relas_of(s1, sec.header)
                &&& sec == relas_of(s, sec.header)
                &&& loads_relas(s, sec.header)
            },
    decreases n,
{
    if n > 0 {
        lemma_relocation_sections_upto(s, s1, shdrs, n - 1);
    }
}

/// The rewrite keeps each section's header and number of entries.
proof fn lemma_relocated_shape(m: ElfModel, k: int)
    requires
        0 <= k < m.relocation_sections.len(),
    ensures
        m.relocated().relocation_sections.len() == m.relocation_sections.len(),
        m.relocated().relocation_sections[k].header == m.relocation_sections[k].header,
        m.relocated().relocation_sections[k].relocations.len()
            == m.relocation_sections[k].relocations.len(),
        forall|j: int|
            0 <= j < m.relocation_sections[k].relocations.len() ==> #[trigger] m.relocated().relocation_sections[k].relocations[j]
                == relocated(
                m.relocation_sections[k].relocations[j],
                m.symbol_table.symbols,
                m.shdrs,
                m.table_bytes(),
            ),
{
}

/// A byte that reading takes besides the kind fields keeps its value.
proof fn lemma_besides_kinds_unchanged(s: Seq<u8>, m: ElfModel, p: int)
    requires
        kind_fields_isolated(m),
        0 <= p < s.len(),
        read_besides_kinds(m, p),
    ensures
        written_image(s, m.relocated())[p] == s[p],
{
    let secs = m.relocation_sections;
    let secs1 = m.relocated().relocation_sections;
    assert(!in_some_kind_field(secs, p));
    if in_some_kind_field(secs1, p) {
        let (k, j) = choose|k: int, j: int|
            0 <= k < secs1.len() && 0 <= j < secs1[k].relocations.len() && #[trigger] in_kind_field(
                secs1[k],
                j,
                p,
            );
        lemma_relocated_shape(m, k);
        assert(in_kind_field(secs[k], j, p));
        assert(in_some_kind_field(secs, p));
    }
    law_write_back_frame(s, m.relocated(), p);
}

/// Where a file's relocation kind fields share no byte with each other nor
/// with anything else that reading the file takes, reading the rewritten
/// bytes gives the rewritten object, whose lookups are again in range; and
/// rewriting those bytes a second time leaves them as they are.
pub proof fn law_rewrite_bytes_idempotent(s: Seq<u8>)
    requires
        entry_size_ok(s),
        parse_elf(s) is Some,
        parse_elf(s).unwrap().lookups_ok(),
        kind_fields_isolated(parse_elf(s).unwrap()),
    ensures
        ({
            let m = parse_elf(s).unwrap();
            let s1 = written_image(s, m.relocated());
            &&& entry_size_ok(s1)
            &&& parse_elf(s1) == Some(m.relocated())
            &&& m.relocated().lookups_ok()
            &&& written_image(s1, m.relocated().relocated()) == s1
        }),
{
    let m = parse_elf(s).unwrap();
    let m1 = m.relocated();
    let s1 = written_image(s, m1);
    lemma_parsed_sections_fit(s);
    lemma_relocated_sections_fit(m, s.len() as int);
    lemma_patch_sections_len(s, m1.relocation_sections, m1.relocation_sections.len() as int);
    let h = ehdr_at(s);
    let shdrs = section_headers(s, h);
    let n = shdrs.len() as int;

    // The file header and the section header table keep their bytes.
    assert forall|p: int| 0 <= p < 64 implies #[trigger] s1[p] == s[p] by {
        assert(in_bytes(0, 64, p));
        lemma_besides_kinds_unchanged(s, m, p);
    }
    assert(ehdr_at(s1) == h);
    assert(section_table_in_file(s1));
    assert forall|p: int| h.e_shoff <= p < h.e_shoff + 64 * h.e_shnum implies #[trigger] s1[p] == s[p] by {
        assert(in_bytes(h.e_shoff as int, 64 * h.e_shnum, p));
        lemma_besides_kinds_unchanged(s, m, p);
    }
    assert(section_headers(s1, h) =~= shdrs);

    // The symbol table.
    lemma_symbol_table_upto(s, s1, shdrs, n);
    let st = m.symbol_table;
    assert forall|j: int| 0 <= j < st.symbols.len() implies #[trigger] sym_at(s1, st.header.sh_offset + 24 * j)
        == sym_at(s, st.header.sh_offset + 24 * j) by {
        assert forall|p: int| st.header.sh_offset + 24 * j <= p < st.header.sh_offset + 24 * j + 24 implies
            #[trigger] s1[p] == s[p] by {
            assert(in_bytes(st.header.sh_offset as int, (24 * st.symbols.len()) as int, p));
            lemma_besides_kinds_unchanged(s, m, p);
        }
    }
    assert(symtab_of(s1, st.header).symbols =~= st.symbols);

    // The string tables.
    lemma_string_tables_upto(s, s1, shdrs, n);
    let tabs = m.string_tables;
    assert forall|k: int| 0 <= k < tabs.len() implies #[trigger] string_tables_upto(s1, shdrs, n)[k]
        == tabs[k] by {
        let t = tabs[k];
        assert forall|p: int| t.header.sh_offset <= p < t.header.sh_offset + t.raw.len() implies
            #[trigger] s1[p] == s[p] by {
            assert(in_bytes(tabs[k].header.sh_offset as int, tabs[k].raw.len() as int, p));
            lemma_besides_kinds_unchanged(s, m, p);
        }
        assert(strtab_of(s1, t.header, t.shdr_index).raw =~= t.raw);
    }
    assert(string_tables_upto(s1, shdrs, n) =~= tabs);

    // The relocation sections hold the rewritten entries.
    lemma_relocation_sections_upto(s, s1, shdrs, n);
    let secs = m.relocation_sections;
    let secs1 = m1.relocation_sections;
    assert(kind_fields_disjoint(secs1)) by {
        assert forall|k1: int, j1: int, k2: int, j2: int|
            #![trigger kind_pos(secs1[k1], j1), kind_pos(secs1[k2], j2)]
            0 <= k1 < secs1.len() && 0 <= j1 < secs1[k1].relocations.len() && 0 <= k2 < secs1.len()
                && 0 <= j2 < secs1[k2].relocations.len() && (k1 != k2 || j1 != j2)
            implies kind_pos(secs1[k1], j1) + 4 <= kind_pos(secs1[k2], j2)
                || kind_pos(secs1[k2], j2) + 4 <= kind_pos(secs1[k1], j1) by {
            lemma_relocated_shape(m, k1);
            lemma_relocated_shape(m, k2);
            assert(kind_pos(secs[k1], j1) + 4 <= kind_pos(secs[k2], j2)
                || kind_pos(secs[k2], j2) + 4 <= kind_pos(secs[k1], j1));
        }
    }
    assert forall|k: int| 0 <= k < secs.len() implies #[trigger] relocation_sections_upto(s1, shdrs, n)[k]
        == secs1[k] by {
        let sec = secs[k];
        lemma_relocated_shape(m, k);
        let got = relas_of(s1, sec.header);
        assert forall|j: int| 0 <= j < sec.relocations.len() implies #[trigger] got.relocations[j]
            == secs1[k].relocations[j] by {
            let base = sec.header.sh_offset + 24 * j;
            assert forall|p: int| (base <= p < base + 8 || base + 12 <= p < base + 24) implies
                #[trigger] s1[p] == s[p] by {
                assert(in_entry(secs[k], j, p) && !in_kind_field(secs[k], j, p));
                lemma_besides_kinds_unchanged(s, m, p);
            }
            law_write_back_reads_back(s, m1, k, j);
            assert(kind_pos(secs1[k], j) == base + 8);
            assert(rela_at(s, base) == sec.relocations[j]);
        }
        assert(got.relocations =~= secs1[k].relocations);
    }
    assert(relocation_sections_upto(s1, shdrs, n) =~= secs1);
    assert(parse_elf(s1) == Some(m1));

    // Lookups of the rewritten object.
    assert forall|k: int| 0 <= k < secs1.len() implies all_lookups_in_range(
        #[trigger] secs1[k].relocations,
        m1.symbol_table.symbols,
        m1.shdrs,
    ) by {
        lemma_relocated_shape(m, k);
        assert forall|j: int| 0 <= j < secs1[k].relocations.len() implies lookups_in_range(
            #[trigger] secs1[k].relocations[j],
            m1.symbol_table.symbols,
            m1.shdrs,
        ) by {
            assert(all_lookups_in_range(secs[k].relocations, m.symbol_table.symbols, m.shdrs));
            assert(lookups_in_range(secs[k].relocations[j], m.symbol_table.symbols, m.shdrs));
        }
    }

    // Rewriting again.
    law_object_rewrite_idempotent(m);
    law_write_back_twice(s, m1);
}


// ---------------------------------------------------------------------------
// What the operations mean, stated apart from their definitions.

/// The kind names R_X86_64_64, R_X86_64_32, R_X86_64_32S, R_X86_64_16 or
/// R_X86_64_8.
pub open spec fn names_absolute_data_kind(v: u32) -> bool {
    ||| rela_type_of(v) == Some(RelaType::R_X86_64_64)
    ||| rela_type_of(v) == Some(RelaType::R_X86_64_32)
    ||| rela_type_of(v) == Some(RelaType::R_X86_64_32S)
    ||| rela_type_of(v) == Some(RelaType::R_X86_64_16)
    ||| rela_type_of(v) == Some(RelaType::R_X86_64_8)
}

/// The relocation kinds that the rewrite treats as absolute data references
/// are exactly R_X86_64_64, _32, _32S, _16 and _8.
pub proof fn law_absolute_kinds(v: u32)
    ensures
        is_absolute_kind(v) <==> names_absolute_data_kind(v),
{
}

/// An absolute data relocation (R_X86_64_64, _32, _32S, _16 or _8) of a data
/// object symbol becomes R_X86_64_COPY, whatever the tables hold.
pub proof fn law_absolute_data_relocation_copied(
    r: Elf64_Rela,
    syms: Seq<Elf64_Sym>,
    shdrs: Seq<Elf64_Shdr>,
    tables: Seq<Seq<u8>>,
)
    requires
        names_absolute_data_kind(r.r_info_type),
        r.r_info_symbol < syms.len(),
        syms[r.r_info_symbol as int].st_info % 16 == STT_OBJECT,
    ensures
        relocated(r, syms, shdrs, tables) == (Elf64_Rela { r_info_type: R_COPY, ..r }),
{
}

/// A relocation of any other kind than the five absolute data kinds and
/// R_X86_64_RELATIVE is left exactly as it is.
pub proof fn law_other_kinds_untouched(
    r: Elf64_Rela,
    syms: Seq<Elf64_Sym>,
    shdrs: Seq<Elf64_Shdr>,
    tables: Seq<Seq<u8>>,
)
    requires
        !names_absolute_data_kind(r.r_info_type),
        rela_type_of(r.r_info_type) != Some(RelaType::R_X86_64_RELATIVE),
    ensures
        relocated(r, syms, shdrs, tables) == r,
{
}

proof fn lemma_first_with_value(syms: Seq<Elf64_Sym>, v: u64, from: int)
    requires
        0 <= from,
    ensures
        first_with_value(syms, v, from) matches Some(s) ==> exists|i: int|
            from <= i < syms.len() && syms[i] == s && s.st_value == v && forall|j: int|
                from <= j < i ==> (#[trigger] syms[j]).st_value != v,
        first_with_value(syms, v, from) is None ==> forall|i: int|
            from <= i < syms.len() ==> (#[trigger] syms[i]).st_value != v,
    decreases syms.len() - from,
{
    if from < syms.len() && syms[from].st_value != v {
        lemma_first_with_value(syms, v, from + 1);
        if first_with_value(syms, v, from + 1) is Some {
            let s = first_with_value(syms, v, from + 1).unwrap();
            let i = choose|i: int|
                from + 1 <= i < syms.len() && syms[i] == s && s.st_value == v && forall|j: int|
                    from + 1 <= j < i ==> (#[trigger] syms[j]).st_value != v;
            assert(from <= i < syms.len() && syms[i] == s && s.st_value == v);
        }
    }
}

/// The symbol that a relocation points at through its addend: only a
/// R_X86_64_RELATIVE relocation has one, and it is the first entry of the
/// table whose value equals the addend; there is none where no entry has
/// that value.
pub proof fn law_addend_symbol(r: Elf64_Rela, syms: Seq<Elf64_Sym>)
    ensures
        addend_symbol(r, syms) matches Some(s) ==> {
            &&& rela_type_of(r.r_info_type) == Some(RelaType::R_X86_64_RELATIVE)
            &&& s.st_value == r.r_addend as u64
            &&& exists|i: int|
                0 <= i < syms.len() && syms[i] == s && forall|j: int|
                    0 <= j < i ==> (#[trigger] syms[j]).st_value != r.r_addend as u64
        },
        addend_symbol(r, syms) is None ==> rela_type_of(r.r_info_type) != Some(
            RelaType::R_X86_64_RELATIVE,
        ) || forall|i: int| 0 <= i < syms.len() ==> (#[trigger] syms[i]).st_value != r.r_addend as u64,
{
    lemma_first_with_value(syms, r.r_addend as u64, 0);
}

/// A symbol counts as text exactly when it is a section symbol (type 3) of a
/// section whose flags have bit 2 (SHF_EXECINSTR, value 4) set.
pub proof fn law_text_sections(sym: Elf64_Sym, shdrs: Seq<Elf64_Shdr>)
    ensures
        sym.spec_is_text(shdrs) <==> (sym.st_info % 16 == 3 && (shdrs[sym.st_shndx as int].sh_flags
            / 4) % 2 == 1),
{
    let f = shdrs[sym.st_shndx as int].sh_flags;
    assert((f & 4u64 != 0) <==> ((f / 4) % 2 == 1)) by (bit_vector);
}

/// The loader formula of a kind is "S+A" exactly for the absolute data kinds
/// that the rewrite acts on, and "S+A–P" exactly for the PC-relative kinds
/// R_X86_64_PC64, _PC32, _PC16 and _PC8.
pub proof fn law_formulas(t: RelaType)
    ensures
        t.formula() == "S+A"@ <==> names_absolute_data_kind(t.spec_code()),
        t.formula() == "S+A–P"@ <==> (t == RelaType::R_X86_64_PC64 || t == RelaType::R_X86_64_PC32
            || t == RelaType::R_X86_64_PC16 || t == RelaType::R_X86_64_PC8),
{
    reveal_strlit("");
    reveal_strlit("S+A");
    reveal_strlit("S+A–P");
    reveal_strlit("G+A");
    reveal_strlit("L+A–P");
    reveal_strlit("copy");
    reveal_strlit("S");
    reveal_strlit("B+A");
    reveal_strlit("G+GOT+A–P");
    reveal_strlit("S+A–GOT");
    reveal_strlit("GOT+A–P");
    reveal_strlit("Z+A");
    law_rela_type_roundtrip(t, t.spec_code());
    assert("S+A"@.len() != "S+A–P"@.len());
    assert("S+A"@[0] != "G+A"@[0]);
    assert("S+A"@[0] != "Z+A"@[0]);
    assert("S+A"@[0] != "B+A"@[0]);
    assert("S+A–P"@[0] != "L+A–P"@[0]);
    assert("S+A–P"@.len() != "S+A–GOT"@.len());
    assert("S+A–P"@.len() != "GOT+A–P"@.len());
}

/// Where the bytes `s` hold an object, the parsed records are the bytes of
/// the file at the places the ELF64 layout gives them: the file header in the
/// first 64 bytes, section header `k` at `e_shoff + 64 * k`, entry `j` of the
/// symbol table and of each relocation section at `sh_offset + 24 * j`, and
/// each string table as its `sh_size` bytes from `sh_offset` on.
pub proof fn law_parse_layout(s: Seq<u8>)
    requires
        parse_elf(s) is Some,
    ensures
        ({
            let m = parse_elf(s).unwrap();
            let shoff = le_u64(s, 40) as int;
            &&& m.elf_header.e_ident@ == s.subrange(0, 16)
            &&& m.elf_header.e_type == le_u16(s, 16)
            &&& m.elf_header.e_machine == le_u16(s, 18)
            &&& m.elf_header.e_version == le_u32(s, 20)
            &&& m.elf_header.e_entry == le_u64(s, 24)
            &&& m.elf_header.e_phoff == le_u64(s, 32)
            &&& m.elf_header.e_shoff == le_u64(s, 40)
            &&& m.elf_header.e_flags == le_u32(s, 48)
            &&& m.elf_header.e_ehsize == le_u16(s, 52)
            &&& m.elf_header.e_phentsize == le_u16(s, 54)
            &&& m.elf_header.e_phnum == le_u16(s, 56)
            &&& m.elf_header.e_shentsize == le_u16(s, 58)
            &&& m.elf_header.e_shnum == le_u16(s, 60)
            &&& m.elf_header.e_shstrndx == le_u16(s, 62)
            &&& m.shdrs.len() == le_u16(s, 60)
            &&& forall|k: int|
                0 <= k < m.shdrs.len() ==> {
                    let p = shoff + 64 * k;
                    let h = #[trigger] m.shdrs[k];
                    &&& h.sh_name == le_u32(s, p)
                    &&& h.sh_type == le_u32(s, p + 4)
                    &&& h.sh_flags == le_u64(s, p + 8)
                    &&& h.sh_addr == le_u64(s, p + 16)
                    &&& h.sh_offset == le_u64(s, p + 24)
                    &&& h.sh_size == le_u64(s, p + 32)
                    &&& h.sh_link == le_u32(s, p + 40)
                    &&& h.sh_info == le_u32(s, p + 44)
                    &&& h.sh_addralign == le_u64(s, p + 48)
                    &&& h.sh_entsize == le_u64(s, p + 56)
                }
            &&& m.symbol_table.header.sh_type == 2
            &&& m.symbol_table.symbols.len() == m.symbol_table.header.sh_size / 24
            &&& forall|j: int|
                0 <= j < m.symbol_table.symbols.len() ==> {
                    let p = m.symbol_table.header.sh_offset + 24 * j;
                    let e = #[trigger] m.symbol_table.symbols[j];
                    &&& e.st_name == le_u32(s, p)
                    &&& e.st_info == s[p + 4]
                    &&& e.st_other == s[p + 5]
                    &&& e.st_shndx == le_u16(s, p + 6)
                    &&& e.st_value == le_u64(s, p + 8)
                    &&& e.st_size == le_u64(s, p + 16)
                }
            &&& forall|k: int|
                0 <= k < m.string_tables.len() ==> {
                    let t = #[trigger] m.string_tables[k];
                    &&& t.header.sh_type == 3
                    &&& t.raw == s.subrange(
                        t.header.sh_offset as int,
                        t.header.sh_offset + t.header.sh_size,
                    )
                }
            &&& forall|k: int|
                0 <= k < m.relocation_sections.len() ==> {
                    let sec = #[trigger] m.relocation_sections[k];
                    &&& sec.header.sh_type == 4
                    &&& sec.relocations.len() == sec.header.sh_size / 24
                    &&& forall|j: int|
                        0 <= j < sec.relocations.len() ==> {
                            let p = sec.header.sh_offset + 24 * j;
                            let r = #[trigger] sec.relocations[j];
                            &&& r.r_offset == le_u64(s, p)
                            &&& r.r_info_type == le_u32(s, p + 8)
                            &&& r.r_info_symbol == le_u32(s, p + 12)
                            &&& r.r_addend == le_u64(s, p + 16) as i64
                        }
                }
        }),
{
    let m = parse_elf(s).unwrap();
    let h = ehdr_at(s);
    let shdrs = section_headers(s, h);
    let n = shdrs.len() as int;
    assert(m.elf_header.e_ident@ =~= s.subrange(0, 16));
    lemma_symbol_table_upto(s, s, shdrs, n);
    lemma_string_tables_upto(s, s, shdrs, n);
    lemma_relocation_sections_upto(s, s, shdrs, n);
}


/// The string at byte `off` of a string table: there is one only where `off`
/// lies inside the table and the table ends in a NUL byte; it is the text of
/// the bytes from `off` up to the first NUL after it, where those are UTF-8.
pub proof fn law_string_at(raw: Seq<u8>, off: int)
    ensures
        string_at(raw, off) matches Some(t) ==> {
            &&& 0 <= off < raw.len()
            &&& raw[raw.len() - 1] == 0
            &&& exists|e: int|
                off <= e < raw.len() && raw[e] == 0 && (forall|q: int|
                    off <= q < e ==> #[trigger] raw[q] != 0) && valid_utf8(raw.subrange(off, e))
                    && t == decode_utf8(raw.subrange(off, e))
        },
        (0 <= off < raw.len() && raw[raw.len() - 1] == 0 && string_at(raw, off) is None)
            ==> forall|e: int|
            off <= e < raw.len() && raw[e] == 0 && (forall|q: int|
                off <= q < e ==> #[trigger] raw[q] != 0) ==> !valid_utf8(
                #[trigger] raw.subrange(off, e),
            ),
{
    if 0 <= off < raw.len() {
        lemma_first_nul_from(raw, off);
        let f = crate::strtab::first_nul_from(raw, off);
        if raw[raw.len() - 1] == 0 {
            assert(f < raw.len()) by {
                if f == raw.len() {
                    assert(raw[raw.len() - 1] != 0);
                }
            }
            assert forall|e: int|
                off <= e < raw.len() && raw[e] == 0 && (forall|q: int|
                    off <= q < e ==> #[trigger] raw[q] != 0) implies e == f by {
                if e < f {
                    assert(raw[e] != 0);
                }
                if f < e {
                    assert(raw[f] != 0);
                }
            }
        }
    }
}

proof fn lemma_names_for(tables: Seq<Seq<u8>>, sym: Elf64_Sym, x: Seq<char>)
    ensures
        names_for(tables, sym).contains(x) <==> exists|i: int|
            0 <= i < tables.len() && symbol_name_in(#[trigger] tables[i], sym) == Some(x),
    decreases tables.len(),
{
    if tables.len() > 0 {
        let init = tables.drop_last();
        lemma_names_for(init, sym, x);
        let prev = names_for(init, sym);
        if exists|i: int| 0 <= i < tables.len() && symbol_name_in(#[trigger] tables[i], sym) == Some(x) {
            let i = choose|i: int| 0 <= i < tables.len() && symbol_name_in(#[trigger] tables[i], sym) == Some(x);
            if i < tables.len() - 1 {
                assert(init[i] == tables[i]);
                let k = choose|k: int| 0 <= k < prev.len() && prev[k] == x;
                match symbol_name_in(tables.last(), sym) {
                    Some(nm) => {
                        assert(prev.push(nm)[k] == x);
                    },
                    None => {},
                }
            } else {
                match symbol_name_in(tables.last(), sym) {
                    Some(nm) => {
                        assert(prev.push(nm)[prev.len() as int] == x);
                    },
                    None => {},
                }
            }
        }
        if names_for(tables, sym).contains(x) {
            let k = choose|k: int| 0 <= k < names_for(tables, sym).len() && names_for(tables, sym)[k] == x;
            if k < prev.len() {
                assert(prev[k] == x);
                assert(prev.contains(x));
                let i = choose|i: int| 0 <= i < init.len() && symbol_name_in(#[trigger] init[i], sym) == Some(x);
                assert(tables[i] == init[i]);
            } else {
                assert(symbol_name_in(tables[tables.len() - 1], sym) == Some(x));
            }
        }
    }
}

/// The symbols whose relocations stay as they are: section symbols of
/// executable sections, functions (type 2), and symbols without type (type 0)
/// that no string table names `__ImageBase`.
pub proof fn law_kept_symbols(sym: Elf64_Sym, shdrs: Seq<Elf64_Shdr>, tables: Seq<Seq<u8>>)
    ensures
        keeps_relocation(sym, shdrs, tables) <==> {
            ||| sym.spec_is_text(shdrs)
            ||| sym.st_info % 16 == 2
            ||| sym.st_info % 16 == 0 && forall|i: int|
                0 <= i < tables.len() ==> symbol_name_in(#[trigger] tables[i], sym) != Some(
                    "__ImageBase"@,
                )
        },
{
    lemma_names_for(tables, sym, "__ImageBase"@);
}

/// A R_X86_64_RELATIVE relocation whose addend is the value of a data object
/// symbol, the first in the table with that value, becomes R_X86_64_COPY.
pub proof fn law_relative_data_relocation_copied(
    r: Elf64_Rela,
    syms: Seq<Elf64_Sym>,
    shdrs: Seq<Elf64_Shdr>,
    tables: Seq<Seq<u8>>,
    i: int,
)
    requires
        rela_type_of(r.r_info_type) == Some(RelaType::R_X86_64_RELATIVE),
        0 <= i < syms.len(),
        syms[i].st_value == r.r_addend as u64,
        forall|j: int| 0 <= j < i ==> (#[trigger] syms[j]).st_value != r.r_addend as u64,
        syms[i].st_info % 16 == STT_OBJECT,
    ensures
        relocated(r, syms, shdrs, tables) == (Elf64_Rela { r_info_type: R_COPY, ..r }),
{
    let v = r.r_addend as u64;
    lemma_first_with_value(syms, v, 0);
    let found = first_with_value(syms, v, 0);
    assert(found is Some);
    let s = found.unwrap();
    let i2 = choose|i2: int|
        0 <= i2 < syms.len() && syms[i2] == s && s.st_value == v && forall|j: int|
            0 <= j < i2 ==> (#[trigger] syms[j]).st_value != v;
    if i2 < i {
        assert(syms[i2].st_value != v);
    }
    if i < i2 {
        assert(syms[i].st_value != v);
    }
    assert(s == syms[i]);
}

proof fn lemma_absolute_rewrites(
    rs: Seq<Elf64_Rela>,
    syms: Seq<Elf64_Sym>,
    shdrs: Seq<Elf64_Shdr>,
    tables: Seq<Seq<u8>>,
    n: int,
    x: Rewrite,
)
    requires
        0 <= n <= rs.len(),
        rs.len() <= usize::MAX,
    ensures
        absolute_rewrites(rs, syms, shdrs, tables, n).contains(x) <==> (x.index < n && !x.by_addend
            && crate::relocate::absolute_retargeted(rs[x.index as int], syms, shdrs, tables)),
    decreases n,
{
    if n > 0 {
        lemma_absolute_rewrites(rs, syms, shdrs, tables, n - 1, x);
        let prev = absolute_rewrites(rs, syms, shdrs, tables, n - 1);
        let cur = absolute_rewrites(rs, syms, shdrs, tables, n);
        if crate::relocate::absolute_retargeted(rs[n - 1], syms, shdrs, tables) {
            let y = Rewrite { index: (n - 1) as usize, by_addend: false };
            assert(cur == prev.push(y));
            if x == y {
                assert(cur[prev.len() as int] == x);
            }
            if prev.contains(x) {
                let k = choose|k: int| 0 <= k < prev.len() && prev[k] == x;
                assert(cur[k] == x);
            }
            if cur.contains(x) && x != y {
                let k = choose|k: int| 0 <= k < cur.len() && cur[k] == x;
                assert(prev[k] == x);
            }
        }
    }
}

proof fn lemma_relative_rewrites(
    rs: Seq<Elf64_Rela>,
    syms: Seq<Elf64_Sym>,
    shdrs: Seq<Elf64_Shdr>,
    tables: Seq<Seq<u8>>,
    n: int,
    x: Rewrite,
)
    requires
        0 <= n <= rs.len(),
        rs.len() <= usize::MAX,
    ensures
        relative_rewrites(rs, syms, shdrs, tables, n).contains(x) <==> (x.index < n && x.by_addend
            && crate::relocate::relative_retargeted(rs[x.index as int], syms, shdrs, tables)),
    decreases n,
{
    if n > 0 {
        lemma_relative_rewrites(rs, syms, shdrs, tables, n - 1, x);
        let prev = relative_rewrites(rs, syms, shdrs, tables, n - 1);
        let cur = relative_rewrites(rs, syms, shdrs, tables, n);
        if crate::relocate::relative_retargeted(rs[n - 1], syms, shdrs, tables) {
            let y = Rewrite { index: (n - 1) as usize, by_addend: true };
            assert(cur == prev.push(y));
            if x == y {
                assert(cur[prev.len() as int] == x);
            }
            if prev.contains(x) {
                let k = choose|k: int| 0 <= k < prev.len() && prev[k] == x;
                assert(cur[k] == x);
            }
            if cur.contains(x) && x != y {
                let k = choose|k: int| 0 <= k < cur.len() && cur[k] == x;
                assert(prev[k] == x);
            }
        }
    }
}

/// The report of a section's rewrite names exactly the entries that the
/// rewrite changes, each marked as found through the addend exactly when it
/// was a R_X86_64_RELATIVE relocation.
pub proof fn law_rewrite_report(
    rs: Seq<Elf64_Rela>,
    syms: Seq<Elf64_Sym>,
    shdrs: Seq<Elf64_Shdr>,
    tables: Seq<Seq<u8>>,
    x: Rewrite,
)
    requires
        rs.len() <= usize::MAX,
    ensures
        rewrites(rs, syms, shdrs, tables).contains(x) <==> {
            &&& x.index < rs.len()
            &&& relocated(rs[x.index as int], syms, shdrs, tables) != rs[x.index as int]
            &&& (x.by_addend <==> rela_type_of(rs[x.index as int].r_info_type) == Some(
                RelaType::R_X86_64_RELATIVE,
            ))
        },
{
    let n = rs.len() as int;
    let a = absolute_rewrites(rs, syms, shdrs, tables, n);
    let b = relative_rewrites(rs, syms, shdrs, tables, n);
    lemma_absolute_rewrites(rs, syms, shdrs, tables, n, x);
    lemma_relative_rewrites(rs, syms, shdrs, tables, n, x);
    if (a + b).contains(x) {
        let k = choose|k: int| 0 <= k < (a + b).len() && (a + b)[k] == x;
        if k < a.len() {
            assert(a[k] == x);
        } else {
            assert(b[k - a.len()] == x);
        }
    }
    if a.contains(x) {
        let k = choose|k: int| 0 <= k < a.len() && a[k] == x;
        assert((a + b)[k] == x);
    }
    if b.contains(x) {
        let k = choose|k: int| 0 <= k < b.len() && b[k] == x;
        assert((a + b)[a.len() + k] == x);
    }
}


/// Section header `k` of the bytes `s` is a symbol table whose entries lie
/// inside the file.
pub open spec fn symtab_header_fits(s: Seq<u8>, k: int) -> bool {
    let p = le_u64(s, 40) + 64 * k;
    &&& le_u32(s, p + 4) == 2
    &&& le_u64(s, p + 24) + (le_u64(s, p + 32) / 24) * 24 <= s.len()
}

proof fn lemma_symbol_table_choice(s: Seq<u8>, shdrs: Seq<Elf64_Shdr>, n: int)
    requires
        0 <= n <= shdrs.len(),
    ensures
        symbol_table_upto(s, shdrs, n) is Some <==> exists|k: int|
            0 <= k < n && loads_symtab(s, #[trigger] shdrs[k]),
        symbol_table_upto(s, shdrs, n) matches Some(st) ==> exists|k: int|
            0 <= k < n && loads_symtab(s, #[trigger] shdrs[k]) && st.header == shdrs[k] && forall|
                k2: int,
            |
                k < k2 < n ==> !loads_symtab(s, #[trigger] shdrs[k2]),
    decreases n,
{
    if n > 0 {
        lemma_symbol_table_choice(s, shdrs, n - 1);
        if !loads_symtab(s, shdrs[n - 1]) {
            if exists|k: int| 0 <= k < n && loads_symtab(s, #[trigger] shdrs[k]) {
                let k = choose|k: int| 0 <= k < n && loads_symtab(s, #[trigger] shdrs[k]);
                assert(k < n - 1);
            }
        }
    }
}

/// The bytes `s` hold an object exactly when they hold the 64-byte file
/// header, the whole section header table, and a symbol table section whose
/// entries lie inside the file; the object's symbol table is the last such
/// section.
pub proof fn law_parse_accepts(s: Seq<u8>)
    ensures
        parse_elf(s) is Some <==> {
            &&& s.len() >= 64
            &&& le_u64(s, 40) + 64 * le_u16(s, 60) <= s.len()
            &&& exists|k: int| 0 <= k < le_u16(s, 60) && #[trigger] symtab_header_fits(s, k)
        },
        parse_elf(s) matches Some(m) ==> exists|k: int|
            0 <= k < le_u16(s, 60) && #[trigger] symtab_header_fits(s, k) && m.symbol_table.header
                == m.shdrs[k] && forall|k2: int|
                k < k2 < le_u16(s, 60) ==> !#[trigger] symtab_header_fits(s, k2),
{
    if s.len() >= 64 {
        let h = ehdr_at(s);
        let shdrs = section_headers(s, h);
        let n = shdrs.len() as int;
        assert forall|k: int| 0 <= k < n implies #[trigger] symtab_header_fits(s, k) == loads_symtab(
            s,
            shdrs[k],
        ) by {
        }
        lemma_symbol_table_choice(s, shdrs, n);
        if section_table_in_file(s) {
            if exists|k: int| 0 <= k < le_u16(s, 60) && #[trigger] symtab_header_fits(s, k) {
                let k = choose|k: int| 0 <= k < le_u16(s, 60) && #[trigger] symtab_header_fits(s, k);
                assert(loads_symtab(s, shdrs[k]));
            }
            if parse_elf(s) is Some {
                let k = choose|k: int|
                    0 <= k < n && loads_symtab(s, #[trigger] shdrs[k]) && symbol_table_upto(
                        s,
                        shdrs,
                        n,
                    ).unwrap().header == shdrs[k] && forall|k2: int|
                        k < k2 < n ==> !loads_symtab(s, #[trigger] shdrs[k2]);
                assert(symtab_header_fits(s, k));
                assert forall|k2: int| k < k2 < le_u16(s, 60) implies !#[trigger] symtab_header_fits(
                    s,
                    k2,
                ) by {
                    assert(!loads_symtab(s, shdrs[k2]));
                }
            }
        }
    }
}

} // verus!
