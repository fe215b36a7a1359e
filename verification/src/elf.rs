//! Reading an ELF64 object into its section tables, rewriting its relocations,
//! and writing the rewritten relocation kinds back into the file's bytes.
use vstd::prelude::*;
use vstd::slice::{slice_subrange, slice_to_vec};
use crate::bytes::{le_u16, le_u32, le_u64, put_le_u32, read_u16, read_u32, read_u64, write_u32};
use crate::types::{
    Elf64_Ehdr, Elf64_Rela, Elf64_Shdr, Elf64_Sym, EHDR_SIZE, RELA_SIZE, SHDR_SIZE, SHT_RELA,
    SHT_STRTAB, SHT_SYMTAB, SYM_SIZE,
};
use crate::strtab::{ElfStringTab, StringTabModel};
use crate::relocate::{
    ElfRelocations, ElfSymTab, RelocationsModel, Rewrite, SymTabModel, all_lookups_in_range,
    is_absolute_code, lookups_in_range, relocated_all, rewrites, table_bytes,
};

verus! {

/// A parsed ELF object as a value.
pub struct ElfModel {
    pub shdrs: Seq<Elf64_Shdr>,
    pub elf_header: Elf64_Ehdr,
    pub symbol_table: SymTabModel,
    pub string_tables: Seq<StringTabModel>,
    pub relocation_sections: Seq<RelocationsModel>,
}

/// A parsed ELF object: a copy of every section header, the file header, the
/// (last) symbol table, and the string tables and relocation sections in the
/// order of the section header table.
#[derive(Debug, PartialEq, Eq)]
pub struct ElfFile {
    pub shdrs_copy: Vec<Elf64_Shdr>,
    pub elf_header: Elf64_Ehdr,
    pub symbol_table: ElfSymTab,
    pub string_tables: Vec<ElfStringTab>,
    pub relocation_sections: Vec<ElfRelocations>,
}

impl View for ElfFile {
    type V = ElfModel;

    open spec fn view(&self) -> ElfModel {
        ElfModel {
            shdrs: self.shdrs_copy@,
            elf_header: self.elf_header,
            symbol_table: self.symbol_table@,
            string_tables: self.string_tables@.map_values(|t: ElfStringTab| t@),
            relocation_sections: self.relocation_sections@.map_values(|r: ElfRelocations| r@),
        }
    }
}

// ---------------------------------------------------------------------------
// Layout of the records in the file.

pub open spec fn ehdr_at(s: Seq<u8>) -> Elf64_Ehdr {
    Elf64_Ehdr {
        e_ident: [
            s[0], s[1], s[2], s[3], s[4], s[5], s[6], s[7],
            s[8], s[9], s[10], s[11], s[12], s[13], s[14], s[15],
        ],
        e_type: le_u16(s, 16),
        e_machine: le_u16(s, 18),
        e_version: le_u32(s, 20),
        e_entry: le_u64(s, 24),
        e_phoff: le_u64(s, 32),
        e_shoff: le_u64(s, 40),
        e_flags: le_u32(s, 48),
        e_ehsize: le_u16(s, 52),
        e_phentsize: le_u16(s, 54),
        e_phnum: le_u16(s, 56),
        e_shentsize: le_u16(s, 58),
        e_shnum: le_u16(s, 60),
        e_shstrndx: le_u16(s, 62),
    }
}

pub open spec fn shdr_at(s: Seq<u8>, p: int) -> Elf64_Shdr {
    Elf64_Shdr {
        sh_name: le_u32(s, p),
        sh_type: le_u32(s, p + 4),
        sh_flags: le_u64(s, p + 8),
        sh_addr: le_u64(s, p + 16),
        sh_offset: le_u64(s, p + 24),
        sh_size: le_u64(s, p + 32),
        sh_link: le_u32(s, p + 40),
        sh_info: le_u32(s, p + 44),
        sh_addralign: le_u64(s, p + 48),
        sh_entsize: le_u64(s, p + 56),
    }
}

pub open spec fn sym_at(s: Seq<u8>, p: int) -> Elf64_Sym {
    Elf64_Sym {
        st_name: le_u32(s, p),
        st_info: s[p + 4],
        st_other: s[p + 5],
        st_shndx: le_u16(s, p + 6),
        st_value: le_u64(s, p + 8),
        st_size: le_u64(s, p + 16),
    }
}

pub open spec fn rela_at(s: Seq<u8>, p: int) -> Elf64_Rela {
    Elf64_Rela {
        r_offset: le_u64(s, p),
        r_info_type: le_u32(s, p + 8),
        r_info_symbol: le_u32(s, p + 12),
        r_addend: le_u64(s, p + 16) as i64,
    }
}

/// The `size` bytes from `off` on lie inside the file.
pub open spec fn within(s: Seq<u8>, off: int, size: int) -> bool {
    off + size <= s.len()
}

/// Number of fixed-size entries that a section of symbols or relocations holds.
pub open spec fn entry_count(sh: Elf64_Shdr) -> nat {
    (sh.sh_size / 24) as nat
}

pub open spec fn section_headers(s: Seq<u8>, h: Elf64_Ehdr) -> Seq<Elf64_Shdr> {
    Seq::new(h.e_shnum as nat, |i: int| shdr_at(s, h.e_shoff + 64 * i))
}

pub open spec fn loads_symtab(s: Seq<u8>, sh: Elf64_Shdr) -> bool {
    sh.sh_type == SHT_SYMTAB && within(s, sh.sh_offset as int, (entry_count(sh) * 24) as int)
}

pub open spec fn loads_strtab(s: Seq<u8>, sh: Elf64_Shdr) -> bool {
    sh.sh_type == SHT_STRTAB && within(s, sh.sh_offset as int, sh.sh_size as int)
}

pub open spec fn loads_relas(s: Seq<u8>, sh: Elf64_Shdr) -> bool {
    sh.sh_type == SHT_RELA && within(s, sh.sh_offset as int, (entry_count(sh) * 24) as int)
}

pub open spec fn symtab_of(s: Seq<u8>, sh: Elf64_Shdr) -> SymTabModel {
    SymTabModel {
        header: sh,
        symbols: Seq::new(entry_count(sh), |j: int| sym_at(s, sh.sh_offset + 24 * j)),
    }
}

pub open spec fn strtab_of(s: Seq<u8>, sh: Elf64_Shdr, index: u16) -> StringTabModel {
    StringTabModel {
        header: sh,
        raw: s.subrange(sh.sh_offset as int, sh.sh_offset + sh.sh_size),
        shdr_index: index,
    }
}

pub open spec fn relas_of(s: Seq<u8>, sh: Elf64_Shdr) -> RelocationsModel {
    RelocationsModel {
        header: sh,
        relocations: Seq::new(entry_count(sh), |j: int| rela_at(s, sh.sh_offset + 24 * j)),
    }
}

/// The string tables among the first `n` section headers. A string table
/// records its position counted from 1.
pub open spec fn string_tables_upto(s: Seq<u8>, shdrs: Seq<Elf64_Shdr>, n: int) -> Seq<StringTabModel>
    decreases n,
{
    if n <= 0 {
        seq![]
    } else {
        let prev = string_tables_upto(s, shdrs, n - 1);
        if loads_strtab(s, shdrs[n - 1]) {
            prev.push(strtab_of(s, shdrs[n - 1], n as u16))
        } else {
            prev
        }
    }
}

/// The relocation sections among the first `n` section headers.
pub open spec fn relocation_sections_upto(s: Seq<u8>, shdrs: Seq<Elf64_Shdr>, n: int) -> Seq<RelocationsModel>
    decreases n,
{
    if n <= 0 {
        seq![]
    } else {
        let prev = relocation_sections_upto(s, shdrs, n - 1);
        if loads_relas(s, shdrs[n - 1]) {
            prev.push(relas_of(s, shdrs[n - 1]))
        } else {
            prev
        }
    }
}

/// The last symbol table among the first `n` section headers.
pub open spec fn symbol_table_upto(s: Seq<u8>, shdrs: Seq<Elf64_Shdr>, n: int) -> Option<SymTabModel>
    decreases n,
{
    if n <= 0 {
        None
    } else if loads_symtab(s, shdrs[n - 1]) {
        Some(symtab_of(s, shdrs[n - 1]))
    } else {
        symbol_table_upto(s, shdrs, n - 1)
    }
}

/// The file holds a file header and the whole section header table.
pub open spec fn section_table_in_file(s: Seq<u8>) -> bool {
    &&& s.len() >= 64
    &&& within(s, ehdr_at(s).e_shoff as int, ehdr_at(s).e_shnum * 64)
}

/// Where the section header table is in the file, its entries have the size
/// of `Elf64_Shdr`.
pub open spec fn entry_size_ok(s: Seq<u8>) -> bool {
    section_table_in_file(s) ==> ehdr_at(s).e_shentsize == 64
}

/// The object that the bytes `s` hold: none where the file header or the
/// section header table lies outside the file or where no symbol table
/// lies inside it. Sections that lie outside the file are left out.
pub open spec fn parse_elf(s: Seq<u8>) -> Option<ElfModel> {
    if !section_table_in_file(s) {
        None
    } else {
        let h = ehdr_at(s);
        let shdrs = section_headers(s, h);
        let n = shdrs.len() as int;
        match symbol_table_upto(s, shdrs, n) {
            None => None,
            Some(st) => Some(
                ElfModel {
                    shdrs: shdrs,
                    elf_header: h,
                    symbol_table: st,
                    string_tables: string_tables_upto(s, shdrs, n),
                    relocation_sections: relocation_sections_upto(s, shdrs, n),
                },
            ),
        }
    }
}

// ---------------------------------------------------------------------------
// The rewrite on the model.

impl ElfModel {
    pub open spec fn table_bytes(self) -> Seq<Seq<u8>> {
        self.string_tables.map_values(|t: StringTabModel| t.raw)
    }

    /// Every section symbol that the rewrite inspects names an existing
    /// section header.
    pub open spec fn lookups_ok(self) -> bool {
        forall|k: int|
            0 <= k < self.relocation_sections.len() ==> all_lookups_in_range(
                #[trigger] self.relocation_sections[k].relocations,
                self.symbol_table.symbols,
                self.shdrs,
            )
    }

    /// The object after the rewrite of every relocation section.
    pub open spec fn relocated(self) -> ElfModel {
        ElfModel {
            relocation_sections: self.relocation_sections.map_values(
                |sec: RelocationsModel|
                    RelocationsModel {
                        header: sec.header,
                        relocations: relocated_all(
                            sec.relocations,
                            self.symbol_table.symbols,
                            self.shdrs,
                            self.table_bytes(),
                        ),
                    },
            ),
            ..self
        }
    }

    /// For each relocation section, the changes that the rewrite makes.
    pub open spec fn rewrite_report(self) -> Seq<Seq<Rewrite>> {
        self.relocation_sections.map_values(
            |sec: RelocationsModel|
                rewrites(sec.relocations, self.symbol_table.symbols, self.shdrs, self.table_bytes()),
        )
    }

    /// Every relocation section lies inside a file of `len` bytes.
    pub open spec fn sections_fit(self, len: int) -> bool {
        forall|k: int|
            0 <= k < self.relocation_sections.len() ==> {
                let sec = #[trigger] self.relocation_sections[k];
                sec.header.sh_offset + 24 * sec.relocations.len() <= len
            }
    }
}

// ---------------------------------------------------------------------------
// Writing relocation kinds back.

/// `s` with the kinds of the first `n` relocations of a section that starts at
/// `base` stored in their entries.
pub open spec fn patch_entries(s: Seq<u8>, base: int, rs: Seq<Elf64_Rela>, n: int) -> Seq<u8>
    decreases n,
{
    if n <= 0 {
        s
    } else {
        put_le_u32(patch_entries(s, base, rs, n - 1), base + 24 * (n - 1) + 8, rs[n - 1].r_info_type)
    }
}

/// `s` with the kinds of every relocation of the first `n` sections stored.
pub open spec fn patch_sections(s: Seq<u8>, secs: Seq<RelocationsModel>, n: int) -> Seq<u8>
    decreases n,
{
    if n <= 0 {
        s
    } else {
        let sec = secs[n - 1];
        patch_entries(
            patch_sections(s, secs, n - 1),
            sec.header.sh_offset as int,
            sec.relocations,
            sec.relocations.len() as int,
        )
    }
}

/// The bytes of the file after the relocation kinds of `m` are stored.
pub open spec fn written_image(s: Seq<u8>, m: ElfModel) -> Seq<u8> {
    patch_sections(s, m.relocation_sections, m.relocation_sections.len() as int)
}

pub proof fn lemma_patch_entries_len(s: Seq<u8>, base: int, rs: Seq<Elf64_Rela>, n: int)
    ensures
        patch_entries(s, base, rs, n).len() == s.len(),
    decreases n,
{
    if n > 0 {
        lemma_patch_entries_len(s, base, rs, n - 1);
    }
}

pub proof fn lemma_patch_sections_len(s: Seq<u8>, secs: Seq<RelocationsModel>, n: int)
    ensures
        patch_sections(s, secs, n).len() == s.len(),
    decreases n,
{
    if n > 0 {
        lemma_patch_sections_len(s, secs, n - 1);
        let sec = secs[n - 1];
        lemma_patch_entries_len(
            patch_sections(s, secs, n - 1),
            sec.header.sh_offset as int,
            sec.relocations,
            sec.relocations.len() as int,
        );
    }
}

// ---------------------------------------------------------------------------
// Readers.

fn read_ehdr(b: &[u8]) -> (h: Elf64_Ehdr)
    requires
        64 <= b.len(),
    ensures
        h == ehdr_at(b@),
{
    Elf64_Ehdr {
        e_ident: [
            b[0], b[1], b[2], b[3], b[4], b[5], b[6], b[7],
            b[8], b[9], b[10], b[11], b[12], b[13], b[14], b[15],
        ],
        e_type: read_u16(b, 16),
        e_machine: read_u16(b, 18),
        e_version: read_u32(b, 20),
        e_entry: read_u64(b, 24),
        e_phoff: read_u64(b, 32),
        e_shoff: read_u64(b, 40),
        e_flags: read_u32(b, 48),
        e_ehsize: read_u16(b, 52),
        e_phentsize: read_u16(b, 54),
        e_phnum: read_u16(b, 56),
        e_shentsize: read_u16(b, 58),
        e_shnum: read_u16(b, 60),
        e_shstrndx: read_u16(b, 62),
    }
}

fn read_shdr(b: &[u8], p: usize) -> (h: Elf64_Shdr)
    requires
        p + 64 <= b.len(),
    ensures
        h == shdr_at(b@, p as int),
{
    Elf64_Shdr {
        sh_name: read_u32(b, p),
        sh_type: read_u32(b, p + 4),
        sh_flags: read_u64(b, p + 8),
        sh_addr: read_u64(b, p + 16),
        sh_offset: read_u64(b, p + 24),
        sh_size: read_u64(b, p + 32),
        sh_link: read_u32(b, p + 40),
        sh_info: read_u32(b, p + 44),
        sh_addralign: read_u64(b, p + 48),
        sh_entsize: read_u64(b, p + 56),
    }
}

fn read_sym(b: &[u8], p: usize) -> (s: Elf64_Sym)
    requires
        p + 24 <= b.len(),
    ensures
        s == sym_at(b@, p as int),
{
    Elf64_Sym {
        st_name: read_u32(b, p),
        st_info: b[p + 4],
        st_other: b[p + 5],
        st_shndx: read_u16(b, p + 6),
        st_value: read_u64(b, p + 8),
        st_size: read_u64(b, p + 16),
    }
}

fn read_rela(b: &[u8], p: usize) -> (r: Elf64_Rela)
    requires
        p + 24 <= b.len(),
    ensures
        r == rela_at(b@, p as int),
{
    Elf64_Rela {
        r_offset: read_u64(b, p),
        r_info_type: read_u32(b, p + 8),
        r_info_symbol: read_u32(b, p + 12),
        r_addend: read_u64(b, p + 16) as i64,
    }
}

fn read_symbols(b: &[u8], off: usize, count: usize) -> (v: Vec<Elf64_Sym>)
    requires
        off + 24 * count <= b.len(),
    ensures
        v@ == Seq::new(count as nat, |j: int| sym_at(b@, off + 24 * j)),
{
    let mut v: Vec<Elf64_Sym> = Vec::new();
    let mut j: usize = 0;
    while j < count
        invariant
            j <= count,
            off + 24 * count <= b.len(),
            v@ =~= Seq::new(j as nat, |i: int| sym_at(b@, off + 24 * i)),
        decreases count - j,
    {
        v.push(read_sym(b, off + 24 * j));
        j += 1;
    }
    v
}

fn read_relas(b: &[u8], off: usize, count: usize) -> (v: Vec<Elf64_Rela>)
    requires
        off + 24 * count <= b.len(),
    ensures
        v@ == Seq::new(count as nat, |j: int| rela_at(b@, off + 24 * j)),
{
    let mut v: Vec<Elf64_Rela> = Vec::new();
    let mut j: usize = 0;
    while j < count
        invariant
            j <= count,
            off + 24 * count <= b.len(),
            v@ =~= Seq::new(j as nat, |i: int| rela_at(b@, off + 24 * i)),
        decreases count - j,
    {
        v.push(read_rela(b, off + 24 * j));
        j += 1;
    }
    v
}

/// The `size` bytes from `off` on lie inside a file of `len` bytes.
fn fits(len: u64, off: u64, size: u64) -> (r: bool)
    ensures
        r == (off + size <= len),
{
    off <= len && size <= len - off
}

/// Whether the section header table, where it lies inside the file, has
/// entries of the size of `Elf64_Shdr`.
pub fn section_header_size_matches(buf: &Vec<u8>) -> (r: bool)
    ensures
        r == entry_size_ok(buf@),
{
    let b = buf.as_slice();
    if b.len() < 64 {
        return true;
    }
    let h = read_ehdr(b);
    if !fits(b.len() as u64, h.e_shoff, h.e_shnum as u64 * SHDR_SIZE) {
        return true;
    }
    h.e_shentsize as u64 == SHDR_SIZE
}

/// Reads the object that `buf` holds.
pub fn convert_raw_to_elf(buf: &Vec<u8>) -> (r: Option<ElfFile>)
    requires
        entry_size_ok(buf@),
    ensures
        match r {
            Some(f) => parse_elf(buf@) == Some(f@),
            None => parse_elf(buf@) is None,
        },
{
    let b = buf.as_slice();
    if (b.len() as u64) < EHDR_SIZE {
        return None;
    }
    let len = b.len() as u64;
    let ehdr = read_ehdr(b);
    let shoff = ehdr.e_shoff;
    let shnum = ehdr.e_shnum;
    if !fits(len, shoff, shnum as u64 * SHDR_SIZE) {
        return None;
    }
    let ghost s = b@;
    let ghost shdrs = section_headers(s, ehdr);
    let mut shdrs_copy: Vec<Elf64_Shdr> = Vec::new();
    let mut string_tables: Vec<ElfStringTab> = Vec::new();
    let mut relocation_sections: Vec<ElfRelocations> = Vec::new();
    let mut symbol_table: Option<ElfSymTab> = None;
    let mut i: u16 = 0;
    while i < shnum
        invariant
            s == b@,
            s.len() == b.len(),
            len == s.len(),
            ehdr == ehdr_at(s),
            shoff == ehdr.e_shoff,
            shnum == ehdr.e_shnum,
            shdrs == section_headers(s, ehdr),
            shoff + shnum * 64 <= len,
            i <= shnum,
            shdrs_copy@ =~= shdrs.take(i as int),
            string_tables@.map_values(|t: ElfStringTab| t@) =~= string_tables_upto(s, shdrs, i as int),
            relocation_sections@.map_values(|r: ElfRelocations| r@)
                =~= relocation_sections_upto(s, shdrs, i as int),
            match symbol_table {
                Some(st) => symbol_table_upto(s, shdrs, i as int) == Some(st@),
                None => symbol_table_upto(s, shdrs, i as int) is None,
            },
        decreases shnum - i,
    {
        let pos = (shoff + (i as u64) * SHDR_SIZE) as usize;
        let sh = read_shdr(b, pos);
        assert(sh == shdrs[i as int]);
        shdrs_copy.push(sh);
        let ghost tabs0 = string_tables@;
        let ghost secs0 = relocation_sections@;
        if sh.sh_type == SHT_SYMTAB {
            let count = sh.sh_size / SYM_SIZE;
            if fits(len, sh.sh_offset, count * SYM_SIZE) {
                let symbols = read_symbols(b, sh.sh_offset as usize, count as usize);
                symbol_table = Some(ElfSymTab { header: sh, symbols });
                assert(symbol_table_upto(s, shdrs, i + 1) == Some(symtab_of(s, sh)));
            }
        } else if sh.sh_type == SHT_STRTAB {
            if fits(len, sh.sh_offset, sh.sh_size) {
                let start = sh.sh_offset as usize;
                let raw = slice_to_vec(slice_subrange(b, start, start + sh.sh_size as usize));
                string_tables.push(ElfStringTab { header: sh, raw, shdr_index: i + 1 });
                assert(string_tables@.map_values(|t: ElfStringTab| t@)
                    =~= tabs0.map_values(|t: ElfStringTab| t@).push(strtab_of(s, sh, (i + 1) as u16)));
            }
        } else if sh.sh_type == SHT_RELA {
            let count = sh.sh_size / RELA_SIZE;
            if fits(len, sh.sh_offset, count * RELA_SIZE) {
                let relocations = read_relas(b, sh.sh_offset as usize, count as usize);
                relocation_sections.push(ElfRelocations { header: sh, relocations });
                assert(relocation_sections@.map_values(|r: ElfRelocations| r@)
                    =~= secs0.map_values(|r: ElfRelocations| r@).push(relas_of(s, sh)));
            }
        }
        i += 1;
    }
    assert(shdrs_copy@ =~= shdrs);
    match symbol_table {
        Some(st) => Some(
            ElfFile {
                shdrs_copy,
                elf_header: ehdr,
                symbol_table: st,
                string_tables,
                relocation_sections,
            },
        ),
        None => None,
    }
}


/// Every relocation section of a parsed file lies inside the file.
pub proof fn lemma_parsed_sections_fit(s: Seq<u8>)
    ensures
        parse_elf(s) matches Some(m) ==> m.sections_fit(s.len() as int),
{
    if section_table_in_file(s) {
        let shdrs = section_headers(s, ehdr_at(s));
        lemma_relocation_sections_fit(s, shdrs, shdrs.len() as int);
    }
}

proof fn lemma_relocation_sections_fit(s: Seq<u8>, shdrs: Seq<Elf64_Shdr>, n: int)
    ensures
        forall|k: int|
            0 <= k < relocation_sections_upto(s, shdrs, n).len() ==> {
                let sec = #[trigger] relocation_sections_upto(s, shdrs, n)[k];
                sec.header.sh_offset + 24 * sec.relocations.len() <= s.len()
            },
    decreases n,
{
    if n > 0 {
        lemma_relocation_sections_fit(s, shdrs, n - 1);
        let prev = relocation_sections_upto(s, shdrs, n - 1);
        let cur = relocation_sections_upto(s, shdrs, n);
        if loads_relas(s, shdrs[n - 1]) {
            let sh = shdrs[n - 1];
            assert(relas_of(s, sh).relocations.len() == entry_count(sh));
            assert forall|k: int| 0 <= k < cur.len() implies {
                let sec = #[trigger] cur[k];
                sec.header.sh_offset + 24 * sec.relocations.len() <= s.len()
            } by {
                if k < prev.len() {
                    assert(cur[k] == prev[k]);
                }
            }
        }
    }
}

/// The rewrite keeps every section header and every section's length.
pub proof fn lemma_relocated_sections_fit(m: ElfModel, len: int)
    requires
        m.sections_fit(len),
    ensures
        m.relocated().sections_fit(len),
{
    assert forall|k: int| 0 <= k < m.relocated().relocation_sections.len() implies {
        let sec = #[trigger] m.relocated().relocation_sections[k];
        sec.header.sh_offset + 24 * sec.relocations.len() <= len
    } by {
        let sec0 = m.relocation_sections[k];
        assert(sec0.header.sh_offset + 24 * sec0.relocations.len() <= len);
    }
}

/// A section symbol names an existing section header.
fn section_index_checked(sym: &Elf64_Sym, shdrs: &Vec<Elf64_Shdr>) -> (r: bool)
    ensures
        r == sym.section_index_ok(shdrs@),
{
    !sym.is_section() || (sym.st_shndx as usize) < shdrs.len()
}

fn relocation_lookups_checked(rela: &Elf64_Rela, symtab: &ElfSymTab, shdrs: &Vec<Elf64_Shdr>) -> (r: bool)
    ensures
        r == lookups_in_range(*rela, symtab.symbols@, shdrs@),
{
    let by_index = if is_absolute_code(rela.r_info_type) {
        match rela.get_symbol(symtab) {
            Some(sym) => section_index_checked(sym, shdrs),
            None => true,
        }
    } else {
        true
    };
    let by_addend = match rela.get_symbol_from_addend(symtab) {
        Some(sym) => section_index_checked(sym, shdrs),
        None => true,
    };
    by_index && by_addend
}

impl ElfFile {
    /// Whether every section symbol that the rewrite inspects names an
    /// existing section header.
    pub fn symbol_sections_in_range(&self) -> (r: bool)
        ensures
            r == self@.lookups_ok(),
    {
        let n = self.relocation_sections.len();
        let mut k: usize = 0;
        while k < n
            invariant
                k <= n,
                n == self.relocation_sections@.len(),
                forall|j: int| 0 <= j < k ==> all_lookups_in_range(
                    #[trigger] self.relocation_sections@[j].relocations@,
                    self.symbol_table.symbols@,
                    self.shdrs_copy@,
                ),
            decreases n - k,
        {
            let sec = &self.relocation_sections[k];
            let m = sec.relocations.len();
            let mut i: usize = 0;
            while i < m
                invariant
                    i <= m,
                    k < n,
                    n == self.relocation_sections@.len(),
                    sec.relocations@ == self.relocation_sections@[k as int].relocations@,
                    m == sec.relocations@.len(),
                    forall|j: int| 0 <= j < i ==> lookups_in_range(
                        #[trigger] sec.relocations@[j],
                        self.symbol_table.symbols@,
                        self.shdrs_copy@,
                    ),
                decreases m - i,
            {
                if !relocation_lookups_checked(&sec.relocations[i], &self.symbol_table, &self.shdrs_copy) {
                    assert(!self@.lookups_ok()) by {
                        assert(self@.relocation_sections[k as int].relocations == sec.relocations@);
                        assert(!lookups_in_range(sec.relocations@[i as int], self.symbol_table.symbols@, self.shdrs_copy@));
                    }
                    return false;
                }
                i += 1;
            }
            k += 1;
        }
        assert forall|j: int| 0 <= j < self@.relocation_sections.len() implies all_lookups_in_range(
            #[trigger] self@.relocation_sections[j].relocations,
            self@.symbol_table.symbols,
            self@.shdrs,
        ) by {
            assert(self@.relocation_sections[j].relocations == self.relocation_sections@[j].relocations@);
        }
        true
    }

    /// Rewrites every relocation section (see `ElfRelocations::change_relocations`)
    /// against the file's symbol table, section headers and string tables.
    /// Returns, for each relocation section, the changes made to it.
    pub fn change_relocations(&mut self) -> (report: Vec<Vec<Rewrite>>)
        requires
            old(self)@.lookups_ok(),
        ensures
            final(self)@ == old(self)@.relocated(),
            report@.map_values(|v: Vec<Rewrite>| v@) == old(self)@.rewrite_report(),
    {
        let ghost m0 = self@;
        let n = self.relocation_sections.len();
        let mut report: Vec<Vec<Rewrite>> = Vec::new();
        let mut k: usize = 0;
        while k < n
            invariant
                report@.len() == k,
                forall|j: int| 0 <= j < k ==> (#[trigger] report@[j])@ == m0.rewrite_report()[j],
                k <= n,
                n == self.relocation_sections@.len(),
                n == old(self).relocation_sections@.len(),
                m0 == old(self)@,
                m0.lookups_ok(),
                self.shdrs_copy == old(self).shdrs_copy,
                self.elf_header == old(self).elf_header,
                self.symbol_table == old(self).symbol_table,
                self.string_tables == old(self).string_tables,
                forall|j: int| 0 <= j < k ==> (#[trigger] self.relocation_sections@[j])@
                    == m0.relocated().relocation_sections[j],
                forall|j: int| k <= j < n ==> #[trigger] self.relocation_sections@[j]
                    == old(self).relocation_sections@[j],
            decreases n - k,
        {
            assert(table_bytes(self.string_tables@) =~= m0.table_bytes());
            assert(all_lookups_in_range(m0.relocation_sections[k as int].relocations, m0.symbol_table.symbols, m0.shdrs));
            let changes = self.relocation_sections[k].change_relocations(
                &self.symbol_table,
                &self.shdrs_copy,
                &self.string_tables,
            );
            report.push(changes);
            k += 1;
        }
        assert(self@.relocation_sections =~= m0.relocated().relocation_sections);
        assert(self@.string_tables =~= m0.relocated().string_tables);
        assert(report@.map_values(|v: Vec<Rewrite>| v@) =~= m0.rewrite_report());
        report
    }

    /// Stores the kind of every relocation into the relocation's entry in
    /// `buf`, section by section and entry by entry.
    pub fn write_back(&self, buf: &mut Vec<u8>)
        requires
            self@.sections_fit(old(buf)@.len() as int),
        ensures
            final(buf)@ == written_image(old(buf)@, self@),
    {
        let ghost orig = buf@;
        let ghost secs = self@.relocation_sections;
        let n = self.relocation_sections.len();
        let mut k: usize = 0;
        while k < n
            invariant
                k <= n,
                n == secs.len(),
                secs == self@.relocation_sections,
                self@.sections_fit(orig.len() as int),
                buf@.len() == orig.len(),
                buf@ == patch_sections(orig, secs, k as int),
            decreases n - k,
        {
            let sec = &self.relocation_sections[k];
            assert(sec@ == secs[k as int]);
            assert(secs[k as int].header.sh_offset + 24 * secs[k as int].relocations.len() <= orig.len());
            assert(sec.header.sh_offset <= buf.len());
            let base = sec.header.sh_offset as usize;
            let m = sec.relocations.len();
            let ghost start = buf@;
            let mut j: usize = 0;
            while j < m
                invariant
                    j <= m,
                    m == sec.relocations@.len(),
                    base == sec.header.sh_offset,
                    base + 24 * m <= buf.len(),
                    start.len() == buf@.len(),
                    buf@ == patch_entries(start, base as int, sec.relocations@, j as int),
                decreases m - j,
            {
                proof {
                    lemma_patch_entries_len(start, base as int, sec.relocations@, j as int);
                }
                write_u32(buf, base + 24 * j + 8, sec.relocations[j].r_info_type);
                j += 1;
            }
            proof {
                lemma_patch_entries_len(start, base as int, sec.relocations@, m as int);
            }
            k += 1;
        }
    }
}

/// Reads the object that `buf` holds, rewrites its relocations and stores the
/// rewritten relocation kinds back into `buf`. Returns, for each relocation
/// section, the changes made; where `buf` holds no object, returns `None` and
/// `buf` stays as it is.
pub fn relocate_image(buf: &mut Vec<u8>) -> (report: Option<Vec<Vec<Rewrite>>>)
    requires
        entry_size_ok(old(buf)@),
        parse_elf(old(buf)@) matches Some(m) ==> m.lookups_ok(),
    ensures
        report is Some <==> parse_elf(old(buf)@) is Some,
        match parse_elf(old(buf)@) {
            Some(m) => {
                &&& final(buf)@ == written_image(old(buf)@, m.relocated())
                &&& report matches Some(r) && r@.map_values(|v: Vec<Rewrite>| v@) == m.rewrite_report()
            },
            None => final(buf)@ == old(buf)@,
        },
{
    match convert_raw_to_elf(buf) {
        None => None,
        Some(mut elf) => {
            proof {
                lemma_parsed_sections_fit(buf@);
                lemma_relocated_sections_fit(elf@, buf@.len() as int);
            }
            let report = elf.change_relocations();
            elf.write_back(buf);
            Some(report)
        },
    }
}

} // verus!
