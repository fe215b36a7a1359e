//! Symbol lookup for relocation entries, and the rewrite of absolute data
//! relocations into copy relocations.
use vstd::prelude::*;
use crate::types::{
    Elf64_Rela, Elf64_Shdr, Elf64_Sym, RelaType, R_COPY, R_RELATIVE, STT_FUNC, STT_NOTYPE,
    is_absolute_kind,
};
use crate::strtab::{ElfStringTab, names_section_headers, opt_text, same_text, string_at, symbol_name_in, texts};

verus! {

/// The symbol table section: its header and its entries.
#[derive(Debug, PartialEq, Eq)]
pub struct ElfSymTab {
    pub header: Elf64_Shdr,
    pub symbols: Vec<Elf64_Sym>,
}

/// A relocation section with addends: its header and its entries.
#[derive(Debug, PartialEq, Eq)]
pub struct ElfRelocations {
    pub header: Elf64_Shdr,
    pub relocations: Vec<Elf64_Rela>,
}

/// A symbol table as a value.
pub struct SymTabModel {
    pub header: Elf64_Shdr,
    pub symbols: Seq<Elf64_Sym>,
}

/// A relocation section as a value.
pub struct RelocationsModel {
    pub header: Elf64_Shdr,
    pub relocations: Seq<Elf64_Rela>,
}

impl View for ElfSymTab {
    type V = SymTabModel;

    open spec fn view(&self) -> SymTabModel {
        SymTabModel { header: self.header, symbols: self.symbols@ }
    }
}

impl View for ElfRelocations {
    type V = RelocationsModel;

    open spec fn view(&self) -> RelocationsModel {
        RelocationsModel { header: self.header, relocations: self.relocations@ }
    }
}

/// The symbol of an optional symbol reference.
pub open spec fn opt_sym(o: Option<&Elf64_Sym>) -> Option<Elf64_Sym> {
    match o {
        Some(s) => Some(*s),
        None => None,
    }
}

/// Entry `index` of a symbol table, if there is one.
pub open spec fn symbol_at(syms: Seq<Elf64_Sym>, index: int) -> Option<Elf64_Sym> {
    if 0 <= index < syms.len() {
        Some(syms[index])
    } else {
        None
    }
}

/// The first symbol from entry `from` on whose value is `v`.
pub open spec fn first_with_value(syms: Seq<Elf64_Sym>, v: u64, from: int) -> Option<Elf64_Sym>
    decreases syms.len() - from,
{
    if from < 0 || from >= syms.len() {
        None
    } else if syms[from].st_value == v {
        Some(syms[from])
    } else {
        first_with_value(syms, v, from + 1)
    }
}

/// The bytes of each string table.
pub open spec fn table_bytes(tables: Seq<ElfStringTab>) -> Seq<Seq<u8>> {
    tables.map_values(|t: ElfStringTab| t.raw@)
}

/// The names that string tables with contents `tables`, in order, give `sym`.
pub open spec fn names_for(tables: Seq<Seq<u8>>, sym: Elf64_Sym) -> Seq<Seq<char>>
    decreases tables.len(),
{
    if tables.len() == 0 {
        seq![]
    } else {
        let prev = names_for(tables.drop_last(), sym);
        match symbol_name_in(tables.last(), sym) {
            Some(n) => prev.push(n),
            None => prev,
        }
    }
}

/// A symbol counts as undefined when it has no type, unless one of its names
/// is `__ImageBase`.
pub open spec fn spec_is_undefined(sym: Elf64_Sym, tables: Seq<Seq<u8>>) -> bool {
    &&& !names_for(tables, sym).contains("__ImageBase"@)
    &&& sym.spec_type() == STT_NOTYPE
}

/// Symbols whose relocations stay as they are: executable sections,
/// functions, and undefined symbols.
pub open spec fn keeps_relocation(
    sym: Elf64_Sym,
    shdrs: Seq<Elf64_Shdr>,
    tables: Seq<Seq<u8>>,
) -> bool {
    sym.spec_is_text(shdrs) || sym.spec_type() == STT_FUNC || spec_is_undefined(sym, tables)
}

/// The symbol that a relocation names through its symbol index.
pub open spec fn indexed_symbol(r: Elf64_Rela, syms: Seq<Elf64_Sym>) -> Option<Elf64_Sym> {
    symbol_at(syms, r.r_info_symbol as int)
}

/// The symbol that an `R_X86_64_RELATIVE` relocation points at through its
/// addend: the first whose value equals the addend.
pub open spec fn addend_symbol(r: Elf64_Rela, syms: Seq<Elf64_Sym>) -> Option<Elf64_Sym> {
    if r.r_info_type != R_RELATIVE {
        None
    } else {
        first_with_value(syms, r.r_addend as u64, 0)
    }
}

/// The relocation is turned into a copy relocation: an absolute data
/// relocation of a symbol, or a relative relocation whose addend is a
/// symbol's value, where that symbol is no executable section, no function
/// and not undefined.
pub open spec fn is_retargeted(
    r: Elf64_Rela,
    syms: Seq<Elf64_Sym>,
    shdrs: Seq<Elf64_Shdr>,
    tables: Seq<Seq<u8>>,
) -> bool {
    absolute_retargeted(r, syms, shdrs, tables) || relative_retargeted(r, syms, shdrs, tables)
}

/// An absolute data relocation of a symbol whose relocation does not stay.
pub open spec fn absolute_retargeted(
    r: Elf64_Rela,
    syms: Seq<Elf64_Sym>,
    shdrs: Seq<Elf64_Shdr>,
    tables: Seq<Seq<u8>>,
) -> bool {
    is_absolute_kind(r.r_info_type) && match indexed_symbol(r, syms) {
        Some(s) => !keeps_relocation(s, shdrs, tables),
        None => false,
    }
}

/// A relative relocation pointing at a symbol whose relocation does not stay.
pub open spec fn relative_retargeted(
    r: Elf64_Rela,
    syms: Seq<Elf64_Sym>,
    shdrs: Seq<Elf64_Shdr>,
    tables: Seq<Seq<u8>>,
) -> bool {
    match addend_symbol(r, syms) {
        Some(s) => !keeps_relocation(s, shdrs, tables),
        None => false,
    }
}

/// The relocation as the first pass, over absolute data relocations, leaves it.
pub open spec fn after_absolute_pass(
    r: Elf64_Rela,
    syms: Seq<Elf64_Sym>,
    shdrs: Seq<Elf64_Shdr>,
    tables: Seq<Seq<u8>>,
) -> Elf64_Rela {
    if absolute_retargeted(r, syms, shdrs, tables) {
        Elf64_Rela { r_info_type: R_COPY, ..r }
    } else {
        r
    }
}

/// The relocation after the rewrite.
pub open spec fn relocated(
    r: Elf64_Rela,
    syms: Seq<Elf64_Sym>,
    shdrs: Seq<Elf64_Shdr>,
    tables: Seq<Seq<u8>>,
) -> Elf64_Rela {
    if is_retargeted(r, syms, shdrs, tables) {
        Elf64_Rela { r_info_type: R_COPY, ..r }
    } else {
        r
    }
}

/// The relocations of a section after the rewrite.
pub open spec fn relocated_all(
    rs: Seq<Elf64_Rela>,
    syms: Seq<Elf64_Sym>,
    shdrs: Seq<Elf64_Shdr>,
    tables: Seq<Seq<u8>>,
) -> Seq<Elf64_Rela> {
    rs.map_values(|r: Elf64_Rela| relocated(r, syms, shdrs, tables))
}

/// Every section symbol that the rewrite inspects for this relocation names
/// a section header that exists.
pub open spec fn lookups_in_range(
    r: Elf64_Rela,
    syms: Seq<Elf64_Sym>,
    shdrs: Seq<Elf64_Shdr>,
) -> bool {
    &&& (is_absolute_kind(r.r_info_type) ==> match indexed_symbol(r, syms) {
        Some(s) => s.section_index_ok(shdrs),
        None => true,
    })
    &&& match addend_symbol(r, syms) {
        Some(s) => s.section_index_ok(shdrs),
        None => true,
    }
}

/// `lookups_in_range` for every relocation of a section.
pub open spec fn all_lookups_in_range(
    rs: Seq<Elf64_Rela>,
    syms: Seq<Elf64_Sym>,
    shdrs: Seq<Elf64_Shdr>,
) -> bool {
    forall|i: int| 0 <= i < rs.len() ==> lookups_in_range(#[trigger] rs[i], syms, shdrs)
}

/// A relocation entry that the rewrite turned into a copy relocation: its
/// position in the section, and whether its symbol was found through the
/// addend (a relative relocation) rather than through the symbol index.
#[derive(Debug, Clone, Copy, PartialEq, Eq)]
pub struct Rewrite {
    pub index: usize,
    pub by_addend: bool,
}

/// The absolute data relocations among the first `n` that the rewrite
/// changes, in order.
pub open spec fn absolute_rewrites(
    rs: Seq<Elf64_Rela>,
    syms: Seq<Elf64_Sym>,
    shdrs: Seq<Elf64_Shdr>,
    tables: Seq<Seq<u8>>,
    n: int,
) -> Seq<Rewrite>
    decreases n,
{
    if n <= 0 {
        seq![]
    } else {
        let prev = absolute_rewrites(rs, syms, shdrs, tables, n - 1);
        if absolute_retargeted(rs[n - 1], syms, shdrs, tables) {
            prev.push(Rewrite { index: (n - 1) as usize, by_addend: false })
        } else {
            prev
        }
    }
}

/// The relative relocations among the first `n` that the rewrite changes,
/// in order.
pub open spec fn relative_rewrites(
    rs: Seq<Elf64_Rela>,
    syms: Seq<Elf64_Sym>,
    shdrs: Seq<Elf64_Shdr>,
    tables: Seq<Seq<u8>>,
    n: int,
) -> Seq<Rewrite>
    decreases n,
{
    if n <= 0 {
        seq![]
    } else {
        let prev = relative_rewrites(rs, syms, shdrs, tables, n - 1);
        if relative_retargeted(rs[n - 1], syms, shdrs, tables) {
            prev.push(Rewrite { index: (n - 1) as usize, by_addend: true })
        } else {
            prev
        }
    }
}

/// Every change that the rewrite makes to a section, in the order it makes
/// them: the absolute data relocations first, then the relative ones.
pub open spec fn rewrites(
    rs: Seq<Elf64_Rela>,
    syms: Seq<Elf64_Sym>,
    shdrs: Seq<Elf64_Shdr>,
    tables: Seq<Seq<u8>>,
) -> Seq<Rewrite> {
    absolute_rewrites(rs, syms, shdrs, tables, rs.len() as int) + relative_rewrites(
        rs,
        syms,
        shdrs,
        tables,
        rs.len() as int,
    )
}

impl ElfSymTab {
    /// Entry `index` of the table.
    pub fn get_symbol(&self, index: u32) -> (r: Option<&Elf64_Sym>)
        ensures
            opt_sym(r) == symbol_at(self.symbols@, index as int),
    {
        let i = index as usize;
        if i < self.symbols.len() {
            Some(&self.symbols[i])
        } else {
            None
        }
    }
}

/// The names that the string tables, in order, give `sym`.
pub fn symbol_names<'a>(string_tables: &'a Vec<ElfStringTab>, sym: &Elf64_Sym) -> (r: Vec<&'a str>)
    ensures
        texts(r@) == names_for(table_bytes(string_tables@), *sym),
{
    let mut out: Vec<&'a str> = Vec::new();
    let mut i: usize = 0;
    while i < string_tables.len()
        invariant
            i <= string_tables@.len(),
            texts(out@) == names_for(table_bytes(string_tables@).subrange(0, i as int), *sym),
        decreases string_tables@.len() - i,
    {
        let ghost out0 = out@;
        let ghost pre = table_bytes(string_tables@).subrange(0, i as int + 1);
        assert(pre.drop_last() =~= table_bytes(string_tables@).subrange(0, i as int));
        match string_tables[i].get_symbol_name(sym) {
            Some(name) => {
                out.push(name);
                assert(texts(out@) =~= texts(out0).push(name@));
            },
            None => {},
        }
        i += 1;
    }
    assert(table_bytes(string_tables@).subrange(0, string_tables@.len() as int) =~= table_bytes(string_tables@));
    out
}

impl Elf64_Sym {
    /// Whether the symbol counts as undefined: it has no type and none of
    /// its names is `__ImageBase`.
    pub fn is_undefined(&self, symbol_table: &ElfSymTab, string_tables: &Vec<ElfStringTab>) -> (r: bool)
        ensures
            r == spec_is_undefined(*self, table_bytes(string_tables@)),
    {
        let names = symbol_names(string_tables, self);
        let mut i: usize = 0;
        while i < names.len()
            invariant
                i <= names@.len(),
                texts(names@) == names_for(table_bytes(string_tables@), *self),
                forall|j: int| 0 <= j < i ==> names@[j]@ != "__ImageBase"@,
            decreases names@.len() - i,
        {
            if same_text(names[i], "__ImageBase") {
                assert(texts(names@)[i as int] == "__ImageBase"@);
                return false;
            }
            i += 1;
        }
        assert(!texts(names@).contains("__ImageBase"@)) by {
            if texts(names@).contains("__ImageBase"@) {
                let k = choose|k: int| 0 <= k < texts(names@).len() && texts(names@)[k] == "__ImageBase"@;
                assert(names@[k]@ == "__ImageBase"@);
            }
        }
        self.is_no_type()
    }
}

impl Elf64_Rela {
    /// The symbol that the relocation names through its symbol index.
    pub fn get_symbol<'a>(&self, symbol_tab: &'a ElfSymTab) -> (r: Option<&'a Elf64_Sym>)
        ensures
            opt_sym(r) == indexed_symbol(*self, symbol_tab.symbols@),
    {
        symbol_tab.get_symbol(self.r_info_symbol)
    }

    /// The name that `symbol_names` gives the relocation's symbol; none for
    /// symbol index 0.
    pub fn get_symbol_name<'a>(&self, symbol_tab: &'a ElfSymTab, symbol_names: &'a ElfStringTab) -> (r: Option<&'a str>)
        ensures
            opt_text(r) == if self.r_info_symbol == 0 {
                None
            } else {
                match indexed_symbol(*self, symbol_tab.symbols@) {
                    Some(s) => symbol_name_in(symbol_names.raw@, s),
                    None => None,
                }
            },
    {
        if self.r_info_symbol == 0 {
            return None;
        }
        let symbol = self.get_symbol(symbol_tab)?;
        symbol_names.get_symbol_name(symbol)
    }

    /// For an `R_X86_64_RELATIVE` relocation, the first symbol whose value
    /// equals the addend.
    pub fn get_symbol_from_addend<'a>(&self, symbol_tab: &'a ElfSymTab) -> (r: Option<&'a Elf64_Sym>)
        ensures
            opt_sym(r) == addend_symbol(*self, symbol_tab.symbols@),
    {
        if self.r_info_type != RelaType::R_X86_64_RELATIVE.code() {
            return None;
        }
        let target = self.r_addend as u64;
        let mut i: usize = 0;
        while i < symbol_tab.symbols.len()
            invariant
                i <= symbol_tab.symbols@.len(),
                target == self.r_addend as u64,
                self.r_info_type == R_RELATIVE,
                first_with_value(symbol_tab.symbols@, target, 0)
                    == first_with_value(symbol_tab.symbols@, target, i as int),
            decreases symbol_tab.symbols@.len() - i,
        {
            if symbol_tab.symbols[i].st_value == target {
                return Some(&symbol_tab.symbols[i]);
            }
            i += 1;
        }
        None
    }
}

pub(crate) fn is_absolute_code(v: u32) -> (r: bool)
    ensures
        r == is_absolute_kind(v),
{
    v == RelaType::R_X86_64_64.code() || v == RelaType::R_X86_64_32.code()
        || v == RelaType::R_X86_64_32S.code() || v == RelaType::R_X86_64_16.code()
        || v == RelaType::R_X86_64_8.code()
}

fn keeps(sym: &Elf64_Sym, symbol_table: &ElfSymTab, shdrs_copy: &Vec<Elf64_Shdr>, string_tables: &Vec<ElfStringTab>) -> (r: bool)
    requires
        sym.section_index_ok(shdrs_copy@),
    ensures
        r == keeps_relocation(*sym, shdrs_copy@, table_bytes(string_tables@)),
{
    sym.is_text(shdrs_copy) || sym.is_func() || sym.is_undefined(symbol_table, string_tables)
}

impl ElfRelocations {
    /// Turns into `R_X86_64_COPY` every absolute data relocation
    /// (`R_X86_64_64`, `_32`, `_32S`, `_16`, `_8`) of a symbol, and then every
    /// `R_X86_64_RELATIVE` relocation whose addend is a symbol's value, where
    /// that symbol is no executable section, no function and not undefined.
    /// Nothing else changes. Returns the changes in the order made.
    pub fn change_relocations(
        &mut self,
        symbol_table: &ElfSymTab,
        shdrs_copy: &Vec<Elf64_Shdr>,
        string_tables: &Vec<ElfStringTab>,
    ) -> (report: Vec<Rewrite>)
        requires
            all_lookups_in_range(old(self).relocations@, symbol_table.symbols@, shdrs_copy@),
        ensures
            final(self).header == old(self).header,
            final(self).relocations@ == relocated_all(
                old(self).relocations@,
                symbol_table.symbols@,
                shdrs_copy@,
                table_bytes(string_tables@),
            ),
            report@ == rewrites(
                old(self).relocations@,
                symbol_table.symbols@,
                shdrs_copy@,
                table_bytes(string_tables@),
            ),
    {
        let ghost syms = symbol_table.symbols@;
        let ghost shdrs = shdrs_copy@;
        let ghost tables = table_bytes(string_tables@);
        let ghost orig = self.relocations@;
        let n = self.relocations.len();
        let copy = RelaType::R_X86_64_COPY.code();
        let relative = RelaType::R_X86_64_RELATIVE.code();

        let mut report: Vec<Rewrite> = Vec::new();

        // Absolute data relocations.
        let mut i: usize = 0;
        while i < n
            invariant
                report@ == absolute_rewrites(orig, syms, shdrs, tables, i as int),
                i <= n,
                n == orig.len(),
                copy == R_COPY,
                self.relocations@.len() == n,
                self.header == old(self).header,
                orig == old(self).relocations@,
                all_lookups_in_range(orig, syms, shdrs),
                syms == symbol_table.symbols@,
                shdrs == shdrs_copy@,
                tables == table_bytes(string_tables@),
                forall|j: int| i <= j < n ==> self.relocations@[j] == orig[j],
                forall|j: int| 0 <= j < i ==> self.relocations@[j] == after_absolute_pass(#[trigger] orig[j], syms, shdrs, tables),
            decreases n - i,
        {
            let rela = self.relocations[i];
            assert(lookups_in_range(orig[i as int], syms, shdrs));
            if is_absolute_code(rela.r_info_type) {
                match rela.get_symbol(symbol_table) {
                    Some(sym) => {
                        if !keeps(sym, symbol_table, shdrs_copy, string_tables) {
                            self.relocations.set(i, Elf64_Rela { r_info_type: copy, ..rela });
                            report.push(Rewrite { index: i, by_addend: false });
                        }
                    },
                    None => {},
                }
            }
            i += 1;
        }

        // Relative relocations whose addend is a symbol's value.
        let ghost mid = self.relocations@;
        let mut i: usize = 0;
        while i < n
            invariant
                report@ == absolute_rewrites(orig, syms, shdrs, tables, n as int)
                    + relative_rewrites(orig, syms, shdrs, tables, i as int),
                i <= n,
                n == orig.len(),
                copy == R_COPY,
                relative == R_RELATIVE,
                mid.len() == n,
                self.relocations@.len() == n,
                self.header == old(self).header,
                all_lookups_in_range(orig, syms, shdrs),
                syms == symbol_table.symbols@,
                shdrs == shdrs_copy@,
                tables == table_bytes(string_tables@),
                forall|j: int| 0 <= j < n ==> mid[j] == after_absolute_pass(#[trigger] orig[j], syms, shdrs, tables),
                forall|j: int| i <= j < n ==> self.relocations@[j] == mid[j],
                forall|j: int| 0 <= j < i ==> self.relocations@[j] == relocated(orig[j], syms, shdrs, tables),
            decreases n - i,
        {
            let rela = self.relocations[i];
            assert(lookups_in_range(orig[i as int], syms, shdrs));
            if rela.r_info_type == relative {
                match rela.get_symbol_from_addend(symbol_table) {
                    Some(sym) => {
                        if !keeps(sym, symbol_table, shdrs_copy, string_tables) {
                            self.relocations.set(i, Elf64_Rela { r_info_type: copy, ..rela });
                            report.push(Rewrite { index: i, by_addend: true });
                        }
                    },
                    None => {},
                }
            }
            i += 1;
        }
        assert(self.relocations@ =~= relocated_all(orig, syms, shdrs, tables));
        report
    }
}

/// The name of a section with header `header`, taken from the first string
/// table from entry `i` on that holds section names.
pub open spec fn section_name_from(tables: Seq<ElfStringTab>, header: Elf64_Shdr, i: int) -> Option<Seq<char>>
    decreases tables.len() - i,
{
    if i < 0 || i >= tables.len() {
        None
    } else if names_section_headers(tables[i].raw@, tables[i].header) {
        string_at(tables[i].raw@, header.sh_name as int)
    } else {
        section_name_from(tables, header, i + 1)
    }
}

impl ElfRelocations {
    /// The section's name, from the first string table that holds section
    /// names.
    pub fn section_name<'a>(&self, string_tables: &'a Vec<ElfStringTab>) -> (r: Option<&'a str>)
        ensures
            opt_text(r) == section_name_from(string_tables@, self.header, 0),
    {
        let mut i: usize = 0;
        while i < string_tables.len()
            invariant
                i <= string_tables@.len(),
                section_name_from(string_tables@, self.header, 0) == section_name_from(
                    string_tables@,
                    self.header,
                    i as int,
                ),
            decreases string_tables@.len() - i,
        {
            if string_tables[i].contains_section_headers() {
                return string_tables[i].get_section_name(&self.header);
            }
            i += 1;
        }
        None
    }
}

} // verus!
