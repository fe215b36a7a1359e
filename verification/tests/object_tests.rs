use relocator::elf::{convert_raw_to_elf, relocate_image, section_header_size_matches, ElfFile};
use relocator::relocate::{symbol_names, ElfRelocations, ElfSymTab, Rewrite};
use relocator::strtab::ElfStringTab;
use relocator::types::{Elf64_Rela, Elf64_Shdr, Elf64_Sym};

fn put16(v: &mut Vec<u8>, x: u16) {
    v.extend_from_slice(&x.to_le_bytes());
}
fn put32(v: &mut Vec<u8>, x: u32) {
    v.extend_from_slice(&x.to_le_bytes());
}
fn put64(v: &mut Vec<u8>, x: u64) {
    v.extend_from_slice(&x.to_le_bytes());
}

const STRTAB: &[u8] = b"\0counter\0main\0ext\0__ImageBase\0";
const SHSTRTAB: &[u8] = b"\0.text\0.data\0.symtab\0.strtab\0.rela.data\0.shstrtab\0";

const STRTAB_OFF: u64 = 64;
const SHSTRTAB_OFF: u64 = 94;
const SYMTAB_OFF: u64 = 144;
const RELA_OFF: u64 = 312;
const SHDRS_OFF: u64 = 576;

fn sym(name: u32, info: u8, shndx: u16, value: u64) -> Elf64_Sym {
    Elf64_Sym { st_name: name, st_info: info, st_other: 0, st_shndx: shndx, st_value: value, st_size: 8 }
}

fn rela(offset: u64, kind: u32, symbol: u32, addend: i64) -> Elf64_Rela {
    Elf64_Rela { r_offset: offset, r_info_type: kind, r_info_symbol: symbol, r_addend: addend }
}

fn shdr(name: u32, kind: u32, flags: u64, offset: u64, size: u64) -> Elf64_Shdr {
    Elf64_Shdr {
        sh_name: name,
        sh_type: kind,
        sh_flags: flags,
        sh_addr: 0,
        sh_offset: offset,
        sh_size: size,
        sh_link: 0,
        sh_info: 0,
        sh_addralign: 1,
        sh_entsize: 0,
    }
}

fn symbols() -> Vec<Elf64_Sym> {
    vec![
        sym(0, 0, 0, 0),
        sym(1, 0x11, 2, 0x10),
        sym(9, 0x12, 1, 0x0),
        sym(0, 0x03, 1, 0x0),
        sym(0, 0x03, 2, 0x40),
        sym(14, 0x10, 0, 0x0),
        sym(18, 0x10, 0, 0x99),
    ]
}

fn relocations() -> Vec<Elf64_Rela> {
    vec![
        rela(0x00, 1, 1, 0),
        rela(0x08, 10, 2, 0),
        rela(0x10, 11, 3, 4),
        rela(0x18, 12, 4, 0),
        rela(0x20, 14, 5, 0),
        rela(0x28, 1, 6, 0),
        rela(0x30, 2, 1, -4),
        rela(0x38, 8, 0, 0x10),
        rela(0x40, 8, 0, 0x0),
        rela(0x48, 8, 0, 0x12345),
        rela(0x50, 1, 99, 0),
    ]
}

fn headers() -> Vec<Elf64_Shdr> {
    vec![
        shdr(0, 0, 0, 0, 0),
        shdr(1, 1, 0x6, 0, 0),
        shdr(7, 1, 0x3, 0, 0),
        shdr(13, 2, 0, SYMTAB_OFF, 7 * 24),
        shdr(21, 3, 0, STRTAB_OFF, STRTAB.len() as u64),
        shdr(29, 4, 0, RELA_OFF, 11 * 24),
        shdr(40, 3, 0, SHSTRTAB_OFF, SHSTRTAB.len() as u64),
    ]
}

fn build_object() -> Vec<u8> {
    let mut v = Vec::new();
    v.extend_from_slice(&[0x7f, b'E', b'L', b'F', 2, 1, 1, 0, 0, 0, 0, 0, 0, 0, 0, 0]);
    put16(&mut v, 1);
    put16(&mut v, 62);
    put32(&mut v, 1);
    put64(&mut v, 0);
    put64(&mut v, 0);
    put64(&mut v, SHDRS_OFF);
    put32(&mut v, 0);
    put16(&mut v, 64);
    put16(&mut v, 0);
    put16(&mut v, 0);
    put16(&mut v, 64);
    put16(&mut v, 7);
    put16(&mut v, 6);
    assert_eq!(v.len(), 64);
    v.extend_from_slice(STRTAB);
    v.extend_from_slice(SHSTRTAB);
    assert_eq!(v.len() as u64, SYMTAB_OFF);
    for s in symbols() {
        put32(&mut v, s.st_name);
        v.push(s.st_info);
        v.push(s.st_other);
        put16(&mut v, s.st_shndx);
        put64(&mut v, s.st_value);
        put64(&mut v, s.st_size);
    }
    assert_eq!(v.len() as u64, RELA_OFF);
    for r in relocations() {
        put64(&mut v, r.r_offset);
        put32(&mut v, r.r_info_type);
        put32(&mut v, r.r_info_symbol);
        put64(&mut v, r.r_addend as u64);
    }
    assert_eq!(v.len() as u64, SHDRS_OFF);
    for h in headers() {
        put32(&mut v, h.sh_name);
        put32(&mut v, h.sh_type);
        put64(&mut v, h.sh_flags);
        put64(&mut v, h.sh_addr);
        put64(&mut v, h.sh_offset);
        put64(&mut v, h.sh_size);
        put32(&mut v, h.sh_link);
        put32(&mut v, h.sh_info);
        put64(&mut v, h.sh_addralign);
        put64(&mut v, h.sh_entsize);
    }
    assert_eq!(v.len(), 1024);
    v
}

const EXPECTED_KINDS: [u32; 11] = [5, 10, 11, 5, 14, 5, 2, 5, 8, 8, 1];

fn expected_report() -> Vec<Rewrite> {
    vec![
        Rewrite { index: 0, by_addend: false },
        Rewrite { index: 3, by_addend: false },
        Rewrite { index: 5, by_addend: false },
        Rewrite { index: 7, by_addend: true },
    ]
}

fn kind_in_image(buf: &[u8], j: usize) -> u32 {
    let p = RELA_OFF as usize + 24 * j + 8;
    u32::from_le_bytes([buf[p], buf[p + 1], buf[p + 2], buf[p + 3]])
}

fn parsed() -> ElfFile {
    let buf = build_object();
    convert_raw_to_elf(&buf).expect("object parses")
}

#[test]
fn parses_every_table() {
    let buf = build_object();
    assert!(section_header_size_matches(&buf));
    let elf = convert_raw_to_elf(&buf).expect("object parses");
    assert_eq!(elf.shdrs_copy, headers());
    assert_eq!(elf.elf_header.e_shnum, 7);
    assert_eq!(elf.elf_header.e_shoff, SHDRS_OFF);
    assert_eq!(elf.elf_header.e_ident[1], b'E');
    assert_eq!(elf.symbol_table.header, headers()[3]);
    assert_eq!(elf.symbol_table.symbols, symbols());
    assert_eq!(elf.string_tables.len(), 2);
    assert_eq!(elf.string_tables[0].raw, STRTAB.to_vec());
    assert_eq!(elf.string_tables[0].shdr_index, 5);
    assert_eq!(elf.string_tables[1].raw, SHSTRTAB.to_vec());
    assert_eq!(elf.string_tables[1].shdr_index, 7);
    assert_eq!(elf.relocation_sections.len(), 1);
    assert_eq!(elf.relocation_sections[0].header, headers()[5]);
    assert_eq!(elf.relocation_sections[0].relocations, relocations());
}

#[test]
fn rejects_short_buffer() {
    let buf = vec![0u8; 63];
    assert!(section_header_size_matches(&buf));
    assert!(convert_raw_to_elf(&buf).is_none());
}

#[test]
fn rejects_section_table_outside_file() {
    let mut buf = build_object();
    buf.truncate(1023);
    assert!(section_header_size_matches(&buf));
    assert!(convert_raw_to_elf(&buf).is_none());
}

#[test]
fn rejects_object_without_symbol_table() {
    let mut buf = build_object();
    // Turn the symbol table section into a program-data section.
    let p = SHDRS_OFF as usize + 3 * 64 + 4;
    buf[p..p + 4].copy_from_slice(&1u32.to_le_bytes());
    assert!(convert_raw_to_elf(&buf).is_none());
}

#[test]
fn skips_sections_outside_file() {
    let mut buf = build_object();
    // Move the section-name string table beyond the end of the file.
    let p = SHDRS_OFF as usize + 6 * 64 + 24;
    buf[p..p + 8].copy_from_slice(&5000u64.to_le_bytes());
    let elf = convert_raw_to_elf(&buf).expect("object parses");
    assert_eq!(elf.string_tables.len(), 1);
    assert_eq!(elf.shdrs_copy.len(), 7);
}

#[test]
fn reports_wrong_section_header_size() {
    let mut buf = build_object();
    buf[58..60].copy_from_slice(&40u16.to_le_bytes());
    assert!(!section_header_size_matches(&buf));
}

#[test]
fn rewrites_data_relocations() {
    let mut elf = parsed();
    assert!(elf.symbol_sections_in_range());
    let report = elf.change_relocations();
    assert_eq!(report, vec![expected_report()]);
    let kinds: Vec<u32> = elf.relocation_sections[0].relocations.iter().map(|r| r.r_info_type).collect();
    assert_eq!(kinds, EXPECTED_KINDS.to_vec());
    for (new, old) in elf.relocation_sections[0].relocations.iter().zip(relocations()) {
        assert_eq!(new.r_offset, old.r_offset);
        assert_eq!(new.r_info_symbol, old.r_info_symbol);
        assert_eq!(new.r_addend, old.r_addend);
    }
    assert_eq!(elf.symbol_table.symbols, symbols());
}

#[test]
fn rewrite_is_idempotent() {
    let mut elf = parsed();
    elf.change_relocations();
    let once = elf.relocation_sections[0].relocations.clone();
    let report = elf.change_relocations();
    assert_eq!(elf.relocation_sections[0].relocations, once);
    assert_eq!(report, vec![Vec::<Rewrite>::new()]);
}

#[test]
fn section_rewrite_on_its_own() {
    let elf = parsed();
    let mut sec = ElfRelocations { header: headers()[5], relocations: relocations() };
    let report = sec.change_relocations(&elf.symbol_table, &elf.shdrs_copy, &elf.string_tables);
    assert_eq!(report, expected_report());
    let kinds: Vec<u32> = sec.relocations.iter().map(|r| r.r_info_type).collect();
    assert_eq!(kinds, EXPECTED_KINDS.to_vec());
    assert_eq!(sec.header, headers()[5]);
}

#[test]
fn relocate_image_rewrites_kinds_in_place() {
    let mut buf = build_object();
    let original = buf.clone();
    assert_eq!(relocate_image(&mut buf), Some(vec![expected_report()]));
    assert_eq!(buf.len(), original.len());
    for j in 0..11 {
        assert_eq!(kind_in_image(&buf, j), EXPECTED_KINDS[j]);
    }
    for p in 0..buf.len() {
        let in_kind_field = p >= RELA_OFF as usize
            && p < RELA_OFF as usize + 11 * 24
            && (p - RELA_OFF as usize) % 24 >= 8
            && (p - RELA_OFF as usize) % 24 < 12;
        if !in_kind_field {
            assert_eq!(buf[p], original[p], "byte {}", p);
        }
    }
    // Reading the rewritten image back gives the rewritten relocations.
    let again = convert_raw_to_elf(&buf).expect("object parses");
    let kinds: Vec<u32> = again.relocation_sections[0].relocations.iter().map(|r| r.r_info_type).collect();
    assert_eq!(kinds, EXPECTED_KINDS.to_vec());
}

#[test]
fn relocate_image_twice_changes_nothing_more() {
    let mut buf = build_object();
    assert!(relocate_image(&mut buf).is_some());
    let once = buf.clone();
    assert_eq!(relocate_image(&mut buf), Some(vec![Vec::<Rewrite>::new()]));
    assert_eq!(buf, once);
}

#[test]
fn relocate_image_leaves_other_input_alone() {
    let mut buf = vec![1u8; 40];
    assert_eq!(relocate_image(&mut buf), None);
    assert_eq!(buf, vec![1u8; 40]);
}

#[test]
fn write_back_stores_kinds() {
    let buf = build_object();
    let mut elf = convert_raw_to_elf(&buf).unwrap();
    for r in elf.relocation_sections[0].relocations.iter_mut() {
        r.r_info_type = 0x0102_0304;
    }
    let mut out = buf.clone();
    elf.write_back(&mut out);
    let p = RELA_OFF as usize + 8;
    assert_eq!(&out[p..p + 4], &[4, 3, 2, 1]);
    assert_eq!(kind_in_image(&out, 10), 0x0102_0304);
}

#[test]
fn detects_section_symbol_out_of_range() {
    let mut elf = parsed();
    elf.symbol_table.symbols[3].st_shndx = 50;
    assert!(!elf.symbol_sections_in_range());
    elf.symbol_table.symbols[3].st_shndx = 1;
    assert!(elf.symbol_sections_in_range());
}

#[test]
fn undefined_symbols() {
    let elf = parsed();
    let syms = &elf.symbol_table.symbols;
    assert!(syms[0].is_undefined(&elf.symbol_table, &elf.string_tables));
    assert!(!syms[1].is_undefined(&elf.symbol_table, &elf.string_tables));
    assert!(syms[5].is_undefined(&elf.symbol_table, &elf.string_tables));
    // Named `__ImageBase`: not undefined although it has no type.
    assert!(!syms[6].is_undefined(&elf.symbol_table, &elf.string_tables));
}

#[test]
fn names_across_tables() {
    let elf = parsed();
    let syms = &elf.symbol_table.symbols;
    assert_eq!(symbol_names(&elf.string_tables, &syms[1]), vec!["counter", ".text"]);
    assert_eq!(symbol_names(&elf.string_tables, &syms[6]), vec!["__ImageBase", "ab"]);
    assert!(symbol_names(&elf.string_tables, &syms[0]).is_empty());
}

#[test]
fn text_sections() {
    let elf = parsed();
    let syms = &elf.symbol_table.symbols;
    assert!(syms[3].is_text(&elf.shdrs_copy));
    assert!(!syms[4].is_text(&elf.shdrs_copy));
    assert!(!syms[2].is_text(&elf.shdrs_copy));
}

#[test]
fn relocation_symbols() {
    let elf = parsed();
    let rs = &elf.relocation_sections[0].relocations;
    assert_eq!(rs[0].get_symbol(&elf.symbol_table), Some(&symbols()[1]));
    assert_eq!(rs[10].get_symbol(&elf.symbol_table), None);
    assert_eq!(rs[0].get_symbol_name(&elf.symbol_table, &elf.string_tables[0]), Some("counter"));
    assert_eq!(rs[0].get_symbol_name(&elf.symbol_table, &elf.string_tables[1]), Some(".text"));
    // Symbol index 0 has no name.
    assert_eq!(rs[7].get_symbol_name(&elf.symbol_table, &elf.string_tables[0]), None);
    assert_eq!(rs[10].get_symbol_name(&elf.symbol_table, &elf.string_tables[0]), None);
    assert_eq!(rs[7].get_symbol_from_addend(&elf.symbol_table), Some(&symbols()[1]));
    // The first symbol whose value is 0 is the null symbol.
    assert_eq!(rs[8].get_symbol_from_addend(&elf.symbol_table), Some(&symbols()[0]));
    assert_eq!(rs[9].get_symbol_from_addend(&elf.symbol_table), None);
    // Only relative relocations look at the addend.
    assert_eq!(rs[0].get_symbol_from_addend(&elf.symbol_table), None);
}

#[test]
fn symbol_table_lookup() {
    let tab = ElfSymTab { header: headers()[3], symbols: symbols() };
    assert_eq!(tab.get_symbol(2), Some(&symbols()[2]));
    assert_eq!(tab.get_symbol(7), None);
}

#[test]
fn section_names() {
    let elf = parsed();
    assert!(!elf.string_tables[0].contains_section_headers());
    assert!(elf.string_tables[1].contains_section_headers());
    let rs = &elf.relocation_sections[0];
    assert_eq!(rs.section_name(&elf.string_tables), Some(".rela.data"));
    assert_eq!(elf.string_tables[1].get_section_name(&headers()[3]), Some(".symtab"));
    assert_eq!(elf.string_tables[0].get_section_name(&headers()[3]), None);
    let only_symbols: Vec<ElfStringTab> = vec![ElfStringTab { header: headers()[4], raw: STRTAB.to_vec(), shdr_index: 5 }];
    assert_eq!(rs.section_name(&only_symbols), None);
}
