use relocator::bytes::{read_u16, read_u32, read_u64, write_u32};
use relocator::strtab::ElfStringTab;
use relocator::types::{Elf64_Shdr, Elf64_Sym, RelaType};

fn header(name: u32) -> Elf64_Shdr {
    Elf64_Shdr {
        sh_name: name,
        sh_type: 3,
        sh_flags: 0,
        sh_addr: 0,
        sh_offset: 0,
        sh_size: 0,
        sh_link: 0,
        sh_info: 0,
        sh_addralign: 1,
        sh_entsize: 0,
    }
}

fn table(raw: &[u8]) -> ElfStringTab {
    ElfStringTab { header: header(1), raw: raw.to_vec(), shdr_index: 1 }
}

fn sym(name: u32, info: u8) -> Elf64_Sym {
    Elf64_Sym { st_name: name, st_info: info, st_other: 0, st_shndx: 0, st_value: 0, st_size: 0 }
}

#[test]
fn explains_formulas() {
    assert_eq!(RelaType::R_X86_64_NONE.explain(), "");
    assert_eq!(RelaType::R_X86_64_64.explain(), "S+A");
    assert_eq!(RelaType::R_X86_64_8.explain(), "S+A");
    assert_eq!(RelaType::R_X86_64_PC32.explain(), "S+A–P");
    assert_eq!(RelaType::R_X86_64_GOT32.explain(), "G+A");
    assert_eq!(RelaType::R_X86_64_PLT32.explain(), "L+A–P");
    assert_eq!(RelaType::R_X86_64_COPY.explain(), "copy");
    assert_eq!(RelaType::R_X86_64_JUMP_SLOT.explain(), "S");
    assert_eq!(RelaType::R_X86_64_RELATIVE.explain(), "B+A");
    assert_eq!(RelaType::R_X86_64_GOTPCREL.explain(), "G+GOT+A–P");
    assert_eq!(RelaType::R_X86_64_GOTOFF64.explain(), "S+A–GOT");
    assert_eq!(RelaType::R_X86_64_GOTPC32.explain(), "GOT+A–P");
    assert_eq!(RelaType::R_X86_64_SIZE64.explain(), "Z+A");
}

#[test]
fn kind_codes() {
    assert_eq!(RelaType::from_u32(0), Some(RelaType::R_X86_64_NONE));
    assert_eq!(RelaType::from_u32(5), Some(RelaType::R_X86_64_COPY));
    assert_eq!(RelaType::from_u32(8), Some(RelaType::R_X86_64_RELATIVE));
    assert_eq!(RelaType::from_u32(24), Some(RelaType::R_X86_64_PC64));
    assert_eq!(RelaType::from_u32(33), Some(RelaType::R_X86_64_SIZE64));
    assert_eq!(RelaType::from_u32(16), None);
    assert_eq!(RelaType::from_u32(34), None);
    assert_eq!(RelaType::R_X86_64_GOTPC32.code(), 26);
    for v in 0..64u32 {
        if let Some(t) = RelaType::from_u32(v) {
            assert_eq!(t.code(), v);
        }
    }
}

#[test]
fn symbol_info_nibbles() {
    let s = sym(0, 0x12);
    assert_eq!(s.get_type(), 2);
    assert_eq!(s.get_binding(), 1);
    assert!(s.is_func());
    assert!(!s.is_object());
    let s = sym(0, 0xa1);
    assert_eq!(s.get_type(), 1);
    assert_eq!(s.get_binding(), 0xa);
    assert!(s.is_object());
    assert!(sym(0, 0x20).is_no_type());
    assert!(sym(0, 0x03).is_section());
    assert!(!sym(0, 0x13).is_no_type());
}

#[test]
fn strings_by_offset() {
    let t = table(b"\0abc\0de\0");
    assert_eq!(t.get_string(1), Some("abc"));
    assert_eq!(t.get_string(2), Some("bc"));
    assert_eq!(t.get_string(5), Some("de"));
    assert_eq!(t.get_string(0), Some(""));
    assert_eq!(t.get_string(4), Some(""));
    // At or past the end.
    assert_eq!(t.get_string(8), None);
    assert_eq!(t.get_string(100), None);
}

#[test]
fn strings_need_terminated_table() {
    let t = table(b"\0abc\0de");
    assert_eq!(t.get_string(1), None);
    assert_eq!(table(b"").get_string(0), None);
}

#[test]
fn strings_must_be_utf8() {
    let t = table(b"\0a\xffb\0\xc3\xa9\0");
    assert_eq!(t.get_string(1), None);
    assert_eq!(t.get_string(5), Some("é"));
}

#[test]
fn all_strings() {
    assert_eq!(table(b"\0abc\0de\0").get_strings(), vec!["", "abc", "de"]);
    assert_eq!(table(b"x\0\0y").get_strings(), vec!["x", ""]);
    assert_eq!(table(b"a\0\xff\0b\0").get_strings(), vec!["a", "b"]);
    assert!(table(b"").get_strings().is_empty());
    assert!(table(b"abc").get_strings().is_empty());
}

#[test]
fn symbol_names_in_one_table() {
    let t = table(b"\0main\0");
    assert_eq!(t.get_symbol_name(&sym(1, 0x12)), Some("main"));
    assert_eq!(t.get_symbol_name(&sym(0, 0x12)), None);
    assert_eq!(t.get_symbol_name(&sym(9, 0x12)), None);
}

#[test]
fn section_header_names() {
    let own = ElfStringTab { header: header(1), raw: b"\0.shstrtab\0.text\0".to_vec(), shdr_index: 3 };
    assert!(own.contains_section_headers());
    assert_eq!(own.get_section_name(&header(11)), Some(".text"));
    let strtab = ElfStringTab { header: header(1), raw: b"\0.strtab\0".to_vec(), shdr_index: 2 };
    assert!(strtab.contains_section_headers());
    let other = ElfStringTab { header: header(1), raw: b"\0.dynstr\0".to_vec(), shdr_index: 2 };
    assert!(!other.contains_section_headers());
    assert_eq!(other.get_section_name(&header(1)), None);
}

#[test]
fn little_endian_codec() {
    let b = [0x01u8, 0x02, 0x03, 0x04, 0x05, 0x06, 0x07, 0x08, 0xff];
    assert_eq!(read_u16(&b, 0), 0x0201);
    assert_eq!(read_u32(&b, 1), 0x0504_0302);
    assert_eq!(read_u64(&b, 0), 0x0807_0605_0403_0201);
    assert_eq!(read_u16(&b, 7), 0xff08);
    let mut v = vec![0u8; 6];
    write_u32(&mut v, 1, 0xdead_beef);
    assert_eq!(v, vec![0, 0xef, 0xbe, 0xad, 0xde, 0]);
    assert_eq!(read_u32(&v, 1), 0xdead_beef);
}
