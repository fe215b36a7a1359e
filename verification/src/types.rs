//! The ELF64 records that the relocator reads, and the x86-64 relocation kinds.
use vstd::prelude::*;

verus! {

/// File header of an ELF64 object.
#[allow(non_camel_case_types)]
#[derive(Debug, Clone, Copy, PartialEq, Eq)]
pub struct Elf64_Ehdr {
    pub e_ident: [u8; 16],
    pub e_type: u16,
    pub e_machine: u16,
    pub e_version: u32,
    pub e_entry: u64,
    pub e_phoff: u64,
    pub e_shoff: u64,
    pub e_flags: u32,
    pub e_ehsize: u16,
    pub e_phentsize: u16,
    pub e_phnum: u16,
    pub e_shentsize: u16,
    pub e_shnum: u16,
    pub e_shstrndx: u16,
}

/// Program header of an ELF64 object.
#[allow(non_camel_case_types)]
#[derive(Debug, Clone, Copy, PartialEq, Eq)]
pub struct Elf64_Phdr {
    pub p_type: u32,
    pub p_flags: u32,
    pub p_offset: u64,
    pub p_vaddr: u64,
    pub p_paddr: u64,
    pub p_filesz: u64,
    pub p_memsz: u64,
    pub p_align: u64,
}

/// Section header of an ELF64 object.
#[allow(non_camel_case_types)]
#[derive(Debug, Clone, Copy, PartialEq, Eq)]
pub struct Elf64_Shdr {
    pub sh_name: u32,
    pub sh_type: u32,
    pub sh_flags: u64,
    pub sh_addr: u64,
    pub sh_offset: u64,
    pub sh_size: u64,
    pub sh_link: u32,
    pub sh_info: u32,
    pub sh_addralign: u64,
    pub sh_entsize: u64,
}

/// Relocation entry with addend. `r_info` is split into its low half, the
/// relocation kind, and its high half, the symbol index.
#[allow(non_camel_case_types)]
#[derive(Debug, Clone, Copy, PartialEq, Eq)]
pub struct Elf64_Rela {
    pub r_offset: u64,
    pub r_info_type: u32,
    pub r_info_symbol: u32,
    pub r_addend: i64,
}

/// Relocation entry without addend.
#[allow(non_camel_case_types)]
#[derive(Debug, Clone, Copy, PartialEq, Eq)]
pub struct Elf64_Rel {
    pub r_offset: u64,
    pub r_info: u64,
}

/// Symbol table entry.
#[allow(non_camel_case_types)]
#[derive(Debug, Clone, Copy, PartialEq, Eq)]
pub struct Elf64_Sym {
    pub st_name: u32,
    pub st_info: u8,
    pub st_other: u8,
    pub st_shndx: u16,
    pub st_value: u64,
    pub st_size: u64,
}

/// Byte sizes of the records as they are laid out in the file.
pub const EHDR_SIZE: u64 = 64;
pub const SHDR_SIZE: u64 = 64;
pub const SYM_SIZE: u64 = 24;
pub const RELA_SIZE: u64 = 24;

/// Section types.
pub const SHT_SYMTAB: u32 = 2;
pub const SHT_STRTAB: u32 = 3;
pub const SHT_RELA: u32 = 4;

/// Symbol types (low nibble of `st_info`).
pub const STT_NOTYPE: u8 = 0;
pub const STT_OBJECT: u8 = 1;
pub const STT_FUNC: u8 = 2;
pub const STT_SECTION: u8 = 3;
pub const STT_FILE: u8 = 4;
pub const STT_COMMON: u8 = 5;
pub const STT_LOOS: u8 = 10;
pub const STT_HIOS: u8 = 12;
pub const STT_LOPROC: u8 = 13;
pub const STT_HIPROC: u8 = 15;

/// Section flags.
pub const SHF_WRITE: u64 = 0x1;
pub const SHF_ALLOC: u64 = 0x2;
pub const SHF_EXECINSTR: u64 = 0x4;
pub const SHF_MERGE: u64 = 0x10;
pub const SHF_STRINGS: u64 = 0x20;
pub const SHF_INFO_LINK: u64 = 0x40;
pub const SHF_LINK_ORDER: u64 = 0x80;
pub const SHF_OS_NONCONFORMING: u64 = 0x100;
pub const SHF_GROUP: u64 = 0x200;
pub const SHF_MASKOS: u64 = 0x0ff0_0000;
pub const SHF_ORDERED: u64 = 0x4000_0000;
pub const SHF_EXCLUDE: u64 = 0x8000_0000;
pub const SHF_MASKPROC: u64 = 0xf000_0000;

/// x86-64 relocation kinds. The comment on each names the value that the
/// loader computes (A: addend, B: image base, G: GOT offset of the symbol,
/// GOT: GOT address, L: PLT entry, P: place, S: symbol value, Z: symbol size).
#[allow(non_camel_case_types)]
#[derive(Debug, Clone, Copy, PartialEq, Eq)]
pub enum RelaType {
    R_X86_64_NONE,
    R_X86_64_64,
    R_X86_64_PC32,
    R_X86_64_GOT32,
    R_X86_64_PLT32,
    R_X86_64_COPY,
    R_X86_64_GLOB_DAT,
    R_X86_64_JUMP_SLOT,
    R_X86_64_RELATIVE,
    R_X86_64_GOTPCREL,
    R_X86_64_32,
    R_X86_64_32S,
    R_X86_64_16,
    R_X86_64_PC16,
    R_X86_64_8,
    R_X86_64_PC8,
    R_X86_64_PC64,
    R_X86_64_GOTOFF64,
    R_X86_64_GOTPC32,
    R_X86_64_SIZE32,
    R_X86_64_SIZE64,
}

/// Numeric values of the relocation kinds that the relocator acts on.
pub const R_COPY: u32 = 5;
pub const R_RELATIVE: u32 = 8;

/// The relocation kind with the numeric value `v`, if there is one.
pub open spec fn rela_type_of(v: u32) -> Option<RelaType> {
    if v == 0 {
        Some(RelaType::R_X86_64_NONE)
    } else if v == 1 {
        Some(RelaType::R_X86_64_64)
    } else if v == 2 {
        Some(RelaType::R_X86_64_PC32)
    } else if v == 3 {
        Some(RelaType::R_X86_64_GOT32)
    } else if v == 4 {
        Some(RelaType::R_X86_64_PLT32)
    } else if v == 5 {
        Some(RelaType::R_X86_64_COPY)
    } else if v == 6 {
        Some(RelaType::R_X86_64_GLOB_DAT)
    } else if v == 7 {
        Some(RelaType::R_X86_64_JUMP_SLOT)
    } else if v == 8 {
        Some(RelaType::R_X86_64_RELATIVE)
    } else if v == 9 {
        Some(RelaType::R_X86_64_GOTPCREL)
    } else if v == 10 {
        Some(RelaType::R_X86_64_32)
    } else if v == 11 {
        Some(RelaType::R_X86_64_32S)
    } else if v == 12 {
        Some(RelaType::R_X86_64_16)
    } else if v == 13 {
        Some(RelaType::R_X86_64_PC16)
    } else if v == 14 {
        Some(RelaType::R_X86_64_8)
    } else if v == 15 {
        Some(RelaType::R_X86_64_PC8)
    } else if v == 24 {
        Some(RelaType::R_X86_64_PC64)
    } else if v == 25 {
        Some(RelaType::R_X86_64_GOTOFF64)
    } else if v == 26 {
        Some(RelaType::R_X86_64_GOTPC32)
    } else if v == 32 {
        Some(RelaType::R_X86_64_SIZE32)
    } else if v == 33 {
        Some(RelaType::R_X86_64_SIZE64)
    } else {
        None
    }
}

impl RelaType {
    /// The numeric value of the relocation kind in `r_info`.
    pub open spec fn spec_code(self) -> u32 {
        match self {
            RelaType::R_X86_64_NONE => 0,
            RelaType::R_X86_64_64 => 1,
            RelaType::R_X86_64_PC32 => 2,
            RelaType::R_X86_64_GOT32 => 3,
            RelaType::R_X86_64_PLT32 => 4,
            RelaType::R_X86_64_COPY => 5,
            RelaType::R_X86_64_GLOB_DAT => 6,
            RelaType::R_X86_64_JUMP_SLOT => 7,
            RelaType::R_X86_64_RELATIVE => 8,
            RelaType::R_X86_64_GOTPCREL => 9,
            RelaType::R_X86_64_32 => 10,
            RelaType::R_X86_64_32S => 11,
            RelaType::R_X86_64_16 => 12,
            RelaType::R_X86_64_PC16 => 13,
            RelaType::R_X86_64_8 => 14,
            RelaType::R_X86_64_PC8 => 15,
            RelaType::R_X86_64_PC64 => 24,
            RelaType::R_X86_64_GOTOFF64 => 25,
            RelaType::R_X86_64_GOTPC32 => 26,
            RelaType::R_X86_64_SIZE32 => 32,
            RelaType::R_X86_64_SIZE64 => 33,
        }
    }

    /// The formula that the loader evaluates for this kind.
    pub open spec fn formula(self) -> Seq<char> {
        match self {
            RelaType::R_X86_64_NONE => ""@,
            RelaType::R_X86_64_64 => "S+A"@,
            RelaType::R_X86_64_32 => "S+A"@,
            RelaType::R_X86_64_32S => "S+A"@,
            RelaType::R_X86_64_16 => "S+A"@,
            RelaType::R_X86_64_8 => "S+A"@,
            RelaType::R_X86_64_PC64 => "S+A–P"@,
            RelaType::R_X86_64_PC32 => "S+A–P"@,
            RelaType::R_X86_64_PC16 => "S+A–P"@,
            RelaType::R_X86_64_PC8 => "S+A–P"@,
            RelaType::R_X86_64_GOT32 => "G+A"@,
            RelaType::R_X86_64_PLT32 => "L+A–P"@,
            RelaType::R_X86_64_COPY => "copy"@,
            RelaType::R_X86_64_GLOB_DAT => "S"@,
            RelaType::R_X86_64_JUMP_SLOT => "S"@,
            RelaType::R_X86_64_RELATIVE => "B+A"@,
            RelaType::R_X86_64_GOTPCREL => "G+GOT+A–P"@,
            RelaType::R_X86_64_GOTOFF64 => "S+A–GOT"@,
            RelaType::R_X86_64_GOTPC32 => "GOT+A–P"@,
            RelaType::R_X86_64_SIZE32 => "Z+A"@,
            RelaType::R_X86_64_SIZE64 => "Z+A"@,
        }
    }

    /// The numeric value of the relocation kind.
    pub fn code(&self) -> (c: u32)
        ensures
            c == self.spec_code(),
    {
        match self {
            RelaType::R_X86_64_NONE => 0,
            RelaType::R_X86_64_64 => 1,
            RelaType::R_X86_64_PC32 => 2,
            RelaType::R_X86_64_GOT32 => 3,
            RelaType::R_X86_64_PLT32 => 4,
            RelaType::R_X86_64_COPY => 5,
            RelaType::R_X86_64_GLOB_DAT => 6,
            RelaType::R_X86_64_JUMP_SLOT => 7,
            RelaType::R_X86_64_RELATIVE => 8,
            RelaType::R_X86_64_GOTPCREL => 9,
            RelaType::R_X86_64_32 => 10,
            RelaType::R_X86_64_32S => 11,
            RelaType::R_X86_64_16 => 12,
            RelaType::R_X86_64_PC16 => 13,
            RelaType::R_X86_64_8 => 14,
            RelaType::R_X86_64_PC8 => 15,
            RelaType::R_X86_64_PC64 => 24,
            RelaType::R_X86_64_GOTOFF64 => 25,
            RelaType::R_X86_64_GOTPC32 => 26,
            RelaType::R_X86_64_SIZE32 => 32,
            RelaType::R_X86_64_SIZE64 => 33,
        }
    }

    /// The relocation kind with the numeric value `v`, or `None` where `v`
    /// names none of them.
    pub fn from_u32(v: u32) -> (r: Option<RelaType>)
        ensures
            r == rela_type_of(v),
    {
        if v == 0 {
            Some(RelaType::R_X86_64_NONE)
        } else if v == 1 {
            Some(RelaType::R_X86_64_64)
        } else if v == 2 {
            Some(RelaType::R_X86_64_PC32)
        } else if v == 3 {
            Some(RelaType::R_X86_64_GOT32)
        } else if v == 4 {
            Some(RelaType::R_X86_64_PLT32)
        } else if v == 5 {
            Some(RelaType::R_X86_64_COPY)
        } else if v == 6 {
            Some(RelaType::R_X86_64_GLOB_DAT)
        } else if v == 7 {
            Some(RelaType::R_X86_64_JUMP_SLOT)
        } else if v == 8 {
            Some(RelaType::R_X86_64_RELATIVE)
        } else if v == 9 {
            Some(RelaType::R_X86_64_GOTPCREL)
        } else if v == 10 {
            Some(RelaType::R_X86_64_32)
        } else if v == 11 {
            Some(RelaType::R_X86_64_32S)
        } else if v == 12 {
            Some(RelaType::R_X86_64_16)
        } else if v == 13 {
            Some(RelaType::R_X86_64_PC16)
        } else if v == 14 {
            Some(RelaType::R_X86_64_8)
        } else if v == 15 {
            Some(RelaType::R_X86_64_PC8)
        } else if v == 24 {
            Some(RelaType::R_X86_64_PC64)
        } else if v == 25 {
            Some(RelaType::R_X86_64_GOTOFF64)
        } else if v == 26 {
            Some(RelaType::R_X86_64_GOTPC32)
        } else if v == 32 {
            Some(RelaType::R_X86_64_SIZE32)
        } else if v == 33 {
            Some(RelaType::R_X86_64_SIZE64)
        } else {
            None
        }
    }

    /// The formula that the loader evaluates for this kind, as text.
    pub fn explain(&self) -> (s: &'static str)
        ensures
            s@ == self.formula(),
    {
        match self {
            RelaType::R_X86_64_NONE => "",
            RelaType::R_X86_64_64 => "S+A",
            RelaType::R_X86_64_32 => "S+A",
            RelaType::R_X86_64_32S => "S+A",
            RelaType::R_X86_64_16 => "S+A",
            RelaType::R_X86_64_8 => "S+A",
            RelaType::R_X86_64_PC64 => "S+A–P",
            RelaType::R_X86_64_PC32 => "S+A–P",
            RelaType::R_X86_64_PC16 => "S+A–P",
            RelaType::R_X86_64_PC8 => "S+A–P",
            RelaType::R_X86_64_GOT32 => "G+A",
            RelaType::R_X86_64_PLT32 => "L+A–P",
            RelaType::R_X86_64_COPY => "copy",
            RelaType::R_X86_64_GLOB_DAT => "S",
            RelaType::R_X86_64_JUMP_SLOT => "S",
            RelaType::R_X86_64_RELATIVE => "B+A",
            RelaType::R_X86_64_GOTPCREL => "G+GOT+A–P",
            RelaType::R_X86_64_GOTOFF64 => "S+A–GOT",
            RelaType::R_X86_64_GOTPC32 => "GOT+A–P",
            RelaType::R_X86_64_SIZE32 => "Z+A",
            RelaType::R_X86_64_SIZE64 => "Z+A",
        }
    }
}

/// Relocation kinds whose absolute data references the relocator turns into
/// copy relocations: `R_X86_64_64`, `_32`, `_32S`, `_16` and `_8`.
pub open spec fn is_absolute_kind(v: u32) -> bool {
    v == 1 || v == 10 || v == 11 || v == 12 || v == 14
}

impl Elf64_Sym {
    /// Symbol type: the low nibble of `st_info`.
    pub open spec fn spec_type(self) -> u8 {
        self.st_info % 16
    }

    /// Symbol binding: the high nibble of `st_info`.
    pub open spec fn spec_binding(self) -> u8 {
        self.st_info / 16
    }

    pub fn get_type(&self) -> (t: u8)
        ensures
            t == self.spec_type(),
    {
        let info = self.st_info;
        assert(info & 0xf == info % 16) by (bit_vector);
        info & 0xF
    }

    pub fn get_binding(&self) -> (b: u8)
        ensures
            b == self.spec_binding(),
    {
        let info = self.st_info;
        assert(info >> 4 == info / 16) by (bit_vector);
        info >> 4
    }

    pub fn is_func(&self) -> (r: bool)
        ensures
            r == (self.spec_type() == STT_FUNC),
    {
        self.get_type() == STT_FUNC
    }

    pub fn is_object(&self) -> (r: bool)
        ensures
            r == (self.spec_type() == STT_OBJECT),
    {
        self.get_type() == STT_OBJECT
    }

    pub fn is_no_type(&self) -> (r: bool)
        ensures
            r == (self.spec_type() == STT_NOTYPE),
    {
        self.get_type() == STT_NOTYPE
    }

    pub fn is_section(&self) -> (r: bool)
        ensures
            r == (self.spec_type() == STT_SECTION),
    {
        self.get_type() == STT_SECTION
    }

    /// The section header that a section symbol refers to can be looked up.
    pub open spec fn section_index_ok(self, shdrs: Seq<Elf64_Shdr>) -> bool {
        self.spec_type() == STT_SECTION ==> self.st_shndx < shdrs.len()
    }

    /// A section symbol whose section holds executable instructions.
    pub open spec fn spec_is_text(self, shdrs: Seq<Elf64_Shdr>) -> bool {
        &&& self.spec_type() == STT_SECTION
        &&& shdrs[self.st_shndx as int].sh_flags & SHF_EXECINSTR != 0
    }

    pub fn is_text(&self, shdrs_copy: &Vec<Elf64_Shdr>) -> (r: bool)
        requires
            self.section_index_ok(shdrs_copy@),
        ensures
            r == self.spec_is_text(shdrs_copy@),
    {
        if !self.is_section() {
            return false;
        }
        let is_exec = shdrs_copy[self.st_shndx as usize].sh_flags & SHF_EXECINSTR;
        is_exec != 0
    }
}

} // verus!
