//! String tables: NUL-terminated names stored back to back in one section.
use vstd::prelude::*;
use vstd::slice::slice_subrange;
use vstd::utf8::{valid_utf8, decode_utf8, encode_utf8_decode_utf8};
use vstd::string::StringSliceAdditionalSpecFns;
use crate::types::{Elf64_Shdr, Elf64_Sym};

verus! {

/// The text that `bytes` encode, when they are valid UTF-8.
pub open spec fn decoded(bytes: Seq<u8>) -> Option<Seq<char>> {
    if valid_utf8(bytes) {
        Some(decode_utf8(bytes))
    } else {
        None
    }
}

/// The text of an optional string slice.
pub open spec fn opt_text(o: Option<&str>) -> Option<Seq<char>> {
    match o {
        Some(s) => Some(s@),
        None => None,
    }
}

/// The texts of a sequence of string slices.
pub open spec fn texts(v: Seq<&str>) -> Seq<Seq<char>> {
    v.map_values(|s: &str| s@)
}

/// Calls `std::str::from_utf8` and keeps the string on success. Its
/// documentation says that it fails exactly on byte sequences that are not
/// UTF-8 and otherwise returns the string those bytes encode; the contract
/// claims that, with UTF-8 as vstd's `valid_utf8` and `decode_utf8` define it.
#[verifier::external_body]
fn utf8_str(bytes: &[u8]) -> (r: Option<&str>)
    ensures
        opt_text(r) == decoded(bytes@),
{
    std::str::from_utf8(bytes).ok()
}

/// Two string slices hold the same text.
pub(crate) fn same_text(a: &str, b: &str) -> (r: bool)
    ensures
        r == (a@ == b@),
{
    let x = a.as_bytes();
    let y = b.as_bytes();
    proof {
        encode_utf8_decode_utf8(a@);
        encode_utf8_decode_utf8(b@);
    }
    if x.len() != y.len() {
        return false;
    }
    let mut i: usize = 0;
    while i < x.len()
        invariant
            x@.len() == y@.len(),
            x@ == a.spec_bytes(),
            y@ == b.spec_bytes(),
            i <= x@.len(),
            forall|j: int| 0 <= j < i ==> x@[j] == y@[j],
        decreases x@.len() - i,
    {
        if x[i] != y[i] {
            assert(x@[i as int] != y@[i as int]);
            return false;
        }
        i += 1;
    }
    assert(x@ =~= y@);
    true
}

/// Index of the first NUL byte at or after `pos`, or the length of `raw`
/// where there is none.
pub open spec fn first_nul_from(raw: Seq<u8>, pos: int) -> int
    decreases raw.len() - pos,
{
    if pos < 0 || pos >= raw.len() {
        raw.len() as int
    } else if raw[pos] == 0 {
        pos
    } else {
        first_nul_from(raw, pos + 1)
    }
}

pub proof fn lemma_first_nul_from(raw: Seq<u8>, pos: int)
    requires
        0 <= pos <= raw.len(),
    ensures
        pos <= first_nul_from(raw, pos) <= raw.len(),
        first_nul_from(raw, pos) < raw.len() ==> raw[first_nul_from(raw, pos)] == 0,
        forall|j: int| pos <= j < first_nul_from(raw, pos) ==> raw[j] != 0,
    decreases raw.len() - pos,
{
    if pos < raw.len() && raw[pos] != 0 {
        lemma_first_nul_from(raw, pos + 1);
    }
}

/// The string at byte `offset` of a string table: the bytes from `offset`
/// up to the next NUL, decoded. There is none where `offset` lies outside the
/// table, where the table does not end in a NUL byte, or where the bytes are
/// not UTF-8.
pub open spec fn string_at(raw: Seq<u8>, offset: int) -> Option<Seq<char>> {
    if 0 <= offset < raw.len() && raw.last() == 0 {
        decoded(raw.subrange(offset, first_nul_from(raw, offset)))
    } else {
        None
    }
}

/// The strings of a table from byte `pos` on: each NUL-terminated run of
/// bytes, decoded, leaving out runs that are not UTF-8 and a final run that
/// lacks its NUL.
pub open spec fn strings_from(raw: Seq<u8>, pos: int) -> Seq<Seq<char>>
    decreases raw.len() - pos,
{
    if pos < 0 || pos >= raw.len() {
        seq![]
    } else {
        let e = first_nul_from(raw, pos);
        proof {
            lemma_first_nul_from(raw, pos);
        }
        if e >= raw.len() {
            seq![]
        } else {
            let rest = strings_from(raw, e + 1);
            match decoded(raw.subrange(pos, e)) {
                Some(t) => seq![t] + rest,
                None => rest,
            }
        }
    }
}

/// The name a string table gives a symbol: none for name index 0.
pub open spec fn symbol_name_in(raw: Seq<u8>, sym: Elf64_Sym) -> Option<Seq<char>> {
    if sym.st_name == 0 {
        None
    } else {
        string_at(raw, sym.st_name as int)
    }
}

/// The names under which a string table holds section names.
pub open spec fn names_section_headers(raw: Seq<u8>, header: Elf64_Shdr) -> bool {
    let name = string_at(raw, header.sh_name as int);
    name == Some(".strtab"@) || name == Some(".shstrtab"@)
}

/// A string table section: its header, its bytes and its position (counted
/// from 1) in the section header table.
#[derive(Debug, PartialEq, Eq)]
pub struct ElfStringTab {
    pub header: Elf64_Shdr,
    pub raw: Vec<u8>,
    pub shdr_index: u16,
}

/// A string table as a value: header, bytes, position in the header table.
pub struct StringTabModel {
    pub header: Elf64_Shdr,
    pub raw: Seq<u8>,
    pub shdr_index: u16,
}

impl View for ElfStringTab {
    type V = StringTabModel;

    open spec fn view(&self) -> StringTabModel {
        StringTabModel { header: self.header, raw: self.raw@, shdr_index: self.shdr_index }
    }
}

impl ElfStringTab {
    /// The string that starts at byte `offset`.
    pub fn get_string(&self, offset: u32) -> (r: Option<&str>)
        ensures
            opt_text(r) == string_at(self.raw@, offset as int),
    {
        let len = self.raw.len();
        let start = offset as usize;
        if start >= len || self.raw[len - 1] != 0 {
            return None;
        }
        let mut end = start;
        while self.raw[end] != 0
            invariant
                start <= end < len,
                len == self.raw@.len(),
                self.raw@[len - 1] == 0,
                first_nul_from(self.raw@, start as int) == first_nul_from(self.raw@, end as int),
            decreases len - end,
        {
            end += 1;
        }
        let bytes = slice_subrange(self.raw.as_slice(), start, end);
        utf8_str(bytes)
    }

    /// Every string of the table, in order.
    pub fn get_strings(&self) -> (r: Vec<&str>)
        ensures
            texts(r@) == strings_from(self.raw@, 0),
    {
        let len = self.raw.len();
        let mut out: Vec<&str> = Vec::new();
        let mut pos: usize = 0;
        while pos < len
            invariant
                pos <= len,
                len == self.raw@.len(),
                texts(out@) + strings_from(self.raw@, pos as int) =~= strings_from(self.raw@, 0),
            decreases len - pos,
        {
            let mut end = pos;
            while end < len && self.raw[end] != 0
                invariant
                    pos <= end <= len,
                    len == self.raw@.len(),
                    first_nul_from(self.raw@, pos as int) == first_nul_from(self.raw@, end as int),
                decreases len - end,
            {
                end += 1;
            }
            proof {
                lemma_first_nul_from(self.raw@, pos as int);
            }
            if end == len {
                assert(strings_from(self.raw@, pos as int) =~= seq![]);
                pos = len;
            } else {
                let bytes = slice_subrange(self.raw.as_slice(), pos, end);
                let ghost out0 = out@;
                match utf8_str(bytes) {
                    Some(s) => {
                        out.push(s);
                        assert(texts(out@) =~= texts(out0).push(s@));
                    },
                    None => {},
                }
                pos = end + 1;
            }
        }
        out
    }

    /// The name that this table gives `symbol`.
    pub fn get_symbol_name(&self, symbol: &Elf64_Sym) -> (r: Option<&str>)
        ensures
            opt_text(r) == symbol_name_in(self.raw@, *symbol),
    {
        if symbol.st_name == 0 {
            return None;
        }
        self.get_string(symbol.st_name)
    }

    /// The name of the section with header `header`, where this table holds
    /// section names.
    pub fn get_section_name(&self, header: &Elf64_Shdr) -> (r: Option<&str>)
        ensures
            opt_text(r) == if names_section_headers(self.raw@, self.header) {
                string_at(self.raw@, header.sh_name as int)
            } else {
                None
            },
    {
        if self.contains_section_headers() {
            self.get_string(header.sh_name)
        } else {
            None
        }
    }

    /// The table's own name is `.strtab` or `.shstrtab`.
    pub fn contains_section_headers(&self) -> (r: bool)
        ensures
            r == names_section_headers(self.raw@, self.header),
    {
        match self.get_string(self.header.sh_name) {
            Some(name) => same_text(name, ".strtab") || same_text(name, ".shstrtab"),
            None => false,
        }
    }
}

} // verus!
