//! A reader for the part of an ELF executable that this crate needs: the
//! file header, the section header table, and the bytes of a section found by
//! its name. Nothing is read before the bounds that it lies in are checked.

use crate::endian::{read_u16, read_u32, read_u64, u16_at, u32_at, u64_at, Encoding};
use crate::error::Error;
use vstd::prelude::*;
use vstd::slice::{slice_subrange, slice_to_vec};
use vstd::string::StringSliceAdditionalSpecFns;

verus! {

/// The name of the section that holds the bootloader's payload.
pub const BOOTLOADER_SECTION: &'static str = ".bootloader";

/// The length of the identification bytes at the start of every ELF file.
pub const IDENT_SIZE: usize = 16;

/// The section type of an inactive section header.
pub const SHT_NULL: u32 = 0;

/// The word size that an ELF file declares, which fixes the layout of its
/// headers.
#[derive(Clone, Copy, Debug, PartialEq, Eq, Structural)]
pub enum Class {
    /// 32-bit objects: a 52-byte file header, 40-byte section headers.
    Elf32,
    /// 64-bit objects: a 64-byte file header, 64-byte section headers.
    Elf64,
}

/// What the file header says of itself and of the two header tables.
#[derive(Clone, Copy, Debug, PartialEq, Eq, Structural)]
pub struct Header {
    /// The word size of the file.
    pub class: Class,
    /// The byte order of the file's fields.
    pub encoding: Encoding,
    /// The length that the file header claims for itself.
    pub header_size: u16,
    /// Where the program header table starts in the file.
    pub ph_offset: u64,
    /// The length of one program header.
    pub ph_entry_size: u16,
    /// The number of program headers.
    pub ph_count: u16,
    /// Where the section header table starts in the file.
    pub sh_offset: u64,
    /// The length of one section header.
    pub sh_entry_size: u16,
    /// The number of section headers.
    pub sh_count: u16,
    /// The index of the section that holds the section names.
    pub sh_str_index: u16,
}

/// What a section header says of its section, as far as the lookup reads it.
#[derive(Clone, Copy, Debug, PartialEq, Eq, Structural)]
pub struct Section {
    /// Where the section's name starts in the section name table.
    pub name: u32,
    /// The section type.
    pub kind: u32,
    /// Where the section's bytes start in the file.
    pub offset: u64,
    /// How many bytes of the file the section records as its own.
    pub size: u64,
}

/// The length of the file header of the given class.
pub open spec fn file_header_len(class: Class) -> int {
    match class {
        Class::Elf32 => 52,
        Class::Elf64 => 64,
    }
}

/// The length of a section header of the given class.
pub open spec fn section_header_len(class: Class) -> int {
    match class {
        Class::Elf32 => 40,
        Class::Elf64 => 64,
    }
}

/// The file starts with sound identification bytes: the magic number, a
/// class of 1 or 2, a byte order of 1 or 2, and a version other than 0.
pub open spec fn has_ident(data: Seq<u8>) -> bool {
    &&& data.len() >= 16
    &&& data[0] == 0x7f
    &&& data[1] == 0x45
    &&& data[2] == 0x4c
    &&& data[3] == 0x46
    &&& (data[4] == 1 || data[4] == 2)
    &&& (data[5] == 1 || data[5] == 2)
    &&& data[6] != 0
}

/// The class that the identification bytes declare.
pub open spec fn class_of(data: Seq<u8>) -> Class {
    if data[4] == 2 {
        Class::Elf64
    } else {
        Class::Elf32
    }
}

/// The byte order that the identification bytes declare.
pub open spec fn encoding_of(data: Seq<u8>) -> Encoding {
    if data[5] == 2 {
        Encoding::Big
    } else {
        Encoding::Little
    }
}

/// The file is long enough to hold the file header of its class.
pub open spec fn has_header(data: Seq<u8>) -> bool {
    has_ident(data) && data.len() >= file_header_len(class_of(data))
}

/// The fields of the file header, read at the places that the class fixes.
pub open spec fn header_of(data: Seq<u8>) -> Header {
    let encoding = encoding_of(data);
    match class_of(data) {
        Class::Elf32 => Header {
            class: Class::Elf32,
            encoding,
            ph_offset: u32_at(data, 28, encoding) as u64,
            sh_offset: u32_at(data, 32, encoding) as u64,
            header_size: u16_at(data, 40, encoding) as u16,
            ph_entry_size: u16_at(data, 42, encoding) as u16,
            ph_count: u16_at(data, 44, encoding) as u16,
            sh_entry_size: u16_at(data, 46, encoding) as u16,
            sh_count: u16_at(data, 48, encoding) as u16,
            sh_str_index: u16_at(data, 50, encoding) as u16,
        },
        Class::Elf64 => Header {
            class: Class::Elf64,
            encoding,
            ph_offset: u64_at(data, 32, encoding) as u64,
            sh_offset: u64_at(data, 40, encoding) as u64,
            header_size: u16_at(data, 52, encoding) as u16,
            ph_entry_size: u16_at(data, 54, encoding) as u16,
            ph_count: u16_at(data, 56, encoding) as u16,
            sh_entry_size: u16_at(data, 58, encoding) as u16,
            sh_count: u16_at(data, 60, encoding) as u16,
            sh_str_index: u16_at(data, 62, encoding) as u16,
        },
    }
}

/// A table of `count` entries of `entry_size` bytes that starts at `offset`
/// lies within a file of `len` bytes.
pub open spec fn table_in_file(offset: int, entry_size: int, count: int, len: int) -> bool {
    offset + entry_size * count <= len
}

/// The header's own claims are sound for a file of `len` bytes: it gives its
/// true length, both header tables lie within the file, and a section header
/// is at least as long as its class makes it.
pub open spec fn header_fits(header: Header, len: int) -> bool {
    &&& header.header_size == file_header_len(header.class)
    &&& table_in_file(
        header.ph_offset as int,
        header.ph_entry_size as int,
        header.ph_count as int,
        len,
    )
    &&& table_in_file(
        header.sh_offset as int,
        header.sh_entry_size as int,
        header.sh_count as int,
        len,
    )
    &&& (header.sh_count > 0 ==> header.sh_entry_size >= section_header_len(header.class))
}

/// The structural check that comes before any section is looked at.
pub open spec fn structurally_valid(data: Seq<u8>) -> bool {
    has_header(data) && header_fits(header_of(data), data.len() as int)
}

/// Where the section header of the given index starts in the file.
pub open spec fn section_header_at(header: Header, index: int) -> int {
    header.sh_offset + index * header.sh_entry_size
}

/// The section header of the given index.
pub open spec fn section_of(data: Seq<u8>, index: int) -> Section {
    let header = header_of(data);
    let at = section_header_at(header, index);
    match header.class {
        Class::Elf32 => Section {
            name: u32_at(data, at, header.encoding) as u32,
            kind: u32_at(data, at + 4, header.encoding) as u32,
            offset: u32_at(data, at + 16, header.encoding) as u64,
            size: u32_at(data, at + 20, header.encoding) as u64,
        },
        Class::Elf64 => Section {
            name: u32_at(data, at, header.encoding) as u32,
            kind: u32_at(data, at + 4, header.encoding) as u32,
            offset: u64_at(data, at + 24, header.encoding) as u64,
            size: u64_at(data, at + 32, header.encoding) as u64,
        },
    }
}

/// The bytes that the section records as its own lie within the file.
pub open spec fn section_in_file(section: Section, len: int) -> bool {
    section.offset + section.size <= len
}

/// The bytes of the file that the section records as its own.
pub open spec fn section_bytes(data: Seq<u8>, section: Section) -> Seq<u8> {
    data.subrange(section.offset as int, section.offset + section.size)
}

/// The section name table: the bytes of the section that the file header
/// names for it. A file whose header names no section of the table, or one
/// that does not lie within the file, has an empty name table.
pub open spec fn name_table(data: Seq<u8>) -> Seq<u8> {
    let header = header_of(data);
    let table = section_of(data, header.sh_str_index as int);
    if header.sh_str_index < header.sh_count && section_in_file(table, data.len() as int) {
        section_bytes(data, table)
    } else {
        Seq::empty()
    }
}

/// The zero-terminated string that starts at `at` in `table` is `name`.
pub open spec fn string_at_is(table: Seq<u8>, at: int, name: Seq<u8>) -> bool {
    &&& 0 <= at
    &&& at + name.len() < table.len()
    &&& forall|k: int| 0 <= k < name.len() ==> table[at + k] == name[k] && name[k] != 0
    &&& table[at + name.len()] == 0
}

/// The section of the given index is active and bears the given name.
pub open spec fn section_named(data: Seq<u8>, index: int, name: Seq<u8>) -> bool {
    &&& 0 <= index < header_of(data).sh_count
    &&& section_of(data, index).kind != SHT_NULL
    &&& string_at_is(name_table(data), section_of(data, index).name as int, name)
}

/// The given index is that of the first section that bears the given name.
pub open spec fn first_named(data: Seq<u8>, index: int, name: Seq<u8>) -> bool {
    &&& section_named(data, index, name)
    &&& forall|j: int| 0 <= j < index ==> !section_named(data, j, name)
}

/// Some section of the file bears the given name.
pub open spec fn has_section(data: Seq<u8>, name: Seq<u8>) -> bool {
    exists|index: int| section_named(data, index, name)
}

/// The first section that bears the given name, where there is one.
pub open spec fn find_section(data: Seq<u8>, name: Seq<u8>) -> Option<Section> {
    if exists|index: int| first_named(data, index, name) {
        Some(section_of(data, choose|index: int| first_named(data, index, name)))
    } else {
        None
    }
}

/// What extracting the section of the given name from the file gives. The
/// structural check comes first; only a file that passes it is searched, and
/// the section that is found must lie within the file.
pub open spec fn extracted(data: Seq<u8>, name: Seq<u8>) -> Result<Seq<u8>, Error> {
    if !structurally_valid(data) {
        Err(Error::MalformedElf)
    } else {
        match find_section(data, name) {
            None => Err(Error::SectionNotFound),
            Some(section) => if section_in_file(section, data.len() as int) {
                Ok(section_bytes(data, section))
            } else {
                Err(Error::MalformedElf)
            },
        }
    }
}

/// Where some section bears a name, one of them is the first.
pub proof fn lemma_first_named_exists(data: Seq<u8>, index: int, name: Seq<u8>)
    requires
        section_named(data, index, name),
    ensures
        exists|first: int| 0 <= first <= index && first_named(data, first, name),
    decreases index,
{
    if exists|j: int| 0 <= j < index && section_named(data, j, name) {
        let j = choose|j: int| 0 <= j < index && section_named(data, j, name);
        lemma_first_named_exists(data, j, name);
    } else {
        assert(first_named(data, index, name));
    }
}

/// At most one section is the first of its name.
pub proof fn lemma_first_named_unique(data: Seq<u8>, first: int, other: int, name: Seq<u8>)
    requires
        first_named(data, first, name),
        first_named(data, other, name),
    ensures
        first == other,
{
}

/// What extraction gives, case by case. A file that fails the structural
/// check is malformed whatever the name is. In a file that passes it, a name
/// that no section bears is not found, and the first section that bears the
/// name gives the bytes of the file that it records as its own, unless they
/// leave the file.
pub proof fn lemma_extracted(data: Seq<u8>, name: Seq<u8>)
    ensures
        !structurally_valid(data) ==> extracted(data, name) == Err::<Seq<u8>, Error>(
            Error::MalformedElf,
        ),
        structurally_valid(data) && !has_section(data, name) ==> extracted(data, name) == Err::<
            Seq<u8>,
            Error,
        >(Error::SectionNotFound),
        forall|index: int|
            structurally_valid(data) && #[trigger] first_named(data, index, name) ==> extracted(
                data,
                name,
            ) == (if section_in_file(section_of(data, index), data.len() as int) {
                Ok::<Seq<u8>, Error>(
                    data.subrange(
                        section_of(data, index).offset as int,
                        section_of(data, index).offset + section_of(data, index).size,
                    ),
                )
            } else {
                Err::<Seq<u8>, Error>(Error::MalformedElf)
            }),
        structurally_valid(data) && has_section(data, name) ==> exists|index: int|
            first_named(data, index, name),
{
    if has_section(data, name) {
        let some = choose|index: int| section_named(data, index, name);
        lemma_first_named_exists(data, some, name);
    }
    assert forall|index: int|
        structurally_valid(data) && #[trigger] first_named(data, index, name) implies extracted(
        data,
        name,
    ) == (if section_in_file(section_of(data, index), data.len() as int) {
        Ok::<Seq<u8>, Error>(
            data.subrange(
                section_of(data, index).offset as int,
                section_of(data, index).offset + section_of(data, index).size,
            ),
        )
    } else {
        Err::<Seq<u8>, Error>(Error::MalformedElf)
    }) by {
        let chosen = choose|first: int| first_named(data, first, name);
        lemma_first_named_unique(data, index, chosen, name);
    }
}

/// Reads the file header. There is none in a file that does not start with
/// sound identification bytes, or that ends before its header does.
pub fn parse_header(data: &[u8]) -> (header: Option<Header>)
    ensures
        header is Some <==> has_header(data@),
        header matches Some(h) ==> h == header_of(data@),
{
    if data.len() < IDENT_SIZE {
        return None;
    }
    if data[0] != 0x7f || data[1] != 0x45 || data[2] != 0x4c || data[3] != 0x46 {
        return None;
    }
    if data[6] == 0 {
        return None;
    }
    let encoding = if data[5] == 1 {
        Encoding::Little
    } else if data[5] == 2 {
        Encoding::Big
    } else {
        return None;
    };
    if data[4] == 1 {
        if data.len() < 52 {
            return None;
        }
        Some(
            Header {
                class: Class::Elf32,
                encoding,
                ph_offset: read_u32(data, 28, encoding) as u64,
                sh_offset: read_u32(data, 32, encoding) as u64,
                header_size: read_u16(data, 40, encoding),
                ph_entry_size: read_u16(data, 42, encoding),
                ph_count: read_u16(data, 44, encoding),
                sh_entry_size: read_u16(data, 46, encoding),
                sh_count: read_u16(data, 48, encoding),
                sh_str_index: read_u16(data, 50, encoding),
            },
        )
    } else if data[4] == 2 {
        if data.len() < 64 {
            return None;
        }
        Some(
            Header {
                class: Class::Elf64,
                encoding,
                ph_offset: read_u64(data, 32, encoding),
                sh_offset: read_u64(data, 40, encoding),
                header_size: read_u16(data, 52, encoding),
                ph_entry_size: read_u16(data, 54, encoding),
                ph_count: read_u16(data, 56, encoding),
                sh_entry_size: read_u16(data, 58, encoding),
                sh_count: read_u16(data, 60, encoding),
                sh_str_index: read_u16(data, 62, encoding),
            },
        )
    } else {
        None
    }
}

/// Tells whether a table lies within a file of `len` bytes.
fn table_fits(offset: u64, entry_size: u16, count: u16, len: usize) -> (fits: bool)
    ensures
        fits == table_in_file(offset as int, entry_size as int, count as int, len as int),
{
    assert(entry_size * count <= 0xffff * 0xffff) by (nonlinear_arith)
        requires
            0 <= entry_size <= 0xffff,
            0 <= count <= 0xffff,
    ;
    let total: u64 = (entry_size as u64) * (count as u64);
    let len: u64 = len as u64;
    total <= len && offset <= len - total
}

/// Tells whether the header's claims are sound for a file of `len` bytes.
pub fn header_is_sound(header: &Header, len: usize) -> (sound: bool)
    ensures
        sound == header_fits(*header, len as int),
{
    let (header_len, entry_len): (u16, u16) = match header.class {
        Class::Elf32 => (52, 40),
        Class::Elf64 => (64, 64),
    };
    header.header_size == header_len && table_fits(
        header.ph_offset,
        header.ph_entry_size,
        header.ph_count,
        len,
    ) && table_fits(header.sh_offset, header.sh_entry_size, header.sh_count, len) && (
    header.sh_count == 0 || header.sh_entry_size >= entry_len)
}

/// Performs the structural check and hands out the file header of a file
/// that passes it.
pub fn check_structure(data: &[u8]) -> (result: Result<Header, Error>)
    ensures
        match result {
            Ok(header) => structurally_valid(data@) && header == header_of(data@),
            Err(error) => !structurally_valid(data@) && error == Error::MalformedElf,
        },
{
    match parse_header(data) {
        None => Err(Error::MalformedElf),
        Some(header) => {
            if header_is_sound(&header, data.len()) {
                Ok(header)
            } else {
                Err(Error::MalformedElf)
            }
        },
    }
}

/// Every entry of a table that lies within the file does so too.
proof fn lemma_entry_in_table(offset: int, entry_size: int, count: int, index: int, len: int)
    by (nonlinear_arith)
    requires
        0 <= offset,
        0 <= entry_size,
        0 <= index < count,
        table_in_file(offset, entry_size, count, len),
    ensures
        0 <= index * entry_size,
        offset + index * entry_size + entry_size <= len,
{
}

/// Reads the section header of the given index.
pub fn read_section(data: &[u8], header: &Header, index: u16) -> (section: Section)
    requires
        structurally_valid(data@),
        *header == header_of(data@),
        index < header.sh_count,
    ensures
        section == section_of(data@, index as int),
{
    proof {
        assert(data@.len() == data.len());
        lemma_entry_in_table(
            header.sh_offset as int,
            header.sh_entry_size as int,
            header.sh_count as int,
            index as int,
            data@.len() as int,
        );
    }
    let start: u64 = header.sh_offset + (index as u64) * (header.sh_entry_size as u64);
    let at: usize = start as usize;
    match header.class {
        Class::Elf32 => Section {
            name: read_u32(data, at, header.encoding),
            kind: read_u32(data, at + 4, header.encoding),
            offset: read_u32(data, at + 16, header.encoding) as u64,
            size: read_u32(data, at + 20, header.encoding) as u64,
        },
        Class::Elf64 => Section {
            name: read_u32(data, at, header.encoding),
            kind: read_u32(data, at + 4, header.encoding),
            offset: read_u64(data, at + 24, header.encoding),
            size: read_u64(data, at + 32, header.encoding),
        },
    }
}

/// Tells whether the section's bytes lie within a file of `len` bytes.
pub fn section_fits(section: &Section, len: usize) -> (fits: bool)
    ensures
        fits == section_in_file(*section, len as int),
{
    let len: u64 = len as u64;
    section.offset <= len && section.size <= len - section.offset
}

/// Borrows the section's bytes from the file.
pub fn section_data<'a>(data: &'a [u8], section: &Section) -> (bytes: &'a [u8])
    requires
        section_in_file(*section, data@.len() as int),
    ensures
        bytes@ == section_bytes(data@, *section),
{
    assert(data@.len() == data.len());
    let start: usize = section.offset as usize;
    let end: usize = (section.offset + section.size) as usize;
    slice_subrange(data, start, end)
}

/// Borrows the section name table from the file.
pub fn read_name_table<'a>(data: &'a [u8], header: &Header) -> (table: &'a [u8])
    requires
        structurally_valid(data@),
        *header == header_of(data@),
    ensures
        table@ == name_table(data@),
{
    if header.sh_str_index < header.sh_count {
        let section = read_section(data, header, header.sh_str_index);
        if section_fits(&section, data.len()) {
            return section_data(data, &section);
        }
    }
    let empty = slice_subrange(data, 0, 0);
    assert(empty@ =~= Seq::<u8>::empty());
    empty
}

/// Tells whether the zero-terminated string at `at` in `table` is `name`.
pub fn matches_string_at(table: &[u8], at: usize, name: &[u8]) -> (matches: bool)
    ensures
        matches == string_at_is(table@, at as int, name@),
{
    if at >= table.len() || name.len() >= table.len() - at {
        return false;
    }
    let mut k: usize = 0;
    while k < name.len()
        invariant
            k <= name.len(),
            at + name.len() < table.len(),
            forall|j: int| 0 <= j < k ==> table@[at + j] == name@[j] && name@[j] != 0,
        decreases name.len() - k,
    {
        if name[k] == 0 || table[at + k] != name[k] {
            return false;
        }
        k += 1;
    }
    table[at + name.len()] == 0
}

/// Scans the section header table for the first active section of the given
/// name.
pub fn find_section_by_name(data: &[u8], header: &Header, name: &[u8]) -> (found: Option<Section>)
    requires
        structurally_valid(data@),
        *header == header_of(data@),
    ensures
        found == find_section(data@, name@),
{
    let table = read_name_table(data, header);
    let mut index: u16 = 0;
    while index < header.sh_count
        invariant
            index <= header.sh_count,
            structurally_valid(data@),
            *header == header_of(data@),
            table@ == name_table(data@),
            forall|j: int| 0 <= j < index ==> !section_named(data@, j, name@),
        decreases header.sh_count - index,
    {
        let section = read_section(data, header, index);
        if section.kind != SHT_NULL && matches_string_at(table, section.name as usize, name) {
            assert(first_named(data@, index as int, name@));
            return Some(section);
        }
        index += 1;
    }
    None
}

/// Extracts the bytes of the section of the given name from an ELF file,
/// exactly as the file holds them.
pub fn extract_section(elf: &[u8], name: &str) -> (result: Result<Vec<u8>, Error>)
    ensures
        match result {
            Ok(bytes) => extracted(elf@, name.spec_bytes()) == Ok::<Seq<u8>, Error>(bytes@),
            Err(error) => extracted(elf@, name.spec_bytes()) == Err::<Seq<u8>, Error>(error),
        },
{
    let header = match check_structure(elf) {
        Ok(header) => header,
        Err(error) => {
            return Err(error);
        },
    };
    match find_section_by_name(elf, &header, name.as_bytes()) {
        None => Err(Error::SectionNotFound),
        Some(section) => {
            if section_fits(&section, elf.len()) {
                Ok(slice_to_vec(section_data(elf, &section)))
            } else {
                Err(Error::MalformedElf)
            }
        },
    }
}

/// Extracts the bootloader's payload, the section `.bootloader`, from the
/// bootloader executable.
pub fn build_bootloader(elf: &[u8]) -> (result: Result<Vec<u8>, Error>)
    ensures
        match result {
            Ok(bytes) => extracted(elf@, BOOTLOADER_SECTION.spec_bytes()) == Ok::<Seq<u8>, Error>(
                bytes@,
            ),
            Err(error) => extracted(elf@, BOOTLOADER_SECTION.spec_bytes()) == Err::<
                Seq<u8>,
                Error,
            >(error),
        },
{
    extract_section(elf, BOOTLOADER_SECTION)
}

} // verus!
