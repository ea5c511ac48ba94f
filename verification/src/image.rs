//! The parts of a parsed portable executable that the boundary rules read.

use vstd::prelude::*;

verus! {

/// The fields of the COFF file header that are reported to the user.
#[derive(Clone, Copy, Debug, PartialEq, Eq)]
pub struct CoffHeader {
    pub machine: u16,
    pub number_of_sections: u16,
    pub time_date_stamp: u32,
}

impl CoffHeader {
    /// The reported fields of a COFF file header.
    pub fn new(machine: u16, number_of_sections: u16, time_date_stamp: u32) -> (header: CoffHeader)
        ensures
            header == (CoffHeader { machine, number_of_sections, time_date_stamp }),
    {
        CoffHeader { machine, number_of_sections, time_date_stamp }
    }
}

/// The fields of the optional header that are read or reported.
#[derive(Clone, Copy, Debug, PartialEq, Eq)]
pub struct OptionalHeader {
    pub subsystem: u16,
    pub image_base: u64,
    pub size_of_image: u32,
    pub size_of_headers: u32,
}

impl OptionalHeader {
    /// The fields of an optional header that are read or reported.
    pub fn new(subsystem: u16, image_base: u64, size_of_image: u32, size_of_headers: u32) -> (header:
        OptionalHeader)
        ensures
            header == (OptionalHeader { subsystem, image_base, size_of_image, size_of_headers }),
    {
        OptionalHeader { subsystem, image_base, size_of_image, size_of_headers }
    }
}

/// One entry of the section table.
///
/// Nothing is assumed of `file_offset + raw_size`: a crafted table may claim
/// data far behind the end of the file.
#[derive(Clone, Copy, Debug, PartialEq, Eq)]
pub struct Section {
    /// Fixed-width name, padded with zero bytes; zero bytes may also be embedded.
    pub name: [u8; 8],
    /// File offset of the section's raw data.
    pub file_offset: u32,
    /// Size of the section's raw data in the file.
    pub raw_size: u32,
}

impl Section {
    /// A section-table entry.
    pub fn new(name: [u8; 8], file_offset: u32, raw_size: u32) -> (section: Section)
        ensures
            section == (Section { name, file_offset, raw_size }),
    {
        Section { name, file_offset, raw_size }
    }

    /// The file offset just behind the section's raw data, as the table claims it.
    pub open spec fn raw_end(self) -> int {
        self.file_offset + self.raw_size
    }

    /// Computes [`Section::raw_end`]. Two 32-bit fields cannot overflow 64 bits.
    pub fn end_offset(&self) -> (end: u64)
        ensures
            end == self.raw_end(),
    {
        self.file_offset as u64 + self.raw_size as u64
    }
}

/// What the parser hands over: header fields and the section table in file order.
#[derive(Clone, Debug, PartialEq, Eq)]
pub struct ParsedPe {
    pub coff: CoffHeader,
    pub optional_header: Option<OptionalHeader>,
    pub sections: Vec<Section>,
}

/// Mathematical model of a [`ParsedPe`].
pub struct PeView {
    pub coff: CoffHeader,
    pub optional_header: Option<OptionalHeader>,
    pub sections: Seq<Section>,
}

impl View for ParsedPe {
    type V = PeView;

    open spec fn view(&self) -> PeView {
        PeView {
            coff: self.coff,
            optional_header: self.optional_header,
            sections: self.sections@,
        }
    }
}

/// Why a byte buffer was not accepted as an input image.
#[derive(Clone, Debug, PartialEq, Eq)]
pub enum FormatError {
    /// The bytes are not a recognizable portable executable. The text is
    /// the parser's own account of what it missed.
    NotAPEFile(String),
    /// The image lacks a header that the selected strategy reads, or a
    /// section of it claims a range of addresses that ends behind the
    /// largest 32-bit address.
    MalformedHeader,
    /// The buffer was not looked at: the parser adds up file offsets as
    /// addresses, and the addresses of this build have fewer than 64 bits.
    UnsupportedTarget,
}

} // verus!
