//! The supported revisions of the file format.  Each fixes the width of the
//! header-length field and the text rules of the descriptive record.

use crate::error::{ParseHeaderError, ReadHeaderError};
use crate::wire::{le_bytes, le_val, lemma_le_val_bound, pow256, push_le_bytes, read_le_val};
use vstd::prelude::*;

verus! {

/// A format revision.
#[allow(non_camel_case_types)]
#[derive(Clone, Copy, Debug, PartialEq, Eq, Structural)]
pub enum Version {
    V1_0,
    V2_0,
    V3_0,
}

/// Number of bytes taken up by the version number (1 byte for the major
/// version, 1 byte for the minor version).
pub const VERSION_NUM_BYTES: usize = 2;

/// The width in bytes of this version's header-length field.
pub open spec fn spec_header_len_width(v: Version) -> nat {
    match v {
        Version::V1_0 => 2,
        Version::V2_0 | Version::V3_0 => 4,
    }
}

/// The largest value this version's header-length field can encode.
pub open spec fn spec_max_header_len(v: Version) -> nat {
    (pow256(spec_header_len_width(v)) - 1) as nat
}

/// Which version the two version bytes of a file denote.
pub open spec fn spec_version_of_bytes(major: u8, minor: u8) -> Option<Version> {
    if major == 1 && minor == 0 {
        Some(Version::V1_0)
    } else if major == 2 && minor == 0 {
        Some(Version::V2_0)
    } else if major == 3 && minor == 0 {
        Some(Version::V3_0)
    } else {
        None
    }
}

/// The major version byte.
pub open spec fn spec_major_version(v: Version) -> u8 {
    match v {
        Version::V1_0 => 1,
        Version::V2_0 => 2,
        Version::V3_0 => 3,
    }
}

/// Length in bytes of the fixed front of the header: magic marker, version
/// bytes, and the header-length field.
pub open spec fn spec_prefix_len(v: Version) -> nat {
    6 + 2 + spec_header_len_width(v)
}

/// The total header length this version produces for an unpadded record of
/// `fmt_len` bytes: prefix + record + newline, rounded up to a multiple of 64.
pub open spec fn spec_total_len(v: Version, fmt_len: nat) -> nat {
    let unpadded = spec_prefix_len(v) + fmt_len + 1;
    if unpadded % 64 == 0 {
        unpadded
    } else {
        (unpadded + (64 - unpadded % 64)) as nat
    }
}

/// Computed length information for a header about to be written.
pub struct HeaderLengthInfo {
    /// Total header length (including magic marker, version number, header
    /// length field, record text, padding, and final newline).
    pub total_len: usize,
    /// The encoded value of the header-length field: the number of bytes in
    /// the record text, padding, and final newline.
    pub formatted_header_len: Vec<u8>,
}

impl Version {
    /// Resolves the two version bytes of a file, or reports them as unknown.
    pub fn from_bytes(bytes: &[u8]) -> (r: Result<Self, ParseHeaderError>)
        requires
            bytes@.len() == VERSION_NUM_BYTES,
        ensures
            match r {
                Ok(v) => spec_version_of_bytes(bytes@[0], bytes@[1]) == Some(v),
                Err(e) => {
                    &&& spec_version_of_bytes(bytes@[0], bytes@[1]) is None
                    &&& e matches ParseHeaderError::Version { major, minor } && major == bytes@[0]
                        && minor == bytes@[1]
                },
            },
    {
        let b0 = bytes[0];
        let b1 = bytes[1];
        if b0 == 0x01 && b1 == 0x00 {
            Ok(Version::V1_0)
        } else if b0 == 0x02 && b1 == 0x00 {
            Ok(Version::V2_0)
        } else if b0 == 0x03 && b1 == 0x00 {
            Ok(Version::V3_0)
        } else {
            Err(ParseHeaderError::Version { major: b0, minor: b1 })
        }
    }

    /// Major version number.
    pub fn major_version(self) -> (r: u8)
        ensures
            r == spec_major_version(self),
    {
        match self {
            Version::V1_0 => 1,
            Version::V2_0 => 2,
            Version::V3_0 => 3,
        }
    }

    /// Minor version number.
    pub fn minor_version(self) -> (r: u8)
        ensures
            r == 0,
    {
        match self {
            Version::V1_0 => 0,
            Version::V2_0 => 0,
            Version::V3_0 => 0,
        }
    }

    /// Number of bytes in the representation of the header length.
    pub fn header_len_num_bytes(self) -> (r: usize)
        ensures
            r == spec_header_len_width(self),
    {
        match self {
            Version::V1_0 => 2,
            Version::V2_0 | Version::V3_0 => 4,
        }
    }

    /// Decodes this version's little-endian header-length field.
    pub fn read_header_len(self, bytes: &[u8]) -> (r: Result<usize, ReadHeaderError>)
        requires
            bytes@.len() == spec_header_len_width(self),
        ensures
            match r {
                Ok(n) => le_val(bytes@) <= usize::MAX && n == le_val(bytes@),
                Err(e) => {
                    &&& le_val(bytes@) > usize::MAX
                    &&& e matches ReadHeaderError::Parse(
                        ParseHeaderError::HeaderLengthOverflow(v),
                    ) && v == le_val(bytes@)
                },
            },
    {
        match self {
            Version::V1_0 => {
                let v = read_le_val(bytes, 0, 2);
                proof {
                    assert(bytes@.subrange(0, 2) =~= bytes@);
                    lemma_le_val_bound(bytes@);
                    crate::wire::lemma_pow256_vals();
                }
                Ok(v as usize)
            },
            Version::V2_0 | Version::V3_0 => {
                let v = read_le_val(bytes, 0, 4);
                proof {
                    assert(bytes@.subrange(0, 4) =~= bytes@);
                    lemma_le_val_bound(bytes@);
                    crate::wire::lemma_pow256_vals();
                }
                if v <= usize::MAX as u64 {
                    Ok(v as usize)
                } else {
                    Err(ReadHeaderError::Parse(ParseHeaderError::HeaderLengthOverflow(v as u32)))
                }
            },
        }
    }

    /// Encodes `header_len` for this version's length field, or reports that
    /// it does not fit.
    pub fn format_header_len(self, header_len: usize) -> (r: Option<Vec<u8>>)
        ensures
            match r {
                Some(b) => header_len <= spec_max_header_len(self) && b@ == le_bytes(
                    header_len as u64,
                    spec_header_len_width(self),
                ),
                None => header_len > spec_max_header_len(self),
            },
    {
        proof {
            crate::wire::lemma_pow256_vals();
        }
        match self {
            Version::V1_0 => {
                if header_len <= 0xFFFF {
                    let mut out: Vec<u8> = Vec::new();
                    push_le_bytes(&mut out, header_len as u64, 2);
                    Some(out)
                } else {
                    None
                }
            },
            Version::V2_0 | Version::V3_0 => {
                if header_len as u64 <= 0xFFFF_FFFFu64 {
                    let mut out: Vec<u8> = Vec::new();
                    push_le_bytes(&mut out, header_len as u64, 4);
                    Some(out)
                } else {
                    None
                }
            },
        }
    }

    /// Computes the total header length and the encoded length field for this
    /// version and an unpadded record text, or reports that the header cannot
    /// be represented (the total overflows `usize`, or the length value does
    /// not fit this version's field).
    #[verifier::rlimit(30)]
    pub fn compute_lengths(self, unpadded_arr_format: &[u8]) -> (r: Option<HeaderLengthInfo>)
        ensures
            match r {
                Some(info) => {
                    &&& spec_total_len(self, unpadded_arr_format@.len()) <= usize::MAX
                    &&& info.total_len == spec_total_len(self, unpadded_arr_format@.len())
                    &&& info.total_len % 64 == 0
                    &&& info.total_len - spec_prefix_len(self) <= spec_max_header_len(self)
                    &&& info.formatted_header_len@ == le_bytes(
                        (info.total_len - spec_prefix_len(self)) as u64,
                        spec_header_len_width(self),
                    )
                },
                None => spec_total_len(self, unpadded_arr_format@.len()) > usize::MAX
                    || spec_total_len(self, unpadded_arr_format@.len()) - spec_prefix_len(self)
                    > spec_max_header_len(self),
            },
    {
        let prefix_len: usize = 6 + VERSION_NUM_BYTES + self.header_len_num_bytes();
        let fmt_len: usize = unpadded_arr_format.len();
        if fmt_len > usize::MAX - prefix_len - 1 {
            return None;
        }
        let unpadded_total_len: usize = prefix_len + fmt_len + 1;
        let pad_res: usize = unpadded_total_len % 64;
        let padding_len: usize = if pad_res == 0 {
            0
        } else {
            64 - pad_res
        };
        if padding_len > usize::MAX - unpadded_total_len {
            return None;
        }
        let total_len: usize = unpadded_total_len + padding_len;
        let formatted_header_len = match self.format_header_len(total_len - prefix_len) {
            Some(b) => b,
            None => {
                return None;
            },
        };
        Some(HeaderLengthInfo { total_len, formatted_header_len })
    }
}

} // verus!

