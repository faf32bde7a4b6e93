//! The external metadata decoder, seen through trusted declarations.
//!
//! The decoder turns a byte buffer into an opaque structured value and
//! answers two queries about it: its byte-order flag and its field list.
//! Everything it computes is taken on trust here, stated over uninterpreted
//! names; the rest of the crate is verified against those names.

use vstd::prelude::*;

verus! {

#[verifier::external_type_specification]
#[verifier::external_body]
pub struct ExExif(exif::Exif);

/// Whether the decoder accepts `bytes` as an encoded image carrying a
/// well-formed metadata block. The decode reads nothing but the bytes,
/// so its outcome is a function of them alone.
pub uninterp spec fn exif_decode_ok(bytes: Seq<u8>) -> bool;

/// The field list a decoded metadata value holds: for each field, its
/// IFD index, its tag name, and its formatted display value (with unit),
/// the two strings as raw bytes.
pub uninterp spec fn exif_fields(e: exif::Exif) -> Seq<(u16, Seq<u8>, Seq<u8>)>;

/// The byte-order flag a decoded metadata value reports: true when the
/// metadata block is encoded little-endian.
pub uninterp spec fn exif_little_endian(e: exif::Exif) -> bool;

/// One decoded metadata field, flattened to plain values.
pub struct RawField {
    /// The IFD the field sits in, as its numeric index.
    pub ifd_index: u16,
    /// The tag name, as the decoder displays it.
    pub tag: Vec<u8>,
    /// The formatted display value with its unit, as the decoder displays it.
    pub value: Vec<u8>,
}

impl RawField {
    /// The plain-value triple this field stands for.
    pub open spec fn view_triple(self) -> (u16, Seq<u8>, Seq<u8>) {
        (self.ifd_index, self.tag@, self.value@)
    }
}

/// Relies on exif::Reader::read_from_container: parses the metadata block
/// out of the encoded image in `data`; the result is a function of the
/// bytes alone.
#[verifier::external_body]
pub fn decode_bytes(data: &[u8]) -> (r: Option<exif::Exif>)
    ensures
        r is Some <==> exif_decode_ok(data@),
{
    let mut cursor = std::io::Cursor::new(data);
    exif::Reader::new().read_from_container(&mut cursor).ok()
}

/// Relies on exif::Exif::fields, exif::Field::display_value and
/// exif::DisplayValue::with_unit: hands out every field the decoded value
/// holds, each mapped to plain values.
#[verifier::external_body]
pub fn fields_raw(e: &exif::Exif) -> (r: Vec<RawField>)
    ensures
        r@.map_values(|f: RawField| f.view_triple()) == exif_fields(*e),
{
    e.fields()
        .map(|f| RawField {
            ifd_index: f.ifd_num.0,
            tag: format!("{}", f.tag).into_bytes(),
            value: format!("{}", f.display_value().with_unit(e)).into_bytes(),
        })
        .collect()
}

/// Relies on exif::Exif::little_endian: reports the decoder's byte-order flag.
#[verifier::external_body]
pub fn little_endian_flag(e: &exif::Exif) -> (r: bool)
    ensures
        r == exif_little_endian(*e),
{
    e.little_endian()
}

} // verus!
