//! A memory-safe boundary around an external image-metadata decoder.
//!
//! A caller loads an encoded image, receives an opaque handle to the parsed
//! result, queries the byte order and the attribute pairs through the handle,
//! and finally frees the handle, which releases the parsed structure together
//! with every string derived from it. Failures come back as error codes, never
//! as panics.

#![allow(non_snake_case)]

use vstd::prelude::*;

pub mod decoder;
pub mod derived;
pub mod interface;

use crate::decoder::decode_bytes;
use crate::decoder::exif_decode_ok;
use crate::decoder::exif_fields;
use crate::decoder::exif_little_endian;
use crate::derived::key_bytes;
use crate::derived::nul_free;
use crate::derived::terminated;
use crate::interface::ErrorCodes;
use crate::interface::ExifData;
use crate::interface::ExifParseResult;
use crate::interface::KeyValuePair;
use crate::interface::fields_clean;
use crate::interface::pairs_match;

verus! {

/// Loads the metadata from an encoded image.
///
/// A missing buffer is rejected at once with a null handle and `Nullptr`.
/// Otherwise the external decoder runs on the bytes: on failure the result is
/// a null handle and `ParseError`; on success a fresh container takes
/// ownership of the decoded structure and the result is a bound handle and
/// `Success`. No container outlives a failure, and none is created without
/// its handle being returned.
pub fn EXIF_load(data: Option<&[u8]>) -> (r: ExifParseResult)
    ensures
        r.wf(),
        r.data.wf(),
        data is None ==> r.error_code == ErrorCodes::Nullptr,
        data matches Some(d) ==> (r.error_code == ErrorCodes::Success <==> exif_decode_ok(d@)),
        data matches Some(d) && !exif_decode_ok(d@) ==> r.error_code == ErrorCodes::ParseError,
        r.data.is_bound() ==> r.data.scope().strings() == Seq::<Seq<u8>>::empty()
            && r.data.scope().pairs() == Seq::<KeyValuePair>::empty(),
{
    let d = match data {
        None => { return ExifParseResult::make_null(); },
        Some(d) => d,
    };
    match decode_bytes(d) {
        None => ExifParseResult::parse_error(),
        Some(exif) => ExifParseResult {
            data: ExifData::from_exif(exif),
            error_code: ErrorCodes::Success,
        },
    }
}

/// Frees everything a bound handle owns: the decoded structure and every
/// derived string go in one step. `Nullptr` on the null handle. Consumes the
/// handle; it must not be used afterwards.
pub fn EXIF_free(data: ExifData) -> (r: ErrorCodes)
    ensures
        r == ErrorCodes::Success <==> data.is_bound(),
        r == ErrorCodes::Nullptr <==> !data.is_bound(),
{
    data.drop_explicitly()
}

/// Reports whether the metadata block was encoded little-endian, through the
/// out-parameter. `Nullptr` on the null handle, and the out-parameter is then
/// left alone.
pub fn EXIF_is_little_endian(data: &ExifData, little_endian: &mut bool) -> (r: ErrorCodes)
    ensures
        !data.is_bound() ==> r == ErrorCodes::Nullptr
            && *final(little_endian) == *old(little_endian),
        data.is_bound() ==> r == ErrorCodes::Success
            && *final(little_endian) == exif_little_endian(data.scope().meta()),
{
    let exif_scope = match data.to_exif_scope() {
        Err(error_code) => { return error_code; },
        Ok(val) => val,
    };
    *little_endian = exif_scope.little_endian();
    ErrorCodes::Success
}

/// The sample text that `EXIF_get_some_string` materializes.
pub open spec fn greeting() -> Seq<u8> {
    seq![72u8, 101u8, 108u8, 108u8, 111u8, 32u8, 87u8, 111u8, 114u8, 108u8, 100u8]
}

/// Materializes the sample text as a derived string owned by the handle's
/// container and reports its stable index through the out-parameter.
/// `Nullptr` on the null handle.
pub fn EXIF_get_some_string(data: &mut ExifData, string: &mut usize) -> (r: ErrorCodes)
    requires
        old(data).wf(),
    ensures
        final(data).wf(),
        !old(data).is_bound() ==> r == ErrorCodes::Nullptr && *final(data) == *old(data)
            && *final(string) == *old(string),
        old(data).is_bound() ==> (r == ErrorCodes::Success && final(data).is_bound()
            && final(data).scope().meta() == old(data).scope().meta()
            && final(data).scope().pairs() == old(data).scope().pairs()
            && final(data).scope().strings()
                == old(data).scope().strings().push(terminated(greeting()))
            && *final(string) == old(data).scope().strings().len()),
{
    let exif_scope = match data.to_exif_scope_mut() {
        Err(error_code) => { return error_code; },
        Ok(val) => val,
    };
    let text: Vec<u8> = vec![72u8, 101u8, 108u8, 108u8, 111u8, 32u8, 87u8, 111u8, 114u8, 108u8, 100u8];
    proof {
        assert(text@ =~= greeting());
        assert(nul_free(greeting()));
    }
    match exif_scope.add_string(text.as_slice()) {
        Err(error_code) => { return error_code; },
        Ok(idx) => {
            *string = idx;
            ErrorCodes::Success
        },
    }
}

/// Rebuilds and reports the attribute pairs of the handle's metadata.
///
/// Every field is formatted as the identifier `{ifd index}.{tag name}` with
/// its display value; each becomes a fresh pair of derived strings, and the
/// pair count is reported through the out-parameter. `Nullptr` on the null
/// handle; `UnknownError` exactly when some field's text cannot become a
/// derived string. Strings issued by earlier queries stay valid and
/// unchanged either way.
pub fn EXIF_query_attribute_pairs(data: &mut ExifData, num_elements: &mut usize) -> (r: ErrorCodes)
    requires
        old(data).wf(),
    ensures
        final(data).wf(),
        !old(data).is_bound() ==> r == ErrorCodes::Nullptr && *final(data) == *old(data)
            && *final(num_elements) == *old(num_elements),
        old(data).is_bound() ==> (final(data).is_bound()
            && final(data).scope().meta() == old(data).scope().meta()
            && old(data).scope().strings().is_prefix_of(final(data).scope().strings())
            && pairs_match(
            old(data).scope().strings().len() as int,
            final(data).scope().pairs(),
            final(data).scope().strings(),
            exif_fields(old(data).scope().meta()),
        )),
        old(data).is_bound() ==> (r == ErrorCodes::Success <==> fields_clean(
            exif_fields(old(data).scope().meta()),
        )),
        old(data).is_bound() && r == ErrorCodes::Success ==> final(data).scope().pairs().len()
            == exif_fields(old(data).scope().meta()).len()
            && *final(num_elements) == final(data).scope().pairs().len(),
        old(data).is_bound() && r != ErrorCodes::Success ==> r == ErrorCodes::UnknownError
            && *final(num_elements) == *old(num_elements),
{
    let exif_scope = match data.to_exif_scope_mut() {
        Err(error_code) => { return error_code; },
        Ok(val) => val,
    };
    match exif_scope.retrieve_data(num_elements) {
        Err(error_code) => error_code,
        Ok(()) => ErrorCodes::Success,
    }
}

/// Law: the byte-order answer is stable. Any two reads through the same
/// bound handle report the same value, because each equals the one flag the
/// decoder reports for the metadata the handle addresses.
pub proof fn lemma_byte_order_stable(data: ExifData, first: bool, second: bool)
    requires
        data.is_bound(),
        first == exif_little_endian(data.scope().meta()),
        second == exif_little_endian(data.scope().meta()),
    ensures
        first == second,
{
}

/// Law: querying the attribute pairs twice on the same handle, with no
/// intervening mutation, yields pair lists of equal length whose identifier
/// and value strings are byte-identical, pair for pair.
pub proof fn lemma_attribute_pairs_repeatable(
    fields: Seq<(u16, Seq<u8>, Seq<u8>)>,
    base1: int,
    pairs1: Seq<KeyValuePair>,
    strings1: Seq<Seq<u8>>,
    base2: int,
    pairs2: Seq<KeyValuePair>,
    strings2: Seq<Seq<u8>>,
)
    requires
        pairs_match(base1, pairs1, strings1, fields),
        pairs_match(base2, pairs2, strings2, fields),
        pairs1.len() == fields.len(),
        pairs2.len() == fields.len(),
    ensures
        pairs1.len() == pairs2.len(),
        forall|j: int|
            0 <= j < pairs1.len() ==> strings1[#[trigger] pairs1[j].key as int]
                == strings2[pairs2[j].key as int]
                && strings1[pairs1[j].value as int] == strings2[pairs2[j].value as int],
{
    assert forall|j: int|
        0 <= j < pairs1.len() implies strings1[#[trigger] pairs1[j].key as int]
            == strings2[pairs2[j].key as int]
            && strings1[pairs1[j].value as int] == strings2[pairs2[j].value as int] by {
        assert(pairs1[j].key == base1 + 2 * j);
        assert(pairs2[j].key == base2 + 2 * j);
    }
}

/// Law: round trip. Whatever pair a query reports, reading its two strings
/// back yields exactly the formatted source texts — the identifier
/// `{ifd index}.{tag name}` and the display value — each closed by the
/// terminator, byte for byte.
pub proof fn lemma_round_trip(
    base: int,
    pairs: Seq<KeyValuePair>,
    strings: Seq<Seq<u8>>,
    fields: Seq<(u16, Seq<u8>, Seq<u8>)>,
    j: int,
)
    requires
        pairs_match(base, pairs, strings, fields),
        0 <= j < pairs.len(),
    ensures
        strings[pairs[j].key as int] == terminated(key_bytes(fields[j].0, fields[j].1)),
        strings[pairs[j].value as int] == terminated(fields[j].2),
{
}

/// Law: issued strings stay put. Every operation only appends to the string
/// list — the old list is a prefix of the new one — so an index handed out
/// earlier still yields the same bytes afterwards.
pub proof fn lemma_issued_strings_stable(before: Seq<Seq<u8>>, after: Seq<Seq<u8>>, i: int)
    requires
        before.is_prefix_of(after),
        0 <= i < before.len(),
    ensures
        after[i] == before[i],
{
    assert(before[i] == after.subrange(0, before.len() as int)[i]);
}

} // verus!

