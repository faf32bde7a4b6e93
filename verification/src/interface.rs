//! The scoped result container, the opaque handle over it, and the parse
//! result returned by the load operation.

use vstd::prelude::*;

use crate::decoder::RawField;
use crate::decoder::exif_fields;
use crate::decoder::exif_little_endian;
use crate::decoder::fields_raw;
use crate::decoder::little_endian_flag;
use crate::derived::build_key;
use crate::derived::contains_nul;
use crate::derived::is_derived;
use crate::derived::key_bytes;
use crate::derived::lemma_key_bytes_nul_free;
use crate::derived::lemma_terminated_is_derived;
use crate::derived::nul_free;
use crate::derived::terminated;

verus! {

/// The error codes handed back over the boundary.
#[derive(Clone, Copy, Debug, PartialEq, Eq, Structural)]
pub enum ErrorCodes {
    Success,
    Nullptr,
    ParseError,
    UnknownError,
}

/// One reported attribute: the indices of its identifier string and of its
/// value string among the container's derived strings.
#[derive(Clone, Copy, Debug, PartialEq, Eq, Structural)]
pub struct KeyValuePair {
    pub key: usize,
    pub value: usize,
}

/// A decoder field has clean strings: neither its tag name nor its formatted
/// value holds a terminator byte, so both can become derived strings.
pub open spec fn field_clean(f: (u16, Seq<u8>, Seq<u8>)) -> bool {
    nul_free(f.1) && nul_free(f.2)
}

/// Every field of the list is clean.
pub open spec fn fields_clean(fs: Seq<(u16, Seq<u8>, Seq<u8>)>) -> bool {
    forall|i: int| 0 <= i < fs.len() ==> field_clean(#[trigger] fs[i])
}

/// The pair list reports exactly the decoder fields: pair `j` points at two
/// consecutive strings appended at `base`, holding the identifier
/// `{ifd index}.{tag name}` and the formatted value of field `j`, each with
/// its terminator.
pub open spec fn pairs_match(
    base: int,
    pairs: Seq<KeyValuePair>,
    strings: Seq<Seq<u8>>,
    fields: Seq<(u16, Seq<u8>, Seq<u8>)>,
) -> bool {
    forall|j: int| 0 <= j < pairs.len() ==> {
        &&& (#[trigger] pairs[j]).key == base + 2 * j
        &&& pairs[j].value == base + 2 * j + 1
        &&& 0 <= base + 2 * j + 1 < strings.len()
        &&& strings[base + 2 * j] == terminated(key_bytes(fields[j].0, fields[j].1))
        &&& strings[base + 2 * j + 1] == terminated(fields[j].2)
    }
}

/// Couples the lifetime of every derived string to that of the decoded
/// metadata, so one destruction frees them together. Strings are only ever
/// appended: an index handed out stays valid, and its content stays
/// unchanged, for the container's whole lifetime.
pub struct ExifScope {
    /// The decoded metadata.
    exif: exif::Exif,
    /// The derived strings handed out over the boundary. They are dropped
    /// together with the decoded metadata, and never before.
    cstrings: Vec<Vec<u8>>,
    /// The cached pair list of the most recent query.
    key_value_pairs: Vec<KeyValuePair>,
}

impl ExifScope {
    /// The decoded metadata this container owns.
    pub closed spec fn meta(self) -> exif::Exif {
        self.exif
    }

    /// The derived strings, in the order they were appended.
    pub closed spec fn strings(self) -> Seq<Seq<u8>> {
        self.cstrings@.map_values(|v: Vec<u8>| v@)
    }

    /// The cached pair list.
    pub closed spec fn pairs(self) -> Seq<KeyValuePair> {
        self.key_value_pairs@
    }

    /// Every stored string is terminator-delimited, and every cached pair
    /// points at stored strings.
    pub open spec fn wf(self) -> bool {
        &&& forall|i: int|
            0 <= i < self.strings().len() ==> is_derived(#[trigger] self.strings()[i])
        &&& forall|j: int|
            0 <= j < self.pairs().len() ==> (#[trigger] self.pairs()[j]).key
                < self.strings().len() && self.pairs()[j].value < self.strings().len()
    }

    /// Takes ownership of decoded metadata; the new container has no derived
    /// strings and no cached pairs yet.
    pub fn create(exif: exif::Exif) -> (r: Self)
        ensures
            r.wf(),
            r.meta() == exif,
            r.strings() == Seq::<Seq<u8>>::empty(),
            r.pairs() == Seq::<KeyValuePair>::empty(),
    {
        let r = ExifScope { exif, cstrings: Vec::new(), key_value_pairs: Vec::new() };
        proof {
            assert(r.strings() =~= Seq::<Seq<u8>>::empty());
            assert(r.pairs() =~= Seq::<KeyValuePair>::empty());
        }
        r
    }

    /// Copies `data` into an owned, terminator-delimited byte string, appends
    /// it to the container, and returns its stable index. Fails with
    /// `UnknownError` exactly when `data` already holds a terminator byte,
    /// and then leaves the container unchanged.
    pub fn add_string(&mut self, data: &[u8]) -> (r: Result<usize, ErrorCodes>)
        requires
            old(self).wf(),
        ensures
            final(self).wf(),
            final(self).meta() == old(self).meta(),
            final(self).pairs() == old(self).pairs(),
            old(self).strings().is_prefix_of(final(self).strings()),
            r is Ok <==> nul_free(data@),
            r matches Ok(idx) ==> idx == old(self).strings().len() && final(self).strings()
                == old(self).strings().push(terminated(data@)),
            r is Err ==> r == Err::<usize, ErrorCodes>(ErrorCodes::UnknownError) && *final(self)
                == *old(self),
    {
        if contains_nul(data) {
            return Err(ErrorCodes::UnknownError);
        }
        let mut s: Vec<u8> = Vec::new();
        s.extend_from_slice(data);
        s.push(0);
        proof {
            assert(s@ =~= terminated(data@));
        }
        let idx = self.cstrings.len();
        self.cstrings.push(s);
        proof {
            assert(self.strings() =~= old(self).strings().push(terminated(data@)));
            assert(old(self).strings() =~= self.strings().subrange(
                0,
                old(self).strings().len() as int,
            ));
            lemma_terminated_is_derived(data@);
            assert forall|i: int| 0 <= i < self.strings().len() implies is_derived(
                #[trigger] self.strings()[i],
            ) by {
                if i < old(self).strings().len() {
                    assert(self.strings()[i] == old(self).strings()[i]);
                    assert(is_derived(old(self).strings()[i]));
                } else {
                    assert(self.strings()[i] == terminated(data@));
                }
            }
            assert forall|j: int| 0 <= j < self.pairs().len() implies (#[trigger] self.pairs()[j]).key
                < self.strings().len() && self.pairs()[j].value < self.strings().len() by {
                assert(old(self).pairs()[j].key < old(self).strings().len());
                assert(old(self).pairs()[j].value < old(self).strings().len());
            }
        }
        Ok(idx)
    }

    /// Appends the identifier and the value as two derived strings and caches
    /// the pair of their indices. On failure the strings appended before the
    /// failing one stay in the container: nothing is rolled back.
    pub fn add_key_value_pair(&mut self, key: &[u8], value: &[u8]) -> (r: Result<
        (),
        ErrorCodes,
    >)
        requires
            old(self).wf(),
        ensures
            final(self).wf(),
            final(self).meta() == old(self).meta(),
            old(self).strings().is_prefix_of(final(self).strings()),
            r is Ok <==> nul_free(key@) && nul_free(value@),
            r is Ok ==> final(self).strings() == old(self).strings().push(
                terminated(key@),
            ).push(terminated(value@)),
            r is Ok ==> final(self).pairs().len() == old(self).pairs().len() + 1,
            r is Ok ==> forall|j: int|
                0 <= j < old(self).pairs().len() ==> final(self).pairs()[j] == old(self).pairs()[j],
            r is Ok ==> final(self).pairs().last().key == old(self).strings().len()
                && final(self).pairs().last().value == old(self).strings().len() + 1,
            r is Err ==> r == Err::<(), ErrorCodes>(ErrorCodes::UnknownError)
                && final(self).pairs() == old(self).pairs() && final(self).strings() == (if nul_free(key@) {
                old(self).strings().push(terminated(key@))
            } else {
                old(self).strings()
            }),
    {
        let key_idx = match self.add_string(key) {
            Err(e) => { return Err(e); },
            Ok(i) => i,
        };
        let value_idx = match self.add_string(value) {
            Err(e) => { return Err(e); },
            Ok(i) => i,
        };
        let pair = KeyValuePair { key: key_idx, value: value_idx };
        self.key_value_pairs.push(pair);
        Ok(())
    }

    /// Discards the cached pair list, formats every field the decoded
    /// metadata exposes as `{ifd index}.{tag name}` with its display value,
    /// appends each as a fresh pair of derived strings, and reports the
    /// number of pairs through `num_elements`. Succeeds exactly when every
    /// field is clean; previously issued string indices stay valid either
    /// way.
    pub fn retrieve_data(&mut self, num_elements: &mut usize) -> (r: Result<(), ErrorCodes>)
        requires
            old(self).wf(),
        ensures
            final(self).wf(),
            final(self).meta() == old(self).meta(),
            old(self).strings().is_prefix_of(final(self).strings()),
            pairs_match(
                old(self).strings().len() as int,
                final(self).pairs(),
                final(self).strings(),
                exif_fields(old(self).meta()),
            ),
            r is Ok <==> fields_clean(exif_fields(old(self).meta())),
            r is Ok ==> final(self).pairs().len() == exif_fields(old(self).meta()).len()
                && *final(num_elements) == final(self).pairs().len(),
            r is Err ==> r == Err::<(), ErrorCodes>(ErrorCodes::UnknownError)
                && final(self).pairs().len() < exif_fields(old(self).meta()).len()
                && *final(num_elements) == *old(num_elements),
    {
        self.key_value_pairs.clear();
        let raw: Vec<RawField> = fields_raw(&self.exif);
        let ghost fs = exif_fields(old(self).meta());
        let ghost base = old(self).strings().len() as int;
        let mut i: usize = 0;
        while i < raw.len()
            invariant
                self.wf(),
                self.meta() == old(self).meta(),
                raw@.map_values(|f: RawField| f.view_triple()) == fs,
                fs == exif_fields(old(self).meta()),
                base == old(self).strings().len() as int,
                0 <= i <= raw@.len(),
                old(self).strings().is_prefix_of(self.strings()),
                self.strings().len() == base + 2 * i,
                self.pairs().len() == i,
                pairs_match(base, self.pairs(), self.strings(), fs),
                forall|k: int| 0 <= k < i ==> field_clean(#[trigger] fs[k]),
                *num_elements == *old(num_elements),
            decreases raw@.len() - i,
        {
            proof {
                assert(fs[i as int] == raw@.map_values(|f: RawField| f.view_triple())[i as int]);
            }
            let field = &raw[i];
            let key = build_key(field.ifd_index, field.tag.as_slice());
            proof {
                lemma_key_bytes_nul_free(field.ifd_index, field.tag@);
            }
            let ghost pre = *self;
            match self.add_key_value_pair(key.as_slice(), field.value.as_slice()) {
                Err(e) => {
                    proof {
                        assert(!field_clean(fs[i as int]));
                        assert(!fields_clean(fs));
                        assert(pairs_match(base, self.pairs(), self.strings(), fs)) by {
                            assert forall|j: int| 0 <= j < self.pairs().len() implies {
                                &&& (#[trigger] self.pairs()[j]).key == base + 2 * j
                                &&& self.pairs()[j].value == base + 2 * j + 1
                                &&& 0 <= base + 2 * j + 1 < self.strings().len()
                                &&& self.strings()[base + 2 * j] == terminated(
                                    key_bytes(fs[j].0, fs[j].1),
                                )
                                &&& self.strings()[base + 2 * j + 1] == terminated(fs[j].2)
                            } by {
                                assert(self.strings()[base + 2 * j] == pre.strings()[base + 2 * j]);
                                assert(self.strings()[base + 2 * j + 1] == pre.strings()[base + 2
                                    * j + 1]);
                            }
                        }
                        assert(old(self).strings() =~= self.strings().subrange(0, base));
                    }
                    return Err(e);
                },
                Ok(()) => {},
            }
            proof {
                assert(field_clean(fs[i as int]));
                assert(pairs_match(base, self.pairs(), self.strings(), fs)) by {
                    assert forall|j: int| 0 <= j < self.pairs().len() implies {
                        &&& (#[trigger] self.pairs()[j]).key == base + 2 * j
                        &&& self.pairs()[j].value == base + 2 * j + 1
                        &&& 0 <= base + 2 * j + 1 < self.strings().len()
                        &&& self.strings()[base + 2 * j] == terminated(key_bytes(fs[j].0, fs[j].1))
                        &&& self.strings()[base + 2 * j + 1] == terminated(fs[j].2)
                    } by {
                        if j < i as int {
                            assert(pre.pairs()[j] == self.pairs()[j]);
                            assert(self.strings()[base + 2 * j] == pre.strings()[base + 2 * j]);
                            assert(self.strings()[base + 2 * j + 1] == pre.strings()[base + 2 * j
                                + 1]);
                        } else {
                            assert(j == i as int);
                            assert(self.pairs()[j] == self.pairs().last());
                            assert(self.pairs()[j].key == pre.strings().len());
                            assert(self.pairs()[j].value == pre.strings().len() + 1);
                            assert(self.strings()[base + 2 * j] == terminated(key@));
                            assert(self.strings()[base + 2 * j + 1] == terminated(
                                field.value@,
                            ));
                            assert(key@ == key_bytes(fs[j].0, fs[j].1));
                        }
                    }
                }
                assert(old(self).strings() =~= self.strings().subrange(0, base));
            }
            i = i + 1;
        }
        proof {
            assert(fields_clean(fs));
        }
        *num_elements = self.key_value_pairs.len();
        Ok(())
    }

    /// Reads the decoder-reported byte-order flag of the owned metadata.
    pub fn little_endian(&self) -> (r: bool)
        ensures
            r == exif_little_endian(self.meta()),
    {
        little_endian_flag(&self.exif)
    }

    /// The number of cached pairs.
    pub fn num_pairs(&self) -> (r: usize)
        ensures
            r == self.pairs().len(),
    {
        self.key_value_pairs.len()
    }

    /// The cached pair at index `i`.
    pub fn pair_at(&self, i: usize) -> (r: KeyValuePair)
        requires
            i < self.pairs().len(),
        ensures
            r == self.pairs()[i as int],
    {
        self.key_value_pairs[i]
    }

    /// The stored bytes of derived string `i`, terminator included.
    pub fn string_at(&self, i: usize) -> (r: &Vec<u8>)
        requires
            i < self.strings().len(),
        ensures
            r@ == self.strings()[i as int],
    {
        &self.cstrings[i]
    }
}

/// The opaque handle handed over the boundary: either the null sentinel or
/// the sole owner of one live container. The caller never sees the layout;
/// it can only hand the handle back to the boundary operations.
pub struct ExifData {
    val: Option<Box<ExifScope>>,
}

impl ExifData {
    /// Whether the handle addresses a live container.
    pub closed spec fn is_bound(self) -> bool {
        self.val is Some
    }

    /// The container a bound handle addresses.
    pub closed spec fn scope(self) -> ExifScope {
        *self.val.unwrap()
    }

    /// A handle as this library hands it out: if it is bound, the container
    /// it addresses is well-formed.
    pub open spec fn wf(self) -> bool {
        self.is_bound() ==> self.scope().wf()
    }

    /// Constructs the null handle.
    pub fn make_null() -> (r: Self)
        ensures
            !r.is_bound(),
    {
        ExifData { val: None }
    }

    /// Observes whether the handle is null, without side effects.
    pub fn is_null(&self) -> (r: bool)
        ensures
            r == !self.is_bound(),
    {
        self.val.is_none()
    }

    /// Takes ownership of decoded metadata, moves it into a fresh container
    /// on a stable heap location, and binds a handle to it. The handle is
    /// the container's only owner.
    pub fn from_exif(exif: exif::Exif) -> (r: Self)
        ensures
            r.is_bound(),
            r.scope().wf(),
            r.scope().meta() == exif,
            r.scope().strings() == Seq::<Seq<u8>>::empty(),
            r.scope().pairs() == Seq::<KeyValuePair>::empty(),
    {
        ExifData { val: Some(Box::new(ExifScope::create(exif))) }
    }

    /// A read-only view of the addressed container; `Nullptr` on the null
    /// handle.
    pub fn to_exif_scope(&self) -> (r: Result<&ExifScope, ErrorCodes>)
        ensures
            self.is_bound() ==> r is Ok && *r.unwrap() == self.scope(),
            !self.is_bound() ==> r == Err::<&ExifScope, ErrorCodes>(ErrorCodes::Nullptr),
    {
        match &self.val {
            Some(b) => Ok(&**b),
            None => Err(ErrorCodes::Nullptr),
        }
    }

    /// A mutable view of the addressed container; `Nullptr` on the null
    /// handle. The boundary layer never holds two live views at once.
    pub fn to_exif_scope_mut(&mut self) -> (r: Result<&mut ExifScope, ErrorCodes>)
        ensures
            old(self).is_bound() ==> r is Ok && *r.unwrap() == old(self).scope()
                && final(self).is_bound() && final(self).scope() == *final(r.unwrap()),
            !old(self).is_bound() ==> r == Err::<&mut ExifScope, ErrorCodes>(ErrorCodes::Nullptr)
                && *final(self) == *old(self),
    {
        match &mut self.val {
            Some(b) => Ok(&mut **b),
            None => Err(ErrorCodes::Nullptr),
        }
    }

    /// Destroys the addressed container: the decoded metadata and every
    /// derived string are released in one step. `Nullptr` if the handle is
    /// null. Consumes the handle.
    pub fn drop_explicitly(self) -> (r: ErrorCodes)
        ensures
            r == ErrorCodes::Success <==> self.is_bound(),
            r == ErrorCodes::Nullptr <==> !self.is_bound(),
    {
        match self.val {
            None => ErrorCodes::Nullptr,
            Some(_scope_box) => ErrorCodes::Success,
        }
    }
}

/// What the load operation hands back: a handle and an error code. The code
/// is `Success` exactly when the handle is bound.
pub struct ExifParseResult {
    /// The opaque handle; null unless parsing succeeded.
    pub data: ExifData,
    /// Says whether parsing succeeded, and how it failed if not.
    pub error_code: ErrorCodes,
}

impl ExifParseResult {
    /// The invariant of every returned parse result: `Success` exactly on a
    /// bound handle.
    pub open spec fn wf(self) -> bool {
        &&& self.error_code == ErrorCodes::Success <==> self.data.is_bound()
        &&& self.data.is_bound() ==> self.data.scope().wf()
    }

    /// The result reporting a decode failure: a null handle and `ParseError`.
    pub fn parse_error() -> (r: Self)
        ensures
            r.wf(),
            !r.data.is_bound(),
            r.error_code == ErrorCodes::ParseError,
    {
        Self { data: ExifData::make_null(), error_code: ErrorCodes::ParseError }
    }

    /// The result rejecting a null input: a null handle and `Nullptr`.
    pub fn make_null() -> (r: Self)
        ensures
            r.wf(),
            !r.data.is_bound(),
            r.error_code == ErrorCodes::Nullptr,
    {
        Self { data: ExifData::make_null(), error_code: ErrorCodes::Nullptr }
    }
}

} // verus!
