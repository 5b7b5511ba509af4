use vstd::prelude::*;

use arrow_buffer::NullBuffer;
use bytes::Bytes;
use geozero::wkb::FromWkb;

use crate::error::GeoError;
use crate::offsets::{
    check_nulls, check_offsets, groups, is_row_valid, lemma_groups_extend_items, lemma_groups_push,
    lemma_offsets_push, lemma_rows_push, null_buffer_from_bits, nulls_valid, offsets_valid, rows_of,
    validity_of,
};
use crate::scalar::compute_start_end_offset;

verus! {

/// The binary encodings of a geometry that a WKB store can be tagged with.
#[derive(Debug, Clone, Copy, PartialEq, Eq, Structural)]
pub enum WkbDialect {
    Wkb,
    Ewkb,
    Geopackage,
    MySQL,
    SpatiaLite,
}

/// The tag byte of each dialect.
pub open spec fn dialect_tag(d: WkbDialect) -> u8 {
    match d {
        WkbDialect::Wkb => 1,
        WkbDialect::Ewkb => 2,
        WkbDialect::Geopackage => 3,
        WkbDialect::MySQL => 4,
        WkbDialect::SpatiaLite => 5,
    }
}

/// The dialect that a tag byte names, if any.
pub open spec fn dialect_of_tag(b: u8) -> Option<WkbDialect> {
    if b == 1 {
        Some(WkbDialect::Wkb)
    } else if b == 2 {
        Some(WkbDialect::Ewkb)
    } else if b == 3 {
        Some(WkbDialect::Geopackage)
    } else if b == 4 {
        Some(WkbDialect::MySQL)
    } else if b == 5 {
        Some(WkbDialect::SpatiaLite)
    } else {
        None
    }
}

/// The tag byte that marks `dialect`.
pub fn wkb_type_id(dialect: WkbDialect) -> (r: u8)
    ensures
        r == dialect_tag(dialect),
{
    match dialect {
        WkbDialect::Wkb => 1,
        WkbDialect::Ewkb => 2,
        WkbDialect::Geopackage => 3,
        WkbDialect::MySQL => 4,
        WkbDialect::SpatiaLite => 5,
    }
}

/// The dialect that `type_id` marks; fails on any byte but the five tags.
pub fn decode_wkb_dialect(type_id: u8) -> (r: Result<WkbDialect, GeoError>)
    ensures
        r is Ok <==> 1 <= type_id <= 5,
        r matches Ok(d) ==> dialect_of_tag(type_id) == Some(d) && dialect_tag(d) == type_id,
        r matches Err(e) ==> e == GeoError::UnknownDialect,
{
    if type_id == wkb_type_id(WkbDialect::Wkb) {
        Ok(WkbDialect::Wkb)
    } else if type_id == wkb_type_id(WkbDialect::Ewkb) {
        Ok(WkbDialect::Ewkb)
    } else if type_id == wkb_type_id(WkbDialect::Geopackage) {
        Ok(WkbDialect::Geopackage)
    } else if type_id == wkb_type_id(WkbDialect::MySQL) {
        Ok(WkbDialect::MySQL)
    } else if type_id == wkb_type_id(WkbDialect::SpatiaLite) {
        Ok(WkbDialect::SpatiaLite)
    } else {
        Err(GeoError::UnknownDialect)
    }
}

/// Decoding the tag of a dialect gives that dialect back.
pub proof fn lemma_dialect_round_trip(d: WkbDialect)
    ensures
        dialect_of_tag(dialect_tag(d)) == Some(d),
        1 <= dialect_tag(d) <= 5,
{
}

/// A byte that decodes to a dialect is that dialect's tag.
pub proof fn lemma_tag_round_trip(b: u8)
    requires
        dialect_of_tag(b) is Some,
    ensures
        dialect_tag(dialect_of_tag(b).unwrap()) == b,
{
}

/// Whether `wkb` begins with one geometry that parses in the dialect whose tag
/// is `tag` (bytes after it are not looked at).
pub uninterp spec fn wkb_decodes(wkb: Seq<u8>, tag: u8) -> bool;

/// Relies on geozero's `FromWkb` for `geo::Geometry`: whether `wkb` begins
/// with one geometry that parses in `dialect`. The answer depends on the
/// bytes and the dialect alone; the geometry itself is dropped.
#[verifier::external_body]
fn check_wkb(wkb: &[u8], dialect: WkbDialect) -> (r: bool)
    ensures
        r == wkb_decodes(wkb@, dialect_tag(dialect)),
{
    let dialect = match dialect {
        WkbDialect::Wkb => geozero::wkb::WkbDialect::Wkb,
        WkbDialect::Ewkb => geozero::wkb::WkbDialect::Ewkb,
        WkbDialect::Geopackage => geozero::wkb::WkbDialect::Geopackage,
        WkbDialect::MySQL => geozero::wkb::WkbDialect::MySQL,
        WkbDialect::SpatiaLite => geozero::wkb::WkbDialect::SpatiaLite,
    };
    let mut rdr: &[u8] = wkb;
    geo::Geometry::from_wkb(&mut rdr, dialect).is_ok()
}

/// Every row that holds a payload holds one that parses in the dialect of `tag`.
pub open spec fn rows_decode(rows: Seq<Option<Seq<u8>>>, tag: u8) -> bool {
    forall|i: int| 0 <= i < rows.len() ==> (#[trigger] rows[i] matches Some(b) ==> wkb_decodes(b, tag))
}

/// The rows of a byte store: each row's payload, or `None` where it is null.
pub open spec fn payload_rows(values: Seq<u8>, offsets: Seq<usize>, nulls: Option<NullBuffer>) -> Seq<
    Option<Seq<u8>>,
> {
    rows_of(validity_of(nulls, offsets.len() - 1), groups(values, offsets))
}

/// A shared, immutable byte buffer, held opaque; `bytes_of` names what it holds.
#[verifier::external_type_specification]
#[verifier::external_body]
pub struct ExBytes(Bytes);

/// The bytes that a shared byte buffer holds, in order.
pub uninterp spec fn bytes_of(b: Bytes) -> Seq<u8>;

/// Relies on `Bytes::len`: the number of bytes.
pub assume_specification[ Bytes::len ](b: &Bytes) -> (r: usize)
    ensures
        r == bytes_of(*b).len(),
;

/// Relies on `Bytes::clone`: a second handle to the same bytes.
pub assume_specification[ <Bytes as Clone>::clone ](b: &Bytes) -> (r: Bytes)
    ensures
        bytes_of(r) == bytes_of(*b),
;

/// Relies on `Bytes::from(Vec<u8>)`: the same bytes, in order.
#[verifier::external_body]
fn bytes_from_vec(v: Vec<u8>) -> (r: Bytes)
    ensures
        bytes_of(r) == v@,
{
    Bytes::from(v)
}

/// Relies on `Bytes::slice`: bytes `[from, to)`, sharing the storage; the call
/// panics unless `from <= to <= len`.
#[verifier::external_body]
fn bytes_slice(b: &Bytes, from: usize, to: usize) -> (r: Bytes)
    requires
        from <= to <= bytes_of(*b).len(),
    ensures
        bytes_of(r) == bytes_of(*b).subrange(from as int, to as int),
{
    b.slice(from..to)
}

/// Relies on indexing a `Bytes` through its `Deref` to `[u8]`: byte `i`.
#[verifier::external_body]
fn byte_at(b: &Bytes, i: usize) -> (r: u8)
    requires
        i < bytes_of(*b).len(),
    ensures
        r == bytes_of(*b)[i as int],
{
    b[i]
}

/// The bytes after the leading tag byte.
pub open spec fn payload_of(data: Seq<u8>) -> Seq<u8> {
    data.subrange(1, data.len() as int)
}

/// A byte store: one dialect tag byte, then WKB payload bytes.
#[derive(Debug, Clone, PartialEq, Eq)]
pub struct WkbBuffer {
    data: Bytes,
}

impl WkbBuffer {
    /// Every byte, the tag first.
    pub closed spec fn bytes(&self) -> Seq<u8> {
        bytes_of(self.data)
    }

    pub open spec fn wf(&self) -> bool {
        self.bytes().len() >= 1
    }

    /// The payload: every byte after the tag.
    pub open spec fn payload(&self) -> Seq<u8> {
        payload_of(self.bytes())
    }

    /// Prepends the tag of `dialect` to `wkb_data`.
    pub fn try_new(wkb_data: Bytes, dialect: WkbDialect) -> (r: Result<WkbBuffer, GeoError>)
        ensures
            r matches Ok(b) && b.wf() && b.bytes() == seq![dialect_tag(dialect)] + bytes_of(
                wkb_data,
            ),
    {
        let n = wkb_data.len();
        let mut data: Vec<u8> = Vec::with_capacity(1);
        data.push(wkb_type_id(dialect));
        let ghost src = bytes_of(wkb_data);
        let mut i: usize = 0;
        while i < n
            invariant
                i <= n == src.len(),
                src == bytes_of(wkb_data),
                data@ == seq![dialect_tag(dialect)] + src.subrange(0, i as int),
            decreases n - i,
        {
            data.push(byte_at(&wkb_data, i));
            assert(src.subrange(0, i + 1) =~= src.subrange(0, i as int).push(src[i as int]));
            assert(seq![dialect_tag(dialect)] + src.subrange(0, i + 1) =~= (seq![
                dialect_tag(dialect),
            ] + src.subrange(0, i as int)).push(src[i as int]));
            i = i + 1;
        }
        assert(src.subrange(0, i as int) =~= src);
        Ok(WkbBuffer { data: bytes_from_vec(data) })
    }

    /// The dialect that the leading byte names; fails on an empty store or an
    /// unknown tag.
    pub fn dialect(&self) -> (r: Result<WkbDialect, GeoError>)
        ensures
            self.bytes().len() == 0 ==> r == Err::<WkbDialect, GeoError>(GeoError::MalformedBuffer),
            self.bytes().len() > 0 ==> match dialect_of_tag(self.bytes()[0]) {
                Some(d) => r == Ok::<WkbDialect, GeoError>(d),
                None => r == Err::<WkbDialect, GeoError>(GeoError::UnknownDialect),
            },
    {
        if self.data.len() == 0 {
            return Err(GeoError::MalformedBuffer);
        }
        decode_wkb_dialect(byte_at(&self.data, 0))
    }

    /// The payload, without the tag, sharing this store's bytes.
    pub fn data(&self) -> (r: Bytes)
        requires
            self.wf(),
        ensures
            bytes_of(r) == self.payload(),
    {
        bytes_slice(&self.data, 1, self.data.len())
    }

    /// The number of payload bytes.
    pub fn len(&self) -> (r: usize)
        requires
            self.wf(),
        ensures
            r == self.payload().len(),
    {
        self.data.len() - 1
    }
}

/// A copy of `v[from..to]`.
pub fn copy_bytes(v: &Vec<u8>, from: usize, to: usize) -> (r: Vec<u8>)
    requires
        from <= to <= v@.len(),
    ensures
        r@ == v@.subrange(from as int, to as int),
{
    let mut out: Vec<u8> = Vec::with_capacity(to - from);
    let mut i: usize = from;
    while i < to
        invariant
            from <= i <= to <= v@.len(),
            out@ == v@.subrange(from as int, i as int),
        decreases to - i,
    {
        out.push(v[i]);
        assert(v@.subrange(from as int, i + 1) =~= v@.subrange(from as int, i as int).push(
            v@[i as int],
        ));
        i = i + 1;
    }
    out
}

/// A view of one row of a WKB store: its payload bytes, read under the
/// store's dialect.
#[derive(Debug, Clone, Copy)]
pub struct Geometry<'a> {
    wkb: &'a WkbBuffer,
    geom_offsets: &'a Vec<usize>,
    geom_index: usize,
    start_offset: usize,
    end_offset: usize,
}

impl<'a> Geometry<'a> {
    pub closed spec fn buf(&self) -> WkbBuffer {
        *self.wkb
    }

    pub closed spec fn offs(&self) -> Seq<usize> {
        self.geom_offsets@
    }

    pub closed spec fn idx(&self) -> int {
        self.geom_index as int
    }

    pub closed spec fn start(&self) -> int {
        self.start_offset as int
    }

    pub closed spec fn end(&self) -> int {
        self.end_offset as int
    }

    pub open spec fn wf(&self) -> bool {
        &&& self.buf().wf()
        &&& offsets_valid(self.offs(), self.buf().payload().len() as int)
        &&& 0 <= self.idx() < self.offs().len() - 1
        &&& self.start() == self.offs()[self.idx()]
        &&& self.end() == self.offs()[self.idx() + 1]
    }

    /// The payload bytes of the row.
    pub open spec fn view(&self) -> Seq<u8> {
        self.buf().payload().subrange(self.start(), self.end())
    }

    /// A view of row `geom_index`, whose payload `geom_offsets` delimits
    /// within the store's payload; fails when there is no such row.
    pub fn try_new(wkb: &'a WkbBuffer, geom_offsets: &'a Vec<usize>, geom_index: usize) -> (r:
        Result<Geometry<'a>, GeoError>)
        requires
            wkb.wf(),
            offsets_valid(geom_offsets@, wkb.payload().len() as int),
        ensures
            r is Ok <==> geom_index + 1 < geom_offsets@.len(),
            r matches Ok(g) ==> g.wf() && g.buf() == *wkb && g.offs() == geom_offsets@ && g.idx()
                == geom_index,
            r matches Err(e) ==> e == GeoError::OutOfRange,
    {
        let (start_offset, end_offset) = compute_start_end_offset(geom_offsets, geom_index)?;
        Ok(Geometry { wkb, geom_offsets, geom_index, start_offset, end_offset })
    }

    /// The store's dialect.
    pub fn dialect(&self) -> (r: Result<WkbDialect, GeoError>)
        requires
            self.wf(),
        ensures
            match dialect_of_tag(self.buf().bytes()[0]) {
                Some(d) => r == Ok::<WkbDialect, GeoError>(d),
                None => r == Err::<WkbDialect, GeoError>(GeoError::UnknownDialect),
            },
    {
        self.wkb.dialect()
    }

    /// The row's payload bytes, sharing the store's bytes.
    pub fn wkb_bytes(&self) -> (r: Bytes)
        requires
            self.wf(),
        ensures
            bytes_of(r) == self.view(),
    {
        proof {
            crate::offsets::lemma_offsets_monotone(
                self.offs(),
                self.buf().payload().len() as int,
                self.idx(),
            );
        }
        let n = self.wkb.data.len();
        assert(self.end() <= n - 1);
        let r = bytes_slice(&self.wkb.data, self.start_offset + 1, self.end_offset + 1);
        assert(bytes_of(r) =~= self.view());
        r
    }
}

/// A column of WKB blobs in one byte store: the dialect tag comes once, at
/// byte zero, and the offsets delimit each row's payload after it. Every
/// payload is checked to parse in that dialect before it is stored, so
/// reading never meets a malformed one.
#[derive(Debug, Clone)]
pub struct WkbArray {
    values: Vec<u8>,
    offsets: Vec<usize>,
    nulls: Option<NullBuffer>,
}

impl WkbArray {
    pub closed spec fn bytes(&self) -> Seq<u8> {
        self.values@
    }

    pub closed spec fn offs(&self) -> Seq<usize> {
        self.offsets@
    }

    pub closed spec fn null_buf(&self) -> Option<NullBuffer> {
        self.nulls
    }

    pub open spec fn spec_len(&self) -> int {
        self.offs().len() - 1
    }

    /// The layout of a store: a tag byte first, offsets valid over the bytes
    /// that leave the tag out, one validity bit per row.
    pub open spec fn layout_ok(values: Seq<u8>, offsets: Seq<usize>, nulls: Option<NullBuffer>) -> bool {
        &&& values.len() >= 1
        &&& offsets_valid(offsets, values.len() as int)
        &&& offsets[0] >= 1
        &&& nulls_valid(nulls, offsets.len() - 1)
    }

    pub open spec fn wf(&self) -> bool {
        &&& Self::layout_ok(self.bytes(), self.offs(), self.null_buf())
        &&& dialect_of_tag(self.bytes()[0]) is Some
        &&& rows_decode(self.rows(), self.bytes()[0])
    }

    /// Each row: its payload bytes, or `None` where the row is null.
    pub open spec fn rows(&self) -> Seq<Option<Seq<u8>>> {
        payload_rows(self.bytes(), self.offs(), self.null_buf())
    }

    /// Checks the store: the layout, then the tag, then every payload.
    pub fn try_new(values: Vec<u8>, offsets: Vec<usize>, nulls: Option<NullBuffer>) -> (r: Result<
        WkbArray,
        GeoError,
    >)
        ensures
            !Self::layout_ok(values@, offsets@, nulls) ==> r == Err::<WkbArray, GeoError>(
                GeoError::MalformedBuffer,
            ),
            Self::layout_ok(values@, offsets@, nulls) && dialect_of_tag(values@[0]) is None ==> r
                == Err::<WkbArray, GeoError>(GeoError::UnknownDialect),
            Self::layout_ok(values@, offsets@, nulls) && dialect_of_tag(values@[0]) is Some
                && !rows_decode(payload_rows(values@, offsets@, nulls), values@[0]) ==> r == Err::<
                WkbArray,
                GeoError,
            >(GeoError::DecodeFailure),
            r is Ok <==> Self::layout_ok(values@, offsets@, nulls) && dialect_of_tag(values@[0]) is Some
                && rows_decode(payload_rows(values@, offsets@, nulls), values@[0]),
            r matches Ok(a) ==> a.wf() && a.bytes() == values@ && a.offs() == offsets@ && a.null_buf()
                == nulls,
    {
        if values.len() == 0 || !check_offsets(&offsets, values.len()) || offsets[0] == 0 {
            return Err(GeoError::MalformedBuffer);
        }
        check_nulls(&nulls, offsets.len() - 1)?;
        let dialect = decode_wkb_dialect(values[0])?;
        let n = offsets.len() - 1;
        let ghost rows = payload_rows(values@, offsets@, nulls);
        let mut i: usize = 0;
        while i < n
            invariant
                i <= n == offsets@.len() - 1,
                Self::layout_ok(values@, offsets@, nulls),
                dialect_tag(dialect) == values@[0],
                rows == payload_rows(values@, offsets@, nulls),
                forall|k: int|
                    0 <= k < i ==> (#[trigger] rows[k] matches Some(b) ==> wkb_decodes(b, values@[0])),
            decreases n - i,
        {
            if is_row_valid(&nulls, i) {
                proof {
                    crate::offsets::lemma_offsets_monotone(offsets@, values@.len() as int, i as int);
                }
                let (start, end) = (offsets[i], offsets[i + 1]);
                if !check_wkb(&values.as_slice()[start..end], dialect) {
                    assert(values@.subrange(start as int, end as int) == rows[i as int]->Some_0);
                    return Err(GeoError::DecodeFailure);
                }
            }
            i = i + 1;
        }
        Ok(WkbArray { values, offsets, nulls })
    }

    /// The number of rows.
    pub fn geom_len(&self) -> (r: usize)
        requires
            self.wf(),
        ensures
            r == self.spec_len(),
    {
        self.offsets.len() - 1
    }

    /// The dialect that the tag byte names.
    pub fn dialect(&self) -> (r: Result<WkbDialect, GeoError>)
        requires
            self.wf(),
        ensures
            r matches Ok(d) && Some(d) == dialect_of_tag(self.bytes()[0]),
    {
        decode_wkb_dialect(self.values[0])
    }

    /// The payload of row `i`; `None` past the end or where the row is null.
    pub fn wkb(&self, i: usize) -> (r: Option<Vec<u8>>)
        requires
            self.wf(),
        ensures
            i >= self.spec_len() ==> r is None,
            i < self.spec_len() ==> match self.rows()[i as int] {
                Some(b) => r matches Some(v) && v@ == b,
                None => r is None,
            },
    {
        if i >= self.geom_len() || !is_row_valid(&self.nulls, i) {
            return None;
        }
        proof {
            crate::offsets::lemma_offsets_monotone(self.offs(), self.bytes().len() as int, i as int);
        }
        Some(copy_bytes(&self.values, self.offsets[i], self.offsets[i + 1]))
    }
}

/// An append-only builder of a WKB array: the tag goes in once, at
/// construction, and each row appends its payload once it has been checked
/// to parse in that dialect.
#[derive(Debug, Clone)]
pub struct GeometryArrayBuilder {
    dialect: WkbDialect,
    values: Vec<u8>,
    offsets: Vec<usize>,
    validity: Vec<bool>,
}

impl GeometryArrayBuilder {
    pub closed spec fn spec_dialect(&self) -> WkbDialect {
        self.dialect
    }

    pub closed spec fn bytes(&self) -> Seq<u8> {
        self.values@
    }

    pub closed spec fn offs(&self) -> Seq<usize> {
        self.offsets@
    }

    pub closed spec fn valid_bits(&self) -> Seq<bool> {
        self.validity@
    }

    pub open spec fn wf(&self) -> bool {
        &&& self.bytes().len() >= 1
        &&& self.bytes()[0] == dialect_tag(self.spec_dialect())
        &&& offsets_valid(self.offs(), self.bytes().len() as int)
        &&& self.offs()[0] == 1
        &&& self.valid_bits().len() == self.offs().len() - 1
        &&& rows_decode(self.rows(), dialect_tag(self.spec_dialect()))
    }

    /// The rows appended so far.
    pub open spec fn rows(&self) -> Seq<Option<Seq<u8>>> {
        rows_of(self.valid_bits(), groups(self.bytes(), self.offs()))
    }

    /// An empty builder for `dialect`, with room for `capacity` rows.
    pub fn new(dialect: WkbDialect, capacity: usize) -> (r: GeometryArrayBuilder)
        ensures
            r.wf(),
            r.spec_dialect() == dialect,
            r.rows() == Seq::<Option<Seq<u8>>>::empty(),
    {
        let mut values: Vec<u8> = Vec::with_capacity(1);
        values.push(wkb_type_id(dialect));
        let mut offsets: Vec<usize> = Vec::with_capacity(1);
        offsets.push(values.len());
        let r = GeometryArrayBuilder {
            dialect,
            values,
            offsets,
            validity: Vec::with_capacity(capacity),
        };
        assert(r.rows() =~= Seq::<Option<Seq<u8>>>::empty());
        r
    }

    /// The dialect whose tag the store begins with.
    pub fn dialect(&self) -> (r: WkbDialect)
        ensures
            r == self.spec_dialect(),
    {
        self.dialect
    }

    /// Appends a row holding `wkb` as its payload, after checking that it
    /// parses in the builder's dialect; `None` appends a null row. A payload
    /// that does not parse is refused and nothing is appended.
    pub fn append_wkb(&mut self, wkb: Option<&[u8]>) -> (r: Result<(), GeoError>)
        requires
            old(self).wf(),
        ensures
            final(self).wf(),
            final(self).spec_dialect() == old(self).spec_dialect(),
            r is Ok <==> (wkb matches Some(b) ==> wkb_decodes(b@, dialect_tag(old(self).spec_dialect()))),
            r is Ok ==> final(self).rows() == old(self).rows().push(
                match wkb {
                    Some(b) => Some(b@),
                    None => None,
                },
            ),
            r is Ok ==> final(self).bytes() == old(self).bytes() + match wkb {
                Some(b) => b@,
                None => Seq::<u8>::empty(),
            },
            r is Ok ==> final(self).offs() == old(self).offs().push(
                (old(self).bytes().len() + match wkb {
                    Some(b) => b@.len(),
                    None => 0,
                }) as usize,
            ),
            r matches Err(e) ==> e == GeoError::DecodeFailure && *final(self) == *old(self),
    {
        match wkb {
            Some(b) => {
                if !check_wkb(b, self.dialect) {
                    return Err(GeoError::DecodeFailure);
                }
                self.internal_append_wkb(b);
            },
            None => {
                self.append_null();
                assert(self.values@ =~= old(self).values@ + Seq::<u8>::empty());
            },
        }
        Ok(())
    }

    fn internal_append_wkb(&mut self, wkb: &[u8])
        requires
            old(self).wf(),
            wkb_decodes(wkb@, dialect_tag(old(self).spec_dialect())),
        ensures
            final(self).wf(),
            final(self).spec_dialect() == old(self).spec_dialect(),
            final(self).rows() == old(self).rows().push(Some(wkb@)),
            final(self).bytes() == old(self).bytes() + wkb@,
            final(self).offs() == old(self).offs().push((old(self).bytes().len() + wkb@.len()) as usize),
    {
        let ghost old_bytes = self.values@;
        let mut i: usize = 0;
        while i < wkb.len()
            invariant
                i <= wkb@.len(),
                self.dialect == old(self).dialect,
                self.offsets == old(self).offsets,
                self.validity == old(self).validity,
                self.values@ == old_bytes + wkb@.subrange(0, i as int),
                old_bytes == old(self).values@,
            decreases wkb@.len() - i,
        {
            self.values.push(wkb[i]);
            assert(old_bytes + wkb@.subrange(0, i + 1) =~= (old_bytes + wkb@.subrange(0, i as int)).push(
                wkb@[i as int],
            ));
            i = i + 1;
        }
        assert(wkb@.subrange(0, i as int) =~= wkb@);
        let end = self.values.len();
        proof {
            lemma_groups_extend_items(old_bytes, wkb@, self.offsets@);
            lemma_groups_push(self.values@, self.offsets@, end);
            lemma_offsets_push(self.offsets@, old_bytes.len() as int, end);
            lemma_rows_push(self.validity@, groups(self.values@, self.offsets@), true, wkb@);
            assert(self.values@.subrange(old_bytes.len() as int, end as int) =~= wkb@);
        }
        self.offsets.push(end);
        self.validity.push(true);
        assert(rows_decode(self.rows(), dialect_tag(self.dialect)));
    }

    /// Appends a null row: the offset repeats, so the row covers no bytes.
    pub fn append_null(&mut self)
        requires
            old(self).wf(),
        ensures
            final(self).wf(),
            final(self).spec_dialect() == old(self).spec_dialect(),
            final(self).rows() == old(self).rows().push(None),
            final(self).offs() == old(self).offs().push(old(self).offs()[old(self).offs().len() - 1]),
            final(self).bytes() == old(self).bytes(),
    {
        let end = self.values.len();
        proof {
            lemma_groups_push(self.values@, self.offsets@, end);
            lemma_offsets_push(self.offsets@, end as int, end);
            lemma_rows_push(
                self.validity@,
                groups(self.values@, self.offsets@),
                false,
                self.values@.subrange(end as int, end as int),
            );
        }
        self.offsets.push(end);
        self.validity.push(false);
        assert(rows_decode(self.rows(), dialect_tag(self.dialect)));
    }

    /// Freezes the builder into an array with the same rows and tag.
    pub fn build(self) -> (r: WkbArray)
        requires
            self.wf(),
        ensures
            r.wf(),
            r.rows() == self.rows(),
            r.bytes()[0] == dialect_tag(self.spec_dialect()),
            r.bytes() == self.bytes(),
            r.offs() == self.offs(),
            r.offs()[0] == 1,
    {
        proof {
            lemma_dialect_round_trip(self.spec_dialect());
        }
        let GeometryArrayBuilder { dialect, values, offsets, validity } = self;
        let arr = WkbArray { values, offsets, nulls: Some(null_buffer_from_bits(validity)) };
        assert(arr.rows() =~= self.rows());
        arr
    }
}

} // verus!
