//! Command codec: length-prefixed string framing, record serialisation, and
//! command decoding.
//!
//! Every string travels on the wire as a 4-byte little-endian length prefix
//! followed by that many bytes of UTF-8. A persisted record is the
//! initialized flag, the 32-byte owner identity, the 22 string fields in a
//! fixed order, the status byte, and the 8-byte little-endian creation
//! timestamp.

use vstd::prelude::*;

verus! {

use crate::error::TitleRegError;
use vstd::bytes::{
    lemma_auto_spec_u32_to_from_le_bytes,
    spec_u32_from_le_bytes,
    spec_u32_to_le_bytes,
    spec_u64_to_le_bytes,
    u32_from_le_bytes,
    u32_to_le_bytes,
    u64_to_le_bytes,
};
use vstd::slice::{slice_index_get, slice_subrange, slice_to_vec};
use vstd::utf8::{
    decode_utf8,
    decode_utf8_encode_utf8,
    encode_utf8,
    encode_utf8_decode_utf8,
    encode_utf8_valid_utf8,
    valid_utf8,
};

/// The wire form of one string field: the little-endian length of the UTF-8
/// bytes of `s`, then those bytes.
pub open spec fn encode_string(s: Seq<char>) -> Seq<u8> {
    spec_u32_to_le_bytes(encode_utf8(s).len() as u32) + encode_utf8(s)
}

/// True when the UTF-8 form of `s` fits behind a 4-byte length prefix.
pub open spec fn string_fits(s: Seq<char>) -> bool {
    encode_utf8(s).len() <= u32::MAX
}

/// What decoding one string from the front of `input` yields: the character
/// sequence and the offset just past it, or the exact failure.
pub open spec fn spec_unpack_string(input: Seq<u8>) -> Result<(Seq<char>, int), TitleRegError> {
    if input.len() < 4 {
        Err(TitleRegError::TruncatedInput)
    } else {
        let n: int = spec_u32_from_le_bytes(input.subrange(0, 4)) as int;
        if input.len() < 4 + n {
            Err(TitleRegError::TruncatedInput)
        } else if valid_utf8(input.subrange(4, 4 + n)) {
            Ok((decode_utf8(input.subrange(4, 4 + n)), 4 + n))
        } else {
            Err(TitleRegError::InvalidEncoding)
        }
    }
}

/// Relies on `String::from_utf8`: it succeeds exactly when the bytes are
/// valid UTF-8, and then returns the string whose characters are their
/// decoding.
#[verifier::external_body]
fn bytes_to_string(bytes: Vec<u8>) -> (r: Option<String>)
    ensures
        r is Some <==> valid_utf8(bytes@),
        r is Some ==> r.unwrap()@ == decode_utf8(bytes@),
{
    String::from_utf8(bytes).ok()
}

/// Appends every byte of `bytes` to `data`.
pub(crate) fn push_bytes(data: &mut Vec<u8>, bytes: &[u8])
    ensures
        final(data)@ == old(data)@ + bytes@,
{
    let n: usize = bytes.len();
    let mut i: usize = 0;
    while i < n
        invariant
            n == bytes@.len(),
            i <= n,
            data@ == old(data)@ + bytes@.take(i as int),
        decreases n - i,
    {
        let b: u8 = *slice_index_get(bytes, i);
        data.push(b);
        proof {
            assert(old(data)@ + bytes@.take(i as int) + seq![bytes@[i as int]] =~= old(
                data,
            )@ + bytes@.take(i + 1 as int));
        }
        i = i + 1;
    }
    proof {
        assert(bytes@.take(n as int) =~= bytes@);
    }
}

/// Appends the wire form of `string` to `data`: its 4-byte little-endian
/// UTF-8 length, then its UTF-8 bytes.
pub fn pack_string(data: &mut Vec<u8>, string: &str)
    requires
        string_fits(string@),
    ensures
        final(data)@ == old(data)@ + encode_string(string@),
{
    let bytes: &[u8] = string.as_bytes();
    let len_prefix = u32_to_le_bytes(bytes.len() as u32);
    push_bytes(data, len_prefix.as_slice());
    push_bytes(data, bytes);
    proof {
        assert(data@ =~= old(data)@ + encode_string(string@));
    }
}

/// Decodes one string from the front of `input`. On success returns the
/// string and the offset just past it (its length prefix plus its UTF-8
/// bytes); trailing bytes are left alone.
pub fn unpack_string(input: &[u8]) -> (r: Result<(String, usize), TitleRegError>)
    ensures
        match r {
            Ok(p) => {
                &&& spec_unpack_string(input@) == Ok::<(Seq<char>, int), TitleRegError>(
                    (p.0@, p.1 as int),
                )
                &&& 4 <= p.1 <= input@.len()
                &&& input@.subrange(0, p.1 as int) == encode_string(p.0@)
                &&& p.1 == 4 + encode_utf8(p.0@).len()
                &&& string_fits(p.0@)
            },
            Err(e) => spec_unpack_string(input@) == Err::<(Seq<char>, int), TitleRegError>(e),
        },
{
    if input.len() < 4 {
        return Err(TitleRegError::TruncatedInput);
    }
    let len_prefix = slice_subrange(input, 0, 4);
    let n: usize = u32_from_le_bytes(len_prefix) as usize;
    if input.len() - 4 < n {
        return Err(TitleRegError::TruncatedInput);
    }
    let payload = slice_subrange(input, 4, 4 + n);
    let bytes = slice_to_vec(payload);
    match bytes_to_string(bytes) {
        Some(s) => {
            proof {
                let pay = input@.subrange(4, 4 + n as int);
                decode_utf8_encode_utf8(pay);
                lemma_auto_spec_u32_to_from_le_bytes();
                assert(input@.subrange(0, 4 + n as int) =~= input@.subrange(0, 4)
                    + input@.subrange(4, 4 + n as int));
            }
            Ok((s, 4 + n))
        },
        None => Err(TitleRegError::InvalidEncoding),
    }
}

/// Round trip: a packed string decodes back to itself, whatever bytes
/// follow it, and decoding stops exactly at the length prefix plus the
/// string's UTF-8 length.
pub proof fn lemma_string_round_trip(s: Seq<char>, tail: Seq<u8>)
    ensures
        string_fits(s) ==> spec_unpack_string(encode_string(s) + tail) == Ok::<
            (Seq<char>, int),
            TitleRegError,
        >((s, 4 + encode_utf8(s).len() as int)),
{
    if string_fits(s) {
        let u = encode_utf8(s);
        let b = encode_string(s) + tail;
        lemma_auto_spec_u32_to_from_le_bytes();
        assert(b.subrange(0, 4) =~= spec_u32_to_le_bytes(u.len() as u32));
        assert(b.subrange(4, 4 + u.len() as int) =~= u);
        encode_utf8_valid_utf8(s);
        encode_utf8_decode_utf8(s);
    }
}

/// A buffer shorter than 4 bytes, or shorter than its declared length
/// prefix, never decodes as a string: it is rejected as truncated.
pub proof fn lemma_unpack_string_truncated(input: Seq<u8>)
    ensures
        input.len() < 4 ==> spec_unpack_string(input) == Err::<(Seq<char>, int), TitleRegError>(
            TitleRegError::TruncatedInput,
        ),
        input.len() >= 4 && input.len() < 4 + spec_u32_from_le_bytes(input.subrange(0, 4))
            ==> spec_unpack_string(input) == Err::<(Seq<char>, int), TitleRegError>(
            TitleRegError::TruncatedInput,
        ),
{
}

/// A length prefix that points at bytes which are not valid UTF-8 never
/// decodes as a string: it is rejected as an invalid encoding.
pub proof fn lemma_unpack_string_invalid_utf8(input: Seq<u8>)
    ensures
        ({
            let n: int = spec_u32_from_le_bytes(input.subrange(0, 4)) as int;
            input.len() >= 4 && input.len() >= 4 + n && !valid_utf8(input.subrange(4, 4 + n))
                ==> spec_unpack_string(input) == Err::<(Seq<char>, int), TitleRegError>(
                TitleRegError::InvalidEncoding,
            )
        }),
{
}

/// The descriptive payload of a land-title registration: 22 strings in the
/// order they are persisted.
pub struct RegistrationFields {
    pub registration_id: String,
    pub survey_number: String,
    pub plot_number: String,
    pub village: String,
    pub taluka: String,
    pub district: String,
    pub state: String,
    pub pincode: String,
    pub property_type: String,
    pub area: String,
    pub area_unit: String,
    pub transaction_type: String,
    pub consideration_amount: String,
    pub stamp_duty: String,
    pub registration_fee: String,
    pub sale_agreement_date: String,
    pub seller_name: String,
    pub seller_father_name: String,
    pub buyer_name: String,
    pub buyer_father_name: String,
    pub documents_ipfs_hash: String,
    pub photos_ipfs_hash: String,
}

/// The mathematical model of [`RegistrationFields`]: each field as its
/// character sequence.
pub struct RegistrationFieldsView {
    pub registration_id: Seq<char>,
    pub survey_number: Seq<char>,
    pub plot_number: Seq<char>,
    pub village: Seq<char>,
    pub taluka: Seq<char>,
    pub district: Seq<char>,
    pub state: Seq<char>,
    pub pincode: Seq<char>,
    pub property_type: Seq<char>,
    pub area: Seq<char>,
    pub area_unit: Seq<char>,
    pub transaction_type: Seq<char>,
    pub consideration_amount: Seq<char>,
    pub stamp_duty: Seq<char>,
    pub registration_fee: Seq<char>,
    pub sale_agreement_date: Seq<char>,
    pub seller_name: Seq<char>,
    pub seller_father_name: Seq<char>,
    pub buyer_name: Seq<char>,
    pub buyer_father_name: Seq<char>,
    pub documents_ipfs_hash: Seq<char>,
    pub photos_ipfs_hash: Seq<char>,
}

impl View for RegistrationFields {
    type V = RegistrationFieldsView;

    open spec fn view(&self) -> RegistrationFieldsView {
        RegistrationFieldsView {
            registration_id: self.registration_id@,
            survey_number: self.survey_number@,
            plot_number: self.plot_number@,
            village: self.village@,
            taluka: self.taluka@,
            district: self.district@,
            state: self.state@,
            pincode: self.pincode@,
            property_type: self.property_type@,
            area: self.area@,
            area_unit: self.area_unit@,
            transaction_type: self.transaction_type@,
            consideration_amount: self.consideration_amount@,
            stamp_duty: self.stamp_duty@,
            registration_fee: self.registration_fee@,
            sale_agreement_date: self.sale_agreement_date@,
            seller_name: self.seller_name@,
            seller_father_name: self.seller_father_name@,
            buyer_name: self.buyer_name@,
            buyer_father_name: self.buyer_father_name@,
            documents_ipfs_hash: self.documents_ipfs_hash@,
            photos_ipfs_hash: self.photos_ipfs_hash@,
        }
    }
}

/// The fields rebuilt from their persisted order.
pub open spec fn fields_of_list(ss: Seq<Seq<char>>) -> RegistrationFieldsView
    recommends
        ss.len() == 22,
{
    RegistrationFieldsView {
        registration_id: ss[0],
        survey_number: ss[1],
        plot_number: ss[2],
        village: ss[3],
        taluka: ss[4],
        district: ss[5],
        state: ss[6],
        pincode: ss[7],
        property_type: ss[8],
        area: ss[9],
        area_unit: ss[10],
        transaction_type: ss[11],
        consideration_amount: ss[12],
        stamp_duty: ss[13],
        registration_fee: ss[14],
        sale_agreement_date: ss[15],
        seller_name: ss[16],
        seller_father_name: ss[17],
        buyer_name: ss[18],
        buyer_father_name: ss[19],
        documents_ipfs_hash: ss[20],
        photos_ipfs_hash: ss[21],
    }
}

/// True when every field's UTF-8 form fits behind its 4-byte length prefix.
pub open spec fn fields_fit(f: RegistrationFieldsView) -> bool {
    &&& string_fits(f.registration_id)
    &&& string_fits(f.survey_number)
    &&& string_fits(f.plot_number)
    &&& string_fits(f.village)
    &&& string_fits(f.taluka)
    &&& string_fits(f.district)
    &&& string_fits(f.state)
    &&& string_fits(f.pincode)
    &&& string_fits(f.property_type)
    &&& string_fits(f.area)
    &&& string_fits(f.area_unit)
    &&& string_fits(f.transaction_type)
    &&& string_fits(f.consideration_amount)
    &&& string_fits(f.stamp_duty)
    &&& string_fits(f.registration_fee)
    &&& string_fits(f.sale_agreement_date)
    &&& string_fits(f.seller_name)
    &&& string_fits(f.seller_father_name)
    &&& string_fits(f.buyer_name)
    &&& string_fits(f.buyer_father_name)
    &&& string_fits(f.documents_ipfs_hash)
    &&& string_fits(f.photos_ipfs_hash)
}

/// The unsigned bit pattern of a signed 64-bit value: its two's complement.
pub open spec fn i64_bits(x: i64) -> u64 {
    (if x >= 0 {
        x as int
    } else {
        x as int + 0x1_0000_0000_0000_0000
    }) as u64
}

/// The 8 little-endian bytes of a signed 64-bit value.
pub fn i64_to_le_bytes(x: i64) -> (r: Vec<u8>)
    ensures
        r@ == spec_u64_to_le_bytes(i64_bits(x)),
        r@.len() == 8,
{
    let bits: u64 = if x >= 0 {
        x as u64
    } else {
        ((x as i128) + 0x1_0000_0000_0000_0000i128) as u64
    };
    u64_to_le_bytes(bits)
}

/// The persisted byte layout of a whole record: initialized flag 1, the
/// 32-byte owner identity, the 22 string fields, status 0, and the 8-byte
/// little-endian creation timestamp.
pub open spec fn spec_encode_record(owner: Seq<u8>, f: RegistrationFieldsView, created_at: i64) -> Seq<u8> {
    (Seq::<u8>::empty().push(1u8) + owner + encode_string(f.registration_id) + encode_string(
        f.survey_number,
    ) + encode_string(f.plot_number) + encode_string(f.village) + encode_string(f.taluka)
        + encode_string(f.district) + encode_string(f.state) + encode_string(f.pincode)
        + encode_string(f.property_type) + encode_string(f.area) + encode_string(f.area_unit)
        + encode_string(f.transaction_type) + encode_string(f.consideration_amount)
        + encode_string(f.stamp_duty) + encode_string(f.registration_fee) + encode_string(
        f.sale_agreement_date,
    ) + encode_string(f.seller_name) + encode_string(f.seller_father_name) + encode_string(
        f.buyer_name,
    ) + encode_string(f.buyer_father_name) + encode_string(f.documents_ipfs_hash) + encode_string(
        f.photos_ipfs_hash,
    )).push(0u8) + spec_u64_to_le_bytes(i64_bits(created_at))
}

/// Serialises a record into its persisted byte layout, with `owner` as the
/// stored identity, status 0, and `created_at` as the creation timestamp.
pub fn encode_record(owner: &[u8; 32], fields: &RegistrationFields, created_at: i64) -> (r: Vec<
    u8,
>)
    requires
        fields_fit(fields@),
    ensures
        r@ == spec_encode_record(owner@, fields@, created_at),
{
    let mut data: Vec<u8> = Vec::new();
    data.push(1u8);
    push_bytes(&mut data, owner.as_slice());
    pack_string(&mut data, fields.registration_id.as_str());
    pack_string(&mut data, fields.survey_number.as_str());
    pack_string(&mut data, fields.plot_number.as_str());
    pack_string(&mut data, fields.village.as_str());
    pack_string(&mut data, fields.taluka.as_str());
    pack_string(&mut data, fields.district.as_str());
    pack_string(&mut data, fields.state.as_str());
    pack_string(&mut data, fields.pincode.as_str());
    pack_string(&mut data, fields.property_type.as_str());
    pack_string(&mut data, fields.area.as_str());
    pack_string(&mut data, fields.area_unit.as_str());
    pack_string(&mut data, fields.transaction_type.as_str());
    pack_string(&mut data, fields.consideration_amount.as_str());
    pack_string(&mut data, fields.stamp_duty.as_str());
    pack_string(&mut data, fields.registration_fee.as_str());
    pack_string(&mut data, fields.sale_agreement_date.as_str());
    pack_string(&mut data, fields.seller_name.as_str());
    pack_string(&mut data, fields.seller_father_name.as_str());
    pack_string(&mut data, fields.buyer_name.as_str());
    pack_string(&mut data, fields.buyer_father_name.as_str());
    pack_string(&mut data, fields.documents_ipfs_hash.as_str());
    pack_string(&mut data, fields.photos_ipfs_hash.as_str());
    data.push(0u8);
    let ts_bytes = i64_to_le_bytes(created_at);
    push_bytes(&mut data, ts_bytes.as_slice());
    data
}

/// A decoded command, as the dispatcher hands it to the authority engine.
pub enum TitleRegInstruction {
    /// Create a record from the 22 descriptive fields.
    InitializeRegistration { fields: RegistrationFields },
    /// Record a new status value.
    UpdateStatus { status: u8 },
    /// Replace the documents content pointer.
    UpdateDocumentsCid { cid: String },
    /// Replace the photos content pointer.
    UpdatePhotosCid { cid: String },
}

/// The mathematical model of [`TitleRegInstruction`].
pub enum CommandView {
    InitializeRegistration { fields: RegistrationFieldsView },
    UpdateStatus { status: u8 },
    UpdateDocumentsCid { cid: Seq<char> },
    UpdatePhotosCid { cid: Seq<char> },
}

impl View for TitleRegInstruction {
    type V = CommandView;

    open spec fn view(&self) -> CommandView {
        match self {
            TitleRegInstruction::InitializeRegistration { fields } => {
                CommandView::InitializeRegistration { fields: fields@ }
            },
            TitleRegInstruction::UpdateStatus { status } => {
                CommandView::UpdateStatus { status: *status }
            },
            TitleRegInstruction::UpdateDocumentsCid { cid } => {
                CommandView::UpdateDocumentsCid { cid: cid@ }
            },
            TitleRegInstruction::UpdatePhotosCid { cid } => {
                CommandView::UpdatePhotosCid { cid: cid@ }
            },
        }
    }
}

/// What decoding `count` consecutive strings from the front of `input`
/// yields: the strings in order and the offset just past the last one, or
/// the failure of the first string that does not decode.
pub open spec fn spec_unpack_strings(input: Seq<u8>, count: nat) -> Result<
    (Seq<Seq<char>>, int),
    TitleRegError,
>
    decreases count,
{
    if count == 0 {
        Ok((Seq::empty(), 0))
    } else {
        match spec_unpack_string(input) {
            Err(e) => Err(e),
            Ok(p) => match spec_unpack_strings(input.skip(p.1), (count - 1) as nat) {
                Err(e) => Err(e),
                Ok(q) => Ok((seq![p.0] + q.0, p.1 + q.1)),
            },
        }
    }
}

/// A partial decode already consumed `prefix` and `used` bytes; `rest` is
/// what decoding the remaining strings yields. Together: the whole decode.
spec fn glue_unpacked(
    prefix: Seq<Seq<char>>,
    used: int,
    rest: Result<(Seq<Seq<char>>, int), TitleRegError>,
) -> Result<(Seq<Seq<char>>, int), TitleRegError> {
    match rest {
        Err(e) => Err(e),
        Ok(q) => Ok((prefix + q.0, used + q.1)),
    }
}

/// Decodes `count` consecutive strings from the front of `input`. On
/// success returns them in order with the offset just past the last one.
pub fn unpack_string_list(input: &[u8], count: usize) -> (r: Result<
    (Vec<String>, usize),
    TitleRegError,
>)
    ensures
        match r {
            Ok(p) => {
                &&& spec_unpack_strings(input@, count as nat) == Ok::<
                    (Seq<Seq<char>>, int),
                    TitleRegError,
                >((p.0.deep_view(), p.1 as int))
                &&& p.0@.len() == count
                &&& p.1 <= input@.len()
                &&& forall|j: int|
                    0 <= j < count ==> string_fits(#[trigger] p.0.deep_view()[j])
            },
            Err(e) => spec_unpack_strings(input@, count as nat) == Err::<
                (Seq<Seq<char>>, int),
                TitleRegError,
            >(e),
        },
{
    let total: usize = input.len();
    let mut rest: &[u8] = input;
    let mut consumed: usize = 0;
    let mut out: Vec<String> = Vec::new();
    let mut i: usize = 0;
    proof {
        assert(glue_unpacked(
            out.deep_view(),
            consumed as int,
            spec_unpack_strings(rest@, (count - i) as nat),
        ) == spec_unpack_strings(input@, count as nat)) by {
            match spec_unpack_strings(input@, count as nat) {
                Ok(q) => {
                    assert(out.deep_view() + q.0 =~= q.0);
                },
                Err(_) => {},
            }
        }
    }
    while i < count
        invariant
            i <= count,
            out@.len() == i,
            total == input@.len(),
            consumed <= input@.len(),
            rest@ == input@.skip(consumed as int),
            forall|j: int| 0 <= j < i ==> string_fits(#[trigger] out.deep_view()[j]),
            glue_unpacked(
                out.deep_view(),
                consumed as int,
                spec_unpack_strings(rest@, (count - i) as nat),
            ) == spec_unpack_strings(input@, count as nat),
        decreases count - i,
    {
        let ghost rest_old = rest@;
        let ghost out_old = out.deep_view();
        let ghost m: nat = (count - i) as nat;
        match unpack_string(rest) {
            Err(e) => {
                proof {
                    assert(spec_unpack_strings(rest_old, m) == Err::<
                        (Seq<Seq<char>>, int),
                        TitleRegError,
                    >(e));
                }
                return Err(e);
            },
            Ok(so) => {
                let s: String = so.0;
                let off: usize = so.1;
                proof {
                    assert(consumed + off <= total);
                }
                let new_rest = slice_subrange(rest, off, rest.len());
                rest = new_rest;
                consumed = consumed + off;
                out.push(s);
                i = i + 1;
                proof {
                    assert(rest@ =~= input@.skip(consumed as int));
                    assert(out.deep_view() =~= out_old.push(s@));
                    let step = spec_unpack_strings(rest_old, m);
                    let tail = spec_unpack_strings(rest@, (count - i) as nat);
                    match tail {
                        Err(_) => {},
                        Ok(q) => {
                            assert(step == Ok::<(Seq<Seq<char>>, int), TitleRegError>(
                                (seq![s@] + q.0, off + q.1),
                            ));
                            assert(out_old + (seq![s@] + q.0) =~= out.deep_view() + q.0);
                        },
                    }
                }
            },
        }
    }
    proof {
        assert(spec_unpack_strings(rest@, 0) == Ok::<(Seq<Seq<char>>, int), TitleRegError>(
            (Seq::empty(), 0),
        ));
        match spec_unpack_strings(input@, count as nat) {
            Ok(q) => {
                assert(out.deep_view() + Seq::<Seq<char>>::empty() =~= out.deep_view());
            },
            Err(_) => {},
        }
    }
    Ok((out, consumed))
}

/// What decoding a whole command buffer yields. Byte 0 selects the command;
/// the rest of the buffer is its payload, and bytes past the payload are
/// ignored.
pub open spec fn spec_unpack(input: Seq<u8>) -> Result<CommandView, TitleRegError> {
    if input.len() < 1 {
        Err(TitleRegError::TruncatedInput)
    } else {
        let tag: u8 = input[0];
        let rest = input.skip(1);
        if tag == 0 {
            match spec_unpack_strings(rest, 22) {
                Err(e) => Err(e),
                Ok(p) => Ok(CommandView::InitializeRegistration { fields: fields_of_list(p.0) }),
            }
        } else if tag == 1 {
            if rest.len() < 1 {
                Err(TitleRegError::TruncatedInput)
            } else {
                Ok(CommandView::UpdateStatus { status: rest[0] })
            }
        } else if tag == 2 {
            match spec_unpack_string(rest) {
                Err(e) => Err(e),
                Ok(p) => Ok(CommandView::UpdateDocumentsCid { cid: p.0 }),
            }
        } else if tag == 3 {
            match spec_unpack_string(rest) {
                Err(e) => Err(e),
                Ok(p) => Ok(CommandView::UpdatePhotosCid { cid: p.0 }),
            }
        } else {
            Err(TitleRegError::UnknownCommand)
        }
    }
}

impl TitleRegInstruction {
    /// Decodes a raw command buffer into a typed command, or reports the
    /// exact malformation.
    pub fn unpack(input: &[u8]) -> (r: Result<TitleRegInstruction, TitleRegError>)
        ensures
            match r {
                Ok(cmd) => {
                    &&& spec_unpack(input@) == Ok::<CommandView, TitleRegError>(cmd@)
                    &&& (cmd@ matches CommandView::InitializeRegistration { fields }
                        ==> fields_fit(fields))
                    &&& (cmd@ matches CommandView::UpdateDocumentsCid { cid } ==> string_fits(cid))
                    &&& (cmd@ matches CommandView::UpdatePhotosCid { cid } ==> string_fits(cid))
                },
                Err(e) => spec_unpack(input@) == Err::<CommandView, TitleRegError>(e),
            },
    {
        if input.len() < 1 {
            return Err(TitleRegError::TruncatedInput);
        }
        let tag: u8 = *slice_index_get(input, 0);
        let rest = slice_subrange(input, 1, input.len());
        if tag == 0 {
            match unpack_string_list(rest, 22) {
                Err(e) => Err(e),
                Ok(p) => {
                    let ss = p.0;
                    let fields = RegistrationFields {
                        registration_id: ss[0].clone(),
                        survey_number: ss[1].clone(),
                        plot_number: ss[2].clone(),
                        village: ss[3].clone(),
                        taluka: ss[4].clone(),
                        district: ss[5].clone(),
                        state: ss[6].clone(),
                        pincode: ss[7].clone(),
                        property_type: ss[8].clone(),
                        area: ss[9].clone(),
                        area_unit: ss[10].clone(),
                        transaction_type: ss[11].clone(),
                        consideration_amount: ss[12].clone(),
                        stamp_duty: ss[13].clone(),
                        registration_fee: ss[14].clone(),
                        sale_agreement_date: ss[15].clone(),
                        seller_name: ss[16].clone(),
                        seller_father_name: ss[17].clone(),
                        buyer_name: ss[18].clone(),
                        buyer_father_name: ss[19].clone(),
                        documents_ipfs_hash: ss[20].clone(),
                        photos_ipfs_hash: ss[21].clone(),
                    };
                    proof {
                        assert(fields@ == fields_of_list(ss.deep_view()));
                    }
                    Ok(TitleRegInstruction::InitializeRegistration { fields })
                },
            }
        } else if tag == 1 {
            if rest.len() < 1 {
                return Err(TitleRegError::TruncatedInput);
            }
            let status: u8 = *slice_index_get(rest, 0);
            Ok(TitleRegInstruction::UpdateStatus { status })
        } else if tag == 2 {
            match unpack_string(rest) {
                Err(e) => Err(e),
                Ok(p) => Ok(TitleRegInstruction::UpdateDocumentsCid { cid: p.0 }),
            }
        } else if tag == 3 {
            match unpack_string(rest) {
                Err(e) => Err(e),
                Ok(p) => Ok(TitleRegInstruction::UpdatePhotosCid { cid: p.0 }),
            }
        } else {
            Err(TitleRegError::UnknownCommand)
        }
    }
}

} // verus!
