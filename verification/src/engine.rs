//! Record authority engine: decides, from a storage slot's bytes, the
//! caller's identity and whether the caller signed, what each command may
//! do, and computes the new slot contents.
//!
//! The slot layout is the record encoding of [`crate::codec`]: byte 0 is
//! the initialized flag, bytes 1..33 the stored owner identity, then the
//! 22 length-prefixed string fields, the status byte, and the 8-byte
//! creation timestamp. The mutation commands locate the byte they change
//! by walking the length prefixes; a slot whose record is cut short is
//! reported as truncated.

use vstd::prelude::*;

verus! {

use crate::codec::{
    encode_record,
    encode_string,
    fields_fit,
    pack_string,
    push_bytes,
    spec_encode_record,
    spec_unpack,
    string_fits,
    CommandView,
    RegistrationFields,
    RegistrationFieldsView,
    TitleRegInstruction,
};
use crate::error::TitleRegError;
use vstd::bytes::{spec_u32_from_le_bytes, u32_from_le_bytes};
use vstd::slice::slice_subrange;

/// The shared gate of the three mutation commands: the caller must have
/// signed, the slot must hold an initialized record, and the caller must
/// be the stored owner — checked in that order. A slot too short to hold
/// the flag byte or the owner identity is reported as truncated.
pub open spec fn spec_check_auth(slot: Seq<u8>, caller: Seq<u8>, caller_signed: bool) -> Result<
    (),
    TitleRegError,
> {
    if !caller_signed {
        Err(TitleRegError::MissingSignature)
    } else if slot.len() < 1 {
        Err(TitleRegError::TruncatedInput)
    } else if slot[0] == 0 {
        Err(TitleRegError::NotInitialized)
    } else if slot.len() < 33 {
        Err(TitleRegError::TruncatedInput)
    } else if slot.subrange(1, 33) != caller {
        Err(TitleRegError::Unauthorized)
    } else {
        Ok(())
    }
}

/// The offset just past `count` length-prefixed fields starting at `from`,
/// or nothing when a prefix or payload runs past the end of the slot.
pub open spec fn spec_skip_fields(slot: Seq<u8>, from: int, count: nat) -> Option<int>
    decreases count,
{
    if count == 0 {
        Some(from)
    } else if from + 4 > slot.len() {
        None
    } else {
        let n: int = spec_u32_from_le_bytes(slot.subrange(from, from + 4)) as int;
        if from + 4 + n > slot.len() {
            None
        } else {
            spec_skip_fields(slot, from + 4 + n, (count - 1) as nat)
        }
    }
}

/// The offset of the record's status byte: just past the owner identity
/// and the 22 string fields, with room for the status byte and the
/// timestamp behind it.
pub open spec fn spec_status_offset(slot: Seq<u8>) -> Option<int> {
    match spec_skip_fields(slot, 33, 22) {
        None => None,
        Some(off) => if off + 9 <= slot.len() {
            Some(off)
        } else {
            None
        },
    }
}

/// The slot after the record's pointer field number `idx` (20 for
/// documents, 21 for photos) is replaced by `cid`: the bytes before the
/// field, the new field's wire form, then the rest of the record shifted
/// to follow it, with the bytes past the rewritten record kept as they
/// were. Fails as truncated when the record is cut short, and as too small
/// when the rewritten record no longer fits the slot.
pub open spec fn spec_replace_pointer(slot: Seq<u8>, idx: nat, cid: Seq<char>) -> Result<
    Seq<u8>,
    TitleRegError,
>
    recommends
        idx == 20 || idx == 21,
{
    match spec_skip_fields(slot, 33, idx) {
        None => Err(TitleRegError::TruncatedInput),
        Some(fstart) => match spec_skip_fields(slot, fstart, 1) {
            None => Err(TitleRegError::TruncatedInput),
            Some(fend) => match spec_skip_fields(slot, fend, (21 - idx) as nat) {
                None => Err(TitleRegError::TruncatedInput),
                Some(soff) => if soff + 9 > slot.len() {
                    Err(TitleRegError::TruncatedInput)
                } else {
                    let rewritten = slot.subrange(0, fstart) + encode_string(cid) + slot.subrange(
                        fend,
                        soff + 9,
                    );
                    if rewritten.len() > slot.len() {
                        Err(TitleRegError::SlotTooSmall)
                    } else {
                        Ok(rewritten + slot.skip(rewritten.len() as int))
                    }
                },
            },
        },
    }
}

/// What record creation does to the slot: the record encoding written over
/// the low-order bytes, the rest untouched; `MissingSignature` without the
/// caller's signature, `SlotTooSmall` when the encoding does not fit.
pub open spec fn spec_create(
    slot: Seq<u8>,
    caller: Seq<u8>,
    caller_signed: bool,
    fields: RegistrationFieldsView,
    now: i64,
) -> Result<Seq<u8>, TitleRegError> {
    if !caller_signed {
        Err(TitleRegError::MissingSignature)
    } else {
        let encoded = spec_encode_record(caller, fields, now);
        if encoded.len() > slot.len() {
            Err(TitleRegError::SlotTooSmall)
        } else {
            Ok(encoded + slot.skip(encoded.len() as int))
        }
    }
}

/// What the status command does to the slot: after the authority gate, the
/// status byte is overwritten and every other byte keeps its value.
pub open spec fn spec_update_status(
    slot: Seq<u8>,
    caller: Seq<u8>,
    caller_signed: bool,
    status: u8,
) -> Result<Seq<u8>, TitleRegError> {
    match spec_check_auth(slot, caller, caller_signed) {
        Err(e) => Err(e),
        Ok(()) => match spec_status_offset(slot) {
            None => Err(TitleRegError::TruncatedInput),
            Some(off) => Ok(slot.update(off, status)),
        },
    }
}

/// What a pointer command does to the slot: after the authority gate, the
/// pointer field `idx` is replaced by `cid` as [`spec_replace_pointer`]
/// says.
pub open spec fn spec_update_pointer(
    slot: Seq<u8>,
    caller: Seq<u8>,
    caller_signed: bool,
    idx: nat,
    cid: Seq<char>,
) -> Result<Seq<u8>, TitleRegError> {
    match spec_check_auth(slot, caller, caller_signed) {
        Err(e) => Err(e),
        Ok(()) => spec_replace_pointer(slot, idx, cid),
    }
}

/// Compares the stored owner identity, the 32 bytes at slot offset 1,
/// against the caller's identity.
fn owner_matches(slot: &Vec<u8>, caller: &[u8; 32]) -> (b: bool)
    requires
        slot@.len() >= 33,
    ensures
        b == (slot@.subrange(1, 33) == caller@),
{
    let mut i: usize = 0;
    while i < 32
        invariant
            i <= 32,
            slot@.len() >= 33,
            forall|j: int| 0 <= j < i ==> slot@[1 + j] == caller@[j],
        decreases 32 - i,
    {
        if slot[1 + i] != caller[i] {
            proof {
                assert(slot@.subrange(1, 33)[i as int] != caller@[i as int]);
            }
            return false;
        }
        i = i + 1;
    }
    proof {
        assert(slot@.subrange(1, 33) =~= caller@);
    }
    true
}

/// Runs the shared authority gate of the mutation commands against the
/// slot as it stands.
fn check_auth(slot: &Vec<u8>, caller: &[u8; 32], caller_signed: bool) -> (r: Result<
    (),
    TitleRegError,
>)
    ensures
        r == spec_check_auth(slot@, caller@, caller_signed),
{
    if !caller_signed {
        return Err(TitleRegError::MissingSignature);
    }
    if slot.len() < 1 {
        return Err(TitleRegError::TruncatedInput);
    }
    if slot[0] == 0 {
        return Err(TitleRegError::NotInitialized);
    }
    if slot.len() < 33 {
        return Err(TitleRegError::TruncatedInput);
    }
    if !owner_matches(slot, caller) {
        return Err(TitleRegError::Unauthorized);
    }
    Ok(())
}

/// Walks `count` length-prefixed fields starting at `from` and returns the
/// offset just past them, as [`spec_skip_fields`] says.
fn skip_fields(slot: &Vec<u8>, from: usize, count: usize) -> (r: Option<usize>)
    requires
        from <= slot@.len(),
    ensures
        match r {
            Some(off) => spec_skip_fields(slot@, from as int, count as nat) == Some(off as int)
                && from <= off <= slot@.len(),
            None => spec_skip_fields(slot@, from as int, count as nat) is None,
        },
{
    let len: usize = slot.len();
    let mut cur: usize = from;
    let mut k: usize = 0;
    while k < count
        invariant
            k <= count,
            from <= cur <= len,
            len == slot@.len(),
            spec_skip_fields(slot@, from as int, count as nat) == spec_skip_fields(
                slot@,
                cur as int,
                (count - k) as nat,
            ),
        decreases count - k,
    {
        if len - cur < 4 {
            return None;
        }
        let prefix = slice_subrange(slot.as_slice(), cur, cur + 4);
        let n: usize = u32_from_le_bytes(prefix) as usize;
        if len - (cur + 4) < n {
            return None;
        }
        cur = cur + 4 + n;
        k = k + 1;
    }
    Some(cur)
}

/// Overwrites the low-order bytes of the slot with `data`, leaving the
/// bytes behind them as they were.
fn write_prefix(slot: &mut Vec<u8>, data: &Vec<u8>)
    requires
        data@.len() <= old(slot)@.len(),
    ensures
        final(slot)@.len() == old(slot)@.len(),
        final(slot)@ == data@ + old(slot)@.skip(data@.len() as int),
{
    let n: usize = data.len();
    let mut i: usize = 0;
    while i < n
        invariant
            i <= n,
            n == data@.len(),
            n <= slot@.len(),
            slot@.len() == old(slot)@.len(),
            slot@ == data@.take(i as int) + old(slot)@.skip(i as int),
        decreases n - i,
    {
        let b: u8 = data[i];
        slot.set(i, b);
        proof {
            assert(slot@ =~= data@.take(i + 1 as int) + old(slot)@.skip(i + 1 as int));
        }
        i = i + 1;
    }
    proof {
        assert(data@.take(n as int) =~= data@);
    }
}

/// Creates a record in the slot: requires the caller's signature, encodes
/// the record with the caller as owner, status 0 and `now` as the creation
/// timestamp, and writes it into the low-order bytes of the slot, leaving
/// the rest untouched. Fails with `SlotTooSmall`, and leaves the slot
/// unchanged, when the encoding does not fit. The initialized flag is not
/// checked first: creation may overwrite an existing record.
pub fn initialize_registration(
    slot: &mut Vec<u8>,
    caller: &[u8; 32],
    caller_signed: bool,
    now: i64,
    fields: &RegistrationFields,
) -> (r: Result<(), TitleRegError>)
    requires
        fields_fit(fields@),
    ensures
        final(slot)@.len() == old(slot)@.len(),
        match spec_create(old(slot)@, caller@, caller_signed, fields@, now) {
            Err(e) => r == Err::<(), TitleRegError>(e) && final(slot)@ == old(slot)@,
            Ok(ns) => r == Ok::<(), TitleRegError>(()) && final(slot)@ == ns,
        },
{
    if !caller_signed {
        return Err(TitleRegError::MissingSignature);
    }
    let data = encode_record(caller, fields, now);
    if data.len() > slot.len() {
        return Err(TitleRegError::SlotTooSmall);
    }
    write_prefix(slot, &data);
    Ok(())
}

/// Sets the record's status byte to the new value. The caller must sign,
/// the slot must be initialized, and the caller must be the stored owner;
/// any status byte value is then accepted, written in place, and every
/// other slot byte keeps its value.
pub fn update_status(slot: &mut Vec<u8>, caller: &[u8; 32], caller_signed: bool, status: u8) -> (r:
    Result<(), TitleRegError>)
    ensures
        final(slot)@.len() == old(slot)@.len(),
        match spec_update_status(old(slot)@, caller@, caller_signed, status) {
            Err(e) => r == Err::<(), TitleRegError>(e) && final(slot)@ == old(slot)@,
            Ok(ns) => r == Ok::<(), TitleRegError>(()) && final(slot)@ == ns,
        },
{
    match check_auth(slot, caller, caller_signed) {
        Err(e) => return Err(e),
        Ok(()) => {},
    }
    let off: usize = match skip_fields(slot, 33, 22) {
        None => return Err(TitleRegError::TruncatedInput),
        Some(v) => v,
    };
    if slot.len() - off < 9 {
        return Err(TitleRegError::TruncatedInput);
    }
    slot.set(off, status);
    Ok(())
}

/// Replaces pointer field `idx` of the record with `cid` under the shared
/// authority gate, shifting the rest of the record to follow it.
fn replace_pointer_field(
    slot: &mut Vec<u8>,
    caller: &[u8; 32],
    caller_signed: bool,
    cid: &String,
    idx: usize,
) -> (r: Result<(), TitleRegError>)
    requires
        string_fits(cid@),
        idx == 20 || idx == 21,
    ensures
        final(slot)@.len() == old(slot)@.len(),
        match spec_update_pointer(old(slot)@, caller@, caller_signed, idx as nat, cid@) {
            Err(e) => r == Err::<(), TitleRegError>(e) && final(slot)@ == old(slot)@,
            Ok(ns) => r == Ok::<(), TitleRegError>(()) && final(slot)@ == ns,
        },
{
    match check_auth(slot, caller, caller_signed) {
        Err(e) => return Err(e),
        Ok(()) => {},
    }
    let fstart: usize = match skip_fields(slot, 33, idx) {
        None => return Err(TitleRegError::TruncatedInput),
        Some(v) => v,
    };
    let fend: usize = match skip_fields(slot, fstart, 1) {
        None => return Err(TitleRegError::TruncatedInput),
        Some(v) => v,
    };
    let soff: usize = match skip_fields(slot, fend, 21 - idx) {
        None => return Err(TitleRegError::TruncatedInput),
        Some(v) => v,
    };
    if slot.len() - soff < 9 {
        return Err(TitleRegError::TruncatedInput);
    }
    let mut rewritten: Vec<u8> = Vec::new();
    let head = slice_subrange(slot.as_slice(), 0, fstart);
    push_bytes(&mut rewritten, head);
    pack_string(&mut rewritten, cid.as_str());
    let shifted = slice_subrange(slot.as_slice(), fend, soff + 9);
    push_bytes(&mut rewritten, shifted);
    proof {
        assert(rewritten@ =~= slot@.subrange(0, fstart as int) + encode_string(cid@)
            + slot@.subrange(fend as int, soff + 9 as int));
    }
    if rewritten.len() > slot.len() {
        return Err(TitleRegError::SlotTooSmall);
    }
    write_prefix(slot, &rewritten);
    Ok(())
}

/// Replaces the record's documents content pointer with `cid` under the
/// same gate as [`update_status`], leaving every other field, the flag,
/// the owner, the status and the timestamp as they were.
pub fn update_documents_cid(
    slot: &mut Vec<u8>,
    caller: &[u8; 32],
    caller_signed: bool,
    cid: &String,
) -> (r: Result<(), TitleRegError>)
    requires
        string_fits(cid@),
    ensures
        final(slot)@.len() == old(slot)@.len(),
        match spec_update_pointer(old(slot)@, caller@, caller_signed, 20, cid@) {
            Err(e) => r == Err::<(), TitleRegError>(e) && final(slot)@ == old(slot)@,
            Ok(ns) => r == Ok::<(), TitleRegError>(()) && final(slot)@ == ns,
        },
{
    replace_pointer_field(slot, caller, caller_signed, cid, 20)
}

/// Replaces the record's photos content pointer with `cid` under the same
/// gate as [`update_status`], leaving every other field, the flag, the
/// owner, the status and the timestamp as they were.
pub fn update_photos_cid(
    slot: &mut Vec<u8>,
    caller: &[u8; 32],
    caller_signed: bool,
    cid: &String,
) -> (r: Result<(), TitleRegError>)
    requires
        string_fits(cid@),
    ensures
        final(slot)@.len() == old(slot)@.len(),
        match spec_update_pointer(old(slot)@, caller@, caller_signed, 21, cid@) {
            Err(e) => r == Err::<(), TitleRegError>(e) && final(slot)@ == old(slot)@,
            Ok(ns) => r == Ok::<(), TitleRegError>(()) && final(slot)@ == ns,
        },
{
    replace_pointer_field(slot, caller, caller_signed, cid, 21)
}

/// What a whole invocation does to the slot: the command that the buffer
/// decodes to, applied as [`spec_create`], [`spec_update_status`] or
/// [`spec_update_pointer`] says, or the decode failure.
pub open spec fn spec_process(
    slot: Seq<u8>,
    caller: Seq<u8>,
    caller_signed: bool,
    now: i64,
    instruction_data: Seq<u8>,
) -> Result<Seq<u8>, TitleRegError> {
    match spec_unpack(instruction_data) {
        Err(e) => Err(e),
        Ok(cmd) => match cmd {
            CommandView::InitializeRegistration { fields } => spec_create(
                slot,
                caller,
                caller_signed,
                fields,
                now,
            ),
            CommandView::UpdateStatus { status } => spec_update_status(
                slot,
                caller,
                caller_signed,
                status,
            ),
            CommandView::UpdateDocumentsCid { cid } => spec_update_pointer(
                slot,
                caller,
                caller_signed,
                20,
                cid,
            ),
            CommandView::UpdatePhotosCid { cid } => spec_update_pointer(
                slot,
                caller,
                caller_signed,
                21,
                cid,
            ),
        },
    }
}

/// Decodes a command buffer and runs it against the slot on behalf of
/// `caller`: the whole core, from raw bytes to the new slot contents or a
/// typed failure.
pub fn process_instruction(
    slot: &mut Vec<u8>,
    caller: &[u8; 32],
    caller_signed: bool,
    now: i64,
    instruction_data: &[u8],
) -> (r: Result<(), TitleRegError>)
    ensures
        final(slot)@.len() == old(slot)@.len(),
        match spec_process(old(slot)@, caller@, caller_signed, now, instruction_data@) {
            Err(e) => r == Err::<(), TitleRegError>(e) && final(slot)@ == old(slot)@,
            Ok(ns) => r == Ok::<(), TitleRegError>(()) && final(slot)@ == ns,
        },
{
    let instruction = match TitleRegInstruction::unpack(instruction_data) {
        Ok(instruction) => instruction,
        Err(e) => {
            return Err(e);
        },
    };
    match instruction {
        TitleRegInstruction::InitializeRegistration { fields } => {
            initialize_registration(slot, caller, caller_signed, now, &fields)
        },
        TitleRegInstruction::UpdateStatus { status } => {
            update_status(slot, caller, caller_signed, status)
        },
        TitleRegInstruction::UpdateDocumentsCid { cid } => {
            update_documents_cid(slot, caller, caller_signed, &cid)
        },
        TitleRegInstruction::UpdatePhotosCid { cid } => {
            update_photos_cid(slot, caller, caller_signed, &cid)
        },
    }
}

/// An unsigned caller is turned away with `MissingSignature` before the
/// slot's state or ownership is ever consulted.
pub proof fn lemma_unsigned_caller_rejected(slot: Seq<u8>, caller: Seq<u8>)
    ensures
        spec_check_auth(slot, caller, false) == Err::<(), TitleRegError>(
            TitleRegError::MissingSignature,
        ),
{
}

/// A slot whose initialized flag is 0 rejects every signed mutation with
/// `NotInitialized`, whoever the caller is, whatever else the slot holds.
pub proof fn lemma_uninitialized_slot_rejected(slot: Seq<u8>, caller: Seq<u8>)
    requires
        slot.len() >= 1,
        slot[0] == 0,
    ensures
        spec_check_auth(slot, caller, true) == Err::<(), TitleRegError>(
            TitleRegError::NotInitialized,
        ),
{
}

/// On an initialized slot, a signed mutation passes the authority gate
/// exactly when the caller is the stored owner; every other caller gets
/// `Unauthorized`.
pub proof fn lemma_owner_gate(slot: Seq<u8>, caller: Seq<u8>)
    requires
        slot.len() >= 33,
        slot[0] != 0,
    ensures
        slot.subrange(1, 33) == caller ==> spec_check_auth(slot, caller, true) == Ok::<
            (),
            TitleRegError,
        >(()),
        slot.subrange(1, 33) != caller ==> spec_check_auth(slot, caller, true) == Err::<
            (),
            TitleRegError,
        >(TitleRegError::Unauthorized),
{
}

} // verus!
