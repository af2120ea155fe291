use titlereg::codec::{pack_string, unpack_string, RegistrationFields};
use titlereg::engine::{
    initialize_registration, process_instruction, update_documents_cid, update_photos_cid,
    update_status,
};
use titlereg::error::TitleRegError;

const FIELD_VALUES: [&str; 22] = [
    "REG-001",
    "123/A",
    "45",
    "Shirgaon",
    "Palghar",
    "Palghar",
    "Maharashtra",
    "401404",
    "Agricultural",
    "2.5",
    "acres",
    "Sale",
    "1500000",
    "90000",
    "30000",
    "2024-01-15",
    "Ramesh Patil",
    "Ganpat Patil",
    "Suresh Shah",
    "Mohan Shah",
    "Qm123",
    "Qm456",
];

fn sample_fields() -> RegistrationFields {
    RegistrationFields {
        registration_id: FIELD_VALUES[0].to_string(),
        survey_number: FIELD_VALUES[1].to_string(),
        plot_number: FIELD_VALUES[2].to_string(),
        village: FIELD_VALUES[3].to_string(),
        taluka: FIELD_VALUES[4].to_string(),
        district: FIELD_VALUES[5].to_string(),
        state: FIELD_VALUES[6].to_string(),
        pincode: FIELD_VALUES[7].to_string(),
        property_type: FIELD_VALUES[8].to_string(),
        area: FIELD_VALUES[9].to_string(),
        area_unit: FIELD_VALUES[10].to_string(),
        transaction_type: FIELD_VALUES[11].to_string(),
        consideration_amount: FIELD_VALUES[12].to_string(),
        stamp_duty: FIELD_VALUES[13].to_string(),
        registration_fee: FIELD_VALUES[14].to_string(),
        sale_agreement_date: FIELD_VALUES[15].to_string(),
        seller_name: FIELD_VALUES[16].to_string(),
        seller_father_name: FIELD_VALUES[17].to_string(),
        buyer_name: FIELD_VALUES[18].to_string(),
        buyer_father_name: FIELD_VALUES[19].to_string(),
        documents_ipfs_hash: FIELD_VALUES[20].to_string(),
        photos_ipfs_hash: FIELD_VALUES[21].to_string(),
    }
}

fn create_command() -> Vec<u8> {
    let mut data = vec![0u8];
    for value in FIELD_VALUES.iter() {
        pack_string(&mut data, value);
    }
    data
}

fn initialized_slot(owner: &[u8; 32], capacity: usize, now: i64) -> Vec<u8> {
    let mut slot = vec![0u8; capacity];
    let fields = sample_fields();
    initialize_registration(&mut slot, owner, true, now, &fields).unwrap();
    slot
}

/// Reads the 22 string fields of the record in the slot and returns them
/// with the offset of the status byte.
fn read_fields(slot: &[u8]) -> (Vec<String>, usize) {
    let mut fields = Vec::new();
    let mut offset = 33usize;
    for _ in 0..22 {
        let (s, used) = unpack_string(&slot[offset..]).unwrap();
        fields.push(s);
        offset += used;
    }
    (fields, offset)
}

#[test]
fn unsigned_caller_fails_every_command() {
    let owner = [7u8; 32];
    let mut slot = vec![0u8; 1000];
    let fields = sample_fields();
    let before = slot.clone();

    let r = initialize_registration(&mut slot, &owner, false, 1700000000, &fields);
    assert_eq!(r, Err(TitleRegError::MissingSignature));
    assert_eq!(slot, before);

    let mut slot = initialized_slot(&owner, 1000, 1700000000);
    let before = slot.clone();
    assert_eq!(
        update_status(&mut slot, &owner, false, 1),
        Err(TitleRegError::MissingSignature)
    );
    assert_eq!(
        update_documents_cid(&mut slot, &owner, false, &"QmX".to_string()),
        Err(TitleRegError::MissingSignature)
    );
    assert_eq!(
        update_photos_cid(&mut slot, &owner, false, &"QmX".to_string()),
        Err(TitleRegError::MissingSignature)
    );
    assert_eq!(slot, before);
}

#[test]
fn uninitialized_slot_fails_updates_for_any_signer() {
    let mut slot = vec![0u8; 200];
    let caller = [5u8; 32];
    let other = [6u8; 32];
    let before = slot.clone();
    assert_eq!(
        update_status(&mut slot, &caller, true, 1),
        Err(TitleRegError::NotInitialized)
    );
    assert_eq!(
        update_documents_cid(&mut slot, &other, true, &"QmX".to_string()),
        Err(TitleRegError::NotInitialized)
    );
    assert_eq!(
        update_photos_cid(&mut slot, &caller, true, &"QmX".to_string()),
        Err(TitleRegError::NotInitialized)
    );
    assert_eq!(slot, before);
}

#[test]
fn uninitialized_short_slot_still_reports_not_initialized() {
    // The flag byte is enough to see that no record was ever created.
    let mut slot = vec![0u8; 10];
    let caller = [5u8; 32];
    assert_eq!(
        update_status(&mut slot, &caller, true, 1),
        Err(TitleRegError::NotInitialized)
    );
    assert_eq!(
        update_documents_cid(&mut slot, &caller, true, &"QmX".to_string()),
        Err(TitleRegError::NotInitialized)
    );
}

#[test]
fn short_slots_report_truncation() {
    let caller = [5u8; 32];
    // No flag byte at all.
    let mut slot: Vec<u8> = Vec::new();
    assert_eq!(
        update_status(&mut slot, &caller, true, 1),
        Err(TitleRegError::TruncatedInput)
    );
    // Flag set but no room for the owner identity.
    let mut slot = vec![1u8; 10];
    assert_eq!(
        update_status(&mut slot, &caller, true, 1),
        Err(TitleRegError::TruncatedInput)
    );
}

#[test]
fn corrupt_record_reports_truncation() {
    let caller = [5u8; 32];
    // Flag and matching owner, then a length prefix far past the end.
    let mut slot = vec![0u8; 60];
    slot[0] = 1;
    for i in 0..32 {
        slot[1 + i] = 5;
    }
    slot[33] = 0xFF;
    slot[34] = 0xFF;
    let before = slot.clone();
    assert_eq!(
        update_status(&mut slot, &caller, true, 1),
        Err(TitleRegError::TruncatedInput)
    );
    assert_eq!(
        update_documents_cid(&mut slot, &caller, true, &"QmX".to_string()),
        Err(TitleRegError::TruncatedInput)
    );
    assert_eq!(slot, before);
}

#[test]
fn owner_gate_on_updates() {
    let owner = [9u8; 32];
    let mut stranger = [9u8; 32];
    stranger[31] = 10;
    let mut slot = initialized_slot(&owner, 1000, 1700000000);

    let before = slot.clone();
    assert_eq!(
        update_status(&mut slot, &stranger, true, 1),
        Err(TitleRegError::Unauthorized)
    );
    assert_eq!(
        update_documents_cid(&mut slot, &stranger, true, &"QmX".to_string()),
        Err(TitleRegError::Unauthorized)
    );
    assert_eq!(
        update_photos_cid(&mut slot, &stranger, true, &"QmX".to_string()),
        Err(TitleRegError::Unauthorized)
    );
    assert_eq!(slot, before);

    assert_eq!(update_status(&mut slot, &owner, true, 0), Ok(()));
    assert_eq!(update_status(&mut slot, &owner, true, 255), Ok(()));
    assert_eq!(
        update_documents_cid(&mut slot, &owner, true, &"QmX".to_string()),
        Ok(())
    );
    assert_eq!(
        update_photos_cid(&mut slot, &owner, true, &"QmX".to_string()),
        Ok(())
    );
}

#[test]
fn status_update_persists_the_new_value() {
    let owner = [9u8; 32];
    let mut slot = initialized_slot(&owner, 1000, 1700000000);
    let (_, status_off) = read_fields(&slot);
    assert_eq!(slot[status_off], 0);

    let mut expected = slot.clone();
    expected[status_off] = 2;
    assert_eq!(update_status(&mut slot, &owner, true, 2), Ok(()));
    assert_eq!(slot, expected, "only the status byte changes");

    expected[status_off] = 255;
    assert_eq!(update_status(&mut slot, &owner, true, 255), Ok(()));
    assert_eq!(slot, expected);
}

#[test]
fn documents_cid_update_persists_longer_value() {
    let owner = [2u8; 32];
    let now: i64 = 1700000000;
    let mut slot = initialized_slot(&owner, 1000, now);
    let (_, old_status_off) = read_fields(&slot);
    let old_timestamp = slot[old_status_off + 1..old_status_off + 9].to_vec();

    let new_cid = "QmANewMuchLongerDocumentsHashValue".to_string();
    assert_eq!(update_documents_cid(&mut slot, &owner, true, &new_cid), Ok(()));

    assert_eq!(slot.len(), 1000);
    assert_eq!(slot[0], 1);
    assert_eq!(&slot[1..33], &owner[..]);
    let (fields, status_off) = read_fields(&slot);
    for i in 0..22 {
        if i == 20 {
            assert_eq!(fields[i], new_cid);
        } else {
            assert_eq!(fields[i], FIELD_VALUES[i], "field {} unchanged", i);
        }
    }
    assert_eq!(slot[status_off], 0, "status kept");
    assert_eq!(&slot[status_off + 1..status_off + 9], &old_timestamp[..], "timestamp kept");
}

#[test]
fn photos_cid_update_persists_shorter_value() {
    let owner = [2u8; 32];
    let mut slot = initialized_slot(&owner, 1000, 1700000000);
    assert_eq!(update_status(&mut slot, &owner, true, 2), Ok(()));

    let new_cid = "Q".to_string();
    assert_eq!(update_photos_cid(&mut slot, &owner, true, &new_cid), Ok(()));

    let (fields, status_off) = read_fields(&slot);
    for i in 0..22 {
        if i == 21 {
            assert_eq!(fields[i], new_cid);
        } else {
            assert_eq!(fields[i], FIELD_VALUES[i]);
        }
    }
    assert_eq!(slot[status_off], 2, "earlier status update kept");
}

#[test]
fn cid_update_that_no_longer_fits_fails() {
    let owner = [2u8; 32];
    // Capacity exactly the encoded record size: any longer cid overflows.
    let probe = initialized_slot(&owner, 1000, 1700000000);
    let (_, status_off) = read_fields(&probe);
    let record_len = status_off + 9;
    let mut slot = initialized_slot(&owner, record_len, 1700000000);

    let before = slot.clone();
    let new_cid = "QmLonger".to_string();
    assert_eq!(
        update_documents_cid(&mut slot, &owner, true, &new_cid),
        Err(TitleRegError::SlotTooSmall)
    );
    assert_eq!(slot, before, "slot bytes unchanged");

    // A cid of the same length still fits.
    assert_eq!(
        update_photos_cid(&mut slot, &owner, true, &"Qm999".to_string()),
        Ok(())
    );
}

#[test]
fn create_fails_on_small_slot() {
    let owner = [1u8; 32];
    let mut slot = vec![0u8; 100];
    let before = slot.clone();
    let fields = sample_fields();
    let r = initialize_registration(&mut slot, &owner, true, 1700000000, &fields);
    assert_eq!(r, Err(TitleRegError::SlotTooSmall));
    assert_eq!(slot, before);

    // The same answer comes through command dispatch, however small the slot.
    let mut tiny = vec![0u8; 10];
    assert_eq!(
        process_instruction(&mut tiny, &owner, true, 1700000000, &create_command()),
        Err(TitleRegError::SlotTooSmall)
    );
    assert_eq!(tiny, vec![0u8; 10]);
}

#[test]
fn create_scenario_persists_every_field() {
    let owner = [42u8; 32];
    let now: i64 = 1705315800;
    let mut slot = vec![0u8; 1000];
    let data = create_command();
    let r = process_instruction(&mut slot, &owner, true, now, &data);
    assert_eq!(r, Ok(()));

    assert_eq!(slot.len(), 1000);
    assert_eq!(slot[0], 1, "initialized flag");
    assert_eq!(&slot[1..33], &owner[..], "owner identity");

    let (fields, offset) = read_fields(&slot);
    for i in 0..22 {
        assert_eq!(fields[i], FIELD_VALUES[i]);
    }
    assert_eq!(slot[offset], 0, "status");
    assert_eq!(&slot[offset + 1..offset + 9], &now.to_le_bytes()[..], "timestamp");
    for i in offset + 9..1000 {
        assert_eq!(slot[i], 0, "bytes past the record stay untouched");
    }
}

#[test]
fn status_scenario_owner_succeeds_stranger_fails() {
    let owner = [3u8; 32];
    let mut stranger = [3u8; 32];
    stranger[0] = 4;
    let now: i64 = 1705315800;
    let mut slot = vec![0u8; 1000];
    let create = create_command();
    assert_eq!(process_instruction(&mut slot, &owner, true, now, &create), Ok(()));

    let set_status = vec![1u8, 2];
    assert_eq!(
        process_instruction(&mut slot, &owner, true, now, &set_status),
        Ok(())
    );
    let (_, status_off) = read_fields(&slot);
    assert_eq!(slot[status_off], 2, "status persisted");

    let before = slot.clone();
    assert_eq!(
        process_instruction(&mut slot, &stranger, true, now, &set_status),
        Err(TitleRegError::Unauthorized)
    );
    assert_eq!(slot, before, "slot bytes unchanged after a rejected command");
}

#[test]
fn pointer_scenario_through_dispatch() {
    let owner = [11u8; 32];
    let now: i64 = 1705315800;
    let mut slot = vec![0u8; 1000];
    assert_eq!(process_instruction(&mut slot, &owner, true, now, &create_command()), Ok(()));

    let mut cmd = vec![2u8];
    pack_string(&mut cmd, "QmReplacedDocs");
    assert_eq!(process_instruction(&mut slot, &owner, true, now, &cmd), Ok(()));

    let mut cmd = vec![3u8];
    pack_string(&mut cmd, "QmReplacedPhotos");
    assert_eq!(process_instruction(&mut slot, &owner, true, now, &cmd), Ok(()));

    let (fields, _) = read_fields(&slot);
    assert_eq!(fields[20], "QmReplacedDocs");
    assert_eq!(fields[21], "QmReplacedPhotos");
}

#[test]
fn process_instruction_reports_decode_failures() {
    let owner = [1u8; 32];
    let mut slot = vec![0u8; 100];
    assert_eq!(
        process_instruction(&mut slot, &owner, true, 0, &[9u8]),
        Err(TitleRegError::UnknownCommand)
    );
    assert_eq!(
        process_instruction(&mut slot, &owner, true, 0, &[]),
        Err(TitleRegError::TruncatedInput)
    );
    let bad_utf8 = vec![2u8, 2, 0, 0, 0, 0xFF, 0xFE];
    assert_eq!(
        process_instruction(&mut slot, &owner, true, 0, &bad_utf8),
        Err(TitleRegError::InvalidEncoding)
    );
}

#[test]
fn create_negative_timestamp_round_trips() {
    let owner = [8u8; 32];
    let now: i64 = -12345;
    let mut slot = vec![0u8; 1000];
    let fields = sample_fields();
    assert_eq!(initialize_registration(&mut slot, &owner, true, now, &fields), Ok(()));
    let (_, offset) = read_fields(&slot);
    assert_eq!(&slot[offset + 1..offset + 9], &now.to_le_bytes()[..]);
}
