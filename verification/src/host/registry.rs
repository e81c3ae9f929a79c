//! What the host keeps in the registry, and in which form.

use vstd::prelude::*;
use vstd::string::*;

use crate::bytes::{
    from_le_bytes, law_le_bytes_round_trip, le_bytes, lemma_byte_ranges, lemma_le_bytes_len,
    push_u32, push_u64, read_u32, read_u64,
};
use crate::process::{lemma_zero_position, zero_position};
use crate::utf16::{
    from_utf16, law_utf16_round_trip, lemma_no_zero_units, push_utf16, text_of_units, utf16,
};

verus! {

/// The version of the form in which a registration is kept.
pub const FORMAT_VERSION: u32 = 1;

/// The key under which users are registered.
pub const REGISTRATION_ROOT: &'static str = "SOFTWARE\\SUSM\\Registrations";

/// The key under which sessions are kept while the machine runs.
pub const RUNTIME_ROOT: &'static str = "SOFTWARE\\SUSM\\Runtime\\ManagerSessions";

fn key_under(root: &str, sid: &str) -> (key: String)
    ensures
        key@ == root@ + "\\"@ + sid@,
{
    let mut key: String = root.to_owned();
    key.append("\\");
    key.append(sid);
    key
}

/// The key under which a user is registered.
pub fn registration_key(sid: &str) -> (key: String)
    ensures
        key@ == REGISTRATION_ROOT@ + "\\"@ + sid@,
{
    key_under(REGISTRATION_ROOT, sid)
}

/// The key under which the session of a user is kept.
pub fn runtime_key(sid: &str) -> (key: String)
    ensures
        key@ == RUNTIME_ROOT@ + "\\"@ + sid@,
{
    key_under(RUNTIME_ROOT, sid)
}

/// The bytes of code units, the lower byte of each first.
pub open spec fn unit_bytes(units: Seq<u16>) -> Seq<u8> {
    Seq::new(
        units.len() * 2,
        |i: int|
            if i % 2 == 0 {
                (units[i / 2] % 256) as u8
            } else {
                (units[i / 2] / 256) as u8
            },
    )
}

/// The code units of some bytes.
pub open spec fn units_of(bytes: Seq<u8>) -> Seq<u16> {
    Seq::new(bytes.len() / 2, |i: int| (bytes[2 * i] + 256 * bytes[2 * i + 1]) as u16)
}

/// The text of a value, where its bytes are one: up to the first unit that is zero.
pub open spec fn string_value(bytes: Seq<u8>) -> Option<Seq<char>> {
    if bytes.len() % 2 != 0 {
        None
    } else {
        from_utf16(units_of(bytes).take(zero_position(units_of(bytes))))
    }
}

/// The bytes of a text value.
pub fn encode_string(value: &str) -> (bytes: Vec<u8>)
    ensures
        bytes@ == unit_bytes(utf16(value@).push(0)),
{
    let mut units: Vec<u16> = Vec::new();
    push_utf16(&mut units, value);
    assert(units@ =~= utf16(value@));
    units.push(0);
    let mut bytes: Vec<u8> = Vec::new();
    let mut i: usize = 0;
    while i < units.len()
        invariant
            i <= units.len(),
            bytes@ == unit_bytes(units@.take(i as int)),
        decreases units.len() - i,
    {
        let unit: u16 = units[i];
        bytes.push((unit % 256) as u8);
        bytes.push((unit / 256) as u8);
        i += 1;
        assert(bytes@ =~= unit_bytes(units@.take(i as int)));
    }
    assert(units@.take(i as int) =~= units@);
    bytes
}

/// The text of a value.
pub fn decode_string(bytes: &[u8]) -> (value: Option<String>)
    ensures
        match value {
            Some(text) => string_value(bytes@) == Some(text@),
            None => string_value(bytes@) is None,
        },
{
    if bytes.len() % 2 != 0 {
        return None;
    }
    let mut units: Vec<u16> = Vec::new();
    let ghost all = units_of(bytes@);
    let mut i: usize = 0;
    while i < bytes.len() && (bytes[i] != 0 || bytes[i + 1] != 0)
        invariant
            i <= bytes.len(),
            bytes.len() % 2 == 0,
            i % 2 == 0,
            all == units_of(bytes@),
            units@ == all.take(i as int / 2),
            forall|k: int| 0 <= k < i as int / 2 ==> all[k] != 0,
        decreases bytes.len() - i,
    {
        let unit: u16 = bytes[i] as u16 + 256 * bytes[i + 1] as u16;
        assert(2 * (i as int / 2) == i);
        assert(all[i as int / 2] == unit);
        units.push(unit);
        assert(units@ =~= all.take(i as int / 2 + 1));
        i += 2;
    }
    proof {
        let at = i as int / 2;
        assert(2 * at == i);
        if at < all.len() {
            assert(all[at] == 0);
        }
        lemma_zero_position(all, at);
    }
    text_of_units(units.as_slice())
}

/// A text comes back as it was kept.
pub proof fn law_registry_strings_are_read_back(text: Seq<char>)
    requires
        !text.contains('\0'),
    ensures
        string_value(unit_bytes(utf16(text).push(0))) == Some(text),
{
    let units = utf16(text).push(0);
    let bytes = unit_bytes(units);
    assert(units_of(bytes) =~= units) by {
        assert forall|i: int| 0 <= i < units.len() implies units_of(bytes)[i] == units[i] by {
            assert((2 * i) % 2 == 0 && (2 * i) / 2 == i);
            assert((2 * i + 1) % 2 == 1 && (2 * i + 1) / 2 == i);
            assert(bytes[2 * i] == (units[i] % 256) as u8);
            assert(bytes[2 * i + 1] == (units[i] / 256) as u8);
        }
    }
    lemma_no_zero_units(text);
    assert forall|i: int| 0 <= i < utf16(text).len() implies units[i] != 0 by {
        assert(units[i] == utf16(text)[i]);
    }
    lemma_zero_position(units, utf16(text).len() as int);
    assert(units.take(utf16(text).len() as int) =~= utf16(text));
    law_utf16_round_trip(text);
}

/// The number of four bytes.
pub open spec fn dword_value(bytes: Seq<u8>) -> Option<u32> {
    if bytes.len() == 4 {
        Some(from_le_bytes(bytes) as u32)
    } else {
        None
    }
}

/// The number of eight bytes.
pub open spec fn qword_value(bytes: Seq<u8>) -> Option<u64> {
    if bytes.len() == 8 {
        Some(from_le_bytes(bytes) as u64)
    } else {
        None
    }
}

/// The bytes of a small number.
pub fn encode_dword(value: u32) -> (bytes: Vec<u8>)
    ensures
        bytes@ == le_bytes(value as nat, 4),
{
    let mut bytes: Vec<u8> = Vec::new();
    push_u32(&mut bytes, value);
    assert(bytes@ =~= le_bytes(value as nat, 4));
    bytes
}

/// The bytes of a large number.
pub fn encode_qword(value: u64) -> (bytes: Vec<u8>)
    ensures
        bytes@ == le_bytes(value as nat, 8),
{
    let mut bytes: Vec<u8> = Vec::new();
    push_u64(&mut bytes, value);
    assert(bytes@ =~= le_bytes(value as nat, 8));
    bytes
}

/// The number of a small value.
pub fn decode_dword(bytes: &[u8]) -> (value: Option<u32>)
    ensures
        value == dword_value(bytes@),
{
    if bytes.len() != 4 {
        return None;
    }
    let value: u32 = read_u32(bytes, 0);
    assert(bytes@.subrange(0, 4) =~= bytes@);
    Some(value)
}

/// The number of a large value.
pub fn decode_qword(bytes: &[u8]) -> (value: Option<u64>)
    ensures
        value == qword_value(bytes@),
{
    if bytes.len() != 8 {
        return None;
    }
    let value: u64 = read_u64(bytes, 0);
    assert(bytes@.subrange(0, 8) =~= bytes@);
    Some(value)
}

/// A session as it is kept while the machine runs. A process id of zero stands for no process.
#[derive(Debug)]
pub struct RuntimeSession {
    pub manager_session_id: String,
    pub windows_session_id: u32,
    pub authentication_id: u64,
    pub controller_process_id: u32,
    pub controller_creation_time: u64,
}

#[verifier::ext_equal]
pub struct RuntimeView {
    pub manager_session_id: Seq<char>,
    pub windows_session_id: u32,
    pub authentication_id: u64,
    pub controller_process_id: u32,
    pub controller_creation_time: u64,
}

impl RuntimeSession {
    pub open spec fn view(&self) -> RuntimeView {
        RuntimeView {
            manager_session_id: self.manager_session_id@,
            windows_session_id: self.windows_session_id,
            authentication_id: self.authentication_id,
            controller_process_id: self.controller_process_id,
            controller_creation_time: self.controller_creation_time,
        }
    }
}

impl Clone for RuntimeSession {
    fn clone(&self) -> (copy: RuntimeSession)
        ensures
            copy@ == self@,
    {
        RuntimeSession {
            manager_session_id: self.manager_session_id.clone(),
            windows_session_id: self.windows_session_id,
            authentication_id: self.authentication_id,
            controller_process_id: self.controller_process_id,
            controller_creation_time: self.controller_creation_time,
        }
    }
}

/// The values of a session's key.
#[derive(Debug)]
pub struct RuntimeValues {
    pub manager_session_id: Vec<u8>,
    pub windows_session_id: Vec<u8>,
    pub authentication_id: Vec<u8>,
    pub controller_process_id: Vec<u8>,
    pub controller_creation_time: Vec<u8>,
}

/// The session that some values are, where they are one.
pub open spec fn runtime_of(values: RuntimeValues) -> Option<RuntimeView> {
    match string_value(values.manager_session_id@) {
        Some(manager_session_id) => match dword_value(values.windows_session_id@) {
            Some(windows_session_id) => match qword_value(values.authentication_id@) {
                Some(authentication_id) => match dword_value(values.controller_process_id@) {
                    Some(controller_process_id) => match qword_value(
                        values.controller_creation_time@,
                    ) {
                        Some(controller_creation_time) => Some(
                            RuntimeView {
                                manager_session_id,
                                windows_session_id,
                                authentication_id,
                                controller_process_id,
                                controller_creation_time,
                            },
                        ),
                        None => None,
                    },
                    None => None,
                },
                None => None,
            },
            None => None,
        },
        None => None,
    }
}

/// Whether the values are those of a session.
pub open spec fn are_values(values: RuntimeValues, session: RuntimeView) -> bool {
    &&& values.manager_session_id@ == unit_bytes(utf16(session.manager_session_id).push(0))
    &&& values.windows_session_id@ == le_bytes(session.windows_session_id as nat, 4)
    &&& values.authentication_id@ == le_bytes(session.authentication_id as nat, 8)
    &&& values.controller_process_id@ == le_bytes(session.controller_process_id as nat, 4)
    &&& values.controller_creation_time@ == le_bytes(session.controller_creation_time as nat, 8)
}

/// The values under which a session is kept.
pub fn save_runtime(session: &RuntimeSession) -> (values: RuntimeValues)
    ensures
        are_values(values, session@),
{
    RuntimeValues {
        manager_session_id: encode_string(session.manager_session_id.as_str()),
        windows_session_id: encode_dword(session.windows_session_id),
        authentication_id: encode_qword(session.authentication_id),
        controller_process_id: encode_dword(session.controller_process_id),
        controller_creation_time: encode_qword(session.controller_creation_time),
    }
}

/// The session that some values are.
pub fn read_runtime(values: &RuntimeValues) -> (session: Option<RuntimeSession>)
    ensures
        match session {
            Some(session) => runtime_of(*values) == Some(session@),
            None => runtime_of(*values) is None,
        },
{
    let manager_session_id: String = match decode_string(values.manager_session_id.as_slice()) {
        Some(value) => value,
        None => {
            return None;
        },
    };
    let windows_session_id: u32 = match decode_dword(values.windows_session_id.as_slice()) {
        Some(value) => value,
        None => {
            return None;
        },
    };
    let authentication_id: u64 = match decode_qword(values.authentication_id.as_slice()) {
        Some(value) => value,
        None => {
            return None;
        },
    };
    let controller_process_id: u32 = match decode_dword(values.controller_process_id.as_slice()) {
        Some(value) => value,
        None => {
            return None;
        },
    };
    let controller_creation_time: u64 = match decode_qword(
        values.controller_creation_time.as_slice(),
    ) {
        Some(value) => value,
        None => {
            return None;
        },
    };
    Some(
        RuntimeSession {
            manager_session_id,
            windows_session_id,
            authentication_id,
            controller_process_id,
            controller_creation_time,
        },
    )
}

/// A session comes back as it was kept.
pub proof fn law_runtime_sessions_are_read_back(values: RuntimeValues, session: RuntimeView)
    requires
        are_values(values, session),
        !session.manager_session_id.contains('\0'),
    ensures
        runtime_of(values) == Some(session),
{
    law_registry_strings_are_read_back(session.manager_session_id);
    lemma_byte_ranges();
    law_le_bytes_round_trip(session.windows_session_id as nat, 4);
    law_le_bytes_round_trip(session.authentication_id as nat, 8);
    law_le_bytes_round_trip(session.controller_process_id as nat, 4);
    law_le_bytes_round_trip(session.controller_creation_time as nat, 8);
    lemma_le_bytes_len(session.windows_session_id as nat, 4);
    lemma_le_bytes_len(session.authentication_id as nat, 8);
    lemma_le_bytes_len(session.controller_process_id as nat, 4);
    lemma_le_bytes_len(session.controller_creation_time as nat, 8);
}

} // verus!
