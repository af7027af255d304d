//! What identifiers are derived from.

use vstd::prelude::*;

use super::{
    message_uuid, parsed_uuid, session_uuid, tool_call_uuid, uuid_parsed, uuid_text, uuid_v5, Uuid,
};

verus! {

/// An identifier is the name-based one of its name: a session's is that of its source and its
/// own identifier there; a message's that of its session and its own; a call's that of its
/// session, its message and its own.
pub proof fn law_what_identifiers_are_of(
    source: Seq<char>,
    native_id: Seq<char>,
    session: Uuid,
    message: Uuid,
    own: Seq<char>,
)
    ensures
        session_uuid(source, native_id).bits == uuid_v5(
            0x01925792_4a7c_4e6f_9d6f_1a2b3c4d5e6f,
            source + ":"@ + native_id,
        ),
        message_uuid(session, own).bits == uuid_v5(
            0x01925792_4a7c_4e6f_9d6f_1a2b3c4d5e6f,
            uuid_text(session) + ":"@ + own,
        ),
        tool_call_uuid(session, message, own).bits == uuid_v5(
            0x01925792_4a7c_4e6f_9d6f_1a2b3c4d5e6f,
            uuid_text(session) + ":"@ + uuid_text(message) + ":"@ + own,
        ),
{
}

/// The text of an identifier has 36 characters, with hyphens in four places.
pub proof fn law_texts_of_identifiers(id: Uuid)
    ensures
        uuid_text(id).len() == 36,
        uuid_text(id)[8] == '-' && uuid_text(id)[13] == '-' && uuid_text(id)[18] == '-'
            && uuid_text(id)[23] == '-',
{
}

/// An identifier is read where the reader of such texts reads one, and is then that one.
pub proof fn law_identifiers_are_read(text: Seq<char>)
    ensures
        uuid_parsed(text) matches Ok(bits) ==> parsed_uuid(text) is Ok
            && parsed_uuid(text)->Ok_0.bits == bits,
        uuid_parsed(text) matches Err(e) ==> parsed_uuid(text) is Err && parsed_uuid(text)->Err_0
            is Uuid && parsed_uuid(text)->Err_0->Uuid_0 == e,
{
}

}
