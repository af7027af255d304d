//! Identifiers. Every session, message and tool call gets a UUID that is
//! derived from where it came from, so reading the same history again gives
//! the same identifiers.

use vstd::arithmetic::div_mod::{lemma_div_basics, lemma_div_denominator};
use vstd::arithmetic::power::{lemma_pow0, lemma_pow_adds, lemma_pow_positive, pow};
use vstd::prelude::*;

use crate::error::{outcome, OslError};
use crate::text::{cat3, cat5};

pub mod laws;

verus! {

/// A universally unique identifier.
#[derive(Clone, Copy, Debug, PartialEq, Eq, Structural, Hash)]
pub struct Uuid {
    pub bits: u128,
}

impl DeepView for Uuid {
    type V = Uuid;

    open spec fn deep_view(&self) -> Uuid {
        *self
    }
}

/// The namespace under which all identifiers are derived. It must never
/// change: every identifier derived so far depends on it.
pub const NAMESPACE_OSL: u128 = 0x01925792_4a7c_4e6f_9d6f_1a2b3c4d5e6f;

/// The name-based UUID (version 5) of a name in a namespace.
pub uninterp spec fn uuid_v5(namespace: u128, name: Seq<char>) -> u128;

/// The outcome of reading a text as a UUID: its bits, or the message of the error.
pub uninterp spec fn uuid_parsed(text: Seq<char>) -> Result<u128, Seq<char>>;

/// The hexadecimal digit `d`.
pub open spec fn hex_char(d: int) -> char {
    if d < 10 {
        (48 + d) as char
    } else {
        (87 + d) as char
    }
}

/// The hexadecimal digit of `bits` that has `lower` digits to its right.
pub open spec fn nibble(bits: u128, lower: nat) -> int {
    (bits as int / pow(16, lower)) % 16
}

/// The hyphenated text of a UUID: 32 hexadecimal digits, the highest first, in
/// groups of 8, 4, 4, 4 and 12.
pub open spec fn uuid_text(id: Uuid) -> Seq<char> {
    Seq::new(
        36,
        |i: int|
            if i < 8 {
                hex_char(nibble(id.bits, (31 - i) as nat))
            } else if i == 8 || i == 13 || i == 18 || i == 23 {
                '-'
            } else if i < 13 {
                hex_char(nibble(id.bits, (32 - i) as nat))
            } else if i < 18 {
                hex_char(nibble(id.bits, (33 - i) as nat))
            } else if i < 23 {
                hex_char(nibble(id.bits, (34 - i) as nat))
            } else {
                hex_char(nibble(id.bits, (35 - i) as nat))
            },
    )
}

/// `uuid::Uuid::new_v5` on the bytes of `name`: the version 5 UUID of the name
/// in the namespace. It is a function of both; its version digit, the
/// thirteenth from the left, is 5.
#[verifier::external_body]
fn new_v5(namespace: u128, name: &str) -> (r: Uuid)
    ensures
        r.bits == uuid_v5(namespace, name@),
        nibble(r.bits, 19) == 5,
{
    let namespace = uuid::Uuid::from_u128(namespace);
    Uuid { bits: uuid::Uuid::new_v5(&namespace, name.as_bytes()).as_u128() }
}

/// `uuid::Uuid::to_string` (its `Display`): the hyphenated form in lower case.
#[verifier::external_body]
fn write_uuid(id: Uuid) -> (r: String)
    ensures
        r@ == uuid_text(id),
{
    uuid::Uuid::from_u128(id.bits).to_string()
}

/// `uuid::Uuid::parse_str`: what it returns is a function of the text alone, and
/// it reads back the hyphenated form. An error is handed on as its message.
#[verifier::external_body]
fn read_uuid(text: &str) -> (r: Result<Uuid, String>)
    ensures
        match r {
            Ok(id) => uuid_parsed(text@) == Ok::<u128, Seq<char>>(id.bits),
            Err(message) => uuid_parsed(text@) == Err::<u128, Seq<char>>(message@),
        },
        forall|id: Uuid| text@ == #[trigger] uuid_text(id) ==> r is Ok && r->Ok_0 == id,
{
    match uuid::Uuid::parse_str(text) {
        Ok(id) => Ok(Uuid { bits: id.as_u128() }),
        Err(e) => Err(e.to_string()),
    }
}

impl Uuid {
    /// Whether all bits are zero.
    pub fn is_nil(&self) -> (r: bool)
        ensures
            r == (self.bits == 0),
    {
        self.bits == 0
    }

    /// The hyphenated text of this identifier.
    pub fn to_string(&self) -> (r: String)
        ensures
            r@ == uuid_text(*self),
    {
        write_uuid(*self)
    }

    /// Reads an identifier back from its text.
    pub fn parse_str(text: &str) -> (r: Result<Uuid, OslError>)
        ensures
            outcome(r) == parsed_uuid(text@),
            forall|id: Uuid| text@ == #[trigger] uuid_text(id) ==> r is Ok && r->Ok_0 == id,
    {
        match read_uuid(text) {
            Ok(id) => Ok(id),
            Err(message) => Err(OslError::Uuid(message)),
        }
    }
}

/// What reading `text` as an identifier gives.
pub open spec fn parsed_uuid(text: Seq<char>) -> Result<Uuid, OslError<Seq<char>>> {
    match uuid_parsed(text) {
        Ok(bits) => Ok(Uuid { bits }),
        Err(message) => Err(OslError::Uuid(message)),
    }
}

/// The identifier derived from `name`.
pub open spec fn derived_id(name: Seq<char>) -> Uuid {
    Uuid { bits: uuid_v5(NAMESPACE_OSL, name) }
}

/// The name of a session: its source and its identifier there.
pub open spec fn session_name(source: Seq<char>, native_id: Seq<char>) -> Seq<char> {
    source + ":"@ + native_id
}

/// The name of a message: its session and its identifier within the session.
pub open spec fn message_name(session: Uuid, event: Seq<char>) -> Seq<char> {
    uuid_text(session) + ":"@ + event
}

/// The name of a tool call: its session, the message that made it, and its
/// identifier within the session.
pub open spec fn tool_call_name(session: Uuid, message: Uuid, call_id: Seq<char>) -> Seq<char> {
    uuid_text(session) + ":"@ + uuid_text(message) + ":"@ + call_id
}

pub open spec fn session_uuid(source: Seq<char>, native_id: Seq<char>) -> Uuid {
    derived_id(session_name(source, native_id))
}

pub open spec fn message_uuid(session: Uuid, event: Seq<char>) -> Uuid {
    derived_id(message_name(session, event))
}

pub open spec fn tool_call_uuid(session: Uuid, message: Uuid, call_id: Seq<char>) -> Uuid {
    derived_id(tool_call_name(session, message, call_id))
}

/// The identifier of a session.
pub fn session_id(source: &str, native_id: &str) -> (r: Uuid)
    ensures
        r == session_uuid(source@, native_id@),
        r.bits != 0,
{
    let id = new_v5(NAMESPACE_OSL, cat3(source, ":", native_id).as_str());
    proof {
        lemma_nil_has_no_version(id);
    }
    id
}

/// The identifier of a message.
pub fn message_id(session_id: Uuid, event_uuid: &str) -> (r: Uuid)
    ensures
        r == message_uuid(session_id, event_uuid@),
        r.bits != 0,
{
    let session = session_id.to_string();
    let id = new_v5(NAMESPACE_OSL, cat3(session.as_str(), ":", event_uuid).as_str());
    proof {
        lemma_nil_has_no_version(id);
    }
    id
}

/// The identifier of a tool call.
pub fn tool_call_id(session_id: Uuid, message_uuid: Uuid, call_id: &str) -> (r: Uuid)
    ensures
        r == tool_call_uuid(session_id, message_uuid, call_id@),
        r.bits != 0,
{
    let session = session_id.to_string();
    let message = message_uuid.to_string();
    let id = new_v5(
        NAMESPACE_OSL,
        cat5(session.as_str(), ":", message.as_str(), ":", call_id).as_str(),
    );
    proof {
        lemma_nil_has_no_version(id);
    }
    id
}

proof fn lemma_nil_has_no_version(id: Uuid)
    requires
        nibble(id.bits, 19) == 5,
    ensures
        id.bits != 0,
{
    if id.bits == 0 {
        lemma_pow_positive(16, 19);
        lemma_div_basics(pow(16, 19));
    }
}

proof fn lemma_digits_fix_number(a: nat, b: nat, n: nat)
    requires
        a < pow(16, n),
        b < pow(16, n),
        forall|k: nat| k < n ==> #[trigger] digit(a, k) == digit(b, k),
    ensures
        a == b,
    decreases n,
{
    if n == 0 {
        lemma_pow0(16);
    } else {
        let m = (n - 1) as nat;
        lemma_pow0(16);
        assert(digit(a, 0) == digit(b, 0));
        assert(a % 16 == b % 16);
        assert(pow(16, n) == 16 * pow(16, m)) by {
            reveal(pow);
        }
        assert(a / 16 < pow(16, m) && b / 16 < pow(16, m)) by (nonlinear_arith)
            requires
                a < 16 * pow(16, m),
                b < 16 * pow(16, m),
        ;
        assert forall|k: nat| k < m implies #[trigger] digit((a / 16) as nat, k) == digit(
            (b / 16) as nat,
            k,
        ) by {
            lemma_pow_positive(16, k);
            lemma_div_denominator(a as int, 16, pow(16, k));
            lemma_div_denominator(b as int, 16, pow(16, k));
            assert(pow(16, (k + 1) as nat) == 16 * pow(16, k)) by {
                reveal(pow);
            }
            assert(digit(a, (k + 1) as nat) == digit(b, (k + 1) as nat));
        }
        lemma_digits_fix_number((a / 16) as nat, (b / 16) as nat, m);
    }
}

spec fn digit(n: nat, lower: nat) -> int {
    (n as int / pow(16, lower)) % 16
}

/// The place of a hexadecimal digit in the text of a UUID.
spec fn place(lower: nat) -> int {
    if lower >= 24 {
        31 - lower
    } else if lower >= 20 {
        32 - lower
    } else if lower >= 16 {
        33 - lower
    } else if lower >= 12 {
        34 - lower
    } else {
        35 - lower
    }
}

proof fn lemma_hex_chars_differ(a: int, b: int)
    requires
        0 <= a < 16,
        0 <= b < 16,
        hex_char(a) == hex_char(b),
    ensures
        a == b,
{
    assert(hex_char(a) as int == if a < 10 {
        48 + a
    } else {
        87 + a
    });
    assert(hex_char(b) as int == if b < 10 {
        48 + b
    } else {
        87 + b
    });
}

/// Different identifiers have different texts.
pub proof fn law_texts_tell_ids_apart(a: Uuid, b: Uuid)
    requires
        uuid_text(a) == uuid_text(b),
    ensures
        a == b,
{
    let x = a.bits as nat;
    let y = b.bits as nat;
    assert forall|k: nat| k < 32 implies #[trigger] digit(x, k) == digit(y, k) by {
        lemma_pow_positive(16, k);
        assert(digit(x, k) == nibble(a.bits, k));
        assert(digit(y, k) == nibble(b.bits, k));
        assert(uuid_text(a)[place(k)] == hex_char(nibble(a.bits, k)));
        assert(uuid_text(b)[place(k)] == hex_char(nibble(b.bits, k)));
        lemma_hex_chars_differ(nibble(a.bits, k), nibble(b.bits, k));
    }
    assert(pow(16, 32) == 0x1_0000_0000_0000_0000_0000_0000_0000_0000) by {
        reveal(pow);
        lemma_pow_adds(16, 8, 8);
        lemma_pow_adds(16, 16, 16);
        assert(pow(16, 8) == 0x1_0000_0000) by {
            reveal_with_fuel(pow, 9);
        }
        assert(0x1_0000_0000int * 0x1_0000_0000int == 0x1_0000_0000_0000_0000int) by (nonlinear_arith);
        assert(0x1_0000_0000_0000_0000int * 0x1_0000_0000_0000_0000int
            == 0x1_0000_0000_0000_0000_0000_0000_0000_0000int) by (nonlinear_arith);
    }
    lemma_digits_fix_number(x, y, 32);
}

/// The name of a session tells its source and its identifier there, as long as sources
/// have no colon in their names.
pub proof fn law_session_names_are_unique(
    source: Seq<char>,
    native_id: Seq<char>,
    other_source: Seq<char>,
    other_id: Seq<char>,
)
    requires
        !source.contains(':'),
        !other_source.contains(':'),
        session_name(source, native_id) == session_name(other_source, other_id),
    ensures
        source == other_source,
        native_id == other_id,
{
    reveal_strlit(":");
    let a = session_name(source, native_id);
    let b = session_name(other_source, other_id);
    let n = source.len() as int;
    let m = other_source.len() as int;
    assert(a[n] == ':');
    assert(b[m] == ':');
    if n < m {
        assert(b[n] == other_source[n]);
    } else if m < n {
        assert(a[m] == source[m]);
    }
    assert(a.take(n) =~= source);
    assert(b.take(m) =~= other_source);
    assert(a.skip(n + 1) =~= native_id);
    assert(b.skip(m + 1) =~= other_id);
}

/// The name of a message tells its session and its identifier there.
pub proof fn law_message_names_are_unique(
    session: Uuid,
    event: Seq<char>,
    other_session: Uuid,
    other_event: Seq<char>,
)
    requires
        message_name(session, event) == message_name(other_session, other_event),
    ensures
        session == other_session,
        event == other_event,
{
    reveal_strlit(":");
    let a = message_name(session, event);
    let b = message_name(other_session, other_event);
    assert(a.take(36) =~= uuid_text(session));
    assert(b.take(36) =~= uuid_text(other_session));
    law_texts_tell_ids_apart(session, other_session);
    assert(a.skip(37) =~= event);
    assert(b.skip(37) =~= other_event);
}

/// The name of a tool call tells its session, its message and its identifier there.
pub proof fn law_tool_call_names_are_unique(
    session: Uuid,
    message: Uuid,
    call_id: Seq<char>,
    other_session: Uuid,
    other_message: Uuid,
    other_id: Seq<char>,
)
    requires
        tool_call_name(session, message, call_id) == tool_call_name(
            other_session,
            other_message,
            other_id,
        ),
    ensures
        session == other_session,
        message == other_message,
        call_id == other_id,
{
    reveal_strlit(":");
    let rest = uuid_text(message) + ":"@ + call_id;
    let other_rest = uuid_text(other_message) + ":"@ + other_id;
    assert(tool_call_name(session, message, call_id) =~= message_name(session, rest));
    assert(tool_call_name(other_session, other_message, other_id) =~= message_name(
        other_session,
        other_rest,
    ));
    law_message_names_are_unique(session, rest, other_session, other_rest);
    law_message_names_are_unique(message, call_id, other_message, other_id);
}

}
