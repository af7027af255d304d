//! Talking to an embedder: a program that turns texts into vectors.
//!
//! The embedder gets one JSON object per line, each with an `id` and a `text`. It
//! answers with a line that names its model and the number of dimensions, and then
//! with one line per text: the `id` and the vector.

use vstd::prelude::*;

use crate::connector::parts::{add_item, or_else, text_or};
use crate::error::{outcome, OslError};
use crate::json::{fields_text, fields_tree, json_parsed, json_text, Json, Tree};
use crate::text::{
    cat2, cat3, cat5, decimal_text, decimal_u64, digits_value, is_blank, is_blank_text, is_digits,
    same, trim, trim_text, unsigned_digits,
};

pub mod counts;
pub mod laws;
pub mod lines;

verus! {

/// The embedder that a vault was last embedded with.
#[derive(Clone, Debug, PartialEq)]
pub struct EmbedConfig<S = String> {
    pub model: S,
    pub dimensions: u32,
    pub provider: S,
}

pub type EmbedConfigView = EmbedConfig<Seq<char>>;

impl DeepView for EmbedConfig {
    type V = EmbedConfigView;

    open spec fn deep_view(&self) -> EmbedConfigView {
        EmbedConfig {
            model: self.model@,
            dimensions: self.dimensions,
            provider: self.provider@,
        }
    }
}

/// What a run of the embedder has done.
#[derive(Clone, Debug, PartialEq)]
pub struct EmbedStats<S = String> {
    pub messages_embedded: u64,
    pub sessions_summarized: u64,
    pub model: S,
    pub dimensions: u32,
}

pub type EmbedStatsView = EmbedStats<Seq<char>>;

impl DeepView for EmbedStats {
    type V = EmbedStatsView;

    open spec fn deep_view(&self) -> EmbedStatsView {
        EmbedStats {
            messages_embedded: self.messages_embedded,
            sessions_summarized: self.sessions_summarized,
            model: self.model@,
            dimensions: self.dimensions,
        }
    }
}

/// The line that tells what a run has done.
pub open spec fn stats_line_text(stats: EmbedStatsView) -> Seq<char> {
    "embedded "@ + decimal_text(stats.messages_embedded as int) + " messages across "@
        + decimal_text(stats.sessions_summarized as int) + " sessions summarized (model="@
        + stats.model + ", dims="@ + decimal_text(stats.dimensions as int) + ")"@
}

/// The line that tells what a run has done.
pub fn stats_line(stats: &EmbedStats) -> (r: String)
    ensures
        r@ == stats_line_text(stats.deep_view()),
{
    let mut line = cat5(
        "embedded ",
        decimal_u64(stats.messages_embedded).as_str(),
        " messages across ",
        decimal_u64(stats.sessions_summarized).as_str(),
        " sessions summarized (model=",
    );
    line.append(stats.model.as_str());
    line.append(", dims=");
    line.append(decimal_u64(stats.dimensions as u64).as_str());
    line.append(")");
    line
}

/// Whether the text is an unsigned number of 32 bits.
pub open spec fn is_u32_text(s: Seq<char>) -> bool {
    is_digits(unsigned_digits(s)) && digits_value(unsigned_digits(s)) <= u32::MAX
}

/// The message of the error of reading a text that is no unsigned number of 32 bits.
pub uninterp spec fn u32_error(s: Seq<char>) -> Seq<char>;

/// `str::parse` at the type `u32`: a number of that type, written as decimal digits
/// with an optional plus sign before them; any other text is an error. The error is
/// handed on as its message, which is a function of the text.
#[verifier::external_body]
fn parse_u32(s: &str) -> (r: Result<u32, String>)
    ensures
        r is Ok <==> is_u32_text(s@),
        r is Ok ==> r->Ok_0 == digits_value(unsigned_digits(s@)),
        r is Err ==> r->Err_0@ == u32_error(s@),
{
    s.parse::<u32>().map_err(|e| e.to_string())
}

/// The configuration that the vault holds: it is there only if all of it is.
pub open spec fn config_of(
    model: Option<Seq<char>>,
    dimensions: Option<Seq<char>>,
    provider: Option<Seq<char>>,
) -> Result<Option<EmbedConfigView>, OslError<Seq<char>>> {
    match (model, dimensions, provider) {
        (Some(model), Some(d), Some(provider)) => if is_u32_text(d) {
            Ok(
                Some(
                    EmbedConfig {
                        model,
                        dimensions: digits_value(unsigned_digits(d)) as u32,
                        provider,
                    },
                ),
            )
        } else {
            Err(OslError::Embed("invalid dimensions in vault_config: "@ + u32_error(d)))
        },
        _ => Ok(None),
    }
}

/// The configuration that the vault holds.
pub fn read_config(
    model: Option<String>,
    dimensions: Option<String>,
    provider: Option<String>,
) -> (r: Result<Option<EmbedConfig>, OslError>)
    ensures
        outcome(r) == config_of(model.deep_view(), dimensions.deep_view(), provider.deep_view()),
{
    match (model, dimensions, provider) {
        (Some(model), Some(d), Some(provider)) => match parse_u32(d.as_str()) {
            Ok(dimensions) => Ok(Some(EmbedConfig { model, dimensions, provider })),
            Err(e) => Err(
                OslError::Embed(cat2("invalid dimensions in vault_config: ", e.as_str())),
            ),
        },
        _ => Ok(None),
    }
}

/// The four bytes of a bit pattern, the lowest first.
pub open spec fn le_bytes(bits: u32) -> Seq<u8> {
    seq![
        (bits % 256) as u8,
        (bits / 256 % 256) as u8,
        (bits / 65536 % 256) as u8,
        (bits / 16777216) as u8,
    ]
}

/// The bytes of the bit patterns, one after the other.
pub open spec fn encoded(v: Seq<u32>) -> Seq<u8>
    decreases v.len(),
{
    if v.len() == 0 {
        Seq::empty()
    } else {
        encoded(v.drop_last()) + le_bytes(v.last())
    }
}

/// The bit pattern that four bytes hold.
pub open spec fn from_le_bytes(b: Seq<u8>, at: int) -> int {
    b[at] + 256 * b[at + 1] + 65536 * b[at + 2] + 16777216 * b[at + 3]
}

/// Writes the bit patterns of single-precision numbers as little-endian bytes.
pub fn encode_f32_le(v: &Vec<u32>) -> (r: Vec<u8>)
    ensures
        r@ == encoded(v@),
{
    let mut out: Vec<u8> = Vec::new();
    let mut i: usize = 0;
    while i < v.len()
        invariant
            i <= v@.len(),
            out@ == encoded(v@.take(i as int)),
        decreases v@.len() - i,
    {
        let bits: u32 = v[i];
        proof {
            assert(v@.take(i as int + 1).drop_last() =~= v@.take(i as int));
            assert(v@.take(i as int + 1).last() == bits);
        }
        let ghost before = out@;
        out.push((bits % 256) as u8);
        out.push((bits / 256 % 256) as u8);
        out.push((bits / 65536 % 256) as u8);
        out.push((bits / 16777216) as u8);
        proof {
            assert(out@ =~= before + le_bytes(bits));
        }
        i = i + 1;
    }
    proof {
        assert(v@.take(v@.len() as int) =~= v@);
    }
    out
}

/// The numbers can be read back from the bytes: four for each, the lowest first.
pub proof fn law_encoding_reads_back(v: Seq<u32>, i: int)
    requires
        0 <= i < v.len(),
    ensures
        encoded(v).len() == 4 * v.len(),
        from_le_bytes(encoded(v), 4 * i) == v[i],
    decreases v.len(),
{
    let before = encoded(v.drop_last());
    lemma_encoded_len(v.drop_last());
    if i < v.len() - 1 {
        law_encoding_reads_back(v.drop_last(), i);
        assert(encoded(v)[4 * i + 0] == before[4 * i + 0]);
        assert(encoded(v)[4 * i + 1] == before[4 * i + 1]);
        assert(encoded(v)[4 * i + 2] == before[4 * i + 2]);
        assert(encoded(v)[4 * i + 3] == before[4 * i + 3]);
    } else {
        let bits = v.last();
        assert(encoded(v)[4 * i + 0] == le_bytes(bits)[0]);
        assert(encoded(v)[4 * i + 1] == le_bytes(bits)[1]);
        assert(encoded(v)[4 * i + 2] == le_bytes(bits)[2]);
        assert(encoded(v)[4 * i + 3] == le_bytes(bits)[3]);
        assert(bits / 256 / 256 == bits / 65536);
        assert(bits / 65536 / 256 == bits / 16777216);
    }
}

proof fn lemma_encoded_len(v: Seq<u32>)
    ensures
        encoded(v).len() == 4 * v.len(),
    decreases v.len(),
{
    if v.len() > 0 {
        lemma_encoded_len(v.drop_last());
    }
}

/// The text that a message is embedded as: its role, and its content or else its
/// thoughts.
pub open spec fn message_text(
    role: Seq<char>,
    content: Option<Seq<char>>,
    thinking: Option<Seq<char>>,
) -> Seq<char> {
    role + "\n"@ + text_or(or_else(content, thinking), ""@)
}

pub fn text_for_message(role: &str, content: Option<&str>, thinking: Option<&str>) -> (r: String)
    ensures
        r@ == message_text(role@, content.deep_view(), thinking.deep_view()),
{
    let body = match content {
        Some(s) => s,
        None => match thinking {
            Some(s) => s,
            None => "",
        },
    };
    cat3(role, "\n", body)
}

/// The line that asks for the vector of a text.
pub open spec fn request_line_text(id: Seq<char>, text: Seq<char>) -> Seq<char> {
    json_text(fields_tree(seq![("id"@, id), ("text"@, text)]))
}

pub fn request_line(id: &str, text: &str) -> (r: String)
    ensures
        r@ == request_line_text(id@, text@),
{
    let mut fields: Vec<(String, String)> = Vec::new();
    fields.push(("id".to_owned(), id.to_owned()));
    fields.push(("text".to_owned(), text.to_owned()));
    proof {
        assert(fields.deep_view() =~= seq![("id"@, id@), ("text"@, text@)]);
        reveal_strlit("id");
        reveal_strlit("text");
        assert("id"@[0] == 'i' && "text"@[0] == 't');
    }
    fields_text(fields)
}

/// The model and the number of dimensions that the first line of the answer names.
pub open spec fn header_in(v: Tree) -> Result<(Seq<char>, u32), OslError<Seq<char>>> {
    if !(v is Object) {
        Err(OslError::Embed("header is not a JSON object"@))
    } else {
        match v.get_str("type"@) {
            None => Err(OslError::Embed("header missing type"@)),
            Some(t) => if t != "model"@ {
                Err(OslError::Embed("header type is '"@ + t + "', expected 'model'"@))
            } else {
                match v.get_str("model"@) {
                    None => Err(OslError::Embed("header missing model"@)),
                    Some(model) => match unsigned_at(v, "dimensions"@) {
                        None => Err(OslError::Embed("header missing dimensions"@)),
                        Some(n) => if n == 0 || n > u32::MAX {
                            Err(OslError::Embed("invalid dimensions: "@ + decimal_text(n as int)))
                        } else {
                            Ok((model, n as u32))
                        },
                    },
                }
            },
        }
    }
}

pub open spec fn unsigned_at(v: Tree, key: Seq<char>) -> Option<u64> {
    match v.get(key) {
        Some(n) => n.as_u64(),
        None => None,
    }
}

/// Reads the first line of the answer, as JSON.
pub fn header_of(v: &Json) -> (r: Result<(String, u32), OslError>)
    ensures
        outcome(r) == header_in(v.tree()),
{
    if !v.is_object() {
        return Err(OslError::Embed("header is not a JSON object".to_owned()));
    }
    let kind = match v.get_str("type") {
        Some(t) => t,
        None => {
            return Err(OslError::Embed("header missing type".to_owned()));
        },
    };
    if !same(kind, "model") {
        return Err(OslError::Embed(cat3("header type is '", kind, "', expected 'model'")));
    }
    let model = match v.get_str("model") {
        Some(m) => m,
        None => {
            return Err(OslError::Embed("header missing model".to_owned()));
        },
    };
    let given = match v.get("dimensions") {
        Some(n) => n.as_u64(),
        None => None,
    };
    match given {
        None => Err(OslError::Embed("header missing dimensions".to_owned())),
        Some(n) => if n == 0 || n > u32::MAX as u64 {
            Err(OslError::Embed(cat2("invalid dimensions: ", decimal_u64(n).as_str())))
        } else {
            Ok((model.to_owned(), n as u32))
        },
    }
}

/// The first of the items that is no number, or their number.
pub open spec fn first_non_number(items: Seq<Tree>) -> int
    decreases items.len(),
{
    if items.len() == 0 || items[0].as_bits() is None {
        0
    } else {
        1 + first_non_number(items.drop_first())
    }
}

/// The identifier and the vector of a line of the answer, the numbers of the vector as
/// the bit patterns of doubles.
pub open spec fn result_in(v: Tree) -> Result<(Seq<char>, Seq<u64>), OslError<Seq<char>>> {
    if !(v is Object) {
        Err(OslError::Embed("result is not a JSON object"@))
    } else {
        match v.get_str("id"@) {
            None => Err(OslError::Embed("result missing id"@)),
            Some(id) => match array_at(v, "embedding"@) {
                None => Err(OslError::Embed("result missing embedding"@)),
                Some(items) => {
                    let bad = first_non_number(items);
                    if bad < items.len() {
                        Err(
                            OslError::Embed(
                                "embedding["@ + decimal_text(bad) + "] is not a number"@,
                            ),
                        )
                    } else {
                        Ok((id, items.map_values(|item: Tree| item.as_bits()->0)))
                    }
                },
            },
        }
    }
}

pub open spec fn array_at(v: Tree, key: Seq<char>) -> Option<Seq<Tree>> {
    match v.get(key) {
        Some(items) => items.as_array(),
        None => None,
    }
}

/// Reads a line of the answer, as JSON.
pub fn result_of(v: &Json) -> (r: Result<(String, Vec<u64>), OslError>)
    ensures
        outcome(r) == result_in(v.tree()),
{
    if !v.is_object() {
        return Err(OslError::Embed("result is not a JSON object".to_owned()));
    }
    let id = match v.get_str("id") {
        Some(id) => id,
        None => {
            return Err(OslError::Embed("result missing id".to_owned()));
        },
    };
    let given = match v.get("embedding") {
        Some(items) => items.as_array(),
        None => None,
    };
    let items = match given {
        Some(items) => items,
        None => {
            return Err(OslError::Embed("result missing embedding".to_owned()));
        },
    };
    let ghost all = items.deep_view();
    let ghost wanted = all.map_values(|item: Tree| item.as_bits()->0);
    let mut out: Vec<u64> = Vec::new();
    let mut i: usize = 0;
    proof {
        assert(all.skip(0) =~= all);
    }
    while i < items.len()
        invariant
            i <= items@.len(),
            all == items.deep_view(),
            v.tree() is Object,
            v.tree().get_str("id"@) == Some(id@),
            array_at(v.tree(), "embedding"@) == Some(all),
            wanted == all.map_values(|item: Tree| item.as_bits()->0),
            out@.len() == i,
            forall|j: int| 0 <= j < i ==> out@[j] == wanted[j],
            first_non_number(all) == i + first_non_number(all.skip(i as int)),
        decreases items@.len() - i,
    {
        proof {
            assert(all.skip(i as int)[0] == items@[i as int].tree());
            assert(all.skip(i as int).drop_first() =~= all.skip(i as int + 1));
        }
        match items[i].as_bits() {
            Some(bits) => {
                out.push(bits);
            },
            None => {
                return Err(
                    OslError::Embed(
                        cat3("embedding[", decimal_u64(i as u64).as_str(), "] is not a number"),
                    ),
                );
            },
        }
        i = i + 1;
    }
    proof {
        assert(out@ =~= wanted);
        assert(out.deep_view() =~= wanted);
    }
    Ok((id.to_owned(), out))
}

/// What a text that should be JSON gives.
pub open spec fn parsed_header(text: Seq<char>) -> Result<(Seq<char>, u32), OslError<Seq<char>>> {
    match json_parsed(trim_text(text)) {
        Ok(v) => header_in(v),
        Err(e) => Err(OslError::Embed("bad header: "@ + e)),
    }
}

/// Reads the first line of the answer.
pub fn parse_header(line: &str) -> (r: Result<(String, u32), OslError>)
    ensures
        outcome(r) == parsed_header(line@),
{
    match Json::parse(trim(line).as_str()) {
        Ok(v) => header_of(&v),
        Err(e) => Err(OslError::Embed(cat2("bad header: ", e.as_str()))),
    }
}

pub open spec fn parsed_result(text: Seq<char>) -> Result<
    (Seq<char>, Seq<u64>),
    OslError<Seq<char>>,
> {
    match json_parsed(trim_text(text)) {
        Ok(v) => result_in(v),
        Err(e) => Err(OslError::Embed("bad result: "@ + e)),
    }
}

/// Reads a line of the answer.
pub fn parse_result(line: &str) -> (r: Result<(String, Vec<u64>), OslError>)
    ensures
        outcome(r) == parsed_result(line@),
{
    match Json::parse(trim(line).as_str()) {
        Ok(v) => result_of(&v),
        Err(e) => Err(OslError::Embed(cat2("bad result: ", e.as_str()))),
    }
}

/// A message that has no vector yet.
#[derive(Clone, Debug)]
pub struct EmbedRow<S = String> {
    pub id: S,
    pub session_id: S,
    pub role: S,
    pub content: Option<S>,
    pub thinking: Option<S>,
}

pub type EmbedRowView = EmbedRow<Seq<char>>;

impl DeepView for EmbedRow {
    type V = EmbedRowView;

    open spec fn deep_view(&self) -> EmbedRowView {
        EmbedRow {
            id: self.id@,
            session_id: self.session_id@,
            role: self.role@,
            content: self.content.deep_view(),
            thinking: self.thinking.deep_view(),
        }
    }
}

/// A text that is sent to the embedder.
#[derive(Clone, Debug)]
pub struct EmbedInput<S = String> {
    pub id: S,
    pub session_id: S,
    pub text: S,
}

pub type EmbedInputView = EmbedInput<Seq<char>>;

impl DeepView for EmbedInput {
    type V = EmbedInputView;

    open spec fn deep_view(&self) -> EmbedInputView {
        EmbedInput { id: self.id@, session_id: self.session_id@, text: self.text@ }
    }
}

pub open spec fn input_of(row: EmbedRowView) -> EmbedInputView {
    EmbedInput {
        id: row.id,
        session_id: row.session_id,
        text: message_text(row.role, row.content, row.thinking),
    }
}

/// The texts for the first messages, as many as the limit allows.
pub open spec fn inputs_of(rows: Seq<EmbedRowView>, limit: Option<u64>) -> Seq<EmbedInputView> {
    let chosen = match limit {
        Some(n) => if (n as usize) < rows.len() {
            rows.take((n as usize) as int)
        } else {
            rows
        },
        None => rows,
    };
    chosen.map_values(|row: EmbedRowView| input_of(row))
}

/// The texts for the first messages, as many as the limit allows.
pub fn select_inputs(rows: &Vec<EmbedRow>, limit: Option<u64>) -> (r: Vec<EmbedInput>)
    ensures
        r.deep_view() == inputs_of(rows.deep_view(), limit),
{
    let cap: usize = match limit {
        Some(n) => n as usize,
        None => usize::MAX,
    };
    let count: usize = if cap < rows.len() {
        cap
    } else {
        rows.len()
    };
    let ghost wanted = inputs_of(rows.deep_view(), limit);
    let mut out: Vec<EmbedInput> = Vec::new();
    let mut i: usize = 0;
    while i < count
        invariant
            i <= count <= rows@.len(),
            wanted == inputs_of(rows.deep_view(), limit),
            wanted.len() == count,
            out@.len() == i,
            forall|j: int| 0 <= j < i ==> (#[trigger] out@[j]).deep_view() == wanted[j],
        decreases count - i,
    {
        let row = &rows[i];
        let content = match &row.content {
            Some(s) => Some(s.as_str()),
            None => None,
        };
        let thinking = match &row.thinking {
            Some(s) => Some(s.as_str()),
            None => None,
        };
        proof {
            assert(wanted[i as int] == input_of(rows@[i as int].deep_view()));
        }
        out.push(
            EmbedInput {
                id: row.id.clone(),
                session_id: row.session_id.clone(),
                text: text_for_message(row.role.as_str(), content, thinking),
            },
        );
        i = i + 1;
    }
    proof {
        assert(out.deep_view() =~= wanted);
    }
    out
}

/// What an embedder's answer has come to so far.
#[derive(Debug)]
pub struct EmbedRun {
    header: Option<(String, u32)>,
    waiting: Vec<(String, String)>,
    embedded: u64,
    counts: Vec<(String, u64)>,
}

/// What an embedder's answer has come to so far.
pub struct RunView {
    /// The model and the number of dimensions, once they are known.
    pub header: Option<(Seq<char>, u32)>,
    /// The messages that have no answer yet, each with its session.
    pub waiting: Seq<(Seq<char>, Seq<char>)>,
    /// How many vectors have come.
    pub embedded: int,
    /// For each session that a vector came for, how many did.
    pub counts: Seq<(Seq<char>, u64)>,
}

impl View for EmbedRun {
    type V = RunView;

    closed spec fn view(&self) -> RunView {
        RunView {
            header: self.header.deep_view(),
            waiting: self.waiting.deep_view(),
            embedded: self.embedded as int,
            counts: self.counts.deep_view(),
        }
    }
}

/// What to do about a line of the answer.
#[derive(Debug)]
pub enum EmbedAction {
    /// Nothing: the line is blank.
    Skip,
    /// Nothing yet: the line named the model.
    Begin,
    /// Store the vector of a message, and count it for the session.
    Store { id: String, session_id: String, embedding: Vec<u64> },
}

pub enum ActionView {
    Skip,
    Begin,
    Store { id: Seq<char>, session_id: Seq<char>, embedding: Seq<u64> },
}

impl DeepView for EmbedAction {
    type V = ActionView;

    open spec fn deep_view(&self) -> ActionView {
        match self {
            EmbedAction::Skip => ActionView::Skip,
            EmbedAction::Begin => ActionView::Begin,
            EmbedAction::Store { id, session_id, embedding } => ActionView::Store {
                id: id@,
                session_id: session_id@,
                embedding: embedding@,
            },
        }
    }
}

/// The session of a message that waits for its vector.
pub open spec fn session_of(waiting: Seq<(Seq<char>, Seq<char>)>, id: Seq<char>) -> Option<
    Seq<char>,
>
    decreases waiting.len(),
{
    if waiting.len() == 0 {
        None
    } else if waiting.last().0 == id {
        Some(waiting.last().1)
    } else {
        session_of(waiting.drop_last(), id)
    }
}

/// The messages that wait, without this one.
pub open spec fn answered(waiting: Seq<(Seq<char>, Seq<char>)>, id: Seq<char>) -> Seq<
    (Seq<char>, Seq<char>),
>
    decreases waiting.len(),
{
    if waiting.len() == 0 {
        Seq::empty()
    } else if waiting.last().0 == id {
        answered(waiting.drop_last(), id)
    } else {
        answered(waiting.drop_last(), id).push(waiting.last())
    }
}

/// The index of the session's count, or the number of counts where it has none.
pub open spec fn count_position(counts: Seq<(Seq<char>, u64)>, session: Seq<char>) -> int
    decreases counts.len(),
{
    if counts.len() == 0 || counts[0].0 == session {
        0
    } else {
        1 + count_position(counts.drop_first(), session)
    }
}

/// One more vector for the session.
pub open spec fn counted(counts: Seq<(Seq<char>, u64)>, session: Seq<char>) -> Seq<
    (Seq<char>, u64),
> {
    let at = count_position(counts, session);
    if at < counts.len() {
        counts.update(at, (session, (counts[at].1 + 1) as u64))
    } else {
        counts.push((session, 1u64))
    }
}

/// What a line that should hold a vector comes to.
pub open spec fn stored(
    run: RunView,
    dimensions: u32,
    result: Result<(Seq<char>, Seq<u64>), OslError<Seq<char>>>,
) -> Result<(RunView, ActionView), OslError<Seq<char>>> {
    match result {
        Err(e) => Err(e),
        Ok((id, embedding)) => if embedding.len() != dimensions {
            Err(
                OslError::Embed(
                    "dimension mismatch: message "@ + id + " has "@ + decimal_text(
                        embedding.len() as int,
                    ) + " dims, expected "@ + decimal_text(dimensions as int),
                ),
            )
        } else {
            match session_of(run.waiting, id) {
                None => Err(OslError::Embed("embedder returned unknown id: "@ + id)),
                Some(session_id) => Ok(
                    (
                        RunView {
                            waiting: answered(run.waiting, id),
                            embedded: run.embedded + 1,
                            counts: counted(run.counts, session_id),
                            ..run
                        },
                        ActionView::Store { id, session_id, embedding },
                    ),
                ),
            }
        },
    }
}

/// What a line that is not blank comes to; `value` is the line as JSON.
pub open spec fn advanced(run: RunView, value: Result<Tree, Seq<char>>) -> Result<
    (RunView, ActionView),
    OslError<Seq<char>>,
> {
    match run.header {
        None => match value {
            Err(e) => Err(OslError::Embed("bad header: "@ + e)),
            Ok(v) => match header_in(v) {
                Err(e) => Err(e),
                Ok(header) => Ok((RunView { header: Some(header), ..run }, ActionView::Begin)),
            },
        },
        Some((_, dimensions)) => match value {
            Err(e) => Err(OslError::Embed("bad result: "@ + e)),
            Ok(v) => stored(run, dimensions, result_in(v)),
        },
    }
}

/// Whether a run came to the next one by a step that gave this result: a step that fails
/// changes nothing.
pub open spec fn came_to(
    before: RunView,
    after: RunView,
    result: Result<ActionView, OslError<Seq<char>>>,
    step: Result<(RunView, ActionView), OslError<Seq<char>>>,
) -> bool {
    match step {
        Ok((next, action)) => after == next && result == Ok::<ActionView, OslError<Seq<char>>>(
            action,
        ),
        Err(e) => after == before && result == Err::<ActionView, OslError<Seq<char>>>(e),
    }
}

/// The messages that wait for their vectors, each with its session.
pub open spec fn waiting_for(inputs: Seq<EmbedInputView>) -> Seq<(Seq<char>, Seq<char>)> {
    inputs.map_values(|input: EmbedInputView| (input.id, input.session_id))
}

/// Before the first line of the answer.
pub open spec fn run_start(inputs: Seq<EmbedInputView>) -> RunView {
    RunView {
        header: None,
        waiting: waiting_for(inputs),
        embedded: 0,
        counts: Seq::empty(),
    }
}

fn find_session(waiting: &Vec<(String, String)>, id: &str) -> (r: Option<String>)
    ensures
        r.deep_view() == session_of(waiting.deep_view(), id@),
{
    let ghost all = waiting.deep_view();
    let mut i: usize = waiting.len();
    proof {
        assert(all.take(all.len() as int) =~= all);
    }
    while i > 0
        invariant
            i <= waiting@.len(),
            all == waiting.deep_view(),
            session_of(all, id@) == session_of(all.take(i as int), id@),
        decreases i,
    {
        proof {
            assert(all.take(i as int).drop_last() =~= all.take(i as int - 1));
            assert(all.take(i as int).last() == waiting@[i as int - 1].deep_view());
        }
        i = i - 1;
        if same(waiting[i].0.as_str(), id) {
            return Some(waiting[i].1.clone());
        }
    }
    None
}

fn without_answered(waiting: &Vec<(String, String)>, id: &str) -> (r: Vec<(String, String)>)
    ensures
        r.deep_view() == answered(waiting.deep_view(), id@),
{
    let ghost all = waiting.deep_view();
    let mut out: Vec<(String, String)> = Vec::new();
    let mut i: usize = 0;
    proof {
        assert(out.deep_view() =~= answered(all.take(0), id@));
    }
    while i < waiting.len()
        invariant
            i <= waiting@.len(),
            all == waiting.deep_view(),
            out.deep_view() == answered(all.take(i as int), id@),
        decreases waiting@.len() - i,
    {
        proof {
            assert(all.take(i as int + 1).drop_last() =~= all.take(i as int));
            assert(all.take(i as int + 1).last() == waiting@[i as int].deep_view());
        }
        if !same(waiting[i].0.as_str(), id) {
            add_item(&mut out, (waiting[i].0.clone(), waiting[i].1.clone()));
        }
        i = i + 1;
    }
    proof {
        assert(all.take(all.len() as int) =~= all);
    }
    out
}

fn find_count(counts: &Vec<(String, u64)>, session: &str) -> (r: usize)
    ensures
        r == count_position(counts.deep_view(), session@),
        r <= counts@.len(),
        r < counts@.len() ==> counts@[r as int].0@ == session@,
{
    let ghost all = counts.deep_view();
    let mut i: usize = 0;
    proof {
        assert(all.skip(0) =~= all);
    }
    while i < counts.len()
        invariant
            i <= counts@.len(),
            all == counts.deep_view(),
            count_position(all, session@) == i + count_position(all.skip(i as int), session@),
        decreases counts@.len() - i,
    {
        proof {
            assert(all.skip(i as int)[0] == counts@[i as int].deep_view());
            assert(all.skip(i as int).drop_first() =~= all.skip(i as int + 1));
        }
        if same(counts[i].0.as_str(), session) {
            return i;
        }
        i = i + 1;
    }
    i
}

/// A message that had its vector no longer waits, and nothing else changes.
proof fn lemma_answered(waiting: Seq<(Seq<char>, Seq<char>)>, id: Seq<char>)
    ensures
        answered(waiting, id).len() <= waiting.len(),
        session_of(waiting, id) is Some ==> answered(waiting, id).len() < waiting.len(),
        session_of(answered(waiting, id), id) is None,
    decreases waiting.len(),
{
    if waiting.len() > 0 {
        lemma_answered(waiting.drop_last(), id);
        if waiting.last().0 != id {
            let rest = answered(waiting.drop_last(), id);
            assert(rest.push(waiting.last()).drop_last() =~= rest);
        }
    }
}

impl EmbedRun {
    /// Each answer takes a message from those that wait.
    #[verifier::type_invariant]
    spec fn counts_are_bounded(self) -> bool {
        &&& self.embedded + self.waiting@.len() <= usize::MAX
        &&& forall|i: int| 0 <= i < self.counts@.len() ==> (#[trigger] self.counts@[i]).1
            <= self.embedded
    }

    /// Before the first line of the answer.
    pub fn new(inputs: &Vec<EmbedInput>) -> (r: EmbedRun)
        ensures
            r@.header is None,
            r@.waiting == waiting_for(inputs.deep_view()),
            r@.embedded == 0,
            r@.counts == Seq::<(Seq<char>, u64)>::empty(),
            r@ == run_start(inputs.deep_view()),
    {
        let ghost wanted = waiting_for(inputs.deep_view());
        let mut waiting: Vec<(String, String)> = Vec::new();
        let mut i: usize = 0;
        while i < inputs.len()
            invariant
                i <= inputs@.len(),
                wanted == waiting_for(inputs.deep_view()),
                waiting@.len() == i,
                forall|j: int| 0 <= j < i ==> (#[trigger] waiting@[j]).deep_view() == wanted[j],
            decreases inputs@.len() - i,
        {
            proof {
                assert(wanted[i as int] == (inputs@[i as int].id@, inputs@[i as int].session_id@));
            }
            waiting.push((inputs[i].id.clone(), inputs[i].session_id.clone()));
            i = i + 1;
        }
        let counts: Vec<(String, u64)> = Vec::new();
        proof {
            assert(waiting.deep_view() =~= wanted);
            assert(counts.deep_view() =~= Seq::<(Seq<char>, u64)>::empty());
        }
        EmbedRun { header: None, waiting, embedded: 0, counts }
    }

    /// Takes in a vector.
    fn store(self, dimensions: u32, id: String, embedding: Vec<u64>) -> (r: (
        EmbedRun,
        Result<EmbedAction, OslError>,
    ))
        ensures
            came_to(
                self@,
                r.0@,
                outcome(r.1),
                stored(self@, dimensions, Ok((id@, embedding@))),
            ),
    {
        proof {
            use_type_invariant(&self);
        }
        if embedding.len() as u64 != dimensions as u64 {
            let mut message = cat5(
                "dimension mismatch: message ",
                id.as_str(),
                " has ",
                decimal_u64(embedding.len() as u64).as_str(),
                " dims, expected ",
            );
            message.append(decimal_u64(dimensions as u64).as_str());
            return (self, Err(OslError::Embed(message)));
        }
        let session_id = match find_session(&self.waiting, id.as_str()) {
            Some(session_id) => session_id,
            None => {
                let message = cat2("embedder returned unknown id: ", id.as_str());
                return (self, Err(OslError::Embed(message)));
            },
        };
        let waiting = without_answered(&self.waiting, id.as_str());
        proof {
            lemma_answered(self.waiting.deep_view(), id@);
            assert(self.waiting.deep_view().len() == self.waiting@.len());
            assert(waiting.deep_view().len() == waiting@.len());
        }
        let EmbedRun { header, waiting: _, embedded, counts } = self;
        let mut counts = counts;
        let ghost before = counts.deep_view();
        let at: usize = find_count(&counts, session_id.as_str());
        if at < counts.len() {
            let n: u64 = counts[at].1;
            counts.set(at, (session_id.clone(), n + 1));
            proof {
                assert(counts.deep_view() =~= before.update(at as int, (session_id@, (n + 1) as u64)));
            }
        } else {
            counts.push((session_id.clone(), 1));
            proof {
                assert(counts.deep_view() =~= before.push((session_id@, 1u64)));
            }
        }
        let next = EmbedRun { header, waiting, embedded: embedded + 1, counts };
        (next, Ok(EmbedAction::Store { id, session_id, embedding }))
    }

    /// Takes in a line that is not blank, read as JSON.
    pub fn advance(self, value: &Result<Json, String>) -> (r: (
        EmbedRun,
        Result<EmbedAction, OslError>,
    ))
        ensures
            came_to(
                self@,
                r.0@,
                outcome(r.1),
                advanced(
                    self@,
                    match value {
                        Ok(v) => Ok(v.tree()),
                        Err(e) => Err(e@),
                    },
                ),
            ),
    {
        proof {
            use_type_invariant(&self);
        }
        match &self.header {
            None => match value {
                Err(e) => (self, Err(OslError::Embed(cat2("bad header: ", e.as_str())))),
                Ok(v) => match header_of(v) {
                    Err(e) => (self, Err(e)),
                    Ok(header) => {
                        let EmbedRun { header: _, waiting, embedded, counts } = self;
                        let next = EmbedRun { header: Some(header), waiting, embedded, counts };
                        (next, Ok(EmbedAction::Begin))
                    },
                },
            },
            Some((_, dimensions)) => {
                let dimensions: u32 = *dimensions;
                match value {
                    Err(e) => (self, Err(OslError::Embed(cat2("bad result: ", e.as_str())))),
                    Ok(v) => match result_of(v) {
                        Err(e) => (self, Err(e)),
                        Ok((id, embedding)) => {
                            proof {
                                assert(embedding.deep_view() =~= embedding@);
                            }
                            self.store(dimensions, id, embedding)
                        },
                    },
                }
            },
        }
    }

    /// Takes in a line of the answer.
    pub fn on_line(self, line: &str) -> (r: (EmbedRun, Result<EmbedAction, OslError>))
        ensures
            is_blank_text(line@) ==> r.0@ == self@ && outcome(r.1) == Ok::<
                ActionView,
                OslError<Seq<char>>,
            >(ActionView::Skip),
            !is_blank_text(line@) ==> came_to(
                self@,
                r.0@,
                outcome(r.1),
                advanced(self@, json_parsed(trim_text(line@))),
            ),
    {
        if is_blank(line) {
            return (self, Ok(EmbedAction::Skip));
        }
        let value = Json::parse(trim(line).as_str());
        self.advance(&value)
    }

    /// What the run has done, once the answer has ended.
    pub fn stats(&self) -> (r: Result<EmbedStats, OslError>)
        ensures
            outcome(r) == stats_of(self@),
    {
        proof {
            assert(self.counts.deep_view().len() == self.counts@.len());
        }
        match &self.header {
            None => Err(OslError::Embed("embedder produced no header line".to_owned())),
            Some((model, dimensions)) => Ok(
                EmbedStats {
                    messages_embedded: self.embedded,
                    sessions_summarized: self.counts.len() as u64,
                    model: model.clone(),
                    dimensions: *dimensions,
                },
            ),
        }
    }

    /// How many vectors came for a session.
    pub fn count_of(&self, session_id: &str) -> (r: u64)
        ensures
            r == count_for(self@.counts, session_id@),
    {
        proof {
            assert(self.counts.deep_view().len() == self.counts@.len());
        }
        let at: usize = find_count(&self.counts, session_id);
        if at < self.counts.len() {
            self.counts[at].1
        } else {
            0
        }
    }
}

/// How many vectors came for a session.
pub open spec fn count_for(counts: Seq<(Seq<char>, u64)>, session: Seq<char>) -> u64 {
    let at = count_position(counts, session);
    if at < counts.len() {
        counts[at].1
    } else {
        0
    }
}

/// What the run has done, once the answer has ended.
pub open spec fn stats_of(run: RunView) -> Result<EmbedStatsView, OslError<Seq<char>>> {
    match run.header {
        None => Err(OslError::Embed("embedder produced no header line"@)),
        Some((model, dimensions)) => Ok(
            EmbedStats {
                messages_embedded: run.embedded as u64,
                sessions_summarized: run.counts.len() as u64,
                model,
                dimensions,
            },
        ),
    }
}

/// A vector is taken once: after a message has had its vector, another one for the same
/// message is an error.
pub proof fn law_one_vector_per_message(
    run: RunView,
    dimensions: u32,
    id: Seq<char>,
    first: Seq<u64>,
    second: Seq<u64>,
)
    requires
        first.len() == dimensions,
        second.len() == dimensions,
        session_of(run.waiting, id) is Some,
    ensures
        stored(run, dimensions, Ok((id, first))) matches Ok((next, _)) && stored(
            next,
            dimensions,
            Ok((id, second)),
        ) == Err::<(RunView, ActionView), OslError<Seq<char>>>(
            OslError::Embed("embedder returned unknown id: "@ + id),
        ),
{
    lemma_answered(run.waiting, id);
}

}
