//! The jump-to-definition tool: the request it sends, how the server's answer
//! is read, and when an empty answer is asked for again.

use vstd::prelude::*;

use crate::json::{array, json_string, lemma_lookup_member, json_uint, lemma_items_of, obj, object1, object2, object3, str_json, Json, JsonValue, NumberView};

verus! {

/// Zero-based line/character span of a definition target.
#[derive(Clone, Copy, Debug, PartialEq, Eq, Structural)]
pub struct TextRange {
    pub start_line: u32,
    pub start_character: u32,
    pub end_line: u32,
    pub end_character: u32,
}

/// One place where the symbol is defined.
#[derive(Debug)]
pub struct DefinitionTarget {
    pub uri: String,
    pub range: TextRange,
}

/// All definition targets that the server reported.
#[derive(Debug)]
pub struct DefinitionResponse {
    pub targets: Vec<DefinitionTarget>,
}

/// A definition lookup: a `file://` URI and a zero-based position in it.
#[derive(Debug)]
pub struct DefinitionRequest {
    /// file:// URI of the document
    pub uri: String,
    /// Zero-based line index
    pub line: u32,
    /// Zero-based character index
    pub character: u32,
}

/// Mathematical view of a definition target.
pub struct TargetView {
    pub uri: Seq<char>,
    pub range: TextRange,
}

impl View for DefinitionTarget {
    type V = TargetView;

    open spec fn view(&self) -> TargetView {
        TargetView { uri: self.uri@, range: self.range }
    }
}

impl View for DefinitionResponse {
    type V = Seq<TargetView>;

    open spec fn view(&self) -> Seq<TargetView> {
        self.targets@.map_values(|t: DefinitionTarget| t@)
    }
}

/// Which of the two location shapes of the protocol an entry has.
#[derive(Clone, Copy, Debug, PartialEq, Eq, Structural)]
pub enum LocationForm {
    /// `{ uri, range }`
    Location,
    /// `{ targetUri, targetRange, ... }`
    LocationLink,
}

/// The start or the end of a range.
#[derive(Clone, Copy, Debug, PartialEq, Eq, Structural)]
pub enum RangeEnd {
    Start,
    End,
}

/// A coordinate of a position.
#[derive(Clone, Copy, Debug, PartialEq, Eq, Structural)]
pub enum Coordinate {
    Line,
    Character,
}

/// Why a definition answer could not be read.
#[derive(Debug)]
pub enum DefinitionError {
    /// The answer is neither null, an object nor an array (the answer is kept).
    UnexpectedFormat(JsonValue),
    /// An entry of the answer is not an object.
    EntryNotObject,
    /// An entry has neither `uri` nor `targetUri` (the entry is kept).
    MissingLocationFields(JsonValue),
    /// The URI member is not a string.
    UriNotString(LocationForm),
    /// The range member is missing.
    RangeMissing(LocationForm),
    /// The range is not an object.
    RangeNotObject,
    /// The range has no `start` (or no `end`).
    RangeEndMissing(RangeEnd),
    /// A coordinate is missing or not an unsigned integer.
    InvalidCoordinate(RangeEnd, Coordinate),
}

/// Mathematical view of a `DefinitionError`.
pub enum DefinitionFailure {
    UnexpectedFormat(Json),
    EntryNotObject,
    MissingLocationFields(Json),
    UriNotString(LocationForm),
    RangeMissing(LocationForm),
    RangeNotObject,
    RangeEndMissing(RangeEnd),
    InvalidCoordinate(RangeEnd, Coordinate),
}

impl View for DefinitionError {
    type V = DefinitionFailure;

    open spec fn view(&self) -> DefinitionFailure {
        match self {
            DefinitionError::UnexpectedFormat(v) => DefinitionFailure::UnexpectedFormat(v@),
            DefinitionError::EntryNotObject => DefinitionFailure::EntryNotObject,
            DefinitionError::MissingLocationFields(v) => DefinitionFailure::MissingLocationFields(v@),
            DefinitionError::UriNotString(f) => DefinitionFailure::UriNotString(*f),
            DefinitionError::RangeMissing(f) => DefinitionFailure::RangeMissing(*f),
            DefinitionError::RangeNotObject => DefinitionFailure::RangeNotObject,
            DefinitionError::RangeEndMissing(e) => DefinitionFailure::RangeEndMissing(*e),
            DefinitionError::InvalidCoordinate(e, c) => DefinitionFailure::InvalidCoordinate(*e, *c),
        }
    }
}

pub open spec fn coordinate_key(c: Coordinate) -> Seq<char> {
    match c {
        Coordinate::Line => "line"@,
        Coordinate::Character => "character"@,
    }
}

pub open spec fn range_end_key(e: RangeEnd) -> Seq<char> {
    match e {
        RangeEnd::Start => "start"@,
        RangeEnd::End => "end"@,
    }
}

pub open spec fn uri_key(f: LocationForm) -> Seq<char> {
    match f {
        LocationForm::Location => "uri"@,
        LocationForm::LocationLink => "targetUri"@,
    }
}

pub open spec fn range_key(f: LocationForm) -> Seq<char> {
    match f {
        LocationForm::Location => "range"@,
        LocationForm::LocationLink => "targetRange"@,
    }
}

/// A coordinate of a position object: the member read as an unsigned
/// integer and cut to its low 32 bits (`as u32`).
pub open spec fn spec_coordinate(position: Json, c: Coordinate) -> Option<u32> {
    match position.get(coordinate_key(c)) {
        Some(n) => match n.as_u64() {
            Some(x) => Some(x as u32),
            None => None,
        },
        None => None,
    }
}

/// How a range object is read.
pub open spec fn spec_parse_range(v: Json) -> Result<TextRange, DefinitionFailure> {
    if !v.is_object() {
        Err(DefinitionFailure::RangeNotObject)
    } else {
        match (v.get("start"@), v.get("end"@)) {
            (None, _) => Err(DefinitionFailure::RangeEndMissing(RangeEnd::Start)),
            (Some(_), None) => Err(DefinitionFailure::RangeEndMissing(RangeEnd::End)),
            (Some(start), Some(end)) => {
                match (
                    spec_coordinate(start, Coordinate::Line),
                    spec_coordinate(start, Coordinate::Character),
                    spec_coordinate(end, Coordinate::Line),
                    spec_coordinate(end, Coordinate::Character),
                ) {
                    (None, _, _, _) => Err(DefinitionFailure::InvalidCoordinate(RangeEnd::Start, Coordinate::Line)),
                    (Some(_), None, _, _) => Err(DefinitionFailure::InvalidCoordinate(RangeEnd::Start, Coordinate::Character)),
                    (Some(_), Some(_), None, _) => Err(DefinitionFailure::InvalidCoordinate(RangeEnd::End, Coordinate::Line)),
                    (Some(_), Some(_), Some(_), None) => Err(DefinitionFailure::InvalidCoordinate(RangeEnd::End, Coordinate::Character)),
                    (Some(a), Some(b), Some(c), Some(d)) => Ok(TextRange { start_line: a, start_character: b, end_line: c, end_character: d }),
                }
            },
        }
    }
}

/// How an entry of a given form is read: its URI string, then its range.
pub open spec fn spec_convert_form(v: Json, form: LocationForm) -> Result<TargetView, DefinitionFailure> {
    match v.get(uri_key(form)) {
        Some(u) if u.as_str() is Some => match v.get(range_key(form)) {
            Some(r) => match spec_parse_range(r) {
                Ok(range) => Ok(TargetView { uri: u.as_str()->0, range }),
                Err(e) => Err(e),
            },
            None => Err(DefinitionFailure::RangeMissing(form)),
        },
        _ => Err(DefinitionFailure::UriNotString(form)),
    }
}

/// How one entry is read: a `Location` when it has `uri`, else a
/// `LocationLink` when it has `targetUri`.
pub open spec fn spec_convert_location(v: Json) -> Result<TargetView, DefinitionFailure> {
    if !v.is_object() {
        Err(DefinitionFailure::EntryNotObject)
    } else if v.get("uri"@) is Some {
        spec_convert_form(v, LocationForm::Location)
    } else if v.get("targetUri"@) is Some {
        spec_convert_form(v, LocationForm::LocationLink)
    } else {
        Err(DefinitionFailure::MissingLocationFields(v))
    }
}

/// Entries read in order; the first entry that cannot be read decides the error.
pub open spec fn spec_convert_all(entries: Seq<Json>) -> Result<Seq<TargetView>, DefinitionFailure>
    decreases entries.len(),
{
    if entries.len() == 0 {
        Ok(Seq::empty())
    } else {
        match spec_convert_all(entries.drop_last()) {
            Err(e) => Err(e),
            Ok(ts) => match spec_convert_location(entries.last()) {
                Ok(t) => Ok(ts.push(t)),
                Err(e) => Err(e),
            },
        }
    }
}

/// How a definition answer is read: `null` is no target, an object is one
/// target, an array is one target per entry.
pub open spec fn spec_normalize_targets(v: Json) -> Result<Seq<TargetView>, DefinitionFailure> {
    match v {
        Json::Null => Ok(Seq::empty()),
        Json::Array(entries) => spec_convert_all(entries),
        Json::Object(_) => match spec_convert_location(v) {
            Ok(t) => Ok(seq![t]),
            Err(e) => Err(e),
        },
        _ => Err(DefinitionFailure::UnexpectedFormat(v)),
    }
}

/// Reads the coordinate `coord` of a position object (`line` or `character`).
fn get_coord(value: &JsonValue, coord: Coordinate, position_label: RangeEnd) -> (res: Result<u32, DefinitionError>)
    ensures
        match res {
            Ok(x) => spec_coordinate(value@, coord) == Some(x),
            Err(e) => spec_coordinate(value@, coord) is None
                && e@ == DefinitionFailure::InvalidCoordinate(position_label, coord),
        },
{
    let key = match coord {
        Coordinate::Line => "line",
        Coordinate::Character => "character",
    };
    match value.get(key) {
        Some(n) => match n.as_u64() {
            Some(x) => Ok(x as u32),
            None => Err(DefinitionError::InvalidCoordinate(position_label, coord)),
        },
        None => Err(DefinitionError::InvalidCoordinate(position_label, coord)),
    }
}

/// Reads a range object: its `start` and `end` positions.
fn parse_range(value: &JsonValue) -> (res: Result<TextRange, DefinitionError>)
    ensures
        match res {
            Ok(r) => spec_parse_range(value@) == Ok::<TextRange, DefinitionFailure>(r),
            Err(e) => spec_parse_range(value@) == Err::<TextRange, DefinitionFailure>(e@),
        },
{
    if !value.is_object() {
        return Err(DefinitionError::RangeNotObject);
    }
    let start = match value.get("start") {
        Some(s) => s,
        None => return Err(DefinitionError::RangeEndMissing(RangeEnd::Start)),
    };
    let end = match value.get("end") {
        Some(e) => e,
        None => return Err(DefinitionError::RangeEndMissing(RangeEnd::End)),
    };
    let start_line = get_coord(start, Coordinate::Line, RangeEnd::Start)?;
    let start_character = get_coord(start, Coordinate::Character, RangeEnd::Start)?;
    let end_line = get_coord(end, Coordinate::Line, RangeEnd::End)?;
    let end_character = get_coord(end, Coordinate::Character, RangeEnd::End)?;
    Ok(TextRange { start_line, start_character, end_line, end_character })
}

/// Reads an entry of the given form: its URI string member, then its range.
fn convert_form(object: &JsonValue, form: LocationForm) -> (res: Result<DefinitionTarget, DefinitionError>)
    ensures
        match res {
            Ok(t) => spec_convert_form(object@, form) == Ok::<TargetView, DefinitionFailure>(t@),
            Err(e) => spec_convert_form(object@, form) == Err::<TargetView, DefinitionFailure>(e@),
        },
{
    let (uri_name, range_name) = match form {
        LocationForm::Location => ("uri", "range"),
        LocationForm::LocationLink => ("targetUri", "targetRange"),
    };
    let uri = match object.get(uri_name) {
        Some(u) => match u.as_str() {
            Some(s) => s,
            None => return Err(DefinitionError::UriNotString(form)),
        },
        None => return Err(DefinitionError::UriNotString(form)),
    };
    let range_value = match object.get(range_name) {
        Some(r) => r,
        None => return Err(DefinitionError::RangeMissing(form)),
    };
    let range = parse_range(range_value)?;
    Ok(DefinitionTarget { uri: uri.clone(), range })
}

/// Reads a `Location` entry: `{ uri, range }`.
fn convert_standard_location(object: &JsonValue) -> (res: Result<DefinitionTarget, DefinitionError>)
    ensures
        match res {
            Ok(t) => spec_convert_form(object@, LocationForm::Location) == Ok::<TargetView, DefinitionFailure>(t@),
            Err(e) => spec_convert_form(object@, LocationForm::Location) == Err::<TargetView, DefinitionFailure>(e@),
        },
{
    convert_form(object, LocationForm::Location)
}

/// Reads a `LocationLink` entry: `{ targetUri, targetRange, ... }`.
fn convert_location_link(object: &JsonValue) -> (res: Result<DefinitionTarget, DefinitionError>)
    ensures
        match res {
            Ok(t) => spec_convert_form(object@, LocationForm::LocationLink) == Ok::<TargetView, DefinitionFailure>(t@),
            Err(e) => spec_convert_form(object@, LocationForm::LocationLink) == Err::<TargetView, DefinitionFailure>(e@),
        },
{
    convert_form(object, LocationForm::LocationLink)
}

/// Reads one entry of a definition answer, in either location form.
pub fn convert_location(value: &JsonValue) -> (res: Result<DefinitionTarget, DefinitionError>)
    ensures
        match res {
            Ok(t) => spec_convert_location(value@) == Ok::<TargetView, DefinitionFailure>(t@),
            Err(e) => spec_convert_location(value@) == Err::<TargetView, DefinitionFailure>(e@),
        },
{
    if !value.is_object() {
        return Err(DefinitionError::EntryNotObject);
    }
    if value.contains_key("uri") {
        convert_standard_location(value)
    } else if value.contains_key("targetUri") {
        convert_location_link(value)
    } else {
        Err(DefinitionError::MissingLocationFields(value.deep_clone()))
    }
}

/// Reads a definition answer, which the protocol allows to be `null`, a
/// `Location`, an array of `Location`s or an array of `LocationLink`s.
pub fn normalize_targets(value: &JsonValue) -> (res: Result<Vec<DefinitionTarget>, DefinitionError>)
    ensures
        match res {
            Ok(ts) => spec_normalize_targets(value@) == Ok::<Seq<TargetView>, DefinitionFailure>(
                ts@.map_values(|t: DefinitionTarget| t@),
            ),
            Err(e) => spec_normalize_targets(value@) == Err::<Seq<TargetView>, DefinitionFailure>(e@),
        },
{
    match value {
        JsonValue::Null => {
            let ts: Vec<DefinitionTarget> = Vec::new();
            assert(ts@.map_values(|t: DefinitionTarget| t@) =~= Seq::<TargetView>::empty());
            Ok(ts)
        },
        JsonValue::Array(entries) => {
            let ghost es = value@->Array_0;
            proof {
                crate::json::lemma_items_of(entries@);
            }
            let mut ts: Vec<DefinitionTarget> = Vec::new();
            let mut i: usize = 0;
            assert(es.take(0) =~= Seq::<Json>::empty());
            assert(ts@.map_values(|t: DefinitionTarget| t@) =~= Seq::<TargetView>::empty());
            while i < entries.len()
                invariant
                    i <= entries.len(),
                    es.len() == entries.len(),
                    forall|j: int| 0 <= j < entries.len() ==> #[trigger] es[j] == entries[j]@,
                    spec_convert_all(es.take(i as int)) == Ok::<Seq<TargetView>, DefinitionFailure>(
                        ts@.map_values(|t: DefinitionTarget| t@),
                    ),
                    spec_normalize_targets(value@) == spec_convert_all(es),
                decreases entries.len() - i,
            {
                assert(es.take(i + 1).drop_last() =~= es.take(i as int));
                assert(es.take(i + 1).last() == es[i as int]);
                match convert_location(&entries[i]) {
                    Ok(t) => {
                        let ghost before = ts@;
                        ts.push(t);
                        assert(ts@.map_values(|t: DefinitionTarget| t@) =~= before.map_values(
                            |t: DefinitionTarget| t@,
                        ).push(t@));
                    },
                    Err(e) => {
                        proof {
                            lemma_convert_all_error(es, i as int + 1);
                        }
                        return Err(e);
                    },
                }
                i = i + 1;
            }
            assert(es.take(entries.len() as int) =~= es);
            Ok(ts)
        },
        JsonValue::Object(_) => {
            let t = convert_location(value)?;
            let ts = vec![t];
            assert(ts@.map_values(|t: DefinitionTarget| t@) =~= seq![ts@[0]@]);
            Ok(ts)
        },
        _ => Err(DefinitionError::UnexpectedFormat(value.deep_clone())),
    }
}

/// An error in the first `i` entries is the error of all of them.
proof fn lemma_convert_all_error(entries: Seq<Json>, i: int)
    requires
        0 <= i <= entries.len(),
        spec_convert_all(entries.take(i)) is Err,
    ensures
        spec_convert_all(entries) == spec_convert_all(entries.take(i)),
    decreases entries.len() - i,
{
    if i < entries.len() {
        assert(entries.take(i + 1).drop_last() =~= entries.take(i));
        lemma_convert_all_error(entries, i + 1);
    } else {
        assert(entries.take(i) =~= entries);
    }
}

/// Number of times an empty answer is asked for before it is accepted.
pub const MAX_RETRIES: u32 = 3;

/// Pause between two asks, in milliseconds.
pub const RETRY_DELAY_MS: u64 = 150;

/// The jump-to-definition tool.
#[derive(Debug, Default, Clone, Copy)]
pub struct DefinitionTool;

/// A schema property of the given type with a description.
pub open spec fn spec_property(ty: Seq<char>, description: Seq<char>) -> Json {
    obj(seq![("type"@, str_json(ty)), ("description"@, str_json(description))])
}

/// The input schema of the tool.
pub open spec fn spec_schema() -> Json {
    obj(
        seq![
            ("type"@, str_json("object"@)),
            ("properties"@, obj(seq![
                ("uri"@, spec_property("string"@, "file:// URI of the document"@)),
                ("line"@, spec_property("integer"@, "Zero-based line index"@)),
                ("character"@, spec_property("integer"@, "Zero-based character index"@)),
            ])),
            ("required"@, Json::Array(seq![str_json("uri"@), str_json("line"@), str_json("character"@)])),
        ],
    )
}

/// The tool's descriptor: its name, description and input schema.
pub open spec fn spec_descriptor() -> Json {
    obj(
        seq![
            ("name"@, str_json("definition"@)),
            ("description"@, str_json(spec_description())),
            ("inputSchema"@, spec_schema()),
        ],
    )
}

pub open spec fn spec_description() -> Seq<char> {
    "Return LSP-backed jump-to-definition targets for a given URI and position"@
}

/// The parameters of a `textDocument/definition` request.
pub open spec fn spec_definition_params(uri: Seq<char>, line: u32, character: u32) -> Json {
    obj(
        seq![
            ("textDocument"@, obj(seq![("uri"@, str_json(uri))])),
            ("position"@, obj(seq![
                ("line"@, Json::Number(NumberView::PosInt(line as u64))),
                ("character"@, Json::Number(NumberView::PosInt(character as u64))),
            ])),
        ],
    )
}

/// A schema property of the given type with a description.
fn property(ty: &str, description: &str) -> (res: JsonValue)
    ensures
        res@ == spec_property(ty@, description@),
{
    object2("type", json_string(ty), "description", json_string(description))
}

impl DefinitionTool {
    pub fn new() -> (res: Self) {
        DefinitionTool
    }

    pub fn description() -> (res: &'static str)
        ensures
            res@ == spec_description(),
    {
        "Return LSP-backed jump-to-definition targets for a given URI and position"
    }

    /// The JSON schema of the tool's input.
    pub fn schema() -> (res: JsonValue)
        ensures
            res@ == spec_schema(),
    {
        let properties = object3(
            "uri",
            property("string", "file:// URI of the document"),
            "line",
            property("integer", "Zero-based line index"),
            "character",
            property("integer", "Zero-based character index"),
        );
        let required_items: Vec<JsonValue> = vec![json_string("uri"), json_string("line"), json_string("character")];
        proof {
            lemma_items_of(required_items@);
        }
        let required = array(required_items);
        assert(required@->Array_0 =~= seq![str_json("uri"@), str_json("line"@), str_json("character"@)]);
        object3("type", json_string("object"), "properties", properties, "required", required)
    }

    /// The tool's descriptor: name, description and input schema.
    pub fn descriptor() -> (res: JsonValue)
        ensures
            res@ == spec_descriptor(),
    {
        object3("name", json_string("definition"), "description", json_string(Self::description()), "inputSchema", Self::schema())
    }

    /// The parameters of the `textDocument/definition` request for `request`.
    pub fn request_params(request: &DefinitionRequest) -> (res: JsonValue)
        ensures
            res@ == spec_definition_params(request.uri@, request.line, request.character),
    {
        object2(
            "textDocument",
            object1("uri", json_string(request.uri.as_str())),
            "position",
            object2("line", json_uint(request.line as u64), "character", json_uint(request.character as u64)),
        )
    }
}

/// Where one definition lookup stands: which ask (1 to `MAX_RETRIES`) the
/// next answer belongs to.
pub struct DefinitionAttempts {
    attempt: u32,
}

impl DefinitionAttempts {
    #[verifier::type_invariant]
    spec fn inv(&self) -> bool {
        1 <= self.attempt <= MAX_RETRIES
    }

    /// The number of the ask whose answer comes next.
    pub closed spec fn attempt(&self) -> u32 {
        self.attempt
    }
}

/// What to do with an answer to a definition request.
pub enum DefinitionStep {
    /// The lookup is over, with this result.
    Done(Result<DefinitionResponse, DefinitionError>),
    /// The answer was empty: wait `RETRY_DELAY_MS` and ask again.
    RetryAfterDelay,
}

impl DefinitionTool {
    /// Starts a lookup: the first answer belongs to the first ask.
    pub fn start(&self) -> (res: DefinitionAttempts)
        ensures
            res.attempt() == 1,
    {
        DefinitionAttempts { attempt: 1 }
    }
}

/// The ask that follows an answer to ask `attempt`, if the lookup goes on:
/// only an empty answer before the last ask is asked for again.
pub open spec fn spec_next_attempt(attempt: u32, raw: Json) -> Option<u32> {
    match spec_normalize_targets(raw) {
        Ok(ts) => if ts.len() == 0 && attempt < MAX_RETRIES {
            Some((attempt + 1) as u32)
        } else {
            None
        },
        Err(_) => None,
    }
}

/// The number of answers that a lookup reads, from ask `attempt` on, when
/// the server answers `answers` in turn.
pub open spec fn answers_read(attempt: u32, answers: Seq<Json>) -> nat
    decreases answers.len(),
{
    if answers.len() == 0 {
        0
    } else {
        match spec_next_attempt(attempt, answers[0]) {
            None => 1,
            Some(next) => 1 + answers_read(next, answers.drop_first()),
        }
    }
}

proof fn lemma_answers_read_bound(attempt: u32, answers: Seq<Json>)
    requires
        1 <= attempt <= MAX_RETRIES,
    ensures
        answers_read(attempt, answers) <= MAX_RETRIES - attempt + 1,
    decreases answers.len(),
{
    if answers.len() > 0 {
        if let Some(next) = spec_next_attempt(attempt, answers[0]) {
            lemma_answers_read_bound(next, answers.drop_first());
        }
    }
}

/// A definition lookup asks the server at most `MAX_RETRIES` times, whatever
/// it answers; and when every answer is empty it asks exactly that often.
pub proof fn law_lookup_asks_at_most_max_retries(answers: Seq<Json>)
    ensures
        answers_read(1, answers) <= MAX_RETRIES,
        answers.len() >= MAX_RETRIES && (forall|i: int| 0 <= i < answers.len() ==> #[trigger] answers[i] == Json::Null)
            ==> answers_read(1, answers) == MAX_RETRIES,
{
    lemma_answers_read_bound(1, answers);
    if answers.len() >= MAX_RETRIES && (forall|i: int| 0 <= i < answers.len() ==> #[trigger] answers[i] == Json::Null) {
        let a1 = answers.drop_first();
        let a2 = a1.drop_first();
        assert(answers[0] == Json::Null);
        assert(a1[0] == answers[1]);
        assert(a2[0] == answers[2]);
        assert(spec_next_attempt(1, Json::Null) == Some(2u32));
        assert(spec_next_attempt(2, Json::Null) == Some(3u32));
        assert(spec_next_attempt(3, Json::Null) is None);
        assert(answers_read(3, a2) == 1);
        assert(answers_read(2, a1) == 2);
    }
}

impl DefinitionAttempts {
    /// Decides on one answer: an answer that cannot be read ends the lookup
    /// with its error, a non-empty one ends it with its targets, and an empty
    /// one is asked for again until `MAX_RETRIES` asks were made, after which
    /// the lookup ends with no target.
    pub fn on_answer(&mut self, raw: &JsonValue) -> (step: DefinitionStep)
        ensures
            match spec_normalize_targets(raw@) {
                Err(e) => step matches DefinitionStep::Done(Err(x)) && x@ == e
                    && final(self).attempt() == old(self).attempt(),
                Ok(ts) => if ts.len() > 0 {
                    step matches DefinitionStep::Done(Ok(r)) && r@ == ts
                        && final(self).attempt() == old(self).attempt()
                } else if old(self).attempt() < MAX_RETRIES {
                    step is RetryAfterDelay && final(self).attempt() == old(self).attempt() + 1
                } else {
                    step matches DefinitionStep::Done(Ok(r)) && r@.len() == 0
                        && final(self).attempt() == old(self).attempt()
                },
            },
            1 <= final(self).attempt() <= MAX_RETRIES,
            match spec_next_attempt(old(self).attempt(), raw@) {
                Some(next) => step is RetryAfterDelay && final(self).attempt() == next,
                None => step is Done,
            },
    {
        proof {
            use_type_invariant(&*self);
        }
        match normalize_targets(raw) {
            Err(e) => DefinitionStep::Done(Err(e)),
            Ok(targets) => {
                if targets.len() > 0 {
                    DefinitionStep::Done(Ok(DefinitionResponse { targets }))
                } else if self.attempt < MAX_RETRIES {
                    self.attempt = self.attempt + 1;
                    DefinitionStep::RetryAfterDelay
                } else {
                    DefinitionStep::Done(Ok(DefinitionResponse { targets: Vec::new() }))
                }
            },
        }
    }
}

/// A position member holding the unsigned integer `n`.
pub open spec fn holds_coordinate(position: Json, key: Seq<char>, n: u32) -> bool {
    position.get(key) == Some(Json::Number(NumberView::PosInt(n as u64)))
}

/// A range object whose `start` is (`a`, `b`) and whose `end` is (`c`, `d`),
/// as lines and characters.
pub open spec fn holds_range(r: Json, a: u32, b: u32, c: u32, d: u32) -> bool {
    &&& r.get("start"@) matches Some(s) && holds_coordinate(s, "line"@, a) && holds_coordinate(s, "character"@, b)
    &&& r.get("end"@) matches Some(e) && holds_coordinate(e, "line"@, c) && holds_coordinate(e, "character"@, d)
}

/// A `Location` entry `{uri, range}` and a `LocationLink` entry
/// `{targetUri, targetRange, ...}` are read the same way: the target is the
/// entry's URI string, and its range has each of the four coordinates taken
/// from its own member of the range (start line, start character, end line,
/// end character). A lone entry, or an array of one entry, is read as that
/// one target.
pub proof fn law_entries_give_their_uri_and_range(v: Json, u: Seq<char>, r: Json, a: u32, b: u32, c: u32, d: u32)
    requires
        holds_range(r, a, b, c, d),
        (v.get("uri"@) == Some(Json::String(u)) && v.get("range"@) == Some(r))
            || (v.get("uri"@) is None && v.get("targetUri"@) == Some(Json::String(u)) && v.get("targetRange"@) == Some(r)),
    ensures
        ({
            let t = TargetView { uri: u, range: TextRange { start_line: a, start_character: b, end_line: c, end_character: d } };
            &&& spec_convert_location(v) == Ok::<TargetView, DefinitionFailure>(t)
            &&& spec_normalize_targets(v) == Ok::<Seq<TargetView>, DefinitionFailure>(seq![t])
            &&& spec_normalize_targets(Json::Array(seq![v])) == Ok::<Seq<TargetView>, DefinitionFailure>(seq![t])
        }),
{
    let range = TextRange { start_line: a, start_character: b, end_line: c, end_character: d };
    let t = TargetView { uri: u, range };
    assert(v.is_object());
    assert(r.is_object());
    let s = r.get("start"@)->0;
    let e = r.get("end"@)->0;
    assert(spec_coordinate(s, Coordinate::Line) == Some(a));
    assert(spec_coordinate(s, Coordinate::Character) == Some(b));
    assert(spec_coordinate(e, Coordinate::Line) == Some(c));
    assert(spec_coordinate(e, Coordinate::Character) == Some(d));
    assert(spec_parse_range(r) == Ok::<TextRange, DefinitionFailure>(range));
    if v.get("uri"@) is Some {
        assert(spec_convert_form(v, LocationForm::Location) == Ok::<TargetView, DefinitionFailure>(t));
    } else {
        assert(spec_convert_form(v, LocationForm::LocationLink) == Ok::<TargetView, DefinitionFailure>(t));
    }
    assert(spec_convert_location(v) == Ok::<TargetView, DefinitionFailure>(t));
    let one = seq![v];
    assert(one.drop_last() =~= Seq::<Json>::empty());
    assert(one.last() == v);
    assert(spec_convert_all(one.drop_last()) == Ok::<Seq<TargetView>, DefinitionFailure>(Seq::empty()));
    assert(Seq::<TargetView>::empty().push(t) =~= seq![t]);
    assert(spec_convert_all(one) == Ok::<Seq<TargetView>, DefinitionFailure>(seq![t]));
}

/// The definition request asks about the document and position given: its
/// `textDocument.uri` is the URI, and its `position` holds the line and the
/// character, each under its own name.
pub proof fn law_request_asks_at_the_position(uri: Seq<char>, line: u32, character: u32)
    ensures
        ({
            let p = spec_definition_params(uri, line, character);
            &&& p.get("textDocument"@) is Some
            &&& p.get("textDocument"@)->0.get("uri"@) == Some(Json::String(uri))
            &&& p.get("position"@) is Some
            &&& p.get("position"@)->0.get("line"@) is Some
            &&& p.get("position"@)->0.get("line"@)->0.as_u64() == Some(line as u64)
            &&& p.get("position"@)->0.get("character"@) is Some
            &&& p.get("position"@)->0.get("character"@)->0.as_u64() == Some(character as u64)
        }),
{
    reveal_strlit("textDocument");
    reveal_strlit("position");
    reveal_strlit("uri");
    reveal_strlit("line");
    reveal_strlit("character");
    assert("textDocument"@.len() == 12 && "position"@.len() == 8 && "line"@.len() == 4 && "character"@.len() == 9);
    let td = seq![("uri"@, str_json(uri))];
    let pos = seq![
        ("line"@, Json::Number(NumberView::PosInt(line as u64))),
        ("character"@, Json::Number(NumberView::PosInt(character as u64))),
    ];
    let m = seq![("textDocument"@, obj(td)), ("position"@, obj(pos))];
    lemma_lookup_member(m, "textDocument"@, 0);
    lemma_lookup_member(m, "position"@, 1);
    lemma_lookup_member(td, "uri"@, 0);
    lemma_lookup_member(pos, "line"@, 0);
    lemma_lookup_member(pos, "character"@, 1);
}

} // verus!
