//! What all blocks share: their types, the state of a run around them, and
//! the variables in their texts.

use crate::utils::{decimal, decimal_text, signed_decimal, signed_decimal_text};
use vstd::prelude::*;
use vstd::string::*;

verus! {

/// Where a map stands: its name and the iteration it is in.
#[derive(Debug)]
pub struct MapState {
    pub name: String,
    pub iteration: usize,
}

impl Clone for MapState {
    fn clone(&self) -> (copy: Self)
        ensures
            copy == *self,
    {
        MapState { name: self.name.clone(), iteration: self.iteration }
    }
}

#[derive(Clone, Copy, PartialEq, Eq, Structural, Debug, Hash)]
pub enum BlockType {
    Input,
    Data,
    Code,
    LLM,
    MapBlock,
    Reduce,
    Search,
    Curl,
    Chat,
}

/// A text that cannot be read as what it should name.
#[derive(Debug)]
pub struct ParseError {
    pub message: String,
}

impl BlockType {
    /// The name of a block type.
    pub open spec fn name(self) -> Seq<char> {
        match self {
            BlockType::Input => "input"@,
            BlockType::Data => "data"@,
            BlockType::Code => "code"@,
            BlockType::LLM => "llm"@,
            BlockType::MapBlock => "map"@,
            BlockType::Reduce => "reduce"@,
            BlockType::Search => "search"@,
            BlockType::Curl => "curl"@,
            BlockType::Chat => "chat"@,
        }
    }

    /// The block type that a text names, if it names one.
    pub open spec fn named(text: Seq<char>) -> Option<BlockType> {
        if text == "input"@ {
            Some(BlockType::Input)
        } else if text == "data"@ {
            Some(BlockType::Data)
        } else if text == "code"@ {
            Some(BlockType::Code)
        } else if text == "llm"@ {
            Some(BlockType::LLM)
        } else if text == "map"@ {
            Some(BlockType::MapBlock)
        } else if text == "reduce"@ {
            Some(BlockType::Reduce)
        } else if text == "search"@ {
            Some(BlockType::Search)
        } else if text == "curl"@ {
            Some(BlockType::Curl)
        } else if text == "chat"@ {
            Some(BlockType::Chat)
        } else {
            None
        }
    }

    pub fn to_string(&self) -> (name: String)
        ensures
            name@ == self.name(),
    {
        match self {
            BlockType::Input => "input".to_owned(),
            BlockType::Data => "data".to_owned(),
            BlockType::Code => "code".to_owned(),
            BlockType::LLM => "llm".to_owned(),
            BlockType::MapBlock => "map".to_owned(),
            BlockType::Reduce => "reduce".to_owned(),
            BlockType::Search => "search".to_owned(),
            BlockType::Curl => "curl".to_owned(),
            BlockType::Chat => "chat".to_owned(),
        }
    }

    /// Reads a block type from its name.
    pub fn from_str(text: &str) -> (result: Result<BlockType, ParseError>)
        ensures
            match BlockType::named(text@) {
                Some(block_type) => result is Ok && result->Ok_0 == block_type,
                None => result is Err && result->Err_0.message@ == "Unknown BlockType"@,
            },
    {
        let owned = text.to_owned();
        if owned == "input".to_owned() {
            Ok(BlockType::Input)
        } else if owned == "data".to_owned() {
            Ok(BlockType::Data)
        } else if owned == "code".to_owned() {
            Ok(BlockType::Code)
        } else if owned == "llm".to_owned() {
            Ok(BlockType::LLM)
        } else if owned == "map".to_owned() {
            Ok(BlockType::MapBlock)
        } else if owned == "reduce".to_owned() {
            Ok(BlockType::Reduce)
        } else if owned == "search".to_owned() {
            Ok(BlockType::Search)
        } else if owned == "curl".to_owned() {
            Ok(BlockType::Curl)
        } else if owned == "chat".to_owned() {
            Ok(BlockType::Chat)
        } else {
            Err(ParseError { message: "Unknown BlockType".to_owned() })
        }
    }
}

/// Reading back the name of a block type gives the block type.
pub proof fn lemma_block_type_name_round_trip(block_type: BlockType)
    ensures
        BlockType::named(block_type.name()) == Some(block_type),
{
    reveal_strlit("input");
    reveal_strlit("data");
    reveal_strlit("code");
    reveal_strlit("llm");
    reveal_strlit("map");
    reveal_strlit("reduce");
    reveal_strlit("search");
    reveal_strlit("curl");
    reveal_strlit("chat");
    assert("data"@[0] != "code"@[0]);
    assert("data"@[0] != "curl"@[0]);
    assert("data"@[0] != "chat"@[0]);
    assert("code"@[1] != "curl"@[1]);
    assert("code"@[1] != "chat"@[1]);
    assert("curl"@[1] != "chat"@[1]);
    assert("input"@.len() == 5);
    assert("reduce"@[0] != "search"@[0]);
    assert("llm"@[0] != "map"@[0]);
}

/// What marks a variable in a text: `${`, a query that holds no `}`, and `}`.
pub const VARIABLE_PATTERN: &'static str = r"\$\{(?P<jsonpath_query>[^}]+)\}";

/// The name under which the pattern captures the query.
pub const VARIABLE_GROUP: &'static str = "jsonpath_query";

/// What the regular expression `pattern` captures under the name `group` in
/// each of its matches in `text`, from left to right; `None` for a pattern
/// that is no regular expression.
pub uninterp spec fn regex_named_captures(
    pattern: Seq<char>,
    group: Seq<char>,
    text: Seq<char>,
) -> Option<Seq<Option<Seq<char>>>>;

pub open spec fn capture_view(capture: Option<String>) -> Option<Seq<char>> {
    match capture {
        Some(text) => Some(text@),
        None => None,
    }
}

pub open spec fn captures_view(found: Option<Vec<Option<String>>>) -> Option<
    Seq<Option<Seq<char>>>,
> {
    match found {
        Some(captures) => Some(captures@.map_values(|c: Option<String>| capture_view(c))),
        None => None,
    }
}

/// Compiles `pattern` with `regex::Regex::new`, walks its matches in `text`
/// with `Regex::captures_iter`, and takes from each what `Captures::name`
/// gives for `group`. The contract only names the outcome: it is the same
/// for the same three texts.
#[verifier::external_body]
fn named_captures(pattern: &str, group: &str, text: &str) -> (found: Option<Vec<Option<String>>>)
    ensures
        captures_view(found) == regex_named_captures(pattern@, group@, text@),
{
    match regex::Regex::new(pattern) {
        Ok(re) => Some(
            re.captures_iter(text).map(|c| c.name(group).map(|m| m.as_str().to_string())).collect(),
        ),
        Err(_) => None,
    }
}

/// The texts that were captured, in order; a match that captured nothing
/// under the name gives none.
pub open spec fn captured_texts(captures: Seq<Option<Seq<char>>>) -> Seq<Seq<char>>
    decreases captures.len(),
{
    if captures.len() == 0 {
        Seq::empty()
    } else {
        match captures.last() {
            Some(text) => captured_texts(captures.drop_last()).push(text),
            None => captured_texts(captures.drop_last()),
        }
    }
}

/// The variables that the captures of a text give; none where the pattern
/// could not be compiled.
pub open spec fn variables_in(found: Option<Seq<Option<Seq<char>>>>) -> Seq<Seq<char>> {
    match found {
        Some(captures) => captured_texts(captures),
        None => Seq::empty(),
    }
}

/// The views of a list of texts.
pub open spec fn texts_view(texts: Seq<String>) -> Seq<Seq<char>> {
    texts.map_values(|text: String| text@)
}

/// The variables that the captures of a text give.
pub fn variables_of_captures(found: Option<Vec<Option<String>>>) -> (variables: Vec<String>)
    ensures
        texts_view(variables@) == variables_in(captures_view(found)),
{
    let mut variables: Vec<String> = Vec::new();
    let captures = match found {
        Some(captures) => captures,
        None => {
            assert(texts_view(variables@) =~= Seq::<Seq<char>>::empty());
            return variables;
        },
    };
    let ghost views = captures@.map_values(|c: Option<String>| capture_view(c));
    let mut i: usize = 0;
    assert(views.take(0) =~= Seq::<Option<Seq<char>>>::empty());
    assert(texts_view(variables@) =~= Seq::<Seq<char>>::empty());
    while i < captures.len()
        invariant
            i <= captures@.len(),
            views == captures@.map_values(|c: Option<String>| capture_view(c)),
            texts_view(variables@) == captured_texts(views.take(i as int)),
        decreases captures@.len() - i,
    {
        proof {
            assert(views.take(i + 1).drop_last() =~= views.take(i as int));
            assert(views.take(i + 1).last() == capture_view(captures@[i as int]));
        }
        let ghost before = texts_view(variables@);
        match &captures[i] {
            Some(text) => {
                variables.push(text.clone());
                assert(texts_view(variables@) =~= before.push(text@));
            },
            None => {},
        }
        i += 1;
    }
    assert(views.take(i as int) =~= views);
    variables
}

/// The queries of the variables of a text, in the order in which the text
/// holds them.
pub fn find_variables(text: &str) -> (variables: Vec<String>)
    ensures
        texts_view(variables@) == variables_in(
            regex_named_captures(VARIABLE_PATTERN@, VARIABLE_GROUP@, text@),
        ),
{
    variables_of_captures(named_captures(VARIABLE_PATTERN, VARIABLE_GROUP, text))
}

#[verifier::external_type_specification]
#[verifier::external_body]
pub struct ExJsonValue(serde_json::Value);

#[verifier::external_type_specification]
#[verifier::external_body]
pub struct ExJsonNumber(serde_json::Number);

/// Why a variable of a text cannot be replaced.
#[derive(Debug)]
pub enum BlockError {
    /// The number is neither a whole number nor a real one.
    NotANumber,
    /// The query uses brackets for more than a plain index.
    UnsupportedQuery(String),
    /// The query is no JSONPath query.
    InvalidQuery(String),
    /// The query matched nothing in the state.
    NoMatch(String),
    /// The query matched so many values instead of one.
    ManyMatches(String, usize),
    /// The query matched one value, which is neither text nor number.
    MatchedNotText(String),
    /// The query gave a value that is neither text nor number nor a list.
    ReturnedNotText(String),
    /// A value between fences is too short, or does not end in a line break
    /// before its closing fence.
    MalformedMultiline,
    /// A pair lacks its key.
    MissingKey,
    /// A pair lacks its value.
    MissingValue,
}

pub enum BlockErrorView {
    NotANumber,
    UnsupportedQuery(Seq<char>),
    InvalidQuery(Seq<char>),
    NoMatch(Seq<char>),
    ManyMatches(Seq<char>, usize),
    MatchedNotText(Seq<char>),
    ReturnedNotText(Seq<char>),
    MalformedMultiline,
    MissingKey,
    MissingValue,
}

impl View for BlockError {
    type V = BlockErrorView;

    open spec fn view(&self) -> BlockErrorView {
        match self {
            BlockError::NotANumber => BlockErrorView::NotANumber,
            BlockError::UnsupportedQuery(query) => BlockErrorView::UnsupportedQuery(query@),
            BlockError::InvalidQuery(query) => BlockErrorView::InvalidQuery(query@),
            BlockError::NoMatch(query) => BlockErrorView::NoMatch(query@),
            BlockError::ManyMatches(query, count) => BlockErrorView::ManyMatches(query@, *count),
            BlockError::MatchedNotText(query) => BlockErrorView::MatchedNotText(query@),
            BlockError::ReturnedNotText(query) => BlockErrorView::ReturnedNotText(query@),
            BlockError::MalformedMultiline => BlockErrorView::MalformedMultiline,
            BlockError::MissingKey => BlockErrorView::MissingKey,
            BlockError::MissingValue => BlockErrorView::MissingValue,
        }
    }
}

pub open spec fn text_result_view(result: Result<String, BlockError>) -> Result<
    Seq<char>,
    BlockErrorView,
> {
    match result {
        Ok(text) => Ok(text@),
        Err(e) => Err(e@),
    }
}

/// What `serde_json::Number::as_i64` gives: the number, where it is a whole
/// number that fits. Nothing is claimed of it here.
#[verifier::external_body]
fn number_as_i64(number: &serde_json::Number) -> (n: Option<i64>) {
    number.as_i64()
}

/// What `serde_json::Number::as_u64` gives: the number, where it is a whole
/// number from zero on. Nothing is claimed of it here.
#[verifier::external_body]
fn number_as_u64(number: &serde_json::Number) -> (n: Option<u64>) {
    number.as_u64()
}

/// What `serde_json::Number::as_f64` gives, written as std writes a real
/// number. Nothing is claimed of it here.
#[verifier::external_body]
fn number_as_real_text(number: &serde_json::Number) -> (text: Option<String>) {
    number.as_f64().map(|fractional| fractional.to_string())
}

/// The text of a number of which these three readings are known: the
/// whole number with a sign if there is one, else the whole number from
/// zero on, else the real number.
pub open spec fn number_text_spec(
    signed: Option<i64>,
    unsigned: Option<u64>,
    fractional: Option<Seq<char>>,
) -> Result<Seq<char>, BlockErrorView> {
    match signed {
        Some(n) => Ok(signed_decimal(n as int)),
        None => match unsigned {
            Some(n) => Ok(decimal(n as nat)),
            None => match fractional {
                Some(text) => Ok(text),
                None => Err(BlockErrorView::NotANumber),
            },
        },
    }
}

/// The text of a number, from its three readings.
pub fn number_text(signed: Option<i64>, unsigned: Option<u64>, fractional: Option<String>) -> (result:
    Result<String, BlockError>)
    ensures
        text_result_view(result) == number_text_spec(signed, unsigned, capture_view(fractional)),
{
    match signed {
        Some(n) => Ok(signed_decimal_text(n)),
        None => match unsigned {
            Some(n) => Ok(decimal_text(n)),
            None => match fractional {
                Some(text) => Ok(text),
                None => Err(BlockError::NotANumber),
            },
        },
    }
}

/// The text of a JSON number. Which text it is depends on what the number
/// holds, which is not known here: the result is that of `number_text` on
/// some three readings.
pub fn serde_number_to_string(input: &serde_json::Number) -> (result: Result<String, BlockError>)
    ensures
        exists|signed: Option<i64>, unsigned: Option<u64>, fractional: Option<Seq<char>>|
            text_result_view(result) == number_text_spec(signed, unsigned, fractional),
{
    let signed = number_as_i64(input);
    let unsigned = number_as_u64(input);
    let fractional = number_as_real_text(input);
    let ghost fractional_view = capture_view(fractional);
    let result = number_text(signed, unsigned, fractional);
    assert(text_result_view(result) == number_text_spec(signed, unsigned, fractional_view));
    result
}

/// An index between brackets has at most so many digits.
pub const MAX_INDEX_DIGITS: usize = 18;

pub open spec fn is_digit(c: char) -> bool {
    48 <= c as u32 <= 57
}

/// The number of digits that follow one another from position `i` on.
pub open spec fn digits_from(query: Seq<char>, i: int) -> nat
    decreases query.len() - i,
{
    if 0 <= i < query.len() && is_digit(query[i]) {
        1 + digits_from(query, i + 1)
    } else {
        0
    }
}

/// From position `i` on, every opening bracket is followed by one to
/// `MAX_INDEX_DIGITS` digits and a closing bracket.
pub open spec fn brackets_hold_indexes_from(query: Seq<char>, i: int) -> bool
    decreases query.len() - i,
{
    if i < 0 || i >= query.len() {
        true
    } else if query[i] == '[' {
        let digits = digits_from(query, i + 1);
        &&& 1 <= digits <= MAX_INDEX_DIGITS
        &&& i + 1 + digits < query.len()
        &&& query[i + 1 + digits] == ']'
        &&& brackets_hold_indexes_from(query, i + digits + 2)
    } else {
        brackets_hold_indexes_from(query, i + 1)
    }
}

/// The query uses brackets for plain indexes only: no quoted keys, no
/// lists, no slices, no filters.
pub open spec fn brackets_hold_indexes(query: Seq<char>) -> bool {
    brackets_hold_indexes_from(query, 0)
}

fn is_digit_char(c: char) -> (digit: bool)
    ensures
        digit == is_digit(c),
{
    let code = c as u32;
    48 <= code && code <= 57
}

/// Whether the query uses brackets for plain indexes only.
pub fn has_plain_indexes(query: &str) -> (plain: bool)
    ensures
        plain == brackets_hold_indexes(query@),
{
    let n = query.unicode_len();
    let mut i: usize = 0;
    while i < n
        invariant
            i <= n,
            n == query@.len(),
            brackets_hold_indexes(query@) == brackets_hold_indexes_from(query@, i as int),
        decreases n - i,
    {
        if query.get_char(i) == '[' {
            let start = i + 1;
            let mut j: usize = start;
            while j < n && j - start <= MAX_INDEX_DIGITS && is_digit_char(query.get_char(j))
                invariant
                    start <= j <= n,
                    n == query@.len(),
                    j - start <= MAX_INDEX_DIGITS + 1,
                    digits_from(query@, start as int) == (j - start) + digits_from(query@, j as int),
                decreases n - j,
            {
                j += 1;
            }
            let digits = j - start;
            if digits == 0 || digits > MAX_INDEX_DIGITS {
                return false;
            }
            assert(digits_from(query@, start as int) == digits);
            if j >= n {
                return false;
            }
            if query.get_char(j) != ']' {
                return false;
            }
            i = j + 1;
        } else {
            i += 1;
        }
    }
    true
}

/// What a JSON value is, with what it holds where that is text, a number or
/// a list.
pub enum JsonShape {
    Null,
    Bool(bool),
    Number(serde_json::Number),
    Text(String),
    Array(Vec<serde_json::Value>),
    Object,
}

/// Tells the variants of `serde_json::Value` apart and hands on what a
/// text, a number or a list holds. Nothing is claimed of the outcome here.
#[verifier::external_body]
fn shape_of(value: serde_json::Value) -> (shape: JsonShape) {
    match value {
        serde_json::Value::Null => JsonShape::Null,
        serde_json::Value::Bool(b) => JsonShape::Bool(b),
        serde_json::Value::Number(number) => JsonShape::Number(number),
        serde_json::Value::String(text) => JsonShape::Text(text),
        serde_json::Value::Array(items) => JsonShape::Array(items),
        serde_json::Value::Object(_) => JsonShape::Object,
    }
}

/// Runs a JSONPath query on a copy of the state through
/// `jsonpath_rust::JsonPathQuery::path`; `None` where the crate refuses the
/// query. The crate breaks down on an index between brackets that is
/// negative, fractional or too long, so only queries whose brackets hold
/// plain short indexes are let through. Nothing is claimed of the outcome.
#[verifier::external_body]
fn query_state(state: &serde_json::Value, query: &str) -> (found: Option<serde_json::Value>)
    requires
        brackets_hold_indexes(query@),
{
    jsonpath_rust::JsonPathQuery::path(state.clone(), query).ok()
}

/// The text in which every occurrence of `from` is replaced by `to`,
/// occurrences being looked for from left to right and not overlapping.
pub open spec fn replace_all(text: Seq<char>, from: Seq<char>, to: Seq<char>) -> Seq<char>
    decreases text.len(),
{
    if from.len() == 0 || text.len() < from.len() {
        text
    } else if text.take(from.len() as int) == from {
        to + replace_all(text.skip(from.len() as int), from, to)
    } else {
        seq![text[0]] + replace_all(text.skip(1), from, to)
    }
}

/// `str::replace` of std, for a text to look for that is not empty: all its
/// occurrences, found from left to right without overlap, are replaced.
#[verifier::external_body]
fn replace_text(text: &str, from: &str, to: &str) -> (replaced: String)
    requires
        from@.len() > 0,
    ensures
        replaced@ == replace_all(text@, from@, to@),
{
    text.replace(from, to)
}

/// A value that a query matched, as far as a replacement looks at it.
#[derive(Debug)]
pub enum Scalar {
    Text(String),
    /// A number, with its readings as a whole number with a sign, as a whole
    /// number from zero on, and as a real number.
    Number(Option<i64>, Option<u64>, Option<String>),
    /// Anything else.
    Other,
}

/// What a query gave.
#[derive(Debug)]
pub enum QueryOutput {
    /// A value that is no list.
    Value(Scalar),
    /// A list without items.
    Empty,
    /// A list of one item.
    One(Scalar),
    /// A list of so many items, more than one.
    Many(usize),
}

pub enum ScalarView {
    Text(Seq<char>),
    Number(Option<i64>, Option<u64>, Option<Seq<char>>),
    Other,
}

pub enum QueryOutputView {
    Value(ScalarView),
    Empty,
    One(ScalarView),
    Many(usize),
}

impl View for Scalar {
    type V = ScalarView;

    open spec fn view(&self) -> ScalarView {
        match self {
            Scalar::Text(text) => ScalarView::Text(text@),
            Scalar::Number(signed, unsigned, fractional) => ScalarView::Number(
                *signed,
                *unsigned,
                capture_view(*fractional),
            ),
            Scalar::Other => ScalarView::Other,
        }
    }
}

impl View for QueryOutput {
    type V = QueryOutputView;

    open spec fn view(&self) -> QueryOutputView {
        match self {
            QueryOutput::Value(scalar) => QueryOutputView::Value(scalar@),
            QueryOutput::Empty => QueryOutputView::Empty,
            QueryOutput::One(scalar) => QueryOutputView::One(scalar@),
            QueryOutput::Many(count) => QueryOutputView::Many(*count),
        }
    }
}

/// The text that stands for what a query gave: a text as it is, a number
/// written out, the one item of a list likewise. Nothing else can stand in
/// a text.
pub open spec fn replacement_spec(output: QueryOutputView, query: Seq<char>) -> Result<
    Seq<char>,
    BlockErrorView,
> {
    match output {
        QueryOutputView::Value(ScalarView::Text(text)) => Ok(text),
        QueryOutputView::Value(ScalarView::Number(signed, unsigned, fractional)) => number_text_spec(
            signed,
            unsigned,
            fractional,
        ),
        QueryOutputView::Value(ScalarView::Other) => Err(BlockErrorView::ReturnedNotText(query)),
        QueryOutputView::Empty => Err(BlockErrorView::NoMatch(query)),
        QueryOutputView::One(ScalarView::Text(text)) => Ok(text),
        QueryOutputView::One(ScalarView::Number(signed, unsigned, fractional)) => number_text_spec(
            signed,
            unsigned,
            fractional,
        ),
        QueryOutputView::One(ScalarView::Other) => Err(BlockErrorView::MatchedNotText(query)),
        QueryOutputView::Many(count) => Err(BlockErrorView::ManyMatches(query, count)),
    }
}

/// The text that stands for what a query gave.
pub fn replacement(output: QueryOutput, query: &str) -> (result: Result<String, BlockError>)
    ensures
        text_result_view(result) == replacement_spec(output@, query@),
{
    match output {
        QueryOutput::Value(Scalar::Text(text)) => Ok(text),
        QueryOutput::Value(Scalar::Number(signed, unsigned, fractional)) => number_text(
            signed,
            unsigned,
            fractional,
        ),
        QueryOutput::Value(Scalar::Other) => Err(BlockError::ReturnedNotText(query.to_owned())),
        QueryOutput::Empty => Err(BlockError::NoMatch(query.to_owned())),
        QueryOutput::One(Scalar::Text(text)) => Ok(text),
        QueryOutput::One(Scalar::Number(signed, unsigned, fractional)) => number_text(
            signed,
            unsigned,
            fractional,
        ),
        QueryOutput::One(Scalar::Other) => Err(BlockError::MatchedNotText(query.to_owned())),
        QueryOutput::Many(count) => Err(BlockError::ManyMatches(query.to_owned(), count)),
    }
}

/// What a replacement looks at in a value that is no list.
fn scalar_of(shape: JsonShape) -> (scalar: Scalar)
    ensures
        scalar_of_shape(shape, scalar),
{
    match shape {
        JsonShape::Text(text) => Scalar::Text(text),
        JsonShape::Number(n) => Scalar::Number(number_as_i64(&n), number_as_u64(&n), number_as_real_text(&n)),
        _ => Scalar::Other,
    }
}

/// What a replacement looks at in what a query gave, from the shape of
/// what it gave.
fn output_of(shape: JsonShape) -> (output: QueryOutput)
    ensures
        output_of_shape(shape, output),
{
    match shape {
        JsonShape::Array(items) => {
            let mut items = items;
            let count = items.len();
            if count == 0 {
                QueryOutput::Empty
            } else if count == 1 {
                match items.pop() {
                    Some(item) => QueryOutput::One(scalar_of(shape_of(item))),
                    None => QueryOutput::Empty,
                }
            } else {
                QueryOutput::Many(count)
            }
        },
        shape => QueryOutput::Value(scalar_of(shape)),
    }
}

/// What a replacement looks at in a value of this shape that is no list: a
/// text as it is, a number by its readings, and nothing of anything else.
pub open spec fn scalar_of_shape(shape: JsonShape, scalar: Scalar) -> bool {
    match shape {
        JsonShape::Text(text) => scalar == Scalar::Text(text),
        JsonShape::Number(number) => scalar is Number,
        _ => scalar is Other,
    }
}

/// What a replacement looks at in what a query gave: of a list whether it
/// is empty, holds one item or how many it holds, and of anything else what
/// it looks at in a value that is no list.
pub open spec fn output_of_shape(shape: JsonShape, output: QueryOutput) -> bool {
    match shape {
        JsonShape::Array(items) => if items@.len() == 0 {
            output is Empty
        } else if items@.len() == 1 {
            output is One
        } else {
            output == QueryOutput::Many(items@.len() as usize)
        },
        _ => output is Value && scalar_of_shape(shape, output->Value_0),
    }
}

/// The query as the JSONPath crate wants it: starting at the root.
pub open spec fn rooted_query(raw: Seq<char>) -> Seq<char> {
    if raw.len() >= 2 && raw[0] == '$' && raw[1] == '.' {
        raw
    } else {
        "$."@ + raw
    }
}

/// Puts the root before a query that does not start with it.
pub fn root_query(raw: &str) -> (query: String)
    ensures
        query@ == rooted_query(raw@),
{
    if raw.unicode_len() >= 2 && raw.get_char(0) == '$' && raw.get_char(1) == '.' {
        raw.to_owned()
    } else {
        "$.".to_owned().concat(raw)
    }
}

/// The text that stands for a variable, looked up in the state. A query
/// that uses brackets for more than a plain index is refused, and it alone
/// is refused as unsupported; every other outcome depends on the state.
pub fn replacement_of(state: &serde_json::Value, raw_query: &str) -> (result: Result<
    String,
    BlockError,
>)
    ensures
        !brackets_hold_indexes(rooted_query(raw_query@)) <==> (result is Err && result->Err_0@
            == BlockErrorView::UnsupportedQuery(rooted_query(raw_query@))),
{
    let query = root_query(raw_query);
    if !has_plain_indexes(query.as_str()) {
        return Err(BlockError::UnsupportedQuery(query));
    }
    match query_state(state, query.as_str()) {
        Some(value) => {
            let output = output_of(shape_of(value));
            let result = replacement(output, query.as_str());
            assert(!(replacement_spec(output@, query@) is Err && replacement_spec(
                output@,
                query@,
            )->Err_0 is UnsupportedQuery));
            result
        },
        None => Err(BlockError::InvalidQuery(query)),
    }
}

/// How a text marks the variable with this query.
pub open spec fn variable_mark(raw: Seq<char>) -> Seq<char> {
    "${"@ + raw + "}"@
}

/// The text with the variables replaced one after the other, each wherever
/// it is marked. Where the replacements are not as many as the variables,
/// the text stays as it is.
pub open spec fn substitute_all(
    text: Seq<char>,
    variables: Seq<Seq<char>>,
    replacements: Seq<Seq<char>>,
) -> Seq<char>
    decreases variables.len(),
{
    if variables.len() == 0 || replacements.len() != variables.len() {
        text
    } else {
        replace_all(
            substitute_all(text, variables.drop_last(), replacements.drop_last()),
            variable_mark(variables.last()),
            replacements.last(),
        )
    }
}

fn mark_of(raw: &str) -> (mark: String)
    ensures
        mark@ == variable_mark(raw@),
        mark@.len() > 0,
{
    proof {
        reveal_strlit("}");
    }
    "${".to_owned().concat(raw).concat("}")
}

/// Replaces the variables of a text one after the other.
pub fn substitute(text: &str, variables: &Vec<String>, replacements: &Vec<String>) -> (result:
    String)
    ensures
        result@ == substitute_all(text@, texts_view(variables@), texts_view(replacements@)),
{
    let mut result = text.to_owned();
    if variables.len() != replacements.len() {
        return result;
    }
    let ghost names = texts_view(variables@);
    let ghost values = texts_view(replacements@);
    let mut i: usize = 0;
    assert(names.take(0) =~= Seq::<Seq<char>>::empty());
    while i < variables.len()
        invariant
            i <= variables@.len(),
            variables@.len() == replacements@.len(),
            names == texts_view(variables@),
            values == texts_view(replacements@),
            result@ == substitute_all(text@, names.take(i as int), values.take(i as int)),
        decreases variables@.len() - i,
    {
        proof {
            assert(names.take(i + 1).drop_last() =~= names.take(i as int));
            assert(values.take(i + 1).drop_last() =~= values.take(i as int));
            assert(names.take(i + 1).last() == variables@[i as int]@);
            assert(values.take(i + 1).last() == replacements@[i as int]@);
        }
        let mark = mark_of(variables[i].as_str());
        result = replace_text(result.as_str(), mark.as_str(), replacements[i].as_str());
        i += 1;
    }
    assert(names.take(i as int) =~= names);
    assert(values.take(i as int) =~= values);
    result
}

/// The value that a block takes in, and its place among the inputs.
pub struct InputState {
    pub value: Option<serde_json::Value>,
    pub index: usize,
}

/// What a block sees of the run around it.
pub struct Env {
    /// What the blocks before it gave, by their names.
    pub state: serde_json::Value,
    pub input: InputState,
    pub map: Option<MapState>,
}

/// Some variable has a query that uses brackets for more than an index.
pub open spec fn some_unsupported(variables: Seq<Seq<char>>) -> bool {
    exists|k: int|
        0 <= k < variables.len() && !brackets_hold_indexes(rooted_query(#[trigger] variables[k]))
}

/// Replaces each variable of a text by what its query gives in the state of
/// the run. `field` names the place of the text, for the reader of a
/// failure. A text without variables comes back as it is; a text with a
/// query that is not supported is refused; otherwise success depends on the
/// state, and a text that comes back has each variable replaced.
pub fn replace_variables_in_string(text: &str, field: &str, env: &Env) -> (result: Result<
    String,
    BlockError,
>)
    ensures
        variables_in(regex_named_captures(VARIABLE_PATTERN@, VARIABLE_GROUP@, text@)).len() == 0
            ==> result is Ok && result->Ok_0@ == text@,
        some_unsupported(
            variables_in(regex_named_captures(VARIABLE_PATTERN@, VARIABLE_GROUP@, text@)),
        ) ==> result is Err,
        result is Ok ==> exists|replacements: Seq<Seq<char>>|
            replacements.len() == variables_in(
                regex_named_captures(VARIABLE_PATTERN@, VARIABLE_GROUP@, text@),
            ).len() && result->Ok_0@ == #[trigger] substitute_all(
                text@,
                variables_in(regex_named_captures(VARIABLE_PATTERN@, VARIABLE_GROUP@, text@)),
                replacements,
            ),
{
    let variables = find_variables(text);
    let ghost names = texts_view(variables@);
    let mut replacements: Vec<String> = Vec::new();
    let mut i: usize = 0;
    while i < variables.len()
        invariant
            i <= variables@.len(),
            replacements@.len() == i,
            names == texts_view(variables@),
            names == variables_in(
                regex_named_captures(VARIABLE_PATTERN@, VARIABLE_GROUP@, text@),
            ),
            forall|k: int| 0 <= k < i ==> brackets_hold_indexes(rooted_query(#[trigger] names[k])),
        decreases variables@.len() - i,
    {
        assert(names[i as int] == variables@[i as int]@);
        match replacement_of(&env.state, variables[i].as_str()) {
            Ok(found) => {
                replacements.push(found);
            },
            Err(e) => {
                assert(names.len() > 0);
                return Err(e);
            },
        }
        i += 1;
    }
    let result = substitute(text, &variables, &replacements);
    proof {
        let values = texts_view(replacements@);
        assert(values.len() == names.len());
        assert(result@ == substitute_all(text@, names, values));
        assert(!some_unsupported(names));
    }
    Ok(result)
}

/// A part of a pair as it stands in the text of an app.
#[derive(Debug)]
pub enum PairPart {
    Key(String),
    /// A value on one line.
    Text(String),
    /// A value over several lines, with the fences around it.
    Multiline(String),
}

pub enum PairPartView {
    Key(Seq<char>),
    Text(Seq<char>),
    Multiline(Seq<char>),
}

impl View for PairPart {
    type V = PairPartView;

    open spec fn view(&self) -> PairPartView {
        match self {
            PairPart::Key(text) => PairPartView::Key(text@),
            PairPart::Text(text) => PairPartView::Text(text@),
            PairPart::Multiline(text) => PairPartView::Multiline(text@),
        }
    }
}

/// The value between the fences: what stands after the four characters of
/// the opening fence and before the four of the closing one, which start
/// with a line break.
pub open spec fn multiline_value_spec(raw: Seq<char>) -> Result<Seq<char>, BlockErrorView> {
    if raw.len() < 8 || raw[raw.len() - 4] != '\n' {
        Err(BlockErrorView::MalformedMultiline)
    } else {
        Ok(raw.subrange(4, raw.len() - 4))
    }
}

/// Takes the fences off a value over several lines.
pub fn multiline_value(raw: &str) -> (result: Result<String, BlockError>)
    ensures
        text_result_view(result) == multiline_value_spec(raw@),
{
    let n = raw.unicode_len();
    if n < 8 {
        return Err(BlockError::MalformedMultiline);
    }
    if raw.get_char(n - 4) != '\n' {
        return Err(BlockError::MalformedMultiline);
    }
    Ok(raw.substring_char(4, n - 4).to_owned())
}

/// The key and the value that the parts give so far, or the failure of a
/// part. Of several keys or values the last one counts.
pub open spec fn pair_so_far(parts: Seq<PairPartView>) -> Result<
    (Option<Seq<char>>, Option<Seq<char>>),
    BlockErrorView,
>
    decreases parts.len(),
{
    if parts.len() == 0 {
        Ok((None, None))
    } else {
        match pair_so_far(parts.drop_last()) {
            Err(e) => Err(e),
            Ok((key, value)) => match parts.last() {
                PairPartView::Key(text) => Ok((Some(text), value)),
                PairPartView::Text(text) => Ok((key, Some(text))),
                PairPartView::Multiline(raw) => match multiline_value_spec(raw) {
                    Ok(text) => Ok((key, Some(text))),
                    Err(e) => Err(e),
                },
            },
        }
    }
}

/// The pair that the parts give: their key and their value, both of which
/// must be there.
pub open spec fn pair_spec(parts: Seq<PairPartView>) -> Result<
    (Seq<char>, Seq<char>),
    BlockErrorView,
> {
    match pair_so_far(parts) {
        Err(e) => Err(e),
        Ok((None, _)) => Err(BlockErrorView::MissingKey),
        Ok((Some(key), None)) => Err(BlockErrorView::MissingValue),
        Ok((Some(key), Some(value))) => Ok((key, value)),
    }
}

pub open spec fn parts_view(parts: Seq<PairPart>) -> Seq<PairPartView> {
    parts.map_values(|part: PairPart| part@)
}

pub open spec fn pair_result_view(result: Result<(String, String), BlockError>) -> Result<
    (Seq<char>, Seq<char>),
    BlockErrorView,
> {
    match result {
        Ok((key, value)) => Ok((key@, value@)),
        Err(e) => Err(e@),
    }
}

/// Reads a pair from its parts.
pub fn parse_pair(parts: &Vec<PairPart>) -> (result: Result<(String, String), BlockError>)
    ensures
        pair_result_view(result) == pair_spec(parts_view(parts@)),
{
    let ghost views = parts_view(parts@);
    let mut key: Option<String> = None;
    let mut value: Option<String> = None;
    let mut i: usize = 0;
    assert(views.take(0) =~= Seq::<PairPartView>::empty());
    while i < parts.len()
        invariant
            i <= parts@.len(),
            views == parts_view(parts@),
            pair_so_far(views.take(i as int)) == Ok::<
                (Option<Seq<char>>, Option<Seq<char>>),
                BlockErrorView,
            >((capture_view(key), capture_view(value))),
        decreases parts@.len() - i,
    {
        proof {
            assert(views.take(i + 1).drop_last() =~= views.take(i as int));
            assert(views.take(i + 1).last() == parts@[i as int]@);
        }
        match &parts[i] {
            PairPart::Key(text) => {
                key = Some(text.clone());
            },
            PairPart::Text(text) => {
                value = Some(text.clone());
            },
            PairPart::Multiline(raw) => {
                match multiline_value(raw.as_str()) {
                    Ok(text) => {
                        value = Some(text);
                    },
                    Err(e) => {
                        proof {
                            lemma_pair_failure_stays(views, i + 1);
                        }
                        return Err(e);
                    },
                }
            },
        }
        i += 1;
    }
    assert(views.take(i as int) =~= views);
    match (key, value) {
        (None, _) => Err(BlockError::MissingKey),
        (Some(key), None) => Err(BlockError::MissingValue),
        (Some(key), Some(value)) => Ok((key, value)),
    }
}

/// A failure among the first parts is the failure of all parts.
proof fn lemma_pair_failure_stays(parts: Seq<PairPartView>, n: int)
    requires
        0 <= n <= parts.len(),
        pair_so_far(parts.take(n)) is Err,
    ensures
        pair_so_far(parts) == pair_so_far(parts.take(n)),
    decreases parts.len(),
{
    if n == parts.len() {
        assert(parts.take(n) =~= parts);
    } else {
        assert(parts.drop_last().take(n) =~= parts.take(n));
        lemma_pair_failure_stays(parts.drop_last(), n);
    }
}

} // verus!
