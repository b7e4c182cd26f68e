//! Google Vertex AI: the shape of its streamed answers and how the pieces of
//! one answer are put together.

use vstd::prelude::*;
use vstd::string::*;

verus! {

#[derive(Clone, Copy, PartialEq, Eq, Structural, Debug)]
pub struct UsageMetadata {
    pub prompt_token_count: usize,
    pub candidates_token_count: usize,
    pub total_token_count: usize,
}

#[derive(Debug)]
pub struct Part {
    pub text: String,
}

#[derive(Debug)]
pub struct Content {
    pub role: String,
    pub parts: Vec<Part>,
}

#[derive(Debug)]
pub struct Candidate {
    pub content: Content,
    pub finish_reason: Option<String>,
}

/// One answer, or one piece of a streamed answer.
#[derive(Debug)]
pub struct Completion {
    pub candidates: Vec<Candidate>,
    pub usage_metadata: Option<UsageMetadata>,
}

pub struct GoogleVertexAiProvider {}

impl GoogleVertexAiProvider {
    pub fn new() -> Self {
        GoogleVertexAiProvider {  }
    }

    /// The model with this id, not yet initialized.
    pub fn llm(&self, id: String) -> (model: GoogleVertexAiLLM)
        ensures
            model.id == id,
            model.uri is None,
            model.service_account_json is None,
    {
        GoogleVertexAiLLM::new(id)
    }
}

pub struct GoogleVertexAiLLM {
    pub id: String,
    pub uri: Option<String>,
    pub service_account_json: Option<String>,
}

/// Why a model cannot be used, or an answer cannot be taken.
#[derive(Clone, Copy, PartialEq, Eq, Structural, Debug)]
pub enum VertexError {
    /// The credentials hold no service account.
    ServiceAccountNotFound,
    /// The credentials hold no endpoint.
    EndpointNotFound,
    /// A piece of the answer has this many candidates instead of one.
    UnexpectedCandidates(usize),
    /// The candidate of a piece has this many parts instead of one.
    UnexpectedParts(usize),
}

/// The number of tokens that a model takes in.
pub const CONTEXT_SIZE: usize = 8192;

/// The address that streams the answers of a model.
pub open spec fn stream_uri_spec(endpoint: Seq<char>, model_id: Seq<char>) -> Seq<char> {
    endpoint + "/publishers/google/models/"@ + model_id + ":streamGenerateContent?alt=sse"@
}

impl GoogleVertexAiLLM {
    pub fn new(id: String) -> (model: Self)
        ensures
            model.id == id,
            model.uri is None,
            model.service_account_json is None,
    {
        GoogleVertexAiLLM { id, uri: None, service_account_json: None }
    }

    pub fn id(&self) -> (id: String)
        ensures
            id == self.id,
    {
        self.id.clone()
    }

    pub fn context_size(&self) -> (size: usize)
        ensures
            size == CONTEXT_SIZE,
    {
        CONTEXT_SIZE
    }

    /// Takes the service account and the endpoint from the credentials. The
    /// service account is looked at first, and is kept even where the
    /// endpoint is then missing.
    pub fn initialize(&mut self, service_account_json: Option<String>, endpoint: Option<String>) -> (result:
        Result<(), VertexError>)
        ensures
            final(self).id == old(self).id,
            service_account_json is None ==> result == Err::<(), VertexError>(
                VertexError::ServiceAccountNotFound,
            ) && *final(self) == *old(self),
            service_account_json is Some && endpoint is None ==> {
                &&& result == Err::<(), VertexError>(VertexError::EndpointNotFound)
                &&& final(self).service_account_json == service_account_json
                &&& final(self).uri == old(self).uri
            },
            service_account_json is Some && endpoint is Some ==> {
                &&& result is Ok
                &&& final(self).service_account_json == service_account_json
                &&& final(self).uri == endpoint
            },
    {
        match service_account_json {
            Some(json) => {
                self.service_account_json = Some(json);
            },
            None => {
                return Err(VertexError::ServiceAccountNotFound);
            },
        }
        match endpoint {
            Some(uri) => {
                self.uri = Some(uri);
            },
            None => {
                return Err(VertexError::EndpointNotFound);
            },
        }
        Ok(())
    }

    /// Whether the model has its service account and its endpoint.
    pub fn is_initialized(&self) -> (ready: bool)
        ensures
            ready == (self.service_account_json is Some && self.uri is Some),
    {
        self.service_account_json.is_some() && self.uri.is_some()
    }

    /// The address that streams the answers of this model.
    pub fn stream_uri(&self) -> (uri: Option<String>)
        ensures
            match self.uri {
                Some(endpoint) => uri is Some && uri->Some_0@ == stream_uri_spec(
                    endpoint@,
                    self.id@,
                ),
                None => uri is None,
            },
    {
        match &self.uri {
            Some(endpoint) => Some(
                endpoint.clone().concat("/publishers/google/models/").concat(
                    self.id.as_str(),
                ).concat(":streamGenerateContent?alt=sse"),
            ),
            None => None,
        }
    }
}

/// The number of tokens that an answer may have: what was asked for, where
/// `-1` asks for all that the prompt leaves of the context.
pub open spec fn max_tokens_spec(max_tokens: Option<i32>, prompt_tokens: usize) -> Option<i32> {
    match max_tokens {
        Some(m) => if m == -1 {
            Some((CONTEXT_SIZE - prompt_tokens) as i32)
        } else {
            Some(m)
        },
        None => None,
    }
}

/// The number of tokens that an answer may have, for a prompt that fits the
/// context.
pub fn resolve_max_tokens(max_tokens: Option<i32>, prompt_tokens: usize) -> (resolved: Option<i32>)
    requires
        prompt_tokens <= CONTEXT_SIZE,
    ensures
        resolved == max_tokens_spec(max_tokens, prompt_tokens),
{
    match max_tokens {
        Some(m) => if m == -1 {
            Some((CONTEXT_SIZE - prompt_tokens) as i32)
        } else {
            Some(m)
        },
        None => None,
    }
}

/// The number of tokens that an answer may have, or `None` for a prompt
/// that does not fit the context.
pub fn checked_max_tokens(max_tokens: Option<i32>, prompt_tokens: usize) -> (resolved: Option<
    Option<i32>,
>)
    ensures
        resolved == if prompt_tokens <= CONTEXT_SIZE {
            Some(max_tokens_spec(max_tokens, prompt_tokens))
        } else {
            None
        },
{
    if prompt_tokens <= CONTEXT_SIZE {
        Some(resolve_max_tokens(max_tokens, prompt_tokens))
    } else {
        None
    }
}

/// What is wrong with a piece of a streamed answer, if anything: it must
/// have one candidate, and the candidate one part.
pub open spec fn piece_fault(piece: Completion) -> Option<VertexError> {
    if piece.candidates@.len() != 1 {
        Some(VertexError::UnexpectedCandidates(piece.candidates@.len() as usize))
    } else if piece.candidates@[0].content.parts@.len() != 1 {
        Some(VertexError::UnexpectedParts(piece.candidates@[0].content.parts@.len() as usize))
    } else {
        None
    }
}

/// Checks a piece of a streamed answer.
pub fn check_piece(piece: &Completion) -> (result: Result<(), VertexError>)
    ensures
        result == match piece_fault(*piece) {
            Some(fault) => Err::<(), VertexError>(fault),
            None => Ok::<(), VertexError>(()),
        },
{
    if piece.candidates.len() != 1 {
        return Err(VertexError::UnexpectedCandidates(piece.candidates.len()));
    }
    if piece.candidates[0].content.parts.len() != 1 {
        return Err(VertexError::UnexpectedParts(piece.candidates[0].content.parts.len()));
    }
    Ok(())
}

/// The text of a well-formed piece that is passed on to a listener: none
/// where the piece is empty or repeats the prompt.
pub fn tokens_of_piece(piece: &Completion, prompt: &str) -> (tokens: Option<String>)
    requires
        piece_fault(*piece) is None,
    ensures
        match tokens {
            Some(text) => text@ == piece.candidates@[0].content.parts@[0].text@ && text@.len() > 0
                && text@ != prompt@,
            None => piece.candidates@[0].content.parts@[0].text@.len() == 0
                || piece.candidates@[0].content.parts@[0].text@ == prompt@,
        },
{
    let text = piece.candidates[0].content.parts[0].text.clone();
    if text.as_str().unicode_len() > 0 && text != prompt.to_owned() {
        Some(text)
    } else {
        None
    }
}

/// The texts of the parts, with a blank between one and the next.
pub open spec fn joined_parts(parts: Seq<Part>) -> Seq<char>
    decreases parts.len(),
{
    if parts.len() == 0 {
        Seq::empty()
    } else if parts.len() == 1 {
        parts[0].text@
    } else {
        joined_parts(parts.drop_last()) + " "@ + parts.last().text@
    }
}

/// Every piece has a candidate.
pub open spec fn all_have_candidate(pieces: Seq<Completion>) -> bool {
    forall|i: int| 0 <= i < pieces.len() ==> (#[trigger] pieces[i]).candidates@.len() > 0
}

/// The text of a streamed answer: the texts of the first candidates of its
/// pieces, one after the other.
pub open spec fn merged_text(pieces: Seq<Completion>) -> Seq<char>
    decreases pieces.len(),
{
    if pieces.len() == 0 {
        Seq::empty()
    } else {
        merged_text(pieces.drop_last()) + joined_parts(
            pieces.last().candidates@[0].content.parts@,
        )
    }
}

/// The reason for which the answer ended: the last one that a piece gives.
pub open spec fn merged_finish_reason(pieces: Seq<Completion>) -> Option<Seq<char>>
    decreases pieces.len(),
{
    if pieces.len() == 0 {
        None
    } else {
        match pieces.last().candidates@[0].finish_reason {
            Some(reason) => Some(reason@),
            None => merged_finish_reason(pieces.drop_last()),
        }
    }
}

/// The usage of the answer: the last one that a piece gives, or zeros.
pub open spec fn merged_usage(pieces: Seq<Completion>) -> UsageMetadata
    decreases pieces.len(),
{
    if pieces.len() == 0 {
        UsageMetadata { prompt_token_count: 0, candidates_token_count: 0, total_token_count: 0 }
    } else {
        match pieces.last().usage_metadata {
            Some(usage) => usage,
            None => merged_usage(pieces.drop_last()),
        }
    }
}

pub open spec fn option_string_view(text: Option<String>) -> Option<Seq<char>> {
    match text {
        Some(t) => Some(t@),
        None => None,
    }
}

fn join_parts(parts: &Vec<Part>) -> (text: String)
    ensures
        text@ == joined_parts(parts@),
{
    let mut text = String::new();
    let mut i: usize = 0;
    assert(parts@.take(0) =~= Seq::<Part>::empty());
    while i < parts.len()
        invariant
            i <= parts@.len(),
            text@ == joined_parts(parts@.take(i as int)),
        decreases parts@.len() - i,
    {
        proof {
            assert(parts@.take(i + 1).drop_last() =~= parts@.take(i as int));
            assert(parts@.take(i + 1).last() == parts@[i as int]);
            assert(parts@.take(i + 1)[0] == parts@[0]);
        }
        if i > 0 {
            text.append(" ");
        } else {
            assert(Seq::<char>::empty() + parts@[0].text@ =~= parts@[0].text@);
        }
        text.append(parts[i].text.as_str());
        i += 1;
    }
    assert(parts@.take(i as int) =~= parts@);
    text
}

/// Puts the pieces of a streamed answer together: one candidate of the
/// model with one part, which holds the texts of all pieces.
pub fn merge_completions(pieces: &Vec<Completion>) -> (merged: Completion)
    requires
        all_have_candidate(pieces@),
    ensures
        merged.candidates@.len() == 1,
        merged.candidates@[0].content.role@ == "model"@,
        merged.candidates@[0].content.parts@.len() == 1,
        merged.candidates@[0].content.parts@[0].text@ == merged_text(pieces@),
        option_string_view(merged.candidates@[0].finish_reason) == merged_finish_reason(pieces@),
        merged.usage_metadata == Some(merged_usage(pieces@)),
{
    let mut text = String::new();
    let mut finish_reason: Option<String> = None;
    let mut usage = UsageMetadata {
        prompt_token_count: 0,
        candidates_token_count: 0,
        total_token_count: 0,
    };
    let mut i: usize = 0;
    assert(pieces@.take(0) =~= Seq::<Completion>::empty());
    while i < pieces.len()
        invariant
            i <= pieces@.len(),
            all_have_candidate(pieces@),
            text@ == merged_text(pieces@.take(i as int)),
            option_string_view(finish_reason) == merged_finish_reason(pieces@.take(i as int)),
            usage == merged_usage(pieces@.take(i as int)),
        decreases pieces@.len() - i,
    {
        proof {
            assert(pieces@.take(i + 1).drop_last() =~= pieces@.take(i as int));
            assert(pieces@.take(i + 1).last() == pieces@[i as int]);
        }
        let piece = &pieces[i];
        let joined = join_parts(&piece.candidates[0].content.parts);
        text.append(joined.as_str());
        match &piece.candidates[0].finish_reason {
            Some(reason) => {
                finish_reason = Some(reason.clone());
            },
            None => {},
        }
        match piece.usage_metadata {
            Some(latest) => {
                usage = latest;
            },
            None => {},
        }
        i += 1;
    }
    assert(pieces@.take(i as int) =~= pieces@);
    let mut parts: Vec<Part> = Vec::new();
    parts.push(Part { text });
    let mut candidates: Vec<Candidate> = Vec::new();
    candidates.push(
        Candidate { content: Content { role: "model".to_owned(), parts }, finish_reason },
    );
    Completion { candidates, usage_metadata: Some(usage) }
}

/// Puts the pieces together where each has a candidate; otherwise says
/// `None`.
pub fn merge_checked(pieces: &Vec<Completion>) -> (merged: Option<Completion>)
    ensures
        merged is Some <==> all_have_candidate(pieces@),
        merged is Some ==> {
            &&& merged->Some_0.candidates@.len() == 1
            &&& merged->Some_0.candidates@[0].content.role@ == "model"@
            &&& merged->Some_0.candidates@[0].content.parts@.len() == 1
            &&& merged->Some_0.candidates@[0].content.parts@[0].text@ == merged_text(pieces@)
            &&& option_string_view(merged->Some_0.candidates@[0].finish_reason)
                == merged_finish_reason(pieces@)
            &&& merged->Some_0.usage_metadata == Some(merged_usage(pieces@))
        },
{
    let mut i: usize = 0;
    while i < pieces.len()
        invariant
            i <= pieces@.len(),
            forall|k: int| 0 <= k < i ==> (#[trigger] pieces@[k]).candidates@.len() > 0,
        decreases pieces@.len() - i,
    {
        if pieces[i].candidates.len() == 0 {
            return None;
        }
        i += 1;
    }
    Some(merge_completions(pieces))
}

} // verus!
