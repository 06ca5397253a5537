//! What an embedding provider is made with, and the decisions taken around
//! a call to it. The calls themselves are made by the caller.

use crate::json::{json_string, push_json_string};
use crate::text::{decimal_text, push_decimal, str_eq};
use reqwest::StatusCode;
use vstd::prelude::*;

verus! {

/// Why an embedding could not be had.
#[derive(Debug)]
pub enum EmbeddingError {
    /// The remote service answered with a status outside the 2xx range.
    Api { status: u16, body: String },
    /// The provider answered a request for one text with no vector.
    NoEmbedding,
    /// No local model goes by this name.
    UnknownModel { name: String },
}

/// The list of the local models, as it is shown to someone who asked for a
/// model that does not exist.
pub const CATALOG: &'static str = "'. Supported models:\n\
    English:\n\
    - all-MiniLM-L6-v2 (default, ~80MB)\n\
    - bge-base-en-v1.5 (~430MB)\n\
    Chinese:\n\
    - bge-small-zh-v1.5 (~95MB)\n\
    Multilingual:\n\
    - multilingual-e5-small (~470MB)\n\
    - multilingual-e5-base (~1.1GB, recommended for Chinese)\n\
    - bge-m3 (~2.2GB, best quality)";

/// The canonical reason phrase of an HTTP status, for the statuses that
/// have one.
pub uninterp spec fn reason_phrase(status: u16) -> Option<Seq<char>>;

/// A text that may be absent, taken as a sequence of characters.
pub open spec fn phrase_of(phrase: Option<&str>) -> Option<Seq<char>> {
    match phrase {
        Some(p) => Some(p@),
        None => None,
    }
}

/// Calls `http::StatusCode::from_u16` and `StatusCode::canonical_reason`.
///
/// Trusted: for a status of three digits, the phrase is a function of the
/// status alone.
#[verifier::external_body]
fn canonical_reason(status: u16) -> (phrase: Option<&'static str>)
    requires
        100 <= status <= 999,
    ensures
        phrase_of(phrase) == reason_phrase(status),
{
    match StatusCode::from_u16(status) {
        Ok(code) => code.canonical_reason(),
        Err(_) => None,
    }
}

/// The reason phrase of a status: the canonical one where the status has
/// three digits and a canonical phrase, else none.
pub open spec fn reason_of(status: u16) -> Option<Seq<char>> {
    if 100 <= status <= 999 {
        reason_phrase(status)
    } else {
        None
    }
}

/// Looks up the reason phrase of a status.
pub fn status_reason(status: u16) -> (phrase: Option<&'static str>)
    ensures
        phrase_of(phrase) == reason_of(status),
{
    if 100 <= status && status <= 999 {
        canonical_reason(status)
    } else {
        None
    }
}

/// How a status is shown: its number, a space and its reason phrase, or a
/// remark that it has none.
pub open spec fn status_text(status: u16, reason: Option<Seq<char>>) -> Seq<char> {
    decimal_text(status as nat) + " "@ + match reason {
        Some(phrase) => phrase,
        None => "<unknown status code>"@,
    }
}

/// The message of a refused answer, given the reason phrase of its status.
pub open spec fn api_error_text(status: u16, reason: Option<Seq<char>>, body: Seq<char>) -> Seq<
    char,
> {
    "OpenAI API error "@ + status_text(status, reason) + ": "@ + body
}

/// Renders the message of a refused answer, given the reason phrase of its
/// status.
pub fn api_error_message(status: u16, reason: Option<&str>, body: &str) -> (text: String)
    ensures
        text@ == api_error_text(status, phrase_of(reason), body@),
{
    let mut text = "OpenAI API error ".to_owned();
    push_decimal(&mut text, status);
    text.append(" ");
    match reason {
        Some(phrase) => text.append(phrase),
        None => text.append("<unknown status code>"),
    }
    text.append(": ");
    text.append(body);
    assert(text@ =~= api_error_text(status, phrase_of(reason), body@));
    text
}

impl EmbeddingError {
    /// The message of the error. A refused answer is shown with the number
    /// and the reason phrase of its status, and its body.
    pub open spec fn message_text(self) -> Seq<char> {
        match self {
            EmbeddingError::Api { status, body } => api_error_text(
                status,
                reason_of(status),
                body@,
            ),
            EmbeddingError::NoEmbedding => "No embedding returned"@,
            EmbeddingError::UnknownModel { name } => "Unknown embedding model: '"@ + name@
                + CATALOG@,
        }
    }

    /// Renders the error for a reader.
    pub fn message(&self) -> (text: String)
        ensures
            text@ == self.message_text(),
    {
        match self {
            EmbeddingError::Api { status, body } => api_error_message(
                *status,
                status_reason(*status),
                body.as_str(),
            ),
            EmbeddingError::UnknownModel { name } => {
                let mut text = "Unknown embedding model: '".to_owned();
                text.append(name.as_str());
                text.append(CATALOG);
                text
            },
            EmbeddingError::NoEmbedding => "No embedding returned".to_owned(),
        }
    }
}

/// The dimensions of the vectors of a remote model. Models that are not
/// known by name are taken to have 1536.
pub open spec fn remote_dimensions(model: Seq<char>) -> int {
    if model == "text-embedding-3-large"@ {
        3072
    } else {
        1536
    }
}

/// The number of seconds after which a request to the remote service is
/// given up.
pub const REQUEST_TIMEOUT_SECS: u64 = 30;

/// Whether an HTTP status reports success.
pub open spec fn is_success(status: u16) -> bool {
    200 <= status < 300
}

/// The body of a request for embeddings: the model and the texts, in order.
#[derive(Debug)]
pub struct EmbeddingRequest {
    pub model: String,
    pub input: Vec<String>,
}

/// The JSON strings of `texts`, with a comma between each two.
pub open spec fn joined_strings(texts: Seq<String>) -> Seq<char>
    decreases texts.len(),
{
    if texts.len() == 0 {
        Seq::empty()
    } else if texts.len() == 1 {
        json_string(texts[0]@)
    } else {
        joined_strings(texts.drop_last()) + seq![','] + json_string(texts.last()@)
    }
}

/// The JSON text of a request: an object with the model and the array of
/// the texts, in order.
pub open spec fn request_json(model: Seq<char>, input: Seq<String>) -> Seq<char> {
    "{\"model\":"@ + json_string(model) + ",\"input\":["@ + joined_strings(input) + "]}"@
}

impl EmbeddingRequest {
    /// Renders the request as the body that is posted.
    pub fn to_json(&self) -> (json: String)
        ensures
            json@ == request_json(self.model@, self.input@),
    {
        let mut json = "{\"model\":".to_owned();
        push_json_string(&mut json, self.model.as_str());
        json.append(",\"input\":[");
        let ghost head = json@;
        let mut i: usize = 0;
        assert(self.input@.take(0) =~= Seq::<String>::empty());
        while i < self.input.len()
            invariant
                i <= self.input.len(),
                json@ == head + joined_strings(self.input@.take(i as int)),
            decreases self.input.len() - i,
        {
            proof {
                assert(self.input@.take(i as int + 1).drop_last() =~= self.input@.take(i as int));
                assert(self.input@.take(i as int + 1).last() == self.input@[i as int]);
                assert(self.input@.take(i as int + 1)[0] == self.input@[0]);
            }
            if i > 0 {
                json.push(',');
            }
            push_json_string(&mut json, self.input[i].as_str());
            assert(json@ =~= head + joined_strings(self.input@.take(i as int + 1)));
            i = i + 1;
        }
        assert(self.input@.take(i as int) =~= self.input@);
        json.append("]}");
        assert(json@ =~= request_json(self.model@, self.input@));
        json
    }
}

/// Whether every vector has the length `dimensions`.
pub open spec fn all_of_length<T>(vectors: Seq<Vec<T>>, dimensions: int) -> bool {
    forall|i: int| 0 <= i < vectors.len() ==> (#[trigger] vectors[i]).len() == dimensions
}

/// Checks that every vector of an answer has the length that the provider
/// declares.
pub fn vectors_fit<T>(vectors: &Vec<Vec<T>>, dimensions: usize) -> (fit: bool)
    ensures
        fit == all_of_length(vectors@, dimensions as int),
{
    let mut i: usize = 0;
    while i < vectors.len()
        invariant
            i <= vectors.len(),
            forall|j: int| 0 <= j < i ==> (#[trigger] vectors[j]).len() == dimensions,
        decreases vectors.len() - i,
    {
        if vectors[i].len() != dimensions {
            return false;
        }
        i = i + 1;
    }
    true
}

/// Copies a list of texts.
pub fn copy_texts(texts: &[String]) -> (copy: Vec<String>)
    ensures
        copy@ == texts@,
{
    let mut copy: Vec<String> = Vec::new();
    let mut i: usize = 0;
    while i < texts.len()
        invariant
            i <= texts.len(),
            copy@ == texts@.take(i as int),
        decreases texts.len() - i,
    {
        copy.push(texts[i].clone());
        assert(texts@.take(i as int + 1) =~= texts@.take(i as int).push(texts@[i as int]));
        i = i + 1;
    }
    assert(texts@.take(i as int) =~= texts@);
    copy
}

/// Takes the vector that answers a request for a single text.
pub fn first_embedding<T>(mut results: Vec<T>) -> (first: Result<T, EmbeddingError>)
    ensures
        results@.len() == 0 ==> first == Err::<T, EmbeddingError>(EmbeddingError::NoEmbedding),
        results@.len() > 0 ==> first == Ok::<T, EmbeddingError>(results@[0]),
{
    if results.len() == 0 {
        Err(EmbeddingError::NoEmbedding)
    } else {
        Ok(results.swap_remove(0))
    }
}

/// Decides whether an HTTP status reports success.
pub fn accepts(status: u16) -> (accepted: bool)
    ensures
        accepted == is_success(status),
{
    200 <= status && status < 300
}

/// Classifies the answer of the remote service: a status in the 2xx range is
/// accepted, any other is an error that carries the status and the body.
pub fn check_status(status: u16, body: String) -> (outcome: Result<(), EmbeddingError>)
    ensures
        is_success(status) ==> outcome is Ok,
        !is_success(status) ==> outcome == Err::<(), EmbeddingError>(
            EmbeddingError::Api { status, body },
        ),
{
    if accepts(status) {
        Ok(())
    } else {
        Err(EmbeddingError::Api { status, body })
    }
}

/// A remote provider that speaks the OpenAI embeddings protocol.
pub struct OpenAIEmbeddingProvider {
    api_key: String,
    base_url: String,
    model: String,
    dimensions: usize,
}

/// What a remote provider was made with.
pub struct RemoteView {
    pub api_key: Seq<char>,
    pub base_url: Seq<char>,
    pub model: Seq<char>,
    pub dimensions: int,
}

impl View for OpenAIEmbeddingProvider {
    type V = RemoteView;

    closed spec fn view(&self) -> RemoteView {
        RemoteView {
            api_key: self.api_key@,
            base_url: self.base_url@,
            model: self.model@,
            dimensions: self.dimensions as int,
        }
    }
}

impl OpenAIEmbeddingProvider {
    /// Makes a provider for `model` at `base_url`. The dimensions follow
    /// from the model's name and are never negotiated again.
    pub fn new(api_key: &str, base_url: &str, model: &str) -> (provider: OpenAIEmbeddingProvider)
        ensures
            provider@ == (RemoteView {
                api_key: api_key@,
                base_url: base_url@,
                model: model@,
                dimensions: remote_dimensions(model@),
            }),
    {
        let dimensions: usize = if str_eq(model, "text-embedding-3-large") {
            3072
        } else {
            1536
        };
        OpenAIEmbeddingProvider {
            api_key: api_key.to_owned(),
            base_url: base_url.to_owned(),
            model: model.to_owned(),
            dimensions,
        }
    }

    /// The identifier of this kind of provider.
    pub fn id(&self) -> (id: &'static str)
        ensures
            id@ == "openai"@,
    {
        "openai"
    }

    /// The name of the model.
    pub fn model(&self) -> (model: &str)
        ensures
            model@ == self@.model,
    {
        self.model.as_str()
    }

    /// The length of every vector that the model returns.
    pub fn dimensions(&self) -> (dimensions: usize)
        ensures
            dimensions == self@.dimensions,
    {
        self.dimensions
    }

    /// The address that requests are posted to.
    pub fn endpoint(&self) -> (url: String)
        ensures
            url@ == self@.base_url + "/embeddings"@,
    {
        let mut url = self.base_url.clone();
        url.append("/embeddings");
        url
    }

    /// The value of the authorization header.
    pub fn authorization(&self) -> (value: String)
        ensures
            value@ == "Bearer "@ + self@.api_key,
    {
        let mut value = "Bearer ".to_owned();
        value.append(self.api_key.as_str());
        value
    }

    /// Decides what to send for a batch of texts: nothing for an empty
    /// batch, else one request that carries every text in order.
    pub fn plan_batch(&self, texts: &[String]) -> (plan: Option<EmbeddingRequest>)
        ensures
            texts@.len() == 0 ==> plan is None,
            texts@.len() > 0 ==> (plan matches Some(request) && request.model@ == self@.model
                && request.input@ == texts@),
    {
        if texts.len() == 0 {
            None
        } else {
            Some(EmbeddingRequest { model: self.model.clone(), input: copy_texts(texts) })
        }
    }
}

/// The local models that can be loaded.
#[derive(Debug, Clone, Copy, PartialEq, Eq, Structural)]
pub enum LocalModel {
    /// English, 384 dimensions; the default.
    AllMiniLML6V2,
    /// English, 768 dimensions.
    BGEBaseENV15,
    /// Chinese, 512 dimensions.
    BGESmallZHV15,
    /// Multilingual, 384 dimensions.
    MultilingualE5Small,
    /// Multilingual, 768 dimensions.
    MultilingualE5Base,
    /// Multilingual, 1024 dimensions.
    BGEM3,
}

impl LocalModel {
    /// The symbolic name of the model.
    pub open spec fn name_text(self) -> Seq<char> {
        match self {
            LocalModel::AllMiniLML6V2 => "all-MiniLM-L6-v2"@,
            LocalModel::BGEBaseENV15 => "bge-base-en-v1.5"@,
            LocalModel::BGESmallZHV15 => "bge-small-zh-v1.5"@,
            LocalModel::MultilingualE5Small => "multilingual-e5-small"@,
            LocalModel::MultilingualE5Base => "multilingual-e5-base"@,
            LocalModel::BGEM3 => "bge-m3"@,
        }
    }

    /// The length of the vectors of the model.
    pub open spec fn vector_len(self) -> int {
        match self {
            LocalModel::AllMiniLML6V2 => 384,
            LocalModel::BGEBaseENV15 => 768,
            LocalModel::BGESmallZHV15 => 512,
            LocalModel::MultilingualE5Small => 384,
            LocalModel::MultilingualE5Base => 768,
            LocalModel::BGEM3 => 1024,
        }
    }

    /// The symbolic name of the model.
    pub fn name(self) -> (name: &'static str)
        ensures
            name@ == self.name_text(),
    {
        match self {
            LocalModel::AllMiniLML6V2 => "all-MiniLM-L6-v2",
            LocalModel::BGEBaseENV15 => "bge-base-en-v1.5",
            LocalModel::BGESmallZHV15 => "bge-small-zh-v1.5",
            LocalModel::MultilingualE5Small => "multilingual-e5-small",
            LocalModel::MultilingualE5Base => "multilingual-e5-base",
            LocalModel::BGEM3 => "bge-m3",
        }
    }

    /// The length of the vectors of the model.
    pub fn dimensions(self) -> (dimensions: usize)
        ensures
            dimensions == self.vector_len(),
    {
        match self {
            LocalModel::AllMiniLML6V2 => 384,
            LocalModel::BGEBaseENV15 => 768,
            LocalModel::BGESmallZHV15 => 512,
            LocalModel::MultilingualE5Small => 384,
            LocalModel::MultilingualE5Base => 768,
            LocalModel::BGEM3 => 1024,
        }
    }
}

/// The model that goes by `name`, if there is one.
pub open spec fn model_named(name: Seq<char>) -> Option<LocalModel> {
    if name == LocalModel::AllMiniLML6V2.name_text() {
        Some(LocalModel::AllMiniLML6V2)
    } else if name == LocalModel::BGEBaseENV15.name_text() {
        Some(LocalModel::BGEBaseENV15)
    } else if name == LocalModel::BGESmallZHV15.name_text() {
        Some(LocalModel::BGESmallZHV15)
    } else if name == LocalModel::MultilingualE5Small.name_text() {
        Some(LocalModel::MultilingualE5Small)
    } else if name == LocalModel::MultilingualE5Base.name_text() {
        Some(LocalModel::MultilingualE5Base)
    } else if name == LocalModel::BGEM3.name_text() {
        Some(LocalModel::BGEM3)
    } else {
        None
    }
}

/// The model that a request selects: the default where no name is given,
/// else the model that goes by the name.
pub open spec fn model_selected(name: Option<Seq<char>>) -> Option<LocalModel> {
    match name {
        None => Some(LocalModel::AllMiniLML6V2),
        Some(n) => model_named(n),
    }
}

/// The characters of a name that may be absent.
pub open spec fn name_of(name: Option<&str>) -> Option<Seq<char>> {
    match name {
        Some(n) => Some(n@),
        None => None,
    }
}

/// Finds the model that goes by `name`.
pub fn find_model(name: &str) -> (model: Option<LocalModel>)
    ensures
        model == model_named(name@),
{
    if str_eq(name, "all-MiniLM-L6-v2") {
        Some(LocalModel::AllMiniLML6V2)
    } else if str_eq(name, "bge-base-en-v1.5") {
        Some(LocalModel::BGEBaseENV15)
    } else if str_eq(name, "bge-small-zh-v1.5") {
        Some(LocalModel::BGESmallZHV15)
    } else if str_eq(name, "multilingual-e5-small") {
        Some(LocalModel::MultilingualE5Small)
    } else if str_eq(name, "multilingual-e5-base") {
        Some(LocalModel::MultilingualE5Base)
    } else if str_eq(name, "bge-m3") {
        Some(LocalModel::BGEM3)
    } else {
        None
    }
}

/// A provider that runs a model in this process.
pub struct FastEmbedProvider {
    model: LocalModel,
    model_name: String,
    dimensions: usize,
}

impl View for FastEmbedProvider {
    type V = LocalModel;

    closed spec fn view(&self) -> LocalModel {
        self.model
    }
}

impl FastEmbedProvider {
    #[verifier::type_invariant]
    spec fn consistent(self) -> bool {
        &&& self.model_name@ == self.model.name_text()
        &&& self.dimensions == self.model.vector_len()
    }

    /// Makes the provider of `model`.
    pub fn with_model(model: LocalModel) -> (provider: FastEmbedProvider)
        ensures
            provider@ == model,
    {
        FastEmbedProvider {
            model,
            model_name: model.name().to_owned(),
            dimensions: model.dimensions(),
        }
    }

    /// Selects the model to run. Without a name the default model is taken;
    /// a name that no model goes by is refused, and the error carries it.
    pub fn new(model_name: Option<&str>) -> (provider: Result<FastEmbedProvider, EmbeddingError>)
        ensures
            match model_selected(name_of(model_name)) {
                Some(model) => provider matches Ok(p) && p@ == model,
                None => provider matches Err(EmbeddingError::UnknownModel { name }) && Some(name@)
                    == name_of(model_name),
            },
    {
        match model_name {
            None => Ok(FastEmbedProvider::with_model(LocalModel::AllMiniLML6V2)),
            Some(n) => match find_model(n) {
                Some(model) => Ok(FastEmbedProvider::with_model(model)),
                None => Err(EmbeddingError::UnknownModel { name: n.to_owned() }),
            },
        }
    }

    /// The identifier of this kind of provider.
    pub fn id(&self) -> (id: &'static str)
        ensures
            id@ == "local"@,
    {
        "local"
    }

    /// The model that was selected.
    pub fn kind(&self) -> (model: LocalModel)
        ensures
            model == self@,
    {
        self.model
    }

    /// The name of the model.
    pub fn model(&self) -> (name: &str)
        ensures
            name@ == self@.name_text(),
    {
        proof {
            use_type_invariant(self);
        }
        self.model_name.as_str()
    }

    /// The length of every vector that the model returns.
    pub fn dimensions(&self) -> (dimensions: usize)
        ensures
            dimensions == self@.vector_len(),
    {
        proof {
            use_type_invariant(self);
        }
        self.dimensions
    }

    /// Decides what to hand to the model for a batch of texts: nothing for
    /// an empty batch, else a copy of every text in order.
    pub fn plan_batch(&self, texts: &[String]) -> (plan: Option<Vec<String>>)
        ensures
            texts@.len() == 0 ==> plan is None,
            texts@.len() > 0 ==> (plan matches Some(input) && input@ == texts@),
    {
        if texts.len() == 0 {
            None
        } else {
            Some(copy_texts(texts))
        }
    }
}

} // verus!
