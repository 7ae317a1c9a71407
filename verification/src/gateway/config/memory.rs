//! Knowledge-base, search, embedding and vector-memory configuration.
use vstd::prelude::*;

use crate::json::Json;
use crate::strmap::StrMap;
use crate::text::{opt_text, same, texts};

verus! {

/// Knowledge Base auto-ingest configuration.
#[derive(Debug, Clone)]
pub struct KnowledgeBaseConfig {
    /// Auto-ingest stale/new KB documents on daemon startup.
    pub auto_ingest_on_startup: bool,
    /// Max concurrency for ingestion.
    pub max_concurrent_ingests: usize,
}

impl Default for KnowledgeBaseConfig {
    fn default() -> (r: Self)
        ensures
            r == (KnowledgeBaseConfig { auto_ingest_on_startup: false, max_concurrent_ingests: 2 }),
    {
        KnowledgeBaseConfig { auto_ingest_on_startup: false, max_concurrent_ingests: 2 }
    }
}

/// A web search provider that the search tool can ask.
#[derive(Debug, Clone)]
pub enum SearchProvider {
    /// The provider that needs no key.
    DuckDuckGo,
    /// The gateway's own cloud.
    Cloud {
        /// Where it is reached.
        api_base: String,
    },
    /// Another provider known by name.
    Named {
        /// Its name.
        name: String,
        /// The key it is asked with.
        api_key: Option<String>,
    },
}

/// Web search provider configuration.
#[derive(Debug, Clone)]
pub struct SearchConfig {
    /// Single search provider name; `providers` gives a fallback order.
    pub provider: String,
    /// Ordered list of search providers to try; when empty, `[provider]`.
    pub providers: Vec<String>,
    /// Single API key, for the providers without one of their own.
    pub api_key: String,
    /// Per-provider API keys.
    pub keys: StrMap<String>,
}

/// The texts under the keys of a map of strings.
pub open spec fn text_map(m: Map<Seq<char>, String>) -> Map<Seq<char>, Seq<char>> {
    m.map_values(|s: String| s@)
}

/// Whether two maps of strings hold the same.
pub fn same_text_map(a: &StrMap<String>, b: &StrMap<String>) -> (r: bool)
    ensures
        r == (text_map(a@) == text_map(b@)),
{
    let r = covered_by(a, b) && covered_by(b, a);
    proof {
        let x = text_map(a@);
        let y = text_map(b@);
        if r {
            assert(x =~= y);
        }
        if x == y {
            assert forall|k: Seq<char>| #[trigger] a@.dom().contains(k) implies b@.dom().contains(k)
                && b@[k]@ == a@[k]@ by {
                assert(x.dom().contains(k) && y.dom().contains(k) && x[k] == y[k]);
            }
            assert forall|k: Seq<char>| #[trigger] b@.dom().contains(k) implies a@.dom().contains(k)
                && a@[k]@ == b@[k]@ by {
                assert(x.dom().contains(k) && y.dom().contains(k) && x[k] == y[k]);
            }
        }
    }
    r
}

/// Whether everything in `a` is in `b`.
fn covered_by(a: &StrMap<String>, b: &StrMap<String>) -> (r: bool)
    ensures
        r == (forall|k: Seq<char>| #[trigger]
            a@.dom().contains(k) ==> b@.dom().contains(k) && b@[k]@ == a@[k]@),
{
    let n = a.len();
    let mut i: usize = 0;
    while i < n
        invariant
            i <= n,
            n == a.list().len(),
            crate::strmap::distinct_keys(a.list()),
            forall|j: int|
                0 <= j < i ==> b@.dom().contains(#[trigger] a.list()[j].0@) && b@[a.list()[j].0@]@
                    == a.list()[j].1@,
        decreases n - i,
    {
        let key = a.key_at(i);
        let value = a.value_at(i);
        match b.get(key) {
            Some(other) => {
                if !same(other, value) {
                    assert(a@.dom().contains(key@) && b@[key@]@ != a@[key@]@);
                    return false;
                }
            },
            None => {
                assert(a@.dom().contains(key@) && !b@.dom().contains(key@));
                return false;
            },
        }
        i += 1;
    }
    assert forall|k: Seq<char>| #[trigger] a@.dom().contains(k) implies b@.dom().contains(k)
        && b@[k]@ == a@[k]@ by {
        let j = choose|j: int| #[trigger] crate::strmap::keyed(a.list(), k, j);
        assert(crate::strmap::keyed(a.list(), k, j));
        crate::strmap::lemma_keyed(a.list(), k, j);
        assert(b@.dom().contains(a.list()[j].0@));
    }
    true
}

/// The provider names to try, in order.
pub open spec fn provider_names(c: SearchConfig) -> Seq<Seq<char>> {
    if c.providers@.len() == 0 {
        seq![c.provider@]
    } else {
        texts(c.providers@)
    }
}

/// The key for a provider: its own unless that is empty, else the common one
/// unless that is empty.
pub open spec fn key_for(c: SearchConfig, provider: Seq<char>) -> Option<Seq<char>> {
    if c.keys@.dom().contains(provider) && c.keys@[provider]@.len() > 0 {
        Some(c.keys@[provider]@)
    } else if c.api_key@.len() > 0 {
        Some(c.api_key@)
    } else {
        None
    }
}

/// The providers that were found, in order.
pub open spec fn found<P>(answers: Seq<Option<P>>) -> Seq<P>
    decreases answers.len(),
{
    if answers.len() == 0 {
        Seq::empty()
    } else {
        match answers.last() {
            Some(p) => found(answers.drop_last()).push(p),
            None => found(answers.drop_last()),
        }
    }
}

/// The providers to search with: those that were found, and DuckDuckGo when
/// none was.
pub open spec fn usable_providers(answers: Seq<Option<SearchProvider>>) -> Seq<SearchProvider> {
    if found(answers).len() == 0 {
        seq![SearchProvider::DuckDuckGo]
    } else {
        found(answers)
    }
}

impl SearchConfig {
    /// Return the ordered list of provider names to try.
    /// Prefers `providers`; when empty, uses `[provider]`.
    pub fn provider_list(&self) -> (r: Vec<String>)
        ensures
            texts(r@) == provider_names(*self),
    {
        if self.providers.is_empty() {
            vec![self.provider.clone()]
        } else {
            self.providers.clone()
        }
    }

    /// Get the API key for a given provider name.
    /// Prefers `keys[provider]`, then the common `api_key`.
    pub fn api_key_for(&self, provider: &str) -> (r: Option<String>)
        ensures
            opt_text(r) == key_for(*self, provider@),
    {
        match self.keys.get(provider) {
            Some(k) => {
                if !k.as_str().is_empty() {
                    return Some(k.clone());
                }
            },
            None => {},
        }
        if self.api_key.as_str().is_empty() {
            None
        } else {
            Some(self.api_key.clone())
        }
    }

    /// Resolve the configured provider list into provider instances, each by
    /// the name and the key that `resolve` is asked with.
    ///
    /// Unknown names are skipped; an empty result falls back to DuckDuckGo so
    /// the search tool is never left provider-less.
    pub fn to_providers<F: Fn(String, Option<String>) -> Option<SearchProvider>>(
        &self,
        resolve: F,
    ) -> (r: Vec<SearchProvider>)
        requires
            forall|name: String, key: Option<String>| call_requires(resolve, (name, key)),
        ensures
            exists|asked: Seq<(String, Option<String>)>, answers: Seq<Option<SearchProvider>>|
                {
                    &&& #[trigger] asked_in_order(*self, asked)
                    &&& #[trigger] answered(resolve, asked, answers)
                    &&& r@ == usable_providers(answers)
                },
            r@.len() > 0,
    {
        let names = self.provider_list();
        let mut out: Vec<SearchProvider> = Vec::new();
        let ghost mut asked: Seq<(String, Option<String>)> = Seq::empty();
        let ghost mut answers: Seq<Option<SearchProvider>> = Seq::empty();
        let mut i: usize = 0;
        while i < names.len()
            invariant
                i <= names@.len(),
                texts(names@) == provider_names(*self),
                forall|name: String, key: Option<String>| call_requires(resolve, (name, key)),
                asked.len() == i,
                answers.len() == i,
                forall|k: int|
                    0 <= k < i ==> (#[trigger] asked[k]).0@ == texts(names@)[k] && opt_text(
                        asked[k].1,
                    ) == key_for(*self, asked[k].0@),
                forall|k: int|
                    0 <= k < i ==> call_ensures(resolve, #[trigger] asked[k], answers[k]),
                out@ == found(answers),
            decreases names.len() - i,
        {
            let name = names[i].clone();
            let key = self.api_key_for(&name);
            let ghost question = (name, key);
            let answer = resolve(name, key);
            let ghost before = answers;
            proof {
                assert(question.0@ == texts(names@)[i as int]);
                asked = asked.push(question);
                answers = answers.push(answer);
                assert(answers.drop_last() =~= before);
            }
            match answer {
                Some(p) => {
                    out.push(p);
                },
                None => {},
            }
            i += 1;
        }
        proof {
            assert(asked_in_order(*self, asked));
            assert(answered(resolve, asked, answers));
        }
        if out.is_empty() {
            out.push(SearchProvider::DuckDuckGo);
            assert(out@ =~= usable_providers(answers));
        }
        out
    }

    /// Whether two search configurations are the same.
    pub fn same_as(&self, other: &SearchConfig) -> (r: bool)
        ensures
            r == same_search(*self, *other),
    {
        same(&self.provider, &other.provider) && same_texts(&self.providers, &other.providers)
            && same(&self.api_key, &other.api_key) && same_text_map(&self.keys, &other.keys)
    }
}

/// Whether two search configurations are the same.
pub open spec fn same_search(a: SearchConfig, b: SearchConfig) -> bool {
    &&& a.provider@ == b.provider@
    &&& texts(a.providers@) == texts(b.providers@)
    &&& a.api_key@ == b.api_key@
    &&& text_map(a.keys@) == text_map(b.keys@)
}

/// Whether two lists of texts are the same.
pub fn same_texts(a: &Vec<String>, b: &Vec<String>) -> (r: bool)
    ensures
        r == (texts(a@) == texts(b@)),
{
    if a.len() != b.len() {
        assert(texts(a@).len() != texts(b@).len());
        return false;
    }
    let mut i: usize = 0;
    while i < a.len()
        invariant
            i <= a@.len(),
            a@.len() == b@.len(),
            forall|j: int| 0 <= j < i ==> a@[j]@ == b@[j]@,
        decreases a.len() - i,
    {
        if !same(&a[i], &b[i]) {
            assert(texts(a@)[i as int] != texts(b@)[i as int]);
            return false;
        }
        i += 1;
    }
    assert(texts(a@) =~= texts(b@));
    true
}

/// Whether `asked` are the provider names of the configuration in order, each
/// with its key.
pub open spec fn asked_in_order(c: SearchConfig, asked: Seq<(String, Option<String>)>) -> bool {
    &&& asked.len() == provider_names(c).len()
    &&& forall|k: int|
        0 <= k < asked.len() ==> (#[trigger] asked[k]).0@ == provider_names(c)[k] && opt_text(
            asked[k].1,
        ) == key_for(c, asked[k].0@)
}

/// Whether `answers` are what `resolve` may answer to the questions.
pub open spec fn answered<F: Fn(String, Option<String>) -> Option<SearchProvider>>(
    resolve: F,
    asked: Seq<(String, Option<String>)>,
    answers: Seq<Option<SearchProvider>>,
) -> bool {
    &&& answers.len() == asked.len()
    &&& forall|k: int|
        0 <= k < asked.len() ==> call_ensures(resolve, #[trigger] asked[k], answers[k])
}

impl Default for SearchConfig {
    fn default() -> (r: Self)
        ensures
            r.provider@ == "duckduckgo"@,
            texts(r.providers@) == seq!["duckduckgo"@],
            r.api_key@ == Seq::<char>::empty(),
            r.keys@ == Map::<Seq<char>, String>::empty(),
    {
        SearchConfig {
            provider: "duckduckgo".to_string(),
            providers: vec!["duckduckgo".to_string()],
            api_key: String::new(),
            keys: StrMap::new(),
        }
    }
}

/// Embedding provider type
#[derive(Debug, Clone, Copy, PartialEq, Eq, Structural)]
pub enum EmbeddingProviderType {
    /// OpenAI API (requires API key)
    OpenAi,
    /// Local GGUF model (direct loading, no external service)
    LocalGguf,
}

impl Default for EmbeddingProviderType {
    fn default() -> (r: Self)
        ensures
            r == EmbeddingProviderType::OpenAi,
    {
        EmbeddingProviderType::OpenAi
    }
}

/// Vector memory configuration
#[derive(Debug, Clone)]
pub struct VectorMemoryConfig {
    /// Enable vector memory / semantic search
    pub enabled: bool,
    /// Embedding provider type
    pub provider: EmbeddingProviderType,
    /// Embedding provider API key (e.g., OpenAI)
    pub embedding_api_key: Option<String>,
    /// Embedding model to use (for API providers)
    pub embedding_model: String,
    /// Embedding dimension
    pub embedding_dimension: usize,
    /// API base URL (for Azure, etc.)
    pub api_base_url: Option<String>,
    /// Local GGUF model path
    pub local_model_path: Option<String>,
    /// Query transformer configuration (HyDE, etc.)
    pub query_transformer: QueryTransformerConfig,
    /// Cross-encoder reranker configuration
    pub reranker: RerankerConfig,
    /// Context-window-aware memory budgeting
    pub context_window: MemoryContextWindowConfig,
    /// Multi-Query expansion configuration
    pub multi_query: MultiQueryConfig,
    /// Embedding hyper-parameters (chunking / batching).
    pub embedding: EmbeddingParams,
}

impl VectorMemoryConfig {
    /// The default settings: off, with a local model.
    pub open spec fn is_default(self) -> bool {
        &&& !self.enabled
        &&& self.provider == EmbeddingProviderType::LocalGguf
        &&& self.embedding_api_key is None
        &&& self.embedding_model@ == "text-embedding-3-small"@
        &&& self.embedding_dimension == 1536
        &&& self.api_base_url is None
        &&& opt_text(self.local_model_path) == Some(
            "hf:unsloth/embedding-gemma-2b-GGUF/embedding-gemma-2b-Q4_K_M.gguf"@,
        )
        &&& self.query_transformer.is_default()
        &&& self.reranker.is_default()
        &&& self.context_window.is_default()
        &&& self.multi_query.is_default()
        &&& self.embedding.is_default()
    }
}

impl Default for VectorMemoryConfig {
    fn default() -> (r: Self)
        ensures
            r.is_default(),
    {
        VectorMemoryConfig {
            enabled: false,
            provider: EmbeddingProviderType::LocalGguf,
            embedding_api_key: None,
            embedding_model: "text-embedding-3-small".to_string(),
            embedding_dimension: 1536,
            api_base_url: None,
            local_model_path: Some(
                "hf:unsloth/embedding-gemma-2b-GGUF/embedding-gemma-2b-Q4_K_M.gguf".to_string(),
            ),
            query_transformer: QueryTransformerConfig::default(),
            reranker: RerankerConfig::default(),
            context_window: MemoryContextWindowConfig::default(),
            multi_query: MultiQueryConfig::default(),
            embedding: EmbeddingParams::default(),
        }
    }
}

/// Embedding hyper-parameters used by the chunking pipeline.
#[derive(Debug, Clone)]
pub struct EmbeddingParams {
    /// Maximum chunk size for text splitting.
    pub chunk_size: usize,
    /// Chunk overlap for sliding window.
    pub chunk_overlap: usize,
    /// Batch size for embedding generation.
    pub batch_size: usize,
    /// Chunking strategy; null stands for its default.
    pub chunk_strategy: Json,
}

impl EmbeddingParams {
    /// The default settings.
    pub open spec fn is_default(self) -> bool {
        &&& self.chunk_size == 512
        &&& self.chunk_overlap == 50
        &&& self.batch_size == 32
        &&& self.chunk_strategy is Null
    }
}

impl Default for EmbeddingParams {
    fn default() -> (r: Self)
        ensures
            r.is_default(),
    {
        EmbeddingParams {
            chunk_size: 512,
            chunk_overlap: 50,
            batch_size: 32,
            chunk_strategy: Json::Null,
        }
    }
}

/// Query transformer configuration.
#[derive(Debug, Clone)]
pub struct QueryTransformerConfig {
    /// Enable HyDE (Hypothetical Document Embeddings) using the default LLM.
    pub enable_hyde: bool,
    /// Optional model override for HyDE generation.
    pub hyde_model: Option<String>,
}

impl QueryTransformerConfig {
    /// The default settings.
    pub open spec fn is_default(self) -> bool {
        !self.enable_hyde && self.hyde_model is None
    }
}

impl Default for QueryTransformerConfig {
    fn default() -> (r: Self)
        ensures
            r.is_default(),
    {
        QueryTransformerConfig { enable_hyde: false, hyde_model: None }
    }
}

/// Multi-Query expansion configuration.
#[derive(Debug, Clone)]
pub struct MultiQueryConfig {
    /// Enable Multi-Query expansion.
    pub enabled: bool,
    /// Number of LLM-generated sub-queries (not counting the original query).
    pub num_variations: usize,
    /// Provider name for the expansion LLM.
    pub provider: Option<String>,
    /// Model override for the expansion LLM.
    pub model: Option<String>,
}

impl MultiQueryConfig {
    /// The default settings.
    pub open spec fn is_default(self) -> bool {
        !self.enabled && self.num_variations == 3 && self.provider is None && self.model is None
    }
}

impl Default for MultiQueryConfig {
    fn default() -> (r: Self)
        ensures
            r.is_default(),
    {
        MultiQueryConfig { enabled: false, num_variations: 3, provider: None, model: None }
    }
}

/// Cross-encoder reranker configuration.
#[derive(Debug, Clone)]
pub struct RerankerConfig {
    /// Enable cross-encoder reranking.
    pub enabled: bool,
    /// Cohere Rerank API key.
    pub api_key: Option<String>,
    /// Model name (e.g. "rerank-english-v3.0").
    pub model: String,
    /// Max results to return after reranking.
    pub top_k: usize,
}

impl RerankerConfig {
    /// The default settings.
    pub open spec fn is_default(self) -> bool {
        &&& !self.enabled
        &&& self.api_key is None
        &&& self.model@ == "rerank-english-v3.0"@
        &&& self.top_k == 10
    }
}

impl Default for RerankerConfig {
    fn default() -> (r: Self)
        ensures
            r.is_default(),
    {
        RerankerConfig {
            enabled: false,
            api_key: None,
            model: "rerank-english-v3.0".to_string(),
            top_k: 10,
        }
    }
}

/// Context-window-aware memory budgeting configuration.
#[derive(Debug, Clone)]
pub struct MemoryContextWindowConfig {
    /// Enable token-budget-aware memory filtering.
    pub enabled: bool,
    /// Maximum total tokens the LLM context can hold.
    pub max_tokens: usize,
    /// Tokens reserved for the LLM's response generation.
    pub reserved_for_response: usize,
    /// Minimum number of memories to retain, even if over budget.
    pub min_chunks: usize,
}

impl MemoryContextWindowConfig {
    /// The default settings.
    pub open spec fn is_default(self) -> bool {
        &&& !self.enabled
        &&& self.max_tokens == 128_000
        &&& self.reserved_for_response == 4_096
        &&& self.min_chunks == 1
    }
}

impl Default for MemoryContextWindowConfig {
    fn default() -> (r: Self)
        ensures
            r.is_default(),
    {
        MemoryContextWindowConfig {
            enabled: false,
            max_tokens: 128_000,
            reserved_for_response: 4_096,
            min_chunks: 1,
        }
    }
}

} // verus!
