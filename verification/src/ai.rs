//! The assistance commands' decision core: which configured service a
//! command dispatches to, the prompts it sends, the service endpoints it
//! calls, and the reshaping of returned model listings.  The HTTP calls
//! themselves are the embedding application's.

use crate::text::{lemma_lex_le_refl, lemma_lex_le_total, lemma_lex_le_trans, lex_le, push_char,
    str_le};
use vstd::multiset::Multiset;
use vstd::prelude::*;
use vstd::string::{StrSliceExecFns, StringExecFns};

verus! {

/// One text-generation model offered by a service.
pub struct AIModel {
    /// The identifier used to request the model.
    pub id: String,
    /// The display name.
    pub name: String,
}

/// The configured assistance service a command dispatches to.
#[derive(Debug, PartialEq, Eq, Structural)]
pub enum AiProvider {
    /// A local service.
    Ollama,
    /// One hosted service.
    Gemini,
    /// Another hosted service.
    OpenAi,
    /// Assistance switched off in the settings.
    Disabled,
    /// Any other configured name.
    Unknown,
}

/// The provider a configured name selects.
pub open spec fn spec_provider(name: Seq<char>) -> AiProvider {
    if name == "ollama"@ {
        AiProvider::Ollama
    } else if name == "gemini"@ {
        AiProvider::Gemini
    } else if name == "openai"@ {
        AiProvider::OpenAi
    } else if name == "disabled"@ {
        AiProvider::Disabled
    } else {
        AiProvider::Unknown
    }
}

/// Decides which service the configured provider name selects.
pub fn parse_provider(name: &String) -> (r: AiProvider)
    ensures
        r == spec_provider(name@),
{
    if *name == String::from_str("ollama") {
        AiProvider::Ollama
    } else if *name == String::from_str("gemini") {
        AiProvider::Gemini
    } else if *name == String::from_str("openai") {
        AiProvider::OpenAi
    } else if *name == String::from_str("disabled") {
        AiProvider::Disabled
    } else {
        AiProvider::Unknown
    }
}

/// The instruction block sent ahead of a SQL-generation request, framed
/// around the schema description.
pub fn sql_generation_prompt(schema_context: &str) -> (r: String)
    ensures
        r@ == "You are an expert SQL assistant. Generate a valid SQL query for the following request. Target Database Schema: \n"@
            + schema_context@
            + "\n Return ONLY the SQL query, no markdown, no explanation. If you cannot generate SQL, return a SQL comment explaining why."@,
{
    let mut s = String::from_str(
        "You are an expert SQL assistant. Generate a valid SQL query for the following request. Target Database Schema: \n",
    );
    s.append(schema_context);
    s.append(
        "\n Return ONLY the SQL query, no markdown, no explanation. If you cannot generate SQL, return a SQL comment explaining why.",
    );
    s
}

/// The instruction block sent ahead of an explanation request.
pub fn explain_system_prompt() -> (r: String)
    ensures
        r@ == "You are an expert database engineer. Explain the following SQL query in simple, concise terms. Focus on performance implications and logic."@,
{
    String::from_str(
        "You are an expert database engineer. Explain the following SQL query in simple, concise terms. Focus on performance implications and logic.",
    )
}

/// The one-message form of a generation prompt: the instruction block,
/// then the user's request.
pub fn prompt_with_request(system: &str, request: &str) -> (r: String)
    ensures
        r@ == system@ + "\n\nUser Request: "@ + request@,
{
    let mut s = String::new();
    s.append(system);
    s.append("\n\nUser Request: ");
    s.append(request);
    s
}

/// The one-message form of an explanation prompt: the instruction block,
/// then the SQL under discussion.
pub fn prompt_with_sql(system: &str, sql: &str) -> (r: String)
    ensures
        r@ == system@ + "\n\nSQL: "@ + sql@,
{
    let mut s = String::new();
    s.append(system);
    s.append("\n\nSQL: ");
    s.append(sql);
    s
}

/// The local service's endpoint: the configured one, or the default.
pub fn resolve_endpoint(endpoint: Option<String>) -> (r: String)
    ensures
        endpoint matches Some(e) ==> r@ == e@,
        endpoint is None ==> r@ == "http://localhost:11434"@,
{
    match endpoint {
        Some(e) => e,
        None => String::from_str("http://localhost:11434"),
    }
}

/// The generation route under the local service's endpoint.
pub fn ollama_generate_url(endpoint: &str) -> (r: String)
    ensures
        r@ == endpoint@ + "/api/generate"@,
{
    let mut s = String::new();
    s.append(endpoint);
    s.append("/api/generate");
    s
}

/// The model-listing route under the local service's endpoint.
pub fn ollama_tags_url(endpoint: &str) -> (r: String)
    ensures
        r@ == endpoint@ + "/api/tags"@,
{
    let mut s = String::new();
    s.append(endpoint);
    s.append("/api/tags");
    s
}

/// The listing prefix a hosted service puts before each model name.
pub open spec fn models_prefix() -> Seq<char> {
    seq!['m', 'o', 'd', 'e', 'l', 's', '/']
}

/// The model name with every occurrence of the listing prefix removed.
pub open spec fn stripped_model_name(s: Seq<char>) -> Seq<char>
    decreases s.len(),
{
    if s.len() == 0 {
        Seq::empty()
    } else if s.len() >= 7 && s.take(7) == models_prefix() {
        stripped_model_name(s.skip(7))
    } else {
        seq![s[0]] + stripped_model_name(s.skip(1))
    }
}

/// Removes every occurrence of the listing prefix from a returned model
/// name, leaving the identifier the generation route expects.
pub fn strip_model_prefix(s: &str) -> (r: String)
    ensures
        r@ == stripped_model_name(s@),
{
    let n = s.unicode_len();
    let mut out = String::new();
    let mut i: usize = 0;
    proof {
        assert(s@.skip(0) =~= s@);
    }
    while i < n
        invariant
            i <= n,
            n == s@.len(),
            stripped_model_name(s@) == out@ + stripped_model_name(s@.skip(i as int)),
        decreases n - i,
    {
        let mut prefix_here = n - i >= 7;
        if prefix_here {
            prefix_here = s.get_char(i) == 'm' && s.get_char(i + 1) == 'o' && s.get_char(i + 2)
                == 'd' && s.get_char(i + 3) == 'e' && s.get_char(i + 4) == 'l' && s.get_char(i + 5)
                == 's' && s.get_char(i + 6) == '/';
        }
        proof {
            if n - i >= 7 {
                assert(s@.skip(i as int).take(7) =~= seq![
                    s@[i as int],
                    s@[i as int + 1],
                    s@[i as int + 2],
                    s@[i as int + 3],
                    s@[i as int + 4],
                    s@[i as int + 5],
                    s@[i as int + 6],
                ]);
            }
        }
        if prefix_here {
            proof {
                assert(s@.skip(i as int).take(7) == models_prefix());
                assert(s@.skip(i as int).skip(7) =~= s@.skip(i + 7));
            }
            i = i + 7;
        } else {
            let c = s.get_char(i);
            proof {
                assert(s@.skip(i as int)[0] == s@[i as int]);
                assert(s@.skip(i as int).skip(1) =~= s@.skip(i + 1));
                if s@.skip(i as int).len() >= 7 {
                    assert(s@.skip(i as int).take(7) != models_prefix());
                }
            }
            push_char(&mut out, c);
            proof {
                assert(stripped_model_name(s@) =~= out@ + stripped_model_name(s@.skip(i + 1)));
            }
            i = i + 1;
        }
    }
    proof {
        assert(s@.skip(n as int) =~= Seq::<char>::empty());
        assert(stripped_model_name(s@) =~= out@);
    }
    out
}

/// Whether a listed identifier names a chat-capable model.
pub open spec fn is_chat_model_id(s: Seq<char>) -> bool {
    (s.len() >= 3 && s.take(3) == seq!['g', 'p', 't']) || (s.len() >= 2 && s.take(2) == seq![
        'o',
        '1',
    ])
}

/// The listed models whose identifiers name chat-capable models, in their
/// listed order.
pub open spec fn chat_models(models: Seq<AIModel>) -> Seq<AIModel>
    decreases models.len(),
{
    if models.len() == 0 {
        Seq::empty()
    } else {
        (if is_chat_model_id(models[0].id@) {
            seq![models[0]]
        } else {
            Seq::empty()
        }) + chat_models(models.skip(1))
    }
}

/// Whether the identifier names a chat-capable model.
fn is_chat_model(m: &AIModel) -> (r: bool)
    ensures
        r == is_chat_model_id(m.id@),
{
    let n = m.id.as_str().unicode_len();
    let gpt = n >= 3 && m.id.as_str().get_char(0) == 'g' && m.id.as_str().get_char(1) == 'p'
        && m.id.as_str().get_char(2) == 't';
    let o1 = n >= 2 && m.id.as_str().get_char(0) == 'o' && m.id.as_str().get_char(1) == '1';
    proof {
        if n >= 3 {
            assert(m.id@.take(3) =~= seq![m.id@[0], m.id@[1], m.id@[2]]);
        }
        if n >= 2 {
            assert(m.id@.take(2) =~= seq![m.id@[0], m.id@[1]]);
        }
    }
    gpt || o1
}

/// Keeps the chat-capable models of a listing, in their listed order.
pub fn filter_chat_models(models: Vec<AIModel>) -> (r: Vec<AIModel>)
    ensures
        r@ == chat_models(models@),
{
    let mut out: Vec<AIModel> = Vec::new();
    let mut rest = models;
    let ghost all = rest@;
    while rest.len() > 0
        invariant
            chat_models(all) == out@ + chat_models(rest@),
        decreases rest@.len(),
    {
        let ghost before = rest@;
        let m = rest.remove(0);
        proof {
            assert(before[0] == m);
            assert(rest@ =~= before.skip(1));
        }
        if is_chat_model(&m) {
            out.push(m);
        }
        proof {
            assert(chat_models(all) =~= out@ + chat_models(rest@));
        }
    }
    proof {
        assert(out@ =~= chat_models(all));
    }
    out
}

/// Whether the listing is ordered by identifier, first to last.
pub open spec fn ids_ascending(models: Seq<AIModel>) -> bool {
    forall|i: int, j: int|
        0 <= i < j < models.len() ==> lex_le(#[trigger] models[i].id@, #[trigger] models[j].id@)
}

/// Sorts a model listing by identifier, keeping exactly the given models.
pub fn sort_models_by_id(models: Vec<AIModel>) -> (r: Vec<AIModel>)
    ensures
        ids_ascending(r@),
        r@.to_multiset() == models@.to_multiset(),
{
    broadcast use vstd::seq_lib::group_to_multiset_ensures;

    let mut rest = models;
    let mut out: Vec<AIModel> = Vec::new();
    while rest.len() > 0
        invariant
            ids_ascending(out@),
            forall|i: int, j: int|
                0 <= i < out@.len() && 0 <= j < rest@.len() ==> lex_le(
                    #[trigger] out@[i].id@,
                    #[trigger] rest@[j].id@,
                ),
            out@.to_multiset().add(rest@.to_multiset()) == models@.to_multiset(),
        decreases rest@.len(),
    {
        // find the first remaining model in order
        let mut m: usize = 0;
        let mut k: usize = 1;
        proof {
            lemma_lex_le_refl(rest@[0].id@);
        }
        while k < rest.len()
            invariant
                m < k <= rest@.len(),
                rest@.len() > 0,
                forall|j: int|
                    0 <= j < k ==> lex_le(rest@[m as int].id@, #[trigger] rest@[j].id@),
            decreases rest@.len() - k,
        {
            if !str_le(rest[m].id.as_str(), rest[k].id.as_str()) {
                proof {
                    lemma_lex_le_total(rest@[m as int].id@, rest@[k as int].id@);
                    assert forall|j: int| 0 <= j < k implies lex_le(
                        rest@[k as int].id@,
                        #[trigger] rest@[j].id@,
                    ) by {
                        lemma_lex_le_trans(
                            rest@[k as int].id@,
                            rest@[m as int].id@,
                            rest@[j].id@,
                        );
                    }
                }
                m = k;
                proof {
                    lemma_lex_le_refl(rest@[m as int].id@);
                }
            }
            k = k + 1;
        }
        let ghost rest_before = rest@;
        let ghost out_before = out@;
        let picked = rest.remove(m);
        proof {
            assert(rest@ == rest_before.remove(m as int));
            assert(forall|j: int|
                0 <= j < rest@.len() ==> #[trigger] rest@[j] == (if j < m {
                    rest_before[j]
                } else {
                    rest_before[j + 1]
                }));
        }
        out.push(picked);
        proof {
            assert(forall|i: int|
                0 <= i < out@.len() ==> #[trigger] out@[i] == (if i < out_before.len() {
                    out_before[i]
                } else {
                    picked
                }));
            assert forall|i: int, j: int|
                0 <= i < out@.len() && 0 <= j < rest@.len() implies lex_le(
                #[trigger] out@[i].id@,
                #[trigger] rest@[j].id@,
            ) by {
                if i == out_before.len() {
                    let jj: int = if j < m {
                        j
                    } else {
                        j + 1
                    };
                    assert(rest@[j] == rest_before[jj]);
                    assert(lex_le(rest_before[m as int].id@, rest_before[jj].id@));
                }
            }
            assert(ids_ascending(out@));
            assert(picked == rest_before[m as int]);
            rest_before.to_multiset_ensures();
            out_before.to_multiset_ensures();
            assert(rest_before.remove(m as int).to_multiset() =~= rest_before.to_multiset().remove(
                picked,
            ));
            assert(rest_before.contains(picked));
            assert(rest_before.to_multiset().count(picked) >= 1);
            assert(out_before.push(picked).to_multiset() =~= out_before.to_multiset().insert(
                picked,
            ));
            assert(out@.to_multiset().add(rest@.to_multiset()) =~= models@.to_multiset());
        }
    }
    proof {
        assert(rest@.to_multiset() =~= Multiset::<AIModel>::empty());
        assert(out@.to_multiset() =~= models@.to_multiset());
    }
    out
}

} // verus!
