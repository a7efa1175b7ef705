//! The chain of outside models the kernel asks in turn: which one to ask
//! next, when to take an answer, and when to fall back on the local oracle.
use vstd::prelude::*;

verus! {

/// The outside models the kernel can ask.
#[derive(Debug, Clone, Copy, PartialEq, Eq, Structural)]
pub enum Provider {
    OpenRouter,
    Copilot,
    HuggingFace,
    Groq,
    Gemini,
    Mistral,
}

/// The order in which a prompt of the kernel's own goes round the models:
/// OpenRouter and Copilot only when their keys are set, then HuggingFace,
/// Groq, Gemini and Mistral.
pub open spec fn ask_order(has_openrouter: bool, has_copilot: bool) -> Seq<Provider> {
    (if has_openrouter {
        seq![Provider::OpenRouter]
    } else {
        Seq::empty()
    }) + (if has_copilot {
        seq![Provider::Copilot]
    } else {
        Seq::empty()
    }) + seq![Provider::HuggingFace, Provider::Groq, Provider::Gemini, Provider::Mistral]
}

/// The models a prompt of the kernel's own is offered to, in order.
pub fn ask_chain(has_openrouter: bool, has_copilot: bool) -> (chain: Vec<Provider>)
    ensures
        chain@ == ask_order(has_openrouter, has_copilot),
{
    let mut chain: Vec<Provider> = Vec::new();
    if has_openrouter {
        chain.push(Provider::OpenRouter);
    }
    if has_copilot {
        chain.push(Provider::Copilot);
    }
    chain.push(Provider::HuggingFace);
    chain.push(Provider::Groq);
    chain.push(Provider::Gemini);
    chain.push(Provider::Mistral);
    chain
}

/// The order in which a sub-agent's prompt goes round the models, whatever
/// keys are set.
pub open spec fn subagent_order() -> Seq<Provider> {
    seq![
        Provider::OpenRouter,
        Provider::HuggingFace,
        Provider::Groq,
        Provider::Gemini,
        Provider::Mistral,
        Provider::Copilot,
    ]
}

/// The models a sub-agent's prompt is offered to, in order.
pub fn subagent_chain() -> (chain: Vec<Provider>)
    ensures
        chain@ == subagent_order(),
{
    let mut chain: Vec<Provider> = Vec::new();
    chain.push(Provider::OpenRouter);
    chain.push(Provider::HuggingFace);
    chain.push(Provider::Groq);
    chain.push(Provider::Gemini);
    chain.push(Provider::Mistral);
    chain.push(Provider::Copilot);
    proof {
        assert(chain@ =~= subagent_order());
    }
    chain
}

/// What the chain does next.
#[derive(Debug, Clone)]
pub enum ChainAction {
    /// Ask this model.
    Ask(Provider),
    /// Take this answer; no further model is asked.
    Answer(String),
    /// Every model was asked and none answered: use the local fallback.
    Fallback,
}

/// An answer is taken when the model replied with non-empty text.
pub open spec fn is_answer(last: Option<String>) -> bool {
    last matches Some(r) && r@.len() > 0
}

/// The step after `tried` models of `chain` were asked, `last` being what the
/// last one replied (`None` when it failed or none was asked yet).
pub fn chain_next(chain: &Vec<Provider>, tried: usize, last: Option<String>) -> (a: ChainAction)
    requires
        tried <= chain.len(),
    ensures
        is_answer(last) ==> (a matches ChainAction::Answer(r) && last == Some(r)),
        !is_answer(last) && tried < chain.len() ==> a == ChainAction::Ask(chain@[tried as int]),
        !is_answer(last) && tried == chain.len() ==> a is Fallback,
{
    match last {
        Some(r) => {
            if !r.as_str().is_empty() {
                return ChainAction::Answer(r);
            }
        },
        None => {},
    }
    if tried < chain.len() {
        ChainAction::Ask(chain[tried])
    } else {
        ChainAction::Fallback
    }
}

} // verus!
