use sovereign_kernel::chat::{broadcast_replies, record_chat};
use sovereign_kernel::providers::{ask_chain, chain_next, subagent_chain, ChainAction, Provider};
use sovereign_kernel::ranking::{prune_order, rank_descending};

#[test]
fn chat_log_forgets_fifty_past_a_hundred() {
    let mut log: Vec<u32> = Vec::new();
    for i in 0..100 {
        record_chat(&mut log, i);
    }
    assert_eq!(log.len(), 100);
    record_chat(&mut log, 100);
    assert_eq!(log.len(), 51);
    assert_eq!(log[0], 50);
    assert_eq!(*log.last().unwrap(), 100);
}

#[test]
fn broadcast_is_answered_by_four_agents() {
    let rs = broadcast_replies("let's build a forge!");
    let agents: Vec<&str> = rs.iter().map(|r| r.agent.as_str()).collect();
    assert_eq!(agents, vec!["SCRIBE", "BUILDER", "MERCHANT", "PROPHET"]);
    assert_eq!(rs[0].reply, "SCRIBE: I record all memories in the Weave. What knowledge do you seek?");
    assert_eq!(
        rs[1].reply,
        "BUILDER: Architect ready. What shall we construct? Soul Forge, Habitat, or something new?"
    );
    assert_eq!(rs[2].reply, "MERCHANT: Economy flows. Market=8 profit/tick. Tax=5/tick. Trade balances all.");
    assert_eq!(rs[3].reply, "PROPHET: The Weave reveals paths. Trials approach. Transformation awaits.");
}

#[test]
fn broadcast_naming_the_scribe_gets_the_scribe_everywhere() {
    let rs = broadcast_replies("SCRIBE: note this");
    for r in rs.iter() {
        assert_eq!(r.reply, "SCRIBE: I record all memories in the Weave. What knowledge do you seek?");
    }
}

#[test]
fn model_chains() {
    assert_eq!(
        ask_chain(true, true),
        vec![
            Provider::OpenRouter,
            Provider::Copilot,
            Provider::HuggingFace,
            Provider::Groq,
            Provider::Gemini,
            Provider::Mistral
        ]
    );
    assert_eq!(
        ask_chain(false, false),
        vec![Provider::HuggingFace, Provider::Groq, Provider::Gemini, Provider::Mistral]
    );
    assert_eq!(ask_chain(false, true)[0], Provider::Copilot);
    assert_eq!(
        subagent_chain(),
        vec![
            Provider::OpenRouter,
            Provider::HuggingFace,
            Provider::Groq,
            Provider::Gemini,
            Provider::Mistral,
            Provider::Copilot
        ]
    );
}

#[test]
fn chain_steps() {
    let chain = ask_chain(false, false);
    assert!(matches!(chain_next(&chain, 0, None), ChainAction::Ask(Provider::HuggingFace)));
    assert!(matches!(chain_next(&chain, 1, Some(String::new())), ChainAction::Ask(Provider::Groq)));
    match chain_next(&chain, 2, Some("hi".to_string())) {
        ChainAction::Answer(r) => assert_eq!(r, "hi"),
        _ => panic!("expected the answer"),
    }
    assert!(matches!(chain_next(&chain, 4, None), ChainAction::Fallback));
    assert!(matches!(chain_next(&chain, 4, Some(String::new())), ChainAction::Fallback));
    match chain_next(&chain, 4, Some("late".to_string())) {
        ChainAction::Answer(r) => assert_eq!(r, "late"),
        _ => panic!("expected the answer"),
    }
}

#[test]
fn ranking_is_stable_and_descending() {
    assert_eq!(rank_descending(&vec![3, 9, 3, 1, 9]), vec![1, 4, 0, 2, 3]);
    assert_eq!(rank_descending(&vec![]), Vec::<usize>::new());
    assert_eq!(rank_descending(&vec![5, 5, 5]), vec![0, 1, 2]);
}

#[test]
fn pruning_keeps_everything_up_to_four_hundred() {
    let keys: Vec<u128> = (0..400u128).rev().collect();
    assert_eq!(prune_order(&keys), (0..400usize).collect::<Vec<usize>>());
}

#[test]
fn pruning_keeps_four_hundred_highest() {
    let keys: Vec<u128> = (0..450u128).collect();
    let kept = prune_order(&keys);
    assert_eq!(kept.len(), 400);
    assert_eq!(kept[0], 449);
    assert_eq!(kept[399], 50);
}

#[test]
fn ranking_lists_every_item_once() {
    let keys: Vec<u128> = vec![4, 8, 15, 16, 23, 42, 8, 4, 0, 15];
    let mut order = rank_descending(&keys);
    for w in order.windows(2) {
        assert!(keys[w[0]] >= keys[w[1]]);
    }
    order.sort();
    assert_eq!(order, (0..keys.len()).collect::<Vec<usize>>());
}
