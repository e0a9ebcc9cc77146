use chattyrs::commands::ask::{self, ask_prompt, ask_reply};
use chattyrs::commands::weigh_in::{
    compose_context, generate_relevant_message_prompt, Error, WeighIn, RETRIEVED_INTRO,
    RETRIEVED_OUTRO,
};
use chattyrs::context::{AssemblyError, HistoryMessage};
use chattyrs::environment::{LlmOptions, MemoryOptions};
use chattyrs::llm::engine::{checked_completion, checked_embedding, LlmSettings, DEFAULT_BASE_URL, DEFAULT_MODEL};
use chattyrs::llm::error::Error as LlmError;
use chattyrs::llm::model::{LlmMessage, UserMessage};
use chattyrs::vec_db::vector::{PointKey, RetrievedPoint, VectorError};
use chattyrs::vec_db::DB_VEC_LENGTH;

#[test]
fn relevant_prompt_is_absent_without_messages() {
    assert_eq!(generate_relevant_message_prompt(Vec::new()), None);
}

#[test]
fn relevant_prompt_lists_messages_one_per_line() {
    let p = generate_relevant_message_prompt(vec!["a".to_string(), "b".to_string()]).unwrap();
    assert_eq!(
        p,
        "Using RAG retrieval, the following messages may or may not contain relevant information of messages that were sent in the past.\nRETRIEVED_MESSAGES\na\nb\nEND_OF_RETRIEVED_MESSAGES"
    );
    let one = generate_relevant_message_prompt(vec!["only".to_string()]).unwrap();
    assert_eq!(one, format!("{}only{}", RETRIEVED_INTRO, RETRIEVED_OUTRO));
}

#[test]
fn context_has_one_system_message_first() {
    let narrative = UserMessage { content: "(t) A said: hi\n".to_string() };
    let ctx = compose_context("Be kind.", vec!["old".to_string()], narrative);
    assert_eq!(ctx.len(), 2);
    assert_eq!(ctx[0].role(), "system");
    assert_eq!(ctx[0].content(), format!("Be kind.\n{}old{}", RETRIEVED_INTRO, RETRIEVED_OUTRO));
    assert_eq!(ctx[1].role(), "user");
    assert_eq!(ctx[1].content(), "(t) A said: hi\n");
    let bare = compose_context("Be kind.", Vec::new(), UserMessage { content: "x".to_string() });
    assert_eq!(bare[0].content(), "Be kind.\n");
}

#[test]
fn empty_completion_is_an_error() {
    assert_eq!(checked_completion(Ok(String::new())), Err(LlmError::EmptyResponseError));
    assert_eq!(checked_completion(Ok("x".to_string())), Ok("x".to_string()));
    assert_eq!(
        checked_completion(Err(LlmError::HTTPResponseParseFailed("bad".to_string()))),
        Err(LlmError::HTTPResponseParseFailed("bad".to_string()))
    );
}

#[test]
fn ask_reply_quotes_the_question() {
    assert_eq!(ask_prompt(Some("why?".to_string())), Ok("why?".to_string()));
    assert_eq!(ask_prompt(None), Err(ask::Error::MissingQuestion));
    assert_eq!(ask_reply("why?", Ok("because".to_string())), Ok("**Question**: *why?*\nbecause".to_string()));
    assert_eq!(
        ask_reply("why?", Ok(String::new())),
        Err(ask::Error::LlmEngineCompletionFailed(LlmError::EmptyResponseError))
    );
    assert_eq!(
        ask_reply("why?", Err(LlmError::HTTPRequestFailed("down".to_string()))),
        Err(ask::Error::LlmEngineCompletionFailed(LlmError::HTTPRequestFailed("down".to_string())))
    );
}

#[test]
fn settings_fill_in_defaults() {
    let options = LlmOptions {
        model: None,
        base_url: None,
        system_prompt: "p".to_string(),
        embed_model: "emb".to_string(),
    };
    let s = LlmSettings::new(&options);
    assert_eq!(s.model, DEFAULT_MODEL);
    assert_eq!(s.model, "llama3");
    assert_eq!(s.base_url, DEFAULT_BASE_URL);
    assert_eq!(s.embed_model, "emb");
    let options = LlmOptions {
        model: Some("m".to_string()),
        base_url: Some("http://h".to_string()),
        system_prompt: "p".to_string(),
        embed_model: "emb".to_string(),
    };
    let s = LlmSettings::new(&options);
    assert_eq!(s.model, "m");
    assert_eq!(s.embed_url(), "http://h/embed");
    assert_eq!(s.generate_url(), "http://h/generate");
    assert_eq!(s.chat_url(), "http://h/chat");
}

#[test]
fn history_limit_must_fit_a_byte() {
    assert_eq!(MemoryOptions { max_message_count: 50 }.history_limit(), Some(50));
    assert_eq!(MemoryOptions { max_message_count: 255 }.history_limit(), Some(255));
    assert_eq!(MemoryOptions { max_message_count: 256 }.history_limit(), None);
}

fn person(content: &str, posted_at: i64) -> HistoryMessage {
    HistoryMessage { author: "A".to_string(), is_bot: false, content: content.to_string(), posted_at }
}

#[test]
fn weigh_in_runs_its_stages_in_turn() {
    assert_eq!(WeighIn::new("p".to_string(), None, 10).err(), Some(Error::MissingGuildID));
    assert_eq!(WeighIn::new("p".to_string(), Some(1), 300).err(), Some(Error::HistoryLimitTooLarge));
    let w = WeighIn::new("sys".to_string(), Some(77), 10).unwrap();
    assert_eq!(w.history_limit, 10);
    let embed = w.with_history(Ok(vec![person("hi", 1_704_103_200)])).unwrap();
    assert_eq!(embed.narrative.content, "(01/01/2024 10:00) A said: hi\n");
    let vector: Vec<u32> = vec![0; DB_VEC_LENGTH as usize];
    let search = embed.with_embedding(Ok(vector.clone())).unwrap();
    assert_eq!(search.request.tenant_key, 77);
    let points = vec![
        RetrievedPoint {
            id: Some(PointKey::Num(1)),
            guild_id: Some(77),
            message: Some("earlier".to_string()),
            vector: Some(vector.clone()),
        },
        RetrievedPoint {
            id: Some(PointKey::Num(2)),
            guild_id: Some(78),
            message: Some("elsewhere".to_string()),
            vector: Some(vector),
        },
    ];
    let chat = search.with_points(Ok(points)).unwrap();
    assert_eq!(chat.messages.len(), 2);
    assert_eq!(
        chat.messages[0].content(),
        format!("sys\n{}earlier{}", RETRIEVED_INTRO, RETRIEVED_OUTRO)
    );
    assert!(matches!(&chat.messages[1], LlmMessage::UserMessage(_)));
    assert_eq!(chat.with_completion(Ok("nice".to_string())), Ok("nice".to_string()));
}

#[test]
fn weigh_in_stops_at_the_first_failure() {
    let w = WeighIn::new("sys".to_string(), Some(1), 10).unwrap();
    assert_eq!(w.with_history(Err("gone".to_string())).err(), Some(Error::GetChannelFailed("gone".to_string())));
    let w = WeighIn::new("sys".to_string(), Some(1), 10).unwrap();
    let bots = vec![HistoryMessage { author: "b".to_string(), is_bot: true, content: "x".to_string(), posted_at: 0 }];
    assert_eq!(w.with_history(Ok(bots)).err(), Some(Error::Context(AssemblyError::MissingContext)));
    let w = WeighIn::new("sys".to_string(), Some(1), 10).unwrap();
    let embed = w.with_history(Ok(vec![person("hi", 0)])).unwrap();
    assert_eq!(
        embed.with_embedding(Ok(vec![1, 2, 3])).err(),
        Some(Error::VectorDB(VectorError::WrongDimension { expected: DB_VEC_LENGTH, found: 3 }))
    );
    let w = WeighIn::new("sys".to_string(), Some(1), 10).unwrap();
    let embed = w.with_history(Ok(vec![person("hi", 0)])).unwrap();
    assert_eq!(
        embed.with_embedding(Err(LlmError::HTTPRequestFailed("x".to_string()))).err(),
        Some(Error::LlmError(LlmError::HTTPRequestFailed("x".to_string())))
    );
    let w = WeighIn::new("sys".to_string(), Some(1), 10).unwrap();
    let embed = w.with_history(Ok(vec![person("hi", 0)])).unwrap();
    let search = embed.with_embedding(Ok(vec![0; DB_VEC_LENGTH as usize])).unwrap();
    assert_eq!(
        search.with_points(Err("down".to_string())).err(),
        Some(Error::VectorDB(VectorError::Store("down".to_string())))
    );
}

#[test]
fn embedding_of_wrong_length_is_a_failed_embedding() {
    let good: Vec<u32> = vec![7; DB_VEC_LENGTH as usize];
    assert_eq!(checked_embedding(Ok(good.clone())), Ok(good));
    assert_eq!(
        checked_embedding(Ok(vec![1, 2])),
        Err(LlmError::EmbeddingFailed { expected: DB_VEC_LENGTH, found: 2 })
    );
    assert_eq!(
        checked_embedding(Err(LlmError::HTTPRequestFailed("x".to_string()))),
        Err(LlmError::HTTPRequestFailed("x".to_string()))
    );
}
