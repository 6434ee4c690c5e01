use postoffice::block::add_leading_slash::AddLeadingSlashBlock;
use postoffice::block::convert_body::{ConvertBodyBlock, ConvertBodyConfig};
use postoffice::block::lua_filter::{LuaFilterBlock, LuaFilterConfig};
use postoffice::block::match_topic::{MatchTopicBlock, MatchTopicConfig};
use postoffice::block::remove_body::RemoveBodyBlock;
use postoffice::block::remove_leading_slash::RemoveLeadingSlashBlock;
use postoffice::block::replace_body::ReplaceBodyBlock;
use postoffice::block::replace_topic::ReplaceTopicBlock;
use postoffice::block::wait::WaitBlock;
use postoffice::block::{filtered, make_block, AnyBlock, Block, BlockConfig, BlockError, Connection};
use postoffice::error::{ConversionError, DataKind};
use postoffice::json::{JsonNumber, JsonValue};
use postoffice::message::{InternalMessage, InternalMessageData};
use postoffice::osc::OscArg;

fn message(topic: &str, data: InternalMessageData) -> InternalMessage {
    InternalMessage { source_connector_idx: 3, topic: topic.to_string(), data }
}

fn plain(topic: &str) -> InternalMessage {
    message(topic, InternalMessageData::String("body".to_string()))
}

fn json(source: &str) -> InternalMessageData {
    InternalMessageData::Json(JsonValue::from_text(source).unwrap())
}

fn lua(script: &str) -> LuaFilterBlock {
    LuaFilterBlock::new(LuaFilterConfig::Inline(script.to_string())).unwrap()
}

#[test]
fn add_leading_slash_prepends_once() {
    let block = AddLeadingSlashBlock {};
    assert_eq!(block.exec(plain("foo/bar")), Ok(vec![plain("/foo/bar")]));
    assert_eq!(block.exec(plain("/foo/bar")), Ok(vec![plain("/foo/bar")]));
    assert_eq!(block.exec(plain("")), Ok(vec![plain("/")]));
    assert_eq!(block.exec(plain("//x")), Ok(vec![plain("//x")]));
}

#[test]
fn remove_leading_slash_strips_all() {
    let block = RemoveLeadingSlashBlock {};
    assert_eq!(block.exec(plain("/foo/bar")), Ok(vec![plain("foo/bar")]));
    assert_eq!(block.exec(plain("///foo/")), Ok(vec![plain("foo/")]));
    assert_eq!(block.exec(plain("foo")), Ok(vec![plain("foo")]));
    assert_eq!(block.exec(plain("//")), Ok(vec![plain("")]));
}

#[test]
fn replace_topic_sets_the_topic() {
    let block = ReplaceTopicBlock { config: "/bus/rewritten".to_string() };
    assert_eq!(block.exec(plain("foo/bar")), Ok(vec![plain("/bus/rewritten")]));
}

#[test]
fn replace_body_sets_a_json_payload() {
    let doc = JsonValue::Object(vec![("k".to_string(), JsonValue::Number(JsonNumber::PosInt(1)))]);
    let block = ReplaceBodyBlock { config: doc.clone() };
    assert_eq!(block.exec(plain("t")), Ok(vec![message("t", InternalMessageData::Json(doc))]));
}

#[test]
fn remove_body_empties_the_payload() {
    let block = RemoveBodyBlock {};
    assert_eq!(block.exec(plain("t")), Ok(vec![message("t", InternalMessageData::Empty)]));
}

#[test]
fn convert_body_applies_the_conversion() {
    let input = || message("t", InternalMessageData::Binary(b"[1]".to_vec()));
    let to = |config| ConvertBodyBlock { config }.exec(input());
    assert_eq!(to(ConvertBodyConfig::Empty), Ok(vec![message("t", InternalMessageData::Empty)]));
    assert_eq!(to(ConvertBodyConfig::Binary), Ok(vec![input()]));
    assert_eq!(
        to(ConvertBodyConfig::String),
        Ok(vec![message("t", InternalMessageData::String("[1]".to_string()))])
    );
    assert_eq!(to(ConvertBodyConfig::JSON), Ok(vec![message("t", json("[1]"))]));
    assert_eq!(
        to(ConvertBodyConfig::OSC),
        Err(BlockError::Conversion(ConversionError::Unsupported(DataKind::Binary, DataKind::Osc)))
    );
    let block = ConvertBodyBlock { config: ConvertBodyConfig::OSC };
    assert_eq!(
        block.exec(message("t", json("[1]"))),
        Ok(vec![message("t", InternalMessageData::OSC(vec![OscArg::Int(1)]))])
    );
    assert_eq!(
        block.exec(message("t", json("{}"))),
        Err(BlockError::Conversion(ConversionError::TopLevelNotArray))
    );
}

#[test]
fn match_topic_exact() {
    let block = MatchTopicBlock::new(MatchTopicConfig::Exact("a/b".to_string())).unwrap();
    assert!(block.regex.is_none());
    assert_eq!(block.exec(plain("a/b")), Ok(vec![plain("a/b")]));
    assert_eq!(block.exec(plain("a/b/c")), Ok(vec![]));
    assert_eq!(block.exec(plain("a")), Ok(vec![]));
    assert_eq!(block.is_match("a/b"), Ok(true));
    assert_eq!(block.is_match("A/b"), Ok(false));
}

#[test]
fn match_topic_starts_with() {
    let block = MatchTopicBlock::new(MatchTopicConfig::StartsWith("/alert/".to_string())).unwrap();
    assert_eq!(block.exec(plain("/alert/fire")), Ok(vec![plain("/alert/fire")]));
    assert_eq!(block.exec(plain("/status/ok")), Ok(vec![]));
    assert_eq!(block.exec(plain("/alert")), Ok(vec![]));
    assert_eq!(block.exec(plain("/alert/")), Ok(vec![plain("/alert/")]));
}

#[test]
fn match_topic_ends_with() {
    let block = MatchTopicBlock::new(MatchTopicConfig::EndsWith("/state".to_string())).unwrap();
    assert_eq!(block.exec(plain("lamp/state")), Ok(vec![plain("lamp/state")]));
    assert_eq!(block.exec(plain("lamp/state/x")), Ok(vec![]));
    assert_eq!(block.exec(plain("state")), Ok(vec![]));
}

#[test]
fn match_topic_regex() {
    let block = MatchTopicBlock::new(MatchTopicConfig::Regex("^dev/[0-9]+/temp$".to_string())).unwrap();
    assert!(block.regex.is_some());
    assert_eq!(block.exec(plain("dev/12/temp")), Ok(vec![plain("dev/12/temp")]));
    assert_eq!(block.exec(plain("dev/x/temp")), Ok(vec![]));
    let anywhere = MatchTopicBlock::new(MatchTopicConfig::Regex("b+".to_string())).unwrap();
    assert_eq!(anywhere.is_match("aabba"), Ok(true));
    assert_eq!(anywhere.is_match("aaa"), Ok(false));
}

#[test]
fn match_topic_regex_fails_at_construction() {
    assert_eq!(
        MatchTopicBlock::new(MatchTopicConfig::Regex("[".to_string())).err(),
        Some(BlockError::InvalidPattern)
    );
    assert!(MatchTopicBlock::new(MatchTopicConfig::Exact("[".to_string())).is_ok());
}

#[test]
fn match_topic_regex_without_expression_is_an_error() {
    let block = MatchTopicBlock { config: MatchTopicConfig::Regex("a".to_string()), regex: None };
    assert_eq!(block.exec(plain("a")), Err(BlockError::MissingPattern));
}

#[test]
fn lua_filter_json_only() {
    let block = lua("finish(data.x > 10)");
    assert_eq!(block.exec(message("t", json("{\"x\":5}"))), Ok(vec![]));
    assert_eq!(block.exec(message("t", json("{\"x\":42}"))), Ok(vec![message("t", json("{\"x\":42}"))]));
    assert_eq!(block.exec(message("t", InternalMessageData::Binary(b"{\"x\":42}".to_vec()))), Ok(vec![]));
}

#[test]
fn lua_filter_drops_everything_that_is_not_json() {
    let block = lua("finish(true)");
    assert_eq!(block.exec(message("t", InternalMessageData::Empty)), Ok(vec![]));
    assert_eq!(block.exec(plain("t")), Ok(vec![]));
    assert_eq!(block.exec(message("t", InternalMessageData::OSC(vec![OscArg::Int(1)]))), Ok(vec![]));
    assert_eq!(block.exec(message("t", json("null"))), Ok(vec![message("t", json("null"))]));
}

#[test]
fn lua_filter_sees_topic_and_data() {
    let block = lua("finish(topic == 'a/b' and data[2] == 'two' and data[3].deep == 2.5)");
    let data = || json("[1, \"two\", {\"deep\": 2.5}]");
    assert_eq!(block.exec(message("a/b", data())), Ok(vec![message("a/b", data())]));
    assert_eq!(block.exec(message("a/c", data())), Ok(vec![]));
    assert_eq!(block.evaluate("a/b", &JsonValue::from_text("[1, \"two\", {\"deep\": 2.5}]").unwrap()), Ok(true));
}

#[test]
fn lua_filter_without_finish_drops() {
    let block = lua("local x = 1");
    assert_eq!(block.exec(message("t", json("{}"))), Ok(vec![]));
    assert_eq!(block.evaluate("t", &JsonValue::Null), Ok(false));
}

#[test]
fn lua_filter_reports_script_errors() {
    let broken = lua("this is not lua");
    assert!(matches!(broken.exec(message("t", json("{}"))), Err(BlockError::Script(_))));
    let failing = lua("error('no')");
    assert!(matches!(failing.exec(message("t", json("{}"))), Err(BlockError::Script(_))));
    assert_eq!(failing.exec(plain("t")), Ok(vec![]));
}

#[test]
fn lua_filter_uses_a_fresh_interpreter_each_time() {
    let block = lua("if seen then finish(true) else seen = true; finish(false) end");
    assert_eq!(block.exec(message("t", json("1"))), Ok(vec![]));
    assert_eq!(block.exec(message("t", json("1"))), Ok(vec![]));
}

#[test]
fn lua_filter_from_file_has_to_be_resolved_first() {
    assert_eq!(
        LuaFilterBlock::new(LuaFilterConfig::File("filter.lua".to_string())).err(),
        Some(BlockError::UnresolvedScript)
    );
}

#[test]
fn lua_conclude_follows_the_verdict() {
    let m = || message("t", json("1"));
    assert_eq!(LuaFilterBlock::conclude(m(), Ok(true)), Ok(vec![m()]));
    assert_eq!(LuaFilterBlock::conclude(m(), Ok(false)), Ok(vec![]));
    assert_eq!(
        LuaFilterBlock::conclude(m(), Err(BlockError::Script("x".to_string()))),
        Err(BlockError::Script("x".to_string()))
    );
    assert_eq!(LuaFilterBlock::conclude(plain("t"), Ok(true)), Ok(vec![]));
    assert_eq!(LuaFilterBlock::conclude(plain("t"), Err(BlockError::Script("x".to_string()))), Ok(vec![]));
}

#[test]
fn wait_hands_the_message_on() {
    let block = WaitBlock { config: 250 };
    assert_eq!(block.exec(plain("t")), Ok(vec![plain("t")]));
    assert_eq!(AnyBlock::Wait(block).delay_ms(), 250);
    assert_eq!(AnyBlock::RemoveBody(RemoveBodyBlock {}).delay_ms(), 0);
}

#[test]
fn filtered_keeps_or_drops() {
    assert_eq!(filtered(plain("t"), true), vec![plain("t")]);
    assert_eq!(filtered(plain("t"), false), vec![]);
}

#[test]
fn make_block_builds_every_kind() {
    let to = || vec![Connection::Block(1), Connection::Sink(0)];
    let configs = vec![
        BlockConfig::AddLeadingSlash { to: to() },
        BlockConfig::RemoveLeadingSlash { to: to() },
        BlockConfig::RemoveBody { to: to() },
        BlockConfig::ReplaceBody { to: to(), config: JsonValue::Null },
        BlockConfig::MatchTopic { to: to(), config: MatchTopicConfig::Regex("a".to_string()) },
        BlockConfig::ReplaceTopic { to: to(), config: "x".to_string() },
        BlockConfig::LuaFilter { to: to(), config: LuaFilterConfig::Inline("finish(true)".to_string()) },
        BlockConfig::ConvertBody { to: to(), config: ConvertBodyConfig::JSON },
        BlockConfig::Wait { to: to(), config: 5 },
    ];
    let mut names = vec![];
    for config in configs {
        let handle = make_block(config).unwrap();
        assert_eq!(handle.to, to());
        names.push(match handle.block {
            AnyBlock::AddLeadingSlash(_) => "add",
            AnyBlock::RemoveLeadingSlash(_) => "remove",
            AnyBlock::RemoveBody(_) => "remove_body",
            AnyBlock::ReplaceBody(_) => "replace_body",
            AnyBlock::MatchTopic(_) => "match",
            AnyBlock::ReplaceTopic(_) => "replace_topic",
            AnyBlock::LuaFilter(_) => "lua",
            AnyBlock::ConvertBody(_) => "convert",
            AnyBlock::Wait(_) => "wait",
        });
    }
    assert_eq!(
        names,
        vec!["add", "remove", "remove_body", "replace_body", "match", "replace_topic", "lua", "convert", "wait"]
    );
}

#[test]
fn make_block_reports_what_cannot_be_built() {
    let bad_pattern = BlockConfig::MatchTopic { to: vec![], config: MatchTopicConfig::Regex("(".to_string()) };
    assert_eq!(make_block(bad_pattern).err(), Some(BlockError::InvalidPattern));
    let file = BlockConfig::LuaFilter { to: vec![], config: LuaFilterConfig::File("f.lua".to_string()) };
    assert_eq!(make_block(file).err(), Some(BlockError::UnresolvedScript));
}

#[test]
fn any_block_dispatches() {
    let block = AnyBlock::ReplaceTopic(ReplaceTopicBlock { config: "new".to_string() });
    assert_eq!(block.exec(plain("old")), Ok(vec![plain("new")]));
    let filter = AnyBlock::MatchTopic(MatchTopicBlock::new(MatchTopicConfig::Exact("a".to_string())).unwrap());
    assert_eq!(filter.exec(plain("b")), Ok(vec![]));
}
