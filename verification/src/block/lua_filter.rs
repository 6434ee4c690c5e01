use vstd::prelude::*;
use crate::block::{dropped, filtered, pass, Block, BlockError, Outcome};
use crate::json::JsonValue;
use crate::message::{DataModel, InternalMessage, InternalMessageData, MessageModel};

verus! {

#[verifier::external_type_specification]
#[verifier::external_body]
pub struct ExLua(mlua::Lua);

#[verifier::external_type_specification]
#[verifier::external_body]
pub struct ExLuaError(mlua::Error);

/// Makes an interpreter with the safe standard libraries, by
/// `mlua::Lua::new_with`.
#[verifier::external_body]
fn lua_state() -> Result<mlua::Lua, mlua::Error> {
    mlua::Lua::new_with(mlua::StdLib::ALL_SAFE, mlua::LuaOptions::default())
}

/// Sets the global `name` to a string, by `mlua::Table::set`.
#[verifier::external_body]
fn lua_set_text(lua: &mlua::Lua, name: &str, value: &str) -> Result<(), mlua::Error> {
    lua.globals().set(name, value)
}

/// Sets the global `name` to a JSON document, which `mlua::LuaSerdeExt::to_value`
/// turns into a Lua value.
#[verifier::external_body]
fn lua_set_json(lua: &mlua::Lua, name: &str, value: &JsonValue) -> Result<(), mlua::Error> {
    lua.globals().set(name, mlua::LuaSerdeExt::to_value(lua, &crate::json::to_serde(value))?)
}

/// Sets the global `name` to a function, made by `mlua::Lua::create_function`,
/// that stores its boolean argument in the global `flag`.
#[verifier::external_body]
fn lua_set_flag_writer(lua: &mlua::Lua, name: &str, flag: &str) -> Result<(), mlua::Error> {
    let flag = flag.to_owned();
    let writer = lua.create_function(move |lua, value: bool| lua.globals().set(flag.as_str(), value))?;
    lua.globals().set(name, writer)
}

/// Runs a script, by `mlua::Chunk::exec`.
#[verifier::external_body]
fn lua_run(lua: &mlua::Lua, script: &str) -> Result<(), mlua::Error> {
    lua.load(script).exec()
}

/// Reads the global `name` as a boolean, by `mlua::Table::get`.
#[verifier::external_body]
fn lua_read_flag(lua: &mlua::Lua, name: &str) -> Result<bool, mlua::Error> {
    lua.globals().get(name)
}

/// The words of an interpreter error, by its `to_string`.
#[verifier::external_body]
fn lua_error_text(error: &mlua::Error) -> String {
    error.to_string()
}

/// Where the script of a filter comes from.
#[derive(Debug)]
pub enum LuaFilterConfig {
    /// The script itself.
    Inline(String),
    /// The path of a file that holds the script.
    File(String),
}

/// Lets a script decide whether a JSON message is handed on.
#[derive(Debug)]
pub struct LuaFilterBlock {
    pub script: String,
}

fn script_error(error: mlua::Error) -> (out: BlockError)
    ensures
        out is Script,
{
    BlockError::Script(lua_error_text(&error))
}

impl LuaFilterBlock {
    /// The block for a configuration. A script that is still in a file has to
    /// be read first.
    pub open spec fn spec_new(config: LuaFilterConfig) -> Result<LuaFilterBlock, BlockError> {
        match config {
            LuaFilterConfig::Inline(script) => Ok(LuaFilterBlock { script }),
            LuaFilterConfig::File(_) => Err(BlockError::UnresolvedScript),
        }
    }

    /// Builds the block from an inline script.
    pub fn new(config: LuaFilterConfig) -> (out: Result<LuaFilterBlock, BlockError>)
        ensures
            out == Self::spec_new(config),
    {
        match config {
            LuaFilterConfig::Inline(script) => Ok(LuaFilterBlock { script }),
            LuaFilterConfig::File(_) => Err(BlockError::UnresolvedScript),
        }
    }

    /// Runs the script in a fresh interpreter with the globals `topic` and
    /// `data` and the function `finish`, and reports what the script handed to
    /// `finish`, or `false` if it never called it.
    pub fn evaluate(&self, topic: &str, data: &JsonValue) -> (out: Result<bool, BlockError>)
        ensures
            out matches Err(e) ==> e is Script,
    {
        let lua = match lua_state() {
            Ok(lua) => lua,
            Err(e) => {
                return Err(script_error(e));
            },
        };
        if let Err(e) = lua_set_text(&lua, "topic", topic) {
            return Err(script_error(e));
        }
        if let Err(e) = lua_set_json(&lua, "data", data) {
            return Err(script_error(e));
        }
        if let Err(e) = lua_set_flag_writer(&lua, "finish", "_INTERNAL_MATCHES_") {
            return Err(script_error(e));
        }
        if let Err(e) = lua_run(&lua, self.script.as_str()) {
            return Err(script_error(e));
        }
        match lua_read_flag(&lua, "_INTERNAL_MATCHES_") {
            Ok(matches) => Ok(matches),
            Err(_) => Ok(false),
        }
    }

    /// What the filter answers to `message` once the script has spoken: a
    /// message that is not JSON is dropped whatever the script would say.
    pub open spec fn outcome(input: MessageModel, verdict: Result<bool, BlockError>) -> Outcome {
        if input.data is Json {
            match verdict {
                Ok(true) => pass(input),
                Ok(false) => dropped(),
                Err(e) => Err(e),
            }
        } else {
            dropped()
        }
    }

    /// Turns the verdict of the script into the answer of the block.
    pub fn conclude(message: InternalMessage, verdict: Result<bool, BlockError>) -> (out: Result<
        Vec<InternalMessage>,
        BlockError,
    >)
        ensures
            crate::block::outcome_view(out) == Self::outcome(message@, verdict),
    {
        match &message.data {
            InternalMessageData::Json(_) => match verdict {
                Ok(keep) => Ok(filtered(message, keep)),
                Err(e) => Err(e),
            },
            _ => Ok(crate::block::none()),
        }
    }
}

impl Block for LuaFilterBlock {
    open spec fn allows(&self, input: MessageModel, output: Outcome) -> bool {
        if input.data is Json {
            output == pass(input) || output == dropped() || (output matches Err(e) && e is Script)
        } else {
            output == dropped()
        }
    }

    fn exec(&self, message: InternalMessage) -> (out: Result<Vec<InternalMessage>, BlockError>) {
        let verdict = match &message.data {
            InternalMessageData::Json(value) => self.evaluate(message.topic.as_str(), value),
            _ => Ok(false),
        };
        Self::conclude(message, verdict)
    }
}

} // verus!
