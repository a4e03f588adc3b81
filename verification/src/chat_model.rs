//! The chat model families the provider serves, each with the path
//! segment its invoke endpoint lives under.

use crate::strutil::str_eq;
use vstd::prelude::*;

verus! {

/// The chat model families, by their endpoint path segments.
#[derive(Debug, Clone, Copy, PartialEq, Eq, Structural)]
#[non_exhaustive]
pub enum ChatModel {
    ErnieBotTurbo,
    ErnieBot,
    ErnieBot128K,
    ErnieSpeed,
    ErnieSpeed128K,
    ErnieFunc,
    Ernie40,
}

impl ChatModel {
    /// The model's path segment.
    pub open spec fn spec_name(&self) -> Seq<char> {
        match self {
            ChatModel::ErnieBotTurbo => "eb-instant"@,
            ChatModel::ErnieBot => "completions"@,
            ChatModel::ErnieBot128K => "ernie-3.5-128k"@,
            ChatModel::ErnieSpeed => "ernie_speed"@,
            ChatModel::ErnieSpeed128K => "ernie-speed-128k"@,
            ChatModel::ErnieFunc => "ernie-func-8k"@,
            ChatModel::Ernie40 => "completions_pro"@,
        }
    }

    /// The model's path segment.
    pub fn to_string(&self) -> (r: String)
        ensures
            r@ == self.spec_name(),
    {
        match self {
            ChatModel::ErnieBotTurbo => String::from_str("eb-instant"),
            ChatModel::ErnieBot => String::from_str("completions"),
            ChatModel::ErnieBot128K => String::from_str("ernie-3.5-128k"),
            ChatModel::ErnieSpeed => String::from_str("ernie_speed"),
            ChatModel::ErnieSpeed128K => String::from_str("ernie-speed-128k"),
            ChatModel::ErnieFunc => String::from_str("ernie-func-8k"),
            ChatModel::Ernie40 => String::from_str("completions_pro"),
        }
    }

    /// The model a path segment names, if any.
    pub fn from_str(s: &str) -> (r: Option<ChatModel>)
        ensures
            match r {
                Some(m) => s@ == m.spec_name(),
                None => {
                    &&& s@ != "eb-instant"@
                    &&& s@ != "completions"@
                    &&& s@ != "ernie-3.5-128k"@
                    &&& s@ != "ernie_speed"@
                    &&& s@ != "ernie-speed-128k"@
                    &&& s@ != "ernie-func-8k"@
                    &&& s@ != "completions_pro"@
                },
            },
    {
        if str_eq(s, "eb-instant") {
            Some(ChatModel::ErnieBotTurbo)
        } else if str_eq(s, "completions") {
            Some(ChatModel::ErnieBot)
        } else if str_eq(s, "ernie-3.5-128k") {
            Some(ChatModel::ErnieBot128K)
        } else if str_eq(s, "ernie_speed") {
            Some(ChatModel::ErnieSpeed)
        } else if str_eq(s, "ernie-speed-128k") {
            Some(ChatModel::ErnieSpeed128K)
        } else if str_eq(s, "ernie-func-8k") {
            Some(ChatModel::ErnieFunc)
        } else if str_eq(s, "completions_pro") {
            Some(ChatModel::Ernie40)
        } else {
            None
        }
    }
}

impl Default for ChatModel {
    /// The default model family.
    fn default() -> (r: Self)
        ensures
            r == ChatModel::ErnieBotTurbo,
    {
        ChatModel::ErnieBotTurbo
    }
}

} // verus!
