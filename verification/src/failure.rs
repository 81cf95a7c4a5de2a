//! The one kind of failure: a store operation failed. What differs is the
//! step that failed, which the message names before the words that say
//! what went wrong, most often the store's own.

use vstd::prelude::*;

verus! {

/// The step that failed.
#[derive(Debug, Clone, Copy, PartialEq, Eq)]
pub enum Failure {
    Migration,
    CountWords,
    InsertSeed,
    LoadWords,
    SaveWord,
    DeleteWord,
    LoadSetting,
    SaveSetting,
}

impl Failure {
    /// What the message starts with.
    pub open spec fn prefix(self) -> Seq<char> {
        match self {
            Failure::Migration => "数据库迁移失败: "@,
            Failure::CountWords => "查询单词数量失败: "@,
            Failure::InsertSeed => "插入默认单词失败: "@,
            Failure::LoadWords => "查询单词失败: "@,
            Failure::SaveWord => "保存单词失败: "@,
            Failure::DeleteWord => "删除单词失败: "@,
            Failure::LoadSetting => "查询设置失败: "@,
            Failure::SaveSetting => "保存设置失败: "@,
        }
    }

    /// The message handed to the caller: the step's prefix, then the
    /// description of what went wrong.
    pub fn message(self, cause: &str) -> (text: String)
        ensures
            text@ == self.prefix() + cause@,
    {
        let head: &'static str = match self {
            Failure::Migration => "数据库迁移失败: ",
            Failure::CountWords => "查询单词数量失败: ",
            Failure::InsertSeed => "插入默认单词失败: ",
            Failure::LoadWords => "查询单词失败: ",
            Failure::SaveWord => "保存单词失败: ",
            Failure::DeleteWord => "删除单词失败: ",
            Failure::LoadSetting => "查询设置失败: ",
            Failure::SaveSetting => "保存设置失败: ",
        };
        let mut text: String = head.to_owned();
        text.append(cause);
        text
    }
}

} // verus!
