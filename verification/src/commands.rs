//! The commands of the bot and what it answers to them.

use crate::messages::answer;
use crate::messages::markdown_reply;
use crate::messages::replies_view;
use crate::messages::spec_answer;
use crate::messages::Reply;
use crate::messages::ReplyView;
use crate::messages::NOTHING_FOUND;
use crate::storage::spec_search_result;
use crate::storage::PaperDatabase;
use crate::storage::PaperView;
use crate::utils::markdown_v2_escape;
use crate::utils::spec_markdown_v2_escape;
use vstd::prelude::*;

verus! {

/// The answer to `/help`.
pub const HELP_TEXT: &'static str =
    "Команды:\n        (инлайн-режим) - Просто напишите [Nxxxx|Pxxxx|PxxxxRx|Dxxxx|DxxxxRx|CWGxxx|EWGxxx|LWGxxx|LEWGxxx|FSxxx] в любом сообщении\n        /about - информация о боте\n        /search - поиск бумаги по её номеру, части названия или автору\n        /help - показать это сообщение";

/// The answer to `/about`.
pub const ABOUT_TEXT: &'static str =
    "Репозиторий бота: https://github.com/ZaMaZaN4iK/npaperbot-telegram .Там вы можете получить более подробную справку, оставить отчёт о проблеме или внести какое-либо предложение.";

/// A command that a user gave to the bot.
#[derive(Debug, Eq, PartialEq)]
pub enum Command {
    /// Asks for the list of commands.
    Help,
    /// Asks what the bot is.
    About,
    /// Asks for the papers whose number, title or author the text matches.
    Search(String),
}

/// A reply in plain text.
pub open spec fn plain_reply(text: Seq<char>) -> ReplyView {
    ReplyView { text, markdown_v2: false }
}

/// What [`command_handler`] returns.
///
/// A search answers as a message that mentions papers does. A pattern that
/// is no regular expression gets the word that nothing was found, which
/// asks for another request.
pub open spec fn spec_command_handler(command: Command, papers: Seq<PaperView>, limit: nat) -> Seq<
    ReplyView,
> {
    match command {
        Command::Help => seq![plain_reply(HELP_TEXT@)],
        Command::About => seq![plain_reply(ABOUT_TEXT@)],
        Command::Search(pattern) => match spec_search_result(papers, pattern@, true, limit) {
            Ok((truncated, found)) => spec_answer(found, truncated, limit),
            Err(_) => seq![markdown_reply(spec_markdown_v2_escape(NOTHING_FOUND@))],
        },
    }
}

/// The replies to a command; a search returns at most `limit` papers.
pub fn command_handler(command: Command, papers: &PaperDatabase, limit: u8) -> (replies: Vec<
    Reply,
>)
    ensures
        replies_view(replies@) == spec_command_handler(command, papers@, limit as nat),
{
    match command {
        Command::Help => {
            let mut replies: Vec<Reply> = Vec::new();
            replies.push(Reply { text: HELP_TEXT.to_owned(), markdown_v2: false });
            assert(replies_view(replies@) =~= seq![plain_reply(HELP_TEXT@)]);
            replies
        },
        Command::About => {
            let mut replies: Vec<Reply> = Vec::new();
            replies.push(Reply { text: ABOUT_TEXT.to_owned(), markdown_v2: false });
            assert(replies_view(replies@) =~= seq![plain_reply(ABOUT_TEXT@)]);
            replies
        },
        Command::Search(pattern) => match papers.search_any(&pattern, limit) {
            Ok((truncated, found)) => answer(found, truncated, limit),
            Err(_) => {
                let mut replies: Vec<Reply> = Vec::new();
                replies.push(
                    Reply { text: markdown_v2_escape(NOTHING_FOUND), markdown_v2: true },
                );
                assert(replies_view(replies@) =~= seq![
                    markdown_reply(spec_markdown_v2_escape(NOTHING_FOUND@)),
                ]);
                replies
            },
        },
    }
}

} // verus!
