//! The rule data model: one auto-reply rule per `(channel, match_expression)`
//! key, together with the request values that travel between the dispatcher
//! and the rule store.

use vstd::prelude::*;

verus! {

/// Mathematical view of one auto-reply rule.
pub struct SpecCommand {
    pub channel: Seq<char>,
    pub match_expression: Seq<char>,
    pub response_text: Seq<char>,
}

/// One auto-reply rule: when a line in `channel` matches `match_expression`,
/// the bot answers with `response_text`.  Identity key: `(channel,
/// match_expression)`; a second insert with the same key replaces the first.
pub struct Command {
    pub channel: String,
    pub match_expression: String,
    pub response_text: String,
}

impl View for Command {
    type V = SpecCommand;

    open spec fn view(&self) -> SpecCommand {
        SpecCommand {
            channel: self.channel@,
            match_expression: self.match_expression@,
            response_text: self.response_text@,
        }
    }
}

impl DeepView for Command {
    type V = SpecCommand;

    open spec fn deep_view(&self) -> SpecCommand {
        self.view()
    }
}

impl Clone for Command {
    fn clone(&self) -> (r: Command)
        ensures
            r@ == self@,
    {
        Command {
            channel: self.channel.clone(),
            match_expression: self.match_expression.clone(),
            response_text: self.response_text.clone(),
        }
    }
}

/// Both rules carry the same identity key.
pub open spec fn spec_key_eq(a: SpecCommand, b: SpecCommand) -> bool {
    a.channel == b.channel && a.match_expression == b.match_expression
}

/// The rule carries exactly this identity key.
pub open spec fn spec_has_key(c: SpecCommand, channel: Seq<char>, match_expression: Seq<char>) -> bool {
    c.channel == channel && c.match_expression == match_expression
}

/// No two rules in the sequence share an identity key: the table's
/// uniqueness constraint.
pub open spec fn keys_unique(s: Seq<SpecCommand>) -> bool {
    forall|i: int, j: int|
        0 <= i < j < s.len() ==> !spec_key_eq(#[trigger] s[i], #[trigger] s[j])
}

/// Some rule in the sequence carries this key.
pub open spec fn spec_contains_key(s: Seq<SpecCommand>, channel: Seq<char>, match_expression: Seq<char>) -> bool {
    exists|i: int| 0 <= i < s.len() && spec_has_key(#[trigger] s[i], channel, match_expression)
}

/// Request to insert a rule, replacing any rule with the same key.
pub struct CreateCommand {
    pub channel: String,
    pub match_expression: String,
    pub response_text: String,
}

impl View for CreateCommand {
    type V = SpecCommand;

    open spec fn view(&self) -> SpecCommand {
        SpecCommand {
            channel: self.channel@,
            match_expression: self.match_expression@,
            response_text: self.response_text@,
        }
    }
}

impl CreateCommand {
    /// The table row that this request asks to store.
    pub fn into_command(self) -> (r: Command)
        ensures
            r@ == self@,
    {
        Command {
            channel: self.channel,
            match_expression: self.match_expression,
            response_text: self.response_text,
        }
    }
}

/// Mathematical view of a deletion request: an identity key.
pub struct SpecRemoveCommand {
    pub channel: Seq<char>,
    pub match_expression: Seq<char>,
}

/// Request to delete the rule with this key, if any.
pub struct RemoveCommand {
    pub channel: String,
    pub match_expression: String,
}

impl View for RemoveCommand {
    type V = SpecRemoveCommand;

    open spec fn view(&self) -> SpecRemoveCommand {
        SpecRemoveCommand { channel: self.channel@, match_expression: self.match_expression@ }
    }
}

/// Request for the full rule table.
pub struct ListCommands {}

/// A durable-storage fault, reported to the issuing chat user as a generic
/// failure reply and never allowed to crash the bot.
#[derive(Debug)]
pub enum StoreError {
    StorageFault(String),
}

} // verus!
