//! The command dispatcher: recognizing administrator syntax in channel
//! messages, driving the rule store, and orchestrating the
//! store-then-refresh-then-broadcast-then-reply sequence.
//!
//! Admin syntax, after the `#` prefix is stripped and the text trimmed:
//! `set <match_expression> <response_text...>` upserts a rule and
//! `remove <match_expression>` deletes one.  A `set` without response text
//! earns a usage reply and makes no store call; an unknown verb, or text
//! without any whitespace after the verb, is silently ignored.

use vstd::prelude::*;
use crate::models::SpecCommand;
use crate::models::SpecRemoveCommand;
use crate::models::CreateCommand;
use crate::models::RemoveCommand;
use crate::models::StoreError;
use crate::models::spec_contains_key;
use crate::store::CommandTable;
use crate::store::spec_upsert;
use crate::store::spec_remove_key;
use crate::store::spec_lookup;
use crate::store::lemma_upsert_lookup;
use crate::cache::CommandCache;
use crate::registry::UpdateServer;
use crate::registry::SpecSubscriber;
use crate::registry::spec_broadcast;
use crate::irc::ChannelMessage;
use crate::irc::IrcMessage;
use crate::irc::parse_line;
use crate::irc::spec_parse_channel_message;
use crate::irc::SpecChannelMessage;
use crate::irc::spec_privmsg;
use crate::irc::privmsg_line;
use crate::json::commands_json;
use crate::json::spec_commands_json;
use crate::text::find_char;
use crate::text::spec_find_char;
use crate::text::trim;
use crate::text::spec_trim;
use crate::text::str_eq;
use crate::models::keys_unique;

verus! {

/// Mathematical view of an administrator request.
pub struct SpecMetaCommand {
    pub channel: Seq<char>,
    pub user: Seq<char>,
    pub message: Seq<char>,
}

/// An administrator request lifted out of a channel message: who asked,
/// where, and the command text with the `#` prefix stripped and trimmed.
pub struct MetaCommand {
    pub channel: String,
    pub user: String,
    pub message: String,
}

impl View for MetaCommand {
    type V = SpecMetaCommand;

    open spec fn view(&self) -> SpecMetaCommand {
        SpecMetaCommand { channel: self.channel@, user: self.user@, message: self.message@ }
    }
}

/// The administrator request carried by a channel message, if its text
/// starts with the command prefix: the prefix is stripped and the rest
/// trimmed.  Anything else is not a command.
pub open spec fn spec_meta_command_of(m: SpecChannelMessage) -> Option<SpecMetaCommand> {
    if m.message.len() >= 1 && m.message[0] == '#' {
        Some(
            SpecMetaCommand {
                channel: m.channel,
                user: m.user,
                message: spec_trim(m.message.subrange(1, m.message.len() as int)),
            },
        )
    } else {
        None
    }
}

/// Lift the administrator request out of a channel message, if its text
/// starts with the command prefix.
pub fn meta_command_of(m: &ChannelMessage) -> (r: Option<MetaCommand>)
    ensures
        match r {
            Some(c) => spec_meta_command_of(m@) == Some(c@),
            None => spec_meta_command_of(m@) is None,
        },
{
    let text = m.message.as_str();
    let n: usize = text.unicode_len();
    if n >= 1 && text.get_char(0) == '#' {
        let stripped = trim(text.substring_char(1, n));
        Some(
            MetaCommand {
                channel: m.channel.clone(),
                user: m.user.clone(),
                message: stripped.to_owned(),
            },
        )
    } else {
        None
    }
}

/// Mathematical view of a parsed admin command.
pub enum SpecAdminCommand {
    SetRule { match_expression: Seq<char>, response_text: Seq<char> },
    RemoveRule { match_expression: Seq<char> },
    UsageError,
    NotACommand,
}

/// A parsed admin command: a rule to set, a rule to remove, a malformed
/// `set` that earns a usage reply, or no command at all.
pub enum AdminCommand {
    SetRule { match_expression: String, response_text: String },
    RemoveRule { match_expression: String },
    UsageError,
    NotACommand,
}

impl View for AdminCommand {
    type V = SpecAdminCommand;

    open spec fn view(&self) -> SpecAdminCommand {
        match self {
            AdminCommand::SetRule { match_expression, response_text } => SpecAdminCommand::SetRule {
                match_expression: match_expression@,
                response_text: response_text@,
            },
            AdminCommand::RemoveRule { match_expression } => SpecAdminCommand::RemoveRule {
                match_expression: match_expression@,
            },
            AdminCommand::UsageError => SpecAdminCommand::UsageError,
            AdminCommand::NotACommand => SpecAdminCommand::NotACommand,
        }
    }
}

/// What prefix-stripped command text means.  The verb ends at the first
/// space; text without a space is no command.  For `set`, the match
/// expression ends at the next space and the response text is the trimmed
/// remainder — a `set` without one is a usage error.  For `remove`, the
/// match expression is the first token of the remainder.  Other verbs are
/// ignored.
pub open spec fn spec_parse_admin(text: Seq<char>) -> SpecAdminCommand {
    match spec_find_char(text, ' ', 0) {
        None => SpecAdminCommand::NotACommand,
        Some(i) => {
            let verb = text.subrange(0, i);
            let rest = spec_trim(text.subrange(i, text.len() as int));
            if verb == "set"@ {
                match spec_find_char(rest, ' ', 0) {
                    None => SpecAdminCommand::UsageError,
                    Some(k) => SpecAdminCommand::SetRule {
                        match_expression: rest.subrange(0, k),
                        response_text: spec_trim(rest.subrange(k, rest.len() as int)),
                    },
                }
            } else if verb == "remove"@ {
                match spec_find_char(rest, ' ', 0) {
                    None => SpecAdminCommand::RemoveRule { match_expression: rest },
                    Some(k) => SpecAdminCommand::RemoveRule { match_expression: rest.subrange(0, k) },
                }
            } else {
                SpecAdminCommand::NotACommand
            }
        },
    }
}

/// Parse prefix-stripped command text.
pub fn parse_admin(text: &str) -> (r: AdminCommand)
    ensures
        r@ == spec_parse_admin(text@),
{
    let n: usize = text.unicode_len();
    match find_char(text, ' ', 0) {
        None => AdminCommand::NotACommand,
        Some(i) => {
            let verb = text.substring_char(0, i);
            let rest = trim(text.substring_char(i, n));
            let rn: usize = rest.unicode_len();
            if str_eq(verb, "set") {
                match find_char(rest, ' ', 0) {
                    None => AdminCommand::UsageError,
                    Some(k) => {
                        let match_expression = rest.substring_char(0, k).to_owned();
                        let response_text = trim(rest.substring_char(k, rn)).to_owned();
                        AdminCommand::SetRule { match_expression, response_text }
                    },
                }
            } else if str_eq(verb, "remove") {
                match find_char(rest, ' ', 0) {
                    None => AdminCommand::RemoveRule { match_expression: rest.to_owned() },
                    Some(k) => AdminCommand::RemoveRule {
                        match_expression: rest.substring_char(0, k).to_owned(),
                    },
                }
            } else {
                AdminCommand::NotACommand
            }
        },
    }
}

/// The reply confirming a stored rule.
pub open spec fn spec_set_confirm_reply(user: Seq<char>) -> Seq<char> {
    "@"@ + user + " Command has been set!"@
}

/// The reply confirming a removed rule.
pub open spec fn spec_remove_confirm_reply(user: Seq<char>) -> Seq<char> {
    "@"@ + user + " Command has been removed!"@
}

/// The usage reply for a `set` without response text.
pub open spec fn spec_set_usage_reply(user: Seq<char>) -> Seq<char> {
    "@"@ + user + " set command should be in the form: \"#set match_expression command\"!"@
}

/// The generic failure reply for a `set` whose store call failed.
pub open spec fn spec_set_failure_reply(user: Seq<char>) -> Seq<char> {
    "@"@ + user + " Command could not be set, ask the bot owner to check logs!"@
}

/// The reply for a `remove` that matched nothing.
pub open spec fn spec_remove_missing_reply(user: Seq<char>) -> Seq<char> {
    "@"@ + user + " Command could not be removed, does it exist?"@
}

/// The generic failure reply for a `remove` whose store call failed.
pub open spec fn spec_remove_failure_reply(user: Seq<char>) -> Seq<char> {
    "@"@ + user + " Command could not be removed, ask the bot owner to check logs!"@
}

/// A reply line addressed to the issuing user.
fn user_reply(user: &str, tail: &str) -> (r: String)
    ensures
        r@ == "@"@ + user@ + tail@,
{
    let mut out: String = String::from_str("@");
    out.append(user);
    out.append(tail);
    out
}

/// The usage reply for a `set` without response text.
pub fn set_usage_reply(user: &str) -> (r: String)
    ensures
        r@ == spec_set_usage_reply(user@),
{
    user_reply(user, " set command should be in the form: \"#set match_expression command\"!")
}

/// What the dispatcher decides to do with one administrator request,
/// before any store call is made.
pub enum DispatchPlan {
    /// Not a command, or an unknown verb: silently ignored.
    NoAction,
    /// Malformed command: reply without touching the store.
    Reply(String),
    /// Ask the store to insert-or-replace this rule.
    Upsert(CreateCommand),
    /// Ask the store to delete the rule with this key.
    Remove(RemoveCommand),
}

/// Mathematical view of a dispatch decision.
pub enum SpecDispatchPlan {
    NoAction,
    Reply(Seq<char>),
    Upsert(SpecCommand),
    Remove(SpecRemoveCommand),
}

impl View for DispatchPlan {
    type V = SpecDispatchPlan;

    open spec fn view(&self) -> SpecDispatchPlan {
        match self {
            DispatchPlan::NoAction => SpecDispatchPlan::NoAction,
            DispatchPlan::Reply(line) => SpecDispatchPlan::Reply(line@),
            DispatchPlan::Upsert(c) => SpecDispatchPlan::Upsert(c@),
            DispatchPlan::Remove(c) => SpecDispatchPlan::Remove(c@),
        }
    }
}

/// The dispatch decision for one administrator request: which store call
/// to make, or which reply to send without one.
pub open spec fn spec_plan(cmd: SpecMetaCommand) -> SpecDispatchPlan {
    match spec_parse_admin(cmd.message) {
        SpecAdminCommand::SetRule { match_expression, response_text } => SpecDispatchPlan::Upsert(
            SpecCommand { channel: cmd.channel, match_expression, response_text },
        ),
        SpecAdminCommand::RemoveRule { match_expression } => SpecDispatchPlan::Remove(
            SpecRemoveCommand { channel: cmd.channel, match_expression },
        ),
        SpecAdminCommand::UsageError => SpecDispatchPlan::Reply(spec_set_usage_reply(cmd.user)),
        SpecAdminCommand::NotACommand => SpecDispatchPlan::NoAction,
    }
}

/// Decide what to do with one administrator request.  A malformed `set`
/// yields a reply and no store request — zero store calls are made for it.
pub fn plan(cmd: &MetaCommand) -> (r: DispatchPlan)
    ensures
        r@ == spec_plan(cmd@),
{
    match parse_admin(cmd.message.as_str()) {
        AdminCommand::SetRule { match_expression, response_text } => DispatchPlan::Upsert(
            CreateCommand { channel: cmd.channel.clone(), match_expression, response_text },
        ),
        AdminCommand::RemoveRule { match_expression } => DispatchPlan::Remove(
            RemoveCommand { channel: cmd.channel.clone(), match_expression },
        ),
        AdminCommand::UsageError => DispatchPlan::Reply(set_usage_reply(cmd.user.as_str())),
        AdminCommand::NotACommand => DispatchPlan::NoAction,
    }
}

/// Conclude a `set` from its store outcome: whether to refresh and
/// broadcast, and the reply for the issuing user.  Only a successful call
/// that affected at least one row is confirmed and broadcast; a failed
/// call — or one that affected nothing, which a conforming replace never
/// reports — earns the generic failure reply and leaves cache and
/// broadcast untouched.
pub fn conclude_set(user: &str, outcome: &Result<usize, StoreError>) -> (r: (bool, String))
    ensures
        r.0 == (outcome matches Ok(n) && n > 0),
        match *outcome {
            Ok(n) => r.1@ == (if n > 0 {
                spec_set_confirm_reply(user@)
            } else {
                spec_set_failure_reply(user@)
            }),
            Err(_) => r.1@ == spec_set_failure_reply(user@),
        },
{
    match outcome {
        Ok(n) => {
            if *n > 0 {
                (true, user_reply(user, " Command has been set!"))
            } else {
                (false, user_reply(user, " Command could not be set, ask the bot owner to check logs!"))
            }
        },
        Err(_) => {
            (false, user_reply(user, " Command could not be set, ask the bot owner to check logs!"))
        },
    }
}

/// Conclude a `remove` from its store outcome: whether to refresh and
/// broadcast, and the reply for the issuing user.  A successful call that
/// deleted a row is confirmed and broadcast; one that matched nothing is
/// answered with "does it exist?" and changes nothing; a failed call earns
/// the generic failure reply.
pub fn conclude_remove(user: &str, outcome: &Result<usize, StoreError>) -> (r: (bool, String))
    ensures
        r.0 == (outcome matches Ok(n) && n > 0),
        match *outcome {
            Ok(n) => r.1@ == (if n > 0 {
                spec_remove_confirm_reply(user@)
            } else {
                spec_remove_missing_reply(user@)
            }),
            Err(_) => r.1@ == spec_remove_failure_reply(user@),
        },
{
    match outcome {
        Ok(n) => {
            if *n > 0 {
                (true, user_reply(user, " Command has been removed!"))
            } else {
                (false, user_reply(user, " Command could not be removed, does it exist?"))
            }
        },
        Err(_) => {
            (
                false,
                user_reply(user, " Command could not be removed, ask the bot owner to check logs!"),
            )
        },
    }
}

/// The dispatcher wired to its collaborators: the rule table it mutates,
/// the cache it refreshes, and the registry it broadcasts through.
pub struct CommandProcessor {
    pub db: CommandTable,
    pub commands: CommandCache,
    pub update_server: UpdateServer,
}

impl CommandProcessor {
    /// The collaborators' own invariants hold.
    pub open spec fn wf(&self) -> bool {
        &&& self.db.wf()
        &&& self.update_server.wf()
    }

    /// Wire a dispatcher to its collaborators.
    pub fn create(db: CommandTable, commands: CommandCache, update_server: UpdateServer) -> (r:
        Self)
        ensures
            r.db == db,
            r.commands == commands,
            r.update_server == update_server,
    {
        Self { db, commands, update_server }
    }

    /// Handle one administrator request, in the required order: the store
    /// call first; on a mutation, the wholesale cache refresh; then the
    /// broadcast of the refreshed snapshot; and the user-facing reply
    /// last.  Returns the protocol lines to send back to the channel.
    ///
    /// A request that mutates nothing — no command, a usage error, a
    /// `remove` that matched nothing — leaves table, cache and subscribers
    /// exactly as they were: no store call for the first two, no spurious
    /// refresh or broadcast for the last.
    pub fn handle(&mut self, msg: MetaCommand) -> (replies: Vec<String>)
        requires
            old(self).wf(),
            old(self).commands.spec_version() < u64::MAX,
        ensures
            final(self).wf(),
            match spec_plan(msg@) {
                SpecDispatchPlan::NoAction => *final(self) == *old(self) && replies@.len() == 0,
                SpecDispatchPlan::Reply(line) => *final(self) == *old(self) && replies@.len() == 1
                    && replies@[0]@ == spec_privmsg(msg@.channel, line),
                SpecDispatchPlan::Upsert(rule) => {
                    &&& final(self).db@ == spec_upsert(old(self).db@, rule)
                    &&& final(self).commands@ == final(self).db@
                    &&& final(self).commands.spec_version() == old(self).commands.spec_version()
                        + 1
                    &&& final(self).update_server@ == spec_broadcast(
                        old(self).update_server@,
                        spec_commands_json(final(self).db@),
                    )
                    &&& final(self).update_server.spec_next_id() == old(
                        self,
                    ).update_server.spec_next_id()
                    &&& spec_lookup(final(self).db@, rule.channel, rule.match_expression) == Some(
                        rule.response_text,
                    )
                    &&& replies@.len() == 1
                    &&& replies@[0]@ == spec_privmsg(
                        msg@.channel,
                        spec_set_confirm_reply(msg@.user),
                    )
                },
                SpecDispatchPlan::Remove(rc) => {
                    if spec_contains_key(old(self).db@, rc.channel, rc.match_expression) {
                        &&& final(self).db@ == spec_remove_key(
                            old(self).db@,
                            rc.channel,
                            rc.match_expression,
                        )
                        &&& !spec_contains_key(final(self).db@, rc.channel, rc.match_expression)
                        &&& final(self).commands@ == final(self).db@
                        &&& final(self).commands.spec_version() == old(
                            self,
                        ).commands.spec_version() + 1
                        &&& final(self).update_server@ == spec_broadcast(
                            old(self).update_server@,
                            spec_commands_json(final(self).db@),
                        )
                        &&& final(self).update_server.spec_next_id() == old(
                            self,
                        ).update_server.spec_next_id()
                        &&& replies@.len() == 1
                        &&& replies@[0]@ == spec_privmsg(
                            msg@.channel,
                            spec_remove_confirm_reply(msg@.user),
                        )
                    } else {
                        &&& final(self).db@ == old(self).db@
                        &&& final(self).commands == old(self).commands
                        &&& final(self).update_server == old(self).update_server
                        &&& replies@.len() == 1
                        &&& replies@[0]@ == spec_privmsg(
                            msg@.channel,
                            spec_remove_missing_reply(msg@.user),
                        )
                    }
                },
            },
    {
        let decision = plan(&msg);
        match decision {
            DispatchPlan::NoAction => Vec::new(),
            DispatchPlan::Reply(line) => {
                let mut replies: Vec<String> = Vec::new();
                replies.push(privmsg_line(msg.channel.as_str(), line.as_str()));
                replies
            },
            DispatchPlan::Upsert(create) => {
                let count = self.db.upsert(create);
                let outcome: Result<usize, StoreError> = Ok(count);
                let (do_broadcast, reply) = conclude_set(msg.user.as_str(), &outcome);
                if do_broadcast {
                    let rows = self.db.list_all();
                    self.commands.refresh(rows);
                    let payload = commands_json(self.commands.read());
                    self.update_server.send_update(payload.as_str());
                }
                let mut replies: Vec<String> = Vec::new();
                replies.push(privmsg_line(msg.channel.as_str(), reply.as_str()));
                replies
            },
            DispatchPlan::Remove(request) => {
                let count = self.db.remove(&request);
                let outcome: Result<usize, StoreError> = Ok(count);
                let (do_broadcast, reply) = conclude_remove(msg.user.as_str(), &outcome);
                if do_broadcast {
                    let rows = self.db.list_all();
                    self.commands.refresh(rows);
                    let payload = commands_json(self.commands.read());
                    self.update_server.send_update(payload.as_str());
                }
                let mut replies: Vec<String> = Vec::new();
                replies.push(privmsg_line(msg.channel.as_str(), reply.as_str()));
                replies
            },
        }
    }
}

/// Where one inbound line goes: to the dispatcher as an administrator
/// request, or to the broadcast registry as best-effort passthrough of the
/// raw line.
pub enum LineRoute {
    Dispatch(MetaCommand),
    Passthrough(String),
}

/// Route one inbound line.  A channel message whose text starts with the
/// command prefix becomes an administrator request for the dispatcher;
/// every other line — unrecognized or plain chatter — passes through
/// verbatim for the broadcast registry, independent of the command path.
pub fn route_line(line: &str) -> (r: LineRoute)
    ensures
        match r {
            LineRoute::Dispatch(c) => match spec_parse_channel_message(line@) {
                Some(m) => spec_meta_command_of(m) == Some(c@),
                None => false,
            },
            LineRoute::Passthrough(l) => l@ == line@ && match spec_parse_channel_message(line@) {
                Some(m) => spec_meta_command_of(m) is None,
                None => true,
            },
        },
{
    match parse_line(line) {
        IrcMessage::ChannelMessage(m) => match meta_command_of(&m) {
            Some(c) => LineRoute::Dispatch(c),
            None => LineRoute::Passthrough(line.to_owned()),
        },
        IrcMessage::Unknown(l) => LineRoute::Passthrough(l),
    }
}

/// Law: the broadcast that follows a successful mutation carries the
/// refreshed snapshot, never an older one.  After inserting `r`, the
/// payload every healthy subscriber receives is the serialization of a
/// table in which `r`'s key maps to `r`'s response text.
pub proof fn lemma_broadcast_reflects_mutation(
    subs: Seq<SpecSubscriber>,
    t: Seq<SpecCommand>,
    r: SpecCommand,
)
    requires
        keys_unique(t),
    ensures
        spec_lookup(spec_upsert(t, r), r.channel, r.match_expression) == Some(r.response_text),
        forall|i: int|
            0 <= i < subs.len() && subs[i].sink_healthy ==> (#[trigger] spec_broadcast(
                subs,
                spec_commands_json(spec_upsert(t, r)),
            )[i]).inbox.last() == spec_commands_json(spec_upsert(t, r)),
{
    lemma_upsert_lookup(t, r);
    let payload = spec_commands_json(spec_upsert(t, r));
    let b = spec_broadcast(subs, payload);
    assert forall|i: int| 0 <= i < subs.len() && subs[i].sink_healthy implies (#[trigger] b[i]).inbox.last()
        == payload by {
        assert(b[i].inbox == subs[i].inbox.push(payload));
    }
}

} // verus!
