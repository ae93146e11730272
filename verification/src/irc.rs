//! The text-protocol boundary: decoding inbound chat lines and formatting
//! outbound ones.
//!
//! A line of the shape `:<user>!<host-part> PRIVMSG #<channel> :<text>\r\n`,
//! where the host part holds a `@` and ends with the chat network's host
//! suffix, decodes to a [`ChannelMessage`]; every other line passes through
//! verbatim as [`IrcMessage::Unknown`].  Boundaries are first occurrences:
//! the user ends at the first `!`, the channel at the first ` :` after the
//! `PRIVMSG` marker.  Decoding is pure pattern matching with no protocol
//! state; the socket itself lives in the unverified shell.

use vstd::prelude::*;
use crate::text::spec_find_char;
use crate::text::spec_find_seq;
use crate::text::find_char;
use crate::text::find_seq;
use crate::text::match_at;

verus! {

/// A connection-level failure.  `ConnectionFailed` is fatal at bootstrap;
/// `ReadFailed` and `WriteFailed` end that connection's read or write loop.
#[derive(Debug)]
pub enum IrcError {
    ConnectionFailed(String),
    ReadFailed(String),
    WriteFailed(String),
}

/// A message from a specific channel.
pub struct ChannelMessage {
    pub user: String,
    pub channel: String,
    pub message: String,
}

/// Mathematical view of a decoded channel message.
pub struct SpecChannelMessage {
    pub user: Seq<char>,
    pub channel: Seq<char>,
    pub message: Seq<char>,
}

impl View for ChannelMessage {
    type V = SpecChannelMessage;

    open spec fn view(&self) -> SpecChannelMessage {
        SpecChannelMessage { user: self.user@, channel: self.channel@, message: self.message@ }
    }
}

/// An inbound line, decoded if it is a channel message and verbatim
/// otherwise.
pub enum IrcMessage {
    ChannelMessage(ChannelMessage),
    Unknown(String),
}

/// The literal between the host part and the channel name.
pub open spec fn spec_privmsg_marker() -> Seq<char> {
    " PRIVMSG #"@
}

/// The literal between the channel name and the message text.
pub open spec fn spec_colon_sep() -> Seq<char> {
    " :"@
}

/// The host suffix of the chat network.
pub open spec fn spec_host_suffix() -> Seq<char> {
    ".tmi.twitch.tv"@
}

/// The host part between `!` and the marker is well formed: it holds a `@`
/// and then ends with the network's host suffix.
pub open spec fn spec_host_ok(mid: Seq<char>) -> bool {
    &&& mid.len() >= spec_host_suffix().len() + 1
    &&& mid.subrange(mid.len() - spec_host_suffix().len(), mid.len() as int) == spec_host_suffix()
    &&& match spec_find_char(mid, '@', 0) {
        Some(k) => k < mid.len() - spec_host_suffix().len(),
        None => false,
    }
}

/// The decoding of one inbound line: `Some` with the extracted user,
/// channel and message when the line has the channel-message shape, `None`
/// otherwise.  The user ends at the first `!`, the channel at the first
/// ` :` after the marker, and the line must end with `\r\n`.
pub open spec fn spec_parse_channel_message(line: Seq<char>) -> Option<SpecChannelMessage> {
    let n = line.len() as int;
    if n < 2 || line[0] != ':' || line[n - 2] != '\r' || line[n - 1] != '\n' {
        None
    } else {
        match spec_find_char(line, '!', 1) {
            None => None,
            Some(i) => match spec_find_seq(line, spec_privmsg_marker(), i + 1) {
                None => None,
                Some(j) => if !spec_host_ok(line.subrange(i + 1, j)) {
                    None
                } else {
                    match spec_find_seq(line, spec_colon_sep(), j + spec_privmsg_marker().len()) {
                        None => None,
                        Some(m) => if m + 2 <= n - 2 {
                            Some(
                                SpecChannelMessage {
                                    user: line.subrange(1, i),
                                    channel: line.subrange(j + spec_privmsg_marker().len(), m),
                                    message: line.subrange(m + 2, n - 2),
                                },
                            )
                        } else {
                            None
                        },
                    }
                },
            },
        }
    }
}

/// Decode one inbound line: a channel message when it has the wire shape,
/// the verbatim line otherwise.
pub fn parse_line(line: &str) -> (r: IrcMessage)
    ensures
        match spec_parse_channel_message(line@) {
            Some(m) => r matches IrcMessage::ChannelMessage(c) && c@ == m,
            None => r matches IrcMessage::Unknown(l) && l@ == line@,
        },
{
    proof {
        reveal_strlit(" PRIVMSG #");
        reveal_strlit(" :");
        reveal_strlit(".tmi.twitch.tv");
    }
    let n: usize = line.unicode_len();
    if n < 2 || line.get_char(0) != ':' || line.get_char(n - 2) != '\r' || line.get_char(n - 1)
        != '\n' {
        return IrcMessage::Unknown(line.to_owned());
    }
    let excl = find_char(line, '!', 1);
    let i = match excl {
        Some(i) => i,
        None => {
            return IrcMessage::Unknown(line.to_owned());
        },
    };
    let marker = " PRIVMSG #";
    let marker_len: usize = marker.unicode_len();
    let jopt = find_seq(line, marker, i + 1);
    let j = match jopt {
        Some(j) => j,
        None => {
            return IrcMessage::Unknown(line.to_owned());
        },
    };
    let mid = line.substring_char(i + 1, j);
    if !host_ok(mid) {
        return IrcMessage::Unknown(line.to_owned());
    }
    assert(j + spec_privmsg_marker().len() <= n);
    let mopt = find_seq(line, " :", j + marker_len);
    let m = match mopt {
        Some(m) => m,
        None => {
            return IrcMessage::Unknown(line.to_owned());
        },
    };
    if n < 4 || m > n - 4 {
        assert(!(m + 2 <= n as int - 2));
        return IrcMessage::Unknown(line.to_owned());
    }
    assert(m + 2 <= n as int - 2);
    let user = line.substring_char(1, i).to_owned();
    let channel = line.substring_char(j + marker_len, m).to_owned();
    let message = line.substring_char(m + 2, n - 2).to_owned();
    IrcMessage::ChannelMessage(ChannelMessage { user, channel, message })
}

/// Request to write one raw line to the chat server.
pub struct SendLine(pub String);

/// Request to join the channel with this name.
pub struct JoinChannel(pub String);

/// Request to send a message to a channel.
pub struct SendChannelMessage {
    pub channel: String,
    pub message: String,
}

/// The line that sends `text` to `channel`.
pub open spec fn spec_privmsg(channel: Seq<char>, text: Seq<char>) -> Seq<char> {
    "PRIVMSG #"@ + channel + " :"@ + text
}

/// The line that sends `text` to `channel`.
pub fn privmsg_line(channel: &str, text: &str) -> (r: String)
    ensures
        r@ == spec_privmsg(channel@, text@),
{
    let mut out: String = String::from_str("PRIVMSG #");
    out.append(channel);
    out.append(" :");
    out.append(text);
    out
}

/// The line that joins the channel with this name.
pub fn join_line(channel_name: &str) -> (r: String)
    ensures
        r@ == "JOIN #"@ + channel_name@,
{
    let mut out: String = String::from_str("JOIN #");
    out.append(channel_name);
    out
}

/// The authentication line carrying the connection token.
pub fn pass_line(token: &str) -> (r: String)
    ensures
        r@ == "PASS "@ + token@,
{
    let mut out: String = String::from_str("PASS ");
    out.append(token);
    out
}

/// The authentication line carrying the nickname.
pub fn nick_line(nickname: &str) -> (r: String)
    ensures
        r@ == "NICK "@ + nickname@,
{
    let mut out: String = String::from_str("NICK ");
    out.append(nickname);
    out
}

/// Builds a client for the chat connection: the address to dial and the
/// optional credentials to present, password first, then nickname, before
/// any channel join.  The shell dials the address and writes the lines
/// that `login_lines` computes.
pub struct IrcClientBuilder<'a> {
    pub url: &'a str,
    pub nickname: Option<&'a str>,
    pub password: Option<&'a str>,
}

impl<'a> IrcClientBuilder<'a> {
    /// A builder for the server at `url`, with no credentials yet.
    pub fn create(url: &'a str) -> (r: Self)
        ensures
            r.url == url,
            r.nickname is None,
            r.password is None,
    {
        Self { url, nickname: None, password: None }
    }

    /// Present this nickname to the server once connected.
    pub fn nick(self, nickname: &'a str) -> (r: Self)
        ensures
            r.url == self.url,
            r.nickname == Some(nickname),
            r.password == self.password,
    {
        Self { nickname: Some(nickname), ..self }
    }

    /// Present this password to the server once connected.
    pub fn pass(self, password: &'a str) -> (r: Self)
        ensures
            r.url == self.url,
            r.nickname == self.nickname,
            r.password == Some(password),
    {
        Self { password: Some(password), ..self }
    }

    /// The authentication lines to write right after connecting, in order:
    /// the password line, if any, then the nickname line, if any.
    pub fn login_lines(&self) -> (r: Vec<String>)
        ensures
            r@.len() == (if self.password is Some {
                1int
            } else {
                0int
            }) + (if self.nickname is Some {
                1int
            } else {
                0int
            }),
            self.password matches Some(p) ==> r@[0]@ == "PASS "@ + p@,
            self.nickname matches Some(nk) ==> r@[r@.len() - 1]@ == "NICK "@ + nk@,
    {
        let mut out: Vec<String> = Vec::new();
        if let Some(p) = self.password {
            out.push(pass_line(p));
        }
        if let Some(nk) = self.nickname {
            out.push(nick_line(nk));
        }
        out
    }
}

/// The host part between `!` and the marker is well formed.
fn host_ok(mid: &str) -> (r: bool)
    ensures
        r == spec_host_ok(mid@),
{
    proof {
        reveal_strlit(".tmi.twitch.tv");
    }
    let n: usize = mid.unicode_len();
    let suffix = ".tmi.twitch.tv";
    let suffix_len: usize = suffix.unicode_len();
    if n < suffix_len + 1 {
        return false;
    }
    if !match_at(mid, suffix, n - suffix_len) {
        assert(!spec_host_ok(mid@)) by {
            if spec_host_ok(mid@) {
                assert(crate::text::spec_match_at(mid@, suffix@, n as int - suffix@.len()));
            }
        }
        return false;
    }
    assert(mid@.subrange(n as int - suffix@.len(), n as int) == suffix@);
    match find_char(mid, '@', 0) {
        Some(k) => k < n - suffix_len,
        None => false,
    }
}

} // verus!
